use vstd::prelude::*;

use crate::priority_queue::{ins_pos, PriorityQueue};

verus! {

/// The largest cost that a single step may have.
pub const MAX_STEP_COST: u64 = 16777216;

/// The priority from which a state's weighted cost (its cost times its
/// heuristic) is taken away: the lower that product, the sooner the state is
/// explored.
pub const PRIORITY_BASE: u64 = 0xffff_ffff_ffff_ffff;

/// A finite search space: its states are the integers below `num_states`.
///
/// Every method is a pure function of the space and its arguments.
pub trait SearchSpace {
    /// The space is consistent; every method asks for it.
    spec fn wf(&self) -> bool;

    spec fn spec_num_states(&self) -> nat;

    spec fn spec_is_goal(&self, s: usize) -> bool;

    /// The cost of the step from `a` to `b`; `None` when the step is impassable.
    spec fn spec_cost(&self, a: usize, b: usize) -> Option<u64>;

    spec fn spec_heuristic(&self, s: usize) -> u64;

    spec fn spec_neighbors(&self, s: usize) -> Seq<usize>;

    fn num_states(&self) -> (r: usize)
        requires
            self.wf(),
        ensures
            r == self.spec_num_states(),
    ;

    fn is_goal(&self, s: usize) -> (r: bool)
        requires
            self.wf(),
            s < self.spec_num_states(),
        ensures
            r == self.spec_is_goal(s),
    ;

    fn cost(&self, a: usize, b: usize) -> (r: Option<u64>)
        requires
            self.wf(),
            a < self.spec_num_states(),
            b < self.spec_num_states(),
        ensures
            r == self.spec_cost(a, b),
            r matches Some(c) ==> c <= MAX_STEP_COST,
    ;

    fn heuristic(&self, s: usize) -> (r: u64)
        requires
            self.wf(),
            s < self.spec_num_states(),
        ensures
            r == self.spec_heuristic(s),
    ;

    fn neighbors(&self, s: usize) -> (r: Vec<usize>)
        requires
            self.wf(),
            s < self.spec_num_states(),
        ensures
            r@ == self.spec_neighbors(s),
            forall|i: int| 0 <= i < r@.len() ==> r@[i] < self.spec_num_states(),
    ;
}

/// The cost that the search charges for the step from `a` to `b`: nothing
/// for a step onto a goal, else the space's cost.
pub open spec fn step_cost<S: SearchSpace>(space: S, a: usize, b: usize) -> nat {
    if space.spec_is_goal(b) {
        0
    } else {
        match space.spec_cost(a, b) {
            Some(c) => c as nat,
            None => 0,
        }
    }
}

/// `b` is a neighbour of `a` that the search may step onto.
pub open spec fn valid_step<S: SearchSpace>(space: S, a: usize, b: usize) -> bool {
    &&& space.spec_neighbors(a).contains(b)
    &&& (space.spec_is_goal(b) || space.spec_cost(a, b) is Some)
}

/// A path listed from its last state back to its first: each state follows
/// the next one in the list by a valid step.
pub open spec fn valid_reverse_path<S: SearchSpace>(space: S, p: Seq<usize>) -> bool {
    forall|i: int| 0 <= i < p.len() - 1 ==> valid_step(space, #[trigger] p[i + 1], p[i])
}

/// The summed step costs of a path listed from its last state back.
pub open spec fn reverse_path_cost<S: SearchSpace>(space: S, p: Seq<usize>) -> nat
    decreases p.len(),
{
    if p.len() < 2 {
        0
    } else {
        reverse_path_cost(space, p.drop_last()) + step_cost(space, p.last(), p[p.len() - 2])
    }
}

/// The state of a search: the open entries (state, priority) ordered by
/// priority, the best known cost of each state, the state each was reached
/// from, and the round in which each link was written.
pub type SearchState = (Seq<(usize, u64)>, Seq<Option<u64>>, Seq<Option<usize>>, Seq<nat>);

/// The priority of a state reached at `cost` with heuristic `h`: higher is
/// explored first, the lowest when `cost * h` does not fit.
pub open spec fn priority_of(cost: u64, h: u64) -> u64 {
    if cost * h <= u64::MAX {
        (PRIORITY_BASE - cost * h) as u64
    } else {
        0
    }
}

/// Considers the step from `current` (reached at `cur_cost`) to `next`, in
/// round `depth`: when it is passable and reaches `next` cheaper than known,
/// `next` gets the new cost and link and is queued.
pub open spec fn relax(
    is_goal: spec_fn(usize) -> bool,
    cost: spec_fn(usize, usize) -> Option<u64>,
    heuristic: spec_fn(usize) -> u64,
    st: SearchState,
    current: usize,
    cur_cost: u64,
    next: usize,
    depth: nat,
) -> SearchState {
    let step: Option<u64> = if is_goal(next) {
        Some(0u64)
    } else {
        cost(current, next)
    };
    match step {
        None => st,
        Some(c) => {
            let new_cost = (cur_cost + c) as u64;
            let better = match st.1[next as int] {
                None => true,
                Some(known) => new_cost < known,
            };
            if better {
                let p = priority_of(new_cost, heuristic(next));
                (
                    st.0.insert(ins_pos(st.0, p), (next, p)),
                    st.1.update(next as int, Some(new_cost)),
                    st.2.update(next as int, Some(current)),
                    st.3.update(next as int, depth),
                )
            } else {
                st
            }
        },
    }
}

/// `relax` over the first `k` neighbours, in order.
pub open spec fn relax_all(
    is_goal: spec_fn(usize) -> bool,
    cost: spec_fn(usize, usize) -> Option<u64>,
    heuristic: spec_fn(usize) -> u64,
    st: SearchState,
    current: usize,
    cur_cost: u64,
    nbrs: Seq<usize>,
    k: int,
    depth: nat,
) -> SearchState
    decreases k,
{
    if k <= 0 {
        st
    } else {
        relax(
            is_goal,
            cost,
            heuristic,
            relax_all(is_goal, cost, heuristic, st, current, cur_cost, nbrs, k - 1, depth),
            current,
            cur_cost,
            nbrs[k - 1],
            depth,
        )
    }
}

/// The rounds of the search from round `depth` on: the state it stops in,
/// and the goal it popped, if any.
pub open spec fn run(
    is_goal: spec_fn(usize) -> bool,
    cost: spec_fn(usize, usize) -> Option<u64>,
    heuristic: spec_fn(usize) -> u64,
    neighbors: spec_fn(usize) -> Seq<usize>,
    st: SearchState,
    depth: nat,
    max_depth: nat,
) -> (SearchState, Option<usize>)
    decreases max_depth - depth,
{
    if st.0.len() == 0 || depth + 1 >= max_depth {
        (st, None)
    } else {
        let current = st.0.last().0;
        let popped = (st.0.drop_last(), st.1, st.2, st.3);
        if is_goal(current) {
            (popped, Some(current))
        } else {
            match st.1[current as int] {
                None => (popped, None),
                Some(cc) => {
                    let nb = neighbors(current);
                    run(
                        is_goal,
                        cost,
                        heuristic,
                        neighbors,
                        relax_all(is_goal, cost, heuristic, popped, current, cc, nb, nb.len() as int, depth + 1),
                        depth + 1,
                        max_depth,
                    )
                },
            }
        }
    }
}

/// The path from `cur` back along the links, `cur` first; it follows a link
/// only while (cost, round) strictly decreases, which every link of a search
/// does.
pub open spec fn walk(costs: Seq<Option<u64>>, from: Seq<Option<usize>>, stamp: Seq<nat>, cur: usize) -> Seq<usize>
    decreases (costs[cur as int]->0) as int, stamp[cur as int],
{
    match from[cur as int] {
        Some(p) => {
            if (costs[p as int]->0) < (costs[cur as int]->0) || ((costs[p as int]->0) == (costs[cur as int]->0)
                && stamp[p as int] < stamp[cur as int]) {
                seq![cur] + walk(costs, from, stamp, p)
            } else {
                seq![cur]
            }
        },
        None => seq![cur],
    }
}

/// The state a search from `start` over `n` states begins in.
pub open spec fn initial_state(n: nat, start: usize) -> SearchState {
    (
        seq![(start, 0u64)],
        Seq::new(n, |i: int| if i == start { Some(0u64) } else { None }),
        Seq::new(n, |i: int| None::<usize>),
        Seq::new(n, |i: int| 0nat),
    )
}

/// What the search returns: (success, path from the goal back to the start,
/// cost of the goal).
pub open spec fn astar_model(
    n: nat,
    is_goal: spec_fn(usize) -> bool,
    cost: spec_fn(usize, usize) -> Option<u64>,
    heuristic: spec_fn(usize) -> u64,
    neighbors: spec_fn(usize) -> Seq<usize>,
    start: usize,
    max_depth: nat,
) -> (bool, Seq<usize>, u64) {
    if is_goal(start) {
        (true, Seq::empty(), 0)
    } else {
        let (st, g) = run(is_goal, cost, heuristic, neighbors, initial_state(n, start), 0, max_depth);
        match g {
            None => (false, Seq::empty(), 0),
            Some(goal) => match st.1[goal as int] {
                None => (false, Seq::empty(), 0),
                Some(c) => (true, walk(st.1, st.2, st.3, goal), c),
            },
        }
    }
}

pub open spec fn goal_fn<S: SearchSpace>(space: S) -> spec_fn(usize) -> bool {
    |s: usize| space.spec_is_goal(s)
}

pub open spec fn cost_fn<S: SearchSpace>(space: S) -> spec_fn(usize, usize) -> Option<u64> {
    |a: usize, b: usize| space.spec_cost(a, b)
}

pub open spec fn heuristic_fn<S: SearchSpace>(space: S) -> spec_fn(usize) -> u64 {
    |s: usize| space.spec_heuristic(s)
}

pub open spec fn neighbors_fn<S: SearchSpace>(space: S) -> spec_fn(usize) -> Seq<usize> {
    |s: usize| space.spec_neighbors(s)
}

/// The result of the search over `space`.
pub open spec fn astar_spec<S: SearchSpace>(space: S, start: usize, max_depth: nat) -> (bool, Seq<usize>, u64) {
    astar_model(
        space.spec_num_states(),
        goal_fn(space),
        cost_fn(space),
        heuristic_fn(space),
        neighbors_fn(space),
        start,
        max_depth,
    )
}

pub struct AStarSettings<S> {
    pub start: usize,
    pub space: S,
    pub max_depth: u32,
}

pub struct AStarResult {
    pub is_success: bool,
    /// The path from the goal back to the start, both included.
    pub path: Vec<usize>,
    pub cost: u64,
}

/// What the search keeps while it runs: the best known cost of each state,
/// the state each was reached from, and (as ghost) the round in which that
/// link was last written.
pub open spec fn search_state_ok<S: SearchSpace>(
    space: S,
    start: usize,
    costs: Seq<Option<u64>>,
    from: Seq<Option<usize>>,
    stamp: Seq<nat>,
    depth: nat,
) -> bool {
    let n = space.spec_num_states();
    &&& costs.len() == n
    &&& from.len() == n
    &&& stamp.len() == n
    &&& start < n
    &&& costs[start as int] == Some(0u64)
    &&& from[start as int] is None
    &&& forall|s: int| 0 <= s < n ==> #[trigger] stamp[s] <= depth
    &&& forall|s: int| 0 <= s < n && costs[s] is Some ==> costs[s]->0 <= depth * MAX_STEP_COST
    &&& forall|s: int| 0 <= s < n && costs[s] is Some && s != start ==> #[trigger] from[s] is Some
    &&& forall|s: int| 0 <= s < n && #[trigger] from[s] is Some ==> link_ok(space, costs, stamp, from[s]->0, s as usize)
}

/// The link from `p` to `s` is a valid step, `s` costs at least `p` plus the
/// step, and the pair (cost, round) strictly decreases from `s` to `p`.
pub open spec fn link_ok<S: SearchSpace>(
    space: S,
    costs: Seq<Option<u64>>,
    stamp: Seq<nat>,
    p: usize,
    s: usize,
) -> bool {
    &&& p < space.spec_num_states()
    &&& costs[s as int] is Some
    &&& costs[p as int] is Some
    &&& valid_step(space, p, s)
    &&& costs[s as int]->0 >= costs[p as int]->0 + step_cost(space, p, s)
    &&& (costs[s as int]->0 > costs[p as int]->0 || stamp[s as int] > stamp[p as int])
}

proof fn lemma_walk_head(costs: Seq<Option<u64>>, from: Seq<Option<usize>>, stamp: Seq<nat>, x: usize)
    ensures
        walk(costs, from, stamp, x).len() >= 1,
        walk(costs, from, stamp, x)[0] == x,
{
}

proof fn lemma_state_ok_mono<S: SearchSpace>(
    space: S,
    start: usize,
    costs: Seq<Option<u64>>,
    from: Seq<Option<usize>>,
    stamp: Seq<nat>,
    d1: nat,
    d2: nat,
)
    requires
        search_state_ok(space, start, costs, from, stamp, d1),
        d1 <= d2,
    ensures
        search_state_ok(space, start, costs, from, stamp, d2),
{
    assert(d1 * MAX_STEP_COST <= d2 * MAX_STEP_COST) by (nonlinear_arith)
        requires
            d1 <= d2,
    ;
}

/// Best-first search from `settings.start` to a goal of `settings.space`.
///
/// Each round pops the open state of the highest priority, where a state
/// reached at cost `g` with heuristic `h` has priority `PRIORITY_BASE - g * h`
/// (the lowest when `g * h` does not fit). A search that has started
/// `max_depth` rounds gives up. When the start is already a goal the search
/// succeeds at once, with an empty path and no cost.
pub fn astar<S: SearchSpace>(settings: AStarSettings<S>) -> (r: AStarResult)
    requires
        settings.space.wf(),
        settings.start < settings.space.spec_num_states(),
    ensures
        settings.space.spec_is_goal(settings.start) ==> r.is_success && r.path@.len() == 0 && r.cost == 0,
        !r.is_success ==> r.path@.len() == 0 && r.cost == 0,
        r.is_success && !settings.space.spec_is_goal(settings.start) ==> {
            &&& r.path@.len() >= 2
            &&& settings.space.spec_is_goal(r.path@[0])
            &&& r.path@.last() == settings.start
            &&& valid_reverse_path(settings.space, r.path@)
            &&& r.cost >= reverse_path_cost(settings.space, r.path@)
        },
        forall|i: int| 0 <= i < r.path@.len() ==> r.path@[i] < settings.space.spec_num_states(),
        settings.max_depth <= 1 && !settings.space.spec_is_goal(settings.start) ==> !r.is_success,
        (r.is_success, r.path@, r.cost) == astar_spec(settings.space, settings.start, settings.max_depth as nat),
{
    let space = &settings.space;
    let start = settings.start;
    let max_depth = settings.max_depth;
    let n = space.num_states();

    if space.is_goal(start) {
        return AStarResult { is_success: true, path: Vec::new(), cost: 0 };
    }

    let mut costs: Vec<Option<u64>> = Vec::new();
    let mut from: Vec<Option<usize>> = Vec::new();
    let mut k: usize = 0;
    while k < n
        invariant
            k <= n,
            costs@ == Seq::new(k as nat, |i: int| None::<u64>),
            from@ == Seq::new(k as nat, |i: int| None::<usize>),
        decreases n - k,
    {
        costs.push(None);
        from.push(None);
        k += 1;
    }
    let ghost mut stamp: Seq<nat> = Seq::new(n as nat, |i: int| 0nat);

    let mut open: PriorityQueue<usize> = PriorityQueue::new();
    open.put(start, 0);
    costs.set(start, Some(0));

    let mut depth: u32 = 0;
    let mut goal: Option<usize> = None;
    let ghost gf = goal_fn(*space);
    let ghost cf = cost_fn(*space);
    let ghost hf = heuristic_fn(*space);
    let ghost nf = neighbors_fn(*space);
    let ghost target = run(gf, cf, hf, nf, initial_state(n as nat, start), 0, max_depth as nat);
    assert(costs@ =~= initial_state(n as nat, start).1);
    assert(open.entries() =~= initial_state(n as nat, start).0);

    while !open.is_empty()
        invariant_except_break
            depth == 0 || depth < max_depth,
            forall|e: (usize, u64)| #[trigger] open.entries().contains(e) ==> e.0 < n && costs@[e.0 as int] is Some,
            goal is None,
            run(gf, cf, hf, nf, (open.entries(), costs@, from@, stamp), depth as nat, max_depth as nat) == target,
        invariant
            gf == goal_fn(*space),
            cf == cost_fn(*space),
            hf == heuristic_fn(*space),
            nf == neighbors_fn(*space),
            space.wf(),
            n == space.spec_num_states(),
            start < n,
            !space.spec_is_goal(start),
            open.wf(),
            search_state_ok(*space, start, costs@, from@, stamp, depth as nat),
            goal matches Some(g) ==> g < n && space.spec_is_goal(g) && max_depth >= 2,
        ensures
            ((open.entries(), costs@, from@, stamp), goal) == target,
        decreases max_depth - depth,
    {
        let ghost prev_depth = depth;
        let ghost cur_st = (open.entries(), costs@, from@, stamp);
        depth += 1;
        proof {
            lemma_state_ok_mono(*space, start, costs@, from@, stamp, prev_depth as nat, depth as nat);
        }
        if depth >= max_depth {
            break;
        }
        proof {
            assert(open.entries().contains(open.entries().last()));
        }
        let ghost queued = open.entries();
        let current = match open.pop() {
            Some(c) => c,
            None => {
                break;
            },
        };
        proof {
            assert forall|e: (usize, u64)| #[trigger] open.entries().contains(e) implies queued.contains(e) by {
                let j = choose|j: int| 0 <= j < open.entries().len() && open.entries()[j] == e;
                assert(queued[j] == e);
            }
        }
        if space.is_goal(current) {
            goal = Some(current);
            break;
        }
        let cur_cost = match costs[current] {
            Some(c) => c,
            None => {
                break;
            },
        };
        proof {
            assert(cur_cost <= prev_depth * MAX_STEP_COST);
            assert(stamp[current as int] <= prev_depth);
        }
        let neighbors = space.neighbors(current);
        let ghost popped = (open.entries(), costs@, from@, stamp);
        let mut i: usize = 0;
        while i < neighbors.len()
            invariant
                gf == goal_fn(*space),
                cf == cost_fn(*space),
                hf == heuristic_fn(*space),
                (open.entries(), costs@, from@, stamp) == relax_all(gf, cf, hf, popped, current, cur_cost, neighbors@, i as int, depth as nat),
                i <= neighbors@.len(),
                space.wf(),
            n == space.spec_num_states(),
                start < n,
                current < n,
                !space.spec_is_goal(start),
                !space.spec_is_goal(current),
                neighbors@ == space.spec_neighbors(current),
                forall|j: int| 0 <= j < neighbors@.len() ==> neighbors@[j] < n,
                open.wf(),
                0 < depth < max_depth,
                costs@[current as int] == Some(cur_cost),
                cur_cost <= (depth - 1) * MAX_STEP_COST,
                search_state_ok(*space, start, costs@, from@, stamp, depth as nat),
                forall|s: int| 0 <= s < n ==> #[trigger] stamp[s] <= depth,
                stamp[current as int] < depth,
                forall|e: (usize, u64)| #[trigger] open.entries().contains(e) ==> e.0 < n && costs@[e.0 as int] is Some,
            decreases neighbors.len() - i,
        {
            let next = neighbors[i];
            let ghost st_i = (open.entries(), costs@, from@, stamp);
            let step = if space.is_goal(next) {
                Some(0u64)
            } else {
                space.cost(current, next)
            };
            if let Some(c) = step {
                proof {
                    assert(cur_cost <= (depth - 1) * MAX_STEP_COST);
                    assert((depth - 1) * MAX_STEP_COST + MAX_STEP_COST == depth * MAX_STEP_COST) by (nonlinear_arith);
                    assert(depth * MAX_STEP_COST <= 0xffff_ffffu64 * MAX_STEP_COST) by (nonlinear_arith)
                        requires
                            depth <= 0xffff_ffffu64,
                    ;
                }
                let new_cost: u64 = cur_cost + c;
                let better = match costs[next] {
                    None => true,
                    Some(old_cost) => new_cost < old_cost,
                };
                if better {
                    proof {
                        assert(neighbors@.contains(next)) by {
                            assert(neighbors@[i as int] == next);
                        }
                    }
                    let ghost old_costs = costs@;
                    let ghost old_from = from@;
                    let ghost old_stamp = stamp;
                    costs.set(next, Some(new_cost));
                    from.set(next, Some(current));
                    proof {
                        stamp = stamp.update(next as int, depth as nat);
                        assert(next != current);
                        assert(next != start);
                        assert forall|s: int| 0 <= s < n && #[trigger] from@[s] is Some implies link_ok(*space, costs@, stamp, from@[s]->0, s as usize) by {
                            assert(link_ok(*space, old_costs, old_stamp, old_from[s]->0, s as usize) || s == next);
                        }
                    }
                    let h = space.heuristic(next);
                    let priority: u64 = match new_cost.checked_mul(h) {
                        Some(w) => PRIORITY_BASE - w,
                        None => 0,
                    };
                    open.put(next, priority);
                }
            }
            proof {
                assert(neighbors@[i as int] == next);
                assert((open.entries(), costs@, from@, stamp) == relax(gf, cf, hf, st_i, current, cur_cost, next, depth as nat));
            }
            i += 1;
        }
        proof {
            assert(nf(current) == neighbors@);
            assert(popped == (cur_st.0.drop_last(), cur_st.1, cur_st.2, cur_st.3));
            assert(cur_st.1[current as int] == Some(cur_cost));
            assert(cur_st.0.len() > 0);
            assert(cur_st.0.last().0 == current);
            assert(!gf(current));
            assert(prev_depth + 1 < max_depth);
            assert((open.entries(), costs@, from@, stamp) == relax_all(gf, cf, hf, popped, current, cur_cost, nf(current), nf(current).len() as int, depth as nat));
            assert(run(gf, cf, hf, nf, cur_st, prev_depth as nat, max_depth as nat) == run(gf, cf, hf, nf, (open.entries(), costs@, from@, stamp), depth as nat, max_depth as nat));
        }
    }

    let g = match goal {
        Some(g) => g,
        None => {
            return AStarResult { is_success: false, path: Vec::new(), cost: 0 };
        },
    };

    let goal_cost = match costs[g] {
        Some(c) => c,
        None => {
            return AStarResult { is_success: false, path: Vec::new(), cost: 0 };
        },
    };
    let mut path: Vec<usize> = Vec::new();
    path.push(g);
    let mut cur = g;
    let mut cur_cost = goal_cost;
    proof {
        lemma_walk_head(costs@, from@, stamp, g);
        assert(seq![g] + walk(costs@, from@, stamp, g).drop_first() =~= walk(costs@, from@, stamp, g));
    }
    loop
        invariant
            space.wf(),
            n == space.spec_num_states(),
            search_state_ok(*space, start, costs@, from@, stamp, depth as nat),
            cur < n,
            costs@[cur as int] == Some(cur_cost),
            path@.len() >= 1,
            path@[0] == g,
            space.spec_is_goal(g),
            path@.last() == cur,
            valid_reverse_path(*space, path@),
            goal_cost >= cur_cost + reverse_path_cost(*space, path@),
            forall|i: int| 0 <= i < path@.len() ==> path@[i] < n,
            path@ + walk(costs@, from@, stamp, cur).drop_first() == walk(costs@, from@, stamp, g),
        ensures
            from@[cur as int] is None,
        decreases cur_cost, stamp[cur as int],
    {
        match from[cur] {
            Some(p) => {
                proof {
                    assert(link_ok(*space, costs@, stamp, p, cur));
                }
                let p_cost = match costs[p] {
                    Some(c) => c,
                    None => {
                        break;
                    },
                };
                let ghost before = path@;
                path.push(p);
                proof {
                    lemma_walk_head(costs@, from@, stamp, p);
                    assert(walk(costs@, from@, stamp, cur) == seq![cur] + walk(costs@, from@, stamp, p));
                    assert(walk(costs@, from@, stamp, cur).drop_first() =~= walk(costs@, from@, stamp, p));
                    assert(path@ + walk(costs@, from@, stamp, p).drop_first() =~= before + walk(costs@, from@, stamp, p));
                    assert(path@.drop_last() == before);
                    assert forall|i: int| 0 <= i < path@.len() - 1 implies valid_step(*space, #[trigger] path@[i + 1], path@[i]) by {
                        if i < before.len() - 1 {
                            assert(valid_step(*space, before[i + 1], before[i]));
                        }
                    }
                }
                cur = p;
                cur_cost = p_cost;
            },
            None => {
                break;
            },
        }
    }
    proof {
        assert(cur == start);
        assert(g != start);
        assert(walk(costs@, from@, stamp, cur) == seq![cur]);
        assert(path@ =~= walk(costs@, from@, stamp, g));
    }
    AStarResult { is_success: true, path, cost: goal_cost }
}

} // verus!
