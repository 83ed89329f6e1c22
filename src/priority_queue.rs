use vstd::prelude::*;

verus! {

/// Costs never decrease from one entry to the next.
pub open spec fn sorted_by_cost<T>(s: Seq<(T, u64)>) -> bool {
    forall|i: int, j: int| 0 <= i <= j < s.len() ==> s[i].1 <= s[j].1
}

/// Where an entry of cost `c` goes in a list ordered by cost: after every
/// entry of cost at most `c`.
pub open spec fn ins_pos<T>(s: Seq<(T, u64)>, c: u64) -> int
    decreases s.len(),
{
    if s.len() == 0 {
        0
    } else if s.last().1 > c {
        ins_pos(s.drop_last(), c)
    } else {
        s.len() as int
    }
}

/// A max-priority queue: `pop` hands out an item of the highest cost.
///
/// The entries are kept ordered by cost, the highest last.
pub struct PriorityQueue<T> {
    entries: Vec<(T, u64)>,
}

impl<T> PriorityQueue<T> {
    /// The entries, as `(item, cost)` pairs ordered by cost.
    pub closed spec fn entries(&self) -> Seq<(T, u64)> {
        self.entries@
    }

    pub open spec fn wf(&self) -> bool {
        sorted_by_cost(self.entries())
    }

    pub fn new() -> (r: Self)
        ensures
            r.wf(),
            r.entries().len() == 0,
    {
        PriorityQueue { entries: Vec::new() }
    }

    pub fn len(&self) -> (r: usize)
        ensures
            r == self.entries().len(),
    {
        self.entries.len()
    }

    pub fn is_empty(&self) -> (r: bool)
        ensures
            r == (self.entries().len() == 0),
    {
        self.entries.len() == 0
    }

    /// Adds `item` with the given cost.
    pub fn put(&mut self, item: T, cost: u64)
        requires
            old(self).wf(),
        ensures
            final(self).wf(),
            final(self).entries().to_multiset() == old(self).entries().to_multiset().insert((item, cost)),
            final(self).entries().len() == old(self).entries().len() + 1,
            final(self).entries() == old(self).entries().insert(ins_pos(old(self).entries(), cost), (item, cost)),
            forall|e: (T, u64)|
                #[trigger] final(self).entries().contains(e) <==> (old(self).entries().contains(e) || e == (item, cost)),
    {
        let mut i = self.entries.len();
        assert(self.entries@.subrange(0, i as int) == self.entries@);
        while i > 0 && self.entries[i - 1].1 > cost
            invariant
                i <= self.entries@.len(),
                self.entries@ == old(self).entries(),
                forall|j: int| i <= j < self.entries@.len() ==> self.entries@[j].1 > cost,
            ins_pos(self.entries@, cost) == ins_pos(self.entries@.subrange(0, i as int), cost),
            decreases i,
        {
            assert(self.entries@.subrange(0, i as int).drop_last() == self.entries@.subrange(0, i - 1));
            i -= 1;
        }
        let ghost before = self.entries@;
        assert(ins_pos(before, cost) == i) by {
            assert(before.subrange(0, 0 as int).len() == 0);
        }
        self.entries.insert(i, (item, cost));
        proof {
            lemma_insert_sorted(before, i as int, (item, cost));
        }
    }

    /// Removes and returns an item of the highest cost, or `None` when empty.
    pub fn pop(&mut self) -> (r: Option<T>)
        requires
            old(self).wf(),
        ensures
            final(self).wf(),
            old(self).entries().len() == 0 ==> r is None && final(self).entries() == old(self).entries(),
            old(self).entries().len() > 0 ==> {
                &&& r == Some(old(self).entries().last().0)
                &&& final(self).entries() == old(self).entries().drop_last()
                &&& forall|i: int| 0 <= i < old(self).entries().len() ==> old(self).entries()[i].1 <= old(self).entries().last().1
            },
    {
        match self.entries.pop() {
            Some(e) => Some(e.0),
            None => None,
        }
    }

    /// An item of the highest cost, left in the queue, or `None` when empty.
    pub fn peek(&self) -> (r: Option<&T>)
        requires
            self.wf(),
        ensures
            self.entries().len() == 0 ==> r is None,
            self.entries().len() > 0 ==> r == Some(&self.entries().last().0),
    {
        let n = self.entries.len();
        if n == 0 {
            None
        } else {
            Some(&self.entries[n - 1].0)
        }
    }
}

/// Inserting an entry at the place `ins_pos` gives keeps the list ordered,
/// adds the entry to its contents and nothing else.
proof fn lemma_insert_sorted<T>(before: Seq<(T, u64)>, i: int, e: (T, u64))
    requires
        sorted_by_cost(before),
        0 <= i <= before.len(),
        forall|j: int| i <= j < before.len() ==> before[j].1 > e.1,
        i > 0 ==> before[i - 1].1 <= e.1,
    ensures
        sorted_by_cost(before.insert(i, e)),
        before.insert(i, e).to_multiset() == before.to_multiset().insert(e),
        forall|x: (T, u64)| #[trigger] before.insert(i, e).contains(x) <==> (before.contains(x) || x == e),
{
    let after = before.insert(i, e);
    assert(after == before.subrange(0, i).push(e) + before.subrange(i, before.len() as int));
    assert(before == before.subrange(0, i) + before.subrange(i, before.len() as int));
    vstd::seq_lib::lemma_multiset_commutative(before.subrange(0, i).push(e), before.subrange(i, before.len() as int));
    vstd::seq_lib::lemma_multiset_commutative(before.subrange(0, i), before.subrange(i, before.len() as int));
    assert(before.subrange(0, i).push(e).to_multiset() == before.subrange(0, i).to_multiset().insert(e)) by {
        before.subrange(0, i).to_multiset_ensures();
    }
    assert forall|x: (T, u64)| #[trigger] after.contains(x) <==> (before.contains(x) || x == e) by {
        if after.contains(x) {
            let k = choose|k: int| 0 <= k < after.len() && after[k] == x;
            if k < i {
                assert(before[k] == x);
            } else if k > i {
                assert(before[k - 1] == x);
            }
        }
        if before.contains(x) {
            let k = choose|k: int| 0 <= k < before.len() && before[k] == x;
            if k < i {
                assert(after[k] == x);
            } else {
                assert(after[k + 1] == x);
            }
        }
        if x == e {
            assert(after[i] == x);
        }
    }
    assert forall|a: int, b: int| 0 <= a <= b < after.len() implies after[a].1 <= after[b].1 by {
        if a < i && b > i {
            assert(before[a].1 <= before[b - 1].1);
        } else if a < i && b == i {
            assert(before[a].1 <= before[i - 1].1);
        } else if a > i {
            assert(before[a - 1].1 <= before[b - 1].1);
        }
    }
}

} // verus!
