use zoneworld::{astar, AStarSettings, GridSpace, SearchSpace};

fn open5(blocked: Vec<bool>, goal: usize) -> GridSpace {
    GridSpace { width: 5, height: 5, blocked, goal }
}

fn touching(a: usize, b: usize) -> bool {
    let dx = (a / 5) as i64 - (b / 5) as i64;
    let dy = (a % 5) as i64 - (b % 5) as i64;
    a != b && dx.abs() <= 1 && dy.abs() <= 1
}

#[test]
fn astar_crosses_open_grid() {
    let space = open5(vec![false; 25], 24);
    let r = astar(AStarSettings { start: 0, space, max_depth: 1000 });
    assert!(r.is_success);
    assert!(!r.path.is_empty());
    assert_eq!(r.path[0], 24);
    assert_eq!(*r.path.last().unwrap(), 0);
    for w in r.path.windows(2) {
        assert!(touching(w[0], w[1]));
    }
}

#[test]
fn astar_routes_around_blocked_row() {
    // Row y = 2 is blocked but for its last tile, (4, 2).
    let mut blocked = vec![false; 25];
    for x in 0..4 {
        blocked[x * 5 + 2] = true;
    }
    let space = open5(blocked.clone(), 4);
    let r = astar(AStarSettings { start: 0, space, max_depth: 1000 });
    assert!(r.is_success);
    assert_eq!(r.path[0], 4);
    assert_eq!(*r.path.last().unwrap(), 0);
    assert!(r.path.contains(&(4 * 5 + 2)));
    for s in &r.path {
        assert!(!blocked[*s]);
    }
    for w in r.path.windows(2) {
        assert!(touching(w[0], w[1]));
    }
}

#[test]
fn astar_fails_across_fully_blocked_row() {
    let mut blocked = vec![false; 25];
    for x in 0..5 {
        blocked[x * 5 + 2] = true;
    }
    let space = open5(blocked, 4);
    let r = astar(AStarSettings { start: 0, space, max_depth: 1000 });
    assert!(!r.is_success);
    assert!(r.path.is_empty());
}

#[test]
fn astar_gives_up_at_depth_one() {
    let space = open5(vec![false; 25], 24);
    let r = astar(AStarSettings { start: 0, space, max_depth: 1 });
    assert!(!r.is_success);
    assert!(r.path.is_empty());
    assert_eq!(r.cost, 0);
}

#[test]
fn astar_start_on_goal_has_empty_path() {
    let space = open5(vec![false; 25], 12);
    let r = astar(AStarSettings { start: 12, space, max_depth: 10 });
    assert!(r.is_success);
    assert!(r.path.is_empty());
    assert_eq!(r.cost, 0);
}

#[test]
fn astar_cost_counts_steps() {
    let space = open5(vec![false; 25], 4);
    let r = astar(AStarSettings { start: 0, space, max_depth: 1000 });
    assert!(r.is_success);
    // Four steps of cost 1, the last onto the goal free.
    assert!(r.cost >= (r.path.len() as u64 - 2));
}

#[test]
fn grid_space_answers() {
    let mut blocked = vec![false; 25];
    blocked[7] = true;
    let g = open5(blocked, 24);
    assert_eq!(g.num_states(), 25);
    assert!(g.is_goal(24));
    assert_eq!(g.cost(0, 7), None);
    assert_eq!(g.cost(0, 6), Some(1));
    assert_eq!(g.heuristic(0), 4);
    assert_eq!(g.neighbors(0), vec![5, 6, 1]);
    assert_eq!(g.neighbors(12).len(), 8);
}
