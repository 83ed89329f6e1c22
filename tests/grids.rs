use zoneworld::{max_3, min_3, min_max, min_max_3, Grid, Grid3d, PriorityQueue};

#[test]
fn grid_set_then_get_returns_value() {
    let mut g = Grid::init(4, 3, 0u32);
    for x in 0..4 {
        for y in 0..3 {
            g.set(x, y, (x * 10 + y) as u32);
        }
    }
    for x in 0..4 {
        for y in 0..3 {
            assert_eq!(g.get(x, y), Some(&((x * 10 + y) as u32)));
        }
    }
}

#[test]
fn grid_get_outside_is_none() {
    let g = Grid::init(4, 3, 1u8);
    assert_eq!(g.get(4, 0), None);
    assert_eq!(g.get(0, 3), None);
    assert_eq!(g.get(10, 10), None);
}

#[test]
fn grid_is_column_major() {
    let g = Grid::init(4, 3, 0u8);
    assert_eq!(g.idx(2, 1), 7);
    assert_eq!(g.xy(7), (2, 1));
    assert_eq!(g.width(), 4);
    assert_eq!(g.height(), 3);
    let h = Grid::init_fill(3, 2, |x, y| x * 100 + y);
    let cells: Vec<usize> = h.iter().copied().collect();
    assert_eq!(cells, vec![0, 1, 100, 101, 200, 201]);
}

#[test]
fn grid_from_vec_fill_clear() {
    let mut g = Grid::init_from_vec(2, 2, vec![1, 2, 3, 4]);
    assert_eq!(g.get(1, 0), Some(&3));
    g.fill(|x, y| x + 2 * y);
    assert_eq!(g.get(1, 1), Some(&3));
    assert_eq!(g.get(0, 1), Some(&2));
    g.clear(9);
    assert!(g.iter().all(|v| *v == 9));
    if let Some(v) = g.get_mut(0, 1) {
        *v = 5;
    }
    assert_eq!(g.get(0, 1), Some(&5));
    assert!(g.get_mut(2, 0).is_none());
    let d = g.duplicate();
    assert_eq!(d.iter().copied().collect::<Vec<_>>(), vec![9, 5, 9, 9]);
}

#[test]
fn grid_edges() {
    let g = Grid::init(5, 4, 0u8);
    assert!(g.is_on_edge(0, 2));
    assert!(g.is_on_edge(4, 2));
    assert!(g.is_on_edge(2, 3));
    assert!(!g.is_on_edge(2, 2));
    assert!(!g.is_oob(2, 2));
    assert!(!g.is_oob(0, 0));
    assert!(g.is_oob(5, 2));
    assert!(g.is_oob(0, 4));
}

#[test]
fn grid3d_index_round_trip() {
    let g = Grid3d::init(2, 3, 4, 0u8);
    assert_eq!(g.idx(1, 2, 3), 23);
    assert_eq!(g.xyz(23), (1, 2, 3));
    for i in 0..24 {
        let (x, y, z) = g.xyz(i);
        assert_eq!(g.idx(x, y, z), i);
    }
    assert_eq!(g.get(1, 2, 3), Some(&0));
    assert_eq!(g.get(2, 0, 0), None);
    assert!(g.is_oob(0, 3, 0));
    assert!(!g.is_oob(1, 2, 3));
    assert!(g.is_on_edge(0, 1, 1));
    assert_eq!((g.width(), g.height(), g.depth()), (2, 3, 4));
}

#[test]
fn grid3d_set_fill_clear() {
    let mut g = Grid3d::init(2, 2, 2, 0u32);
    g.set(1, 0, 1, 7);
    assert_eq!(g.get(1, 0, 1), Some(&7));
    g.fill(|x, y, z| (x * 4 + y * 2 + z) as u32);
    assert_eq!(g.get(1, 1, 0), Some(&6));
    g.clear(3);
    assert_eq!(g.get(1, 1, 1), Some(&3));
    if let Some(v) = g.get_mut(0, 0, 0) {
        *v = 1;
    }
    assert_eq!(g.get(0, 0, 0), Some(&1));
    let empty: Grid3d<u8> = Grid3d::new(2, 2, 2);
    assert_eq!(empty.get(0, 0, 0), None);
}

#[test]
fn priority_queue_pops_highest_first() {
    let mut q = PriorityQueue::new();
    assert!(q.is_empty());
    assert_eq!(q.pop(), None);
    q.put('a', 1);
    q.put('b', 5);
    q.put('c', 3);
    assert_eq!(q.len(), 3);
    assert_eq!(q.peek(), Some(&'b'));
    assert_eq!(q.pop(), Some('b'));
    assert_eq!(q.pop(), Some('c'));
    assert_eq!(q.pop(), Some('a'));
    assert!(q.is_empty());
}

#[test]
fn math_helpers() {
    assert_eq!(min_3(3, 1, 2), 1);
    assert_eq!(max_3(3, 1, 2), 3);
    assert_eq!(min_3(-4, -4, 0), -4);
    assert_eq!(min_max(5, 2), [2, 5]);
    assert_eq!(min_max(2, 5), [2, 5]);
    assert_eq!(min_max_3(3, 1, 2), [1, 2, 3]);
    assert_eq!(min_max_3(1, 3, 2), [1, 2, 3]);
    assert_eq!(min_max_3(2, 2, 1), [1, 2, 2]);
}

#[test]
fn empty_grids_hold_nothing() {
    let g = Grid::init(0, 3, 1u8);
    assert_eq!(g.get(0, 0), None);
    assert_eq!(g.iter().count(), 0);
    let h: Grid<u8> = Grid::init_fill(2, 0, |_, _| 1);
    assert_eq!(h.get(0, 0), None);
    assert!(h.is_on_edge(0, 0));
}
