use vstd::prelude::*;

use crate::projection::{
    lemma_zone_idx_xyz, spec_zone_idx, spec_zone_xyz, world_to_zone_idx, zone_count, zone_idx, zone_in_map, zone_xyz,
    MAP_DEPTH, MAP_HEIGHT, MAP_WIDTH, ZONE_HEIGHT, ZONE_WIDTH,
};
use crate::zone::ZoneStatus;

verus! {

/// Zone `b` must be resident while zone `a` is active: it is `a`, touches
/// `a` on the same level (sides or corners), or lies just above or below it.
pub open spec fn needed_by(a: int, b: int) -> bool {
    let p = spec_zone_xyz(a);
    let q = spec_zone_xyz(b);
    &&& 0 <= b < zone_count()
    &&& {
        ||| (-1 <= q.0 - p.0 <= 1 && -1 <= q.1 - p.1 <= 1 && q.2 == p.2)
        ||| (q.0 == p.0 && q.1 == p.1 && (q.2 - p.2 == 1 || p.2 - q.2 == 1))
    }
}

/// The zones that must be resident for the given active roster.
pub open spec fn is_needed(active: Seq<usize>, b: int) -> bool {
    exists|k: int| 0 <= k < active.len() && needed_by(active[k] as int, b)
}

pub open spec fn strictly_ascending(s: Seq<usize>) -> bool {
    forall|i: int, j: int| 0 <= i < j < s.len() ==> s[i] < s[j]
}

pub open spec fn all_zones(s: Seq<usize>) -> bool {
    forall|k: int| 0 <= k < s.len() ==> #[trigger] s[k] < zone_count()
}

/// Inserts `x` into an ascending list without repeats, unless it is there.
fn insert_sorted(v: &mut Vec<usize>, x: usize)
    requires
        strictly_ascending(old(v)@),
    ensures
        strictly_ascending(final(v)@),
        forall|y: usize| #[trigger] final(v)@.contains(y) <==> (old(v)@.contains(y) || y == x),
{
    let mut i: usize = 0;
    while i < v.len() && v[i] < x
        invariant
            i <= v@.len(),
            v@ == old(v)@,
            strictly_ascending(v@),
            forall|j: int| 0 <= j < i ==> v@[j] < x,
        decreases v@.len() - i,
    {
        i += 1;
    }
    if i < v.len() && v[i] == x {
        return;
    }
    let ghost before = v@;
    v.insert(i, x);
    proof {
        assert forall|a: int, b: int| 0 <= a < b < v@.len() implies v@[a] < v@[b] by {
            if b < i {
            } else if b == i {
            } else if a < i {
                assert(v@[b] == before[b - 1]);
                assert(before[i as int] > x);
                if b - 1 > i {
                    assert(before[i as int] < before[b - 1]);
                }
            } else if a == i {
                assert(v@[b] == before[b - 1]);
                if b - 1 > i {
                    assert(before[i as int] < before[b - 1]);
                }
            } else {
                assert(v@[a] == before[a - 1]);
                assert(v@[b] == before[b - 1]);
            }
        }
        assert forall|y: usize| #[trigger] v@.contains(y) <==> (before.contains(y) || y == x) by {
            if v@.contains(y) {
                let k = choose|k: int| 0 <= k < v@.len() && v@[k] == y;
                if k < i {
                    assert(before[k] == y);
                } else if k > i {
                    assert(before[k - 1] == y);
                }
            }
            if before.contains(y) {
                let k = choose|k: int| 0 <= k < before.len() && before[k] == y;
                if k < i {
                    assert(v@[k] == y);
                } else {
                    assert(v@[k + 1] == y);
                }
            }
            if y == x {
                assert(v@[i as int] == x);
            }
        }
    }
}

/// Adds the zone at `(x + dx, y + dy, z + dz)` to `needed`.
fn add_neighbor(needed: &mut Vec<usize>, a: usize, x: usize, y: usize, z: usize, dx: i8, dy: i8, dz: i8)
    requires
        strictly_ascending(old(needed)@),
        a < zone_count(),
        (x as int, y as int, z as int) == spec_zone_xyz(a as int),
        -1 <= dx <= 1,
        -1 <= dy <= 1,
        -1 <= dz <= 1,
        zone_in_map(x + dx, y + dy, z + dz),
        dz == 0 || (dx == 0 && dy == 0),
    ensures
        strictly_ascending(final(needed)@),
        forall|w: usize| #[trigger] final(needed)@.contains(w) <==> (old(needed)@.contains(w) || w == spec_zone_idx(x + dx, y + dy, z + dz)),
        needed_by(a as int, spec_zone_idx(x + dx, y + dy, z + dz)),
{
    proof {
        lemma_zone_idx_xyz(x + dx, y + dy, z + dz, 0);
    }
    let nx = (x as i64 + dx as i64) as usize;
    let ny = (y as i64 + dy as i64) as usize;
    let nz = (z as i64 + dz as i64) as usize;
    insert_sorted(needed, zone_idx(nx, ny, nz));
}

/// The zones that must be resident for the active roster, ascending and
/// without repeats: each active zone, the zones around it on its level,
/// and the zones just above and below it, inside the map.
pub fn needed_zones(active: &Vec<usize>) -> (r: Vec<usize>)
    requires
        all_zones(active@),
    ensures
        strictly_ascending(r@),
        forall|b: usize| #[trigger] r@.contains(b) <==> is_needed(active@, b as int),
{
    let mut needed: Vec<usize> = Vec::new();
    let mut k: usize = 0;
    while k < active.len()
        invariant
            k <= active@.len(),
            all_zones(active@),
            strictly_ascending(needed@),
            forall|b: usize| #[trigger] needed@.contains(b) <==> exists|j: int| 0 <= j < k && needed_by(active@[j] as int, b as int),
        decreases active@.len() - k,
    {
        let a = active[k];
        let (x, y, z) = zone_xyz(a);
        proof {
            lemma_zone_idx_xyz(0, 0, 0, a as int);
            assert(a < zone_count());
        }
        let ghost before = needed@;
        let ghost mut added: Set<int> = Set::empty();
        let mut dx: i8 = -1;
        while dx <= 1
            invariant
                -1 <= dx <= 2,
                a < zone_count(),
                (x as int, y as int, z as int) == spec_zone_xyz(a as int),
                zone_in_map(x as int, y as int, z as int),
                strictly_ascending(needed@),
                forall|w: usize| #[trigger] needed@.contains(w) <==> (before.contains(w) || added.contains(w as int)),
                forall|w: int| #[trigger] added.contains(w) ==> needed_by(a as int, w),
                forall|ex: int, ey: int| -1 <= ex < dx && -1 <= ey <= 1 && zone_in_map(x + ex, y + ey, z as int)
                    ==> #[trigger] added.contains(spec_zone_idx(x + ex, y + ey, z as int)),
            decreases 2 - dx,
        {
            let mut dy: i8 = -1;
            while dy <= 1
                invariant
                    -1 <= dx <= 1,
                    -1 <= dy <= 2,
                    a < zone_count(),
                    (x as int, y as int, z as int) == spec_zone_xyz(a as int),
                    zone_in_map(x as int, y as int, z as int),
                    strictly_ascending(needed@),
                    forall|w: usize| #[trigger] needed@.contains(w) <==> (before.contains(w) || added.contains(w as int)),
                    forall|w: int| #[trigger] added.contains(w) ==> needed_by(a as int, w),
                    forall|ex: int, ey: int|
                        ((-1 <= ex < dx && -1 <= ey <= 1) || (ex == dx && -1 <= ey < dy)) && zone_in_map(x + ex, y + ey, z as int)
                            ==> #[trigger] added.contains(spec_zone_idx(x + ex, y + ey, z as int)),
                decreases 2 - dy,
            {
                let inside_x = (dx < 0 && x > 0) || dx == 0 || (dx > 0 && x < MAP_WIDTH - 1);
                let inside_y = (dy < 0 && y > 0) || dy == 0 || (dy > 0 && y < MAP_HEIGHT - 1);
                if inside_x && inside_y {
                    add_neighbor(&mut needed, a, x, y, z, dx, dy, 0);
                    proof {
                        added = added.insert(spec_zone_idx(x + dx, y + dy, z as int));
                    }
                }
                dy += 1;
            }
            dx += 1;
        }
        if z > 0 {
            add_neighbor(&mut needed, a, x, y, z, 0, 0, -1);
            proof {
                added = added.insert(spec_zone_idx(x as int, y as int, z - 1));
            }
        }
        if z < MAP_DEPTH - 1 {
            add_neighbor(&mut needed, a, x, y, z, 0, 0, 1);
            proof {
                added = added.insert(spec_zone_idx(x as int, y as int, z + 1));
            }
        }
        proof {
            assert forall|b: usize| #[trigger] needed@.contains(b) <==> exists|j: int| 0 <= j < k + 1 && needed_by(active@[j] as int, b as int) by {
                if needed_by(a as int, b as int) {
                    let q = spec_zone_xyz(b as int);
                    lemma_zone_idx_xyz(0, 0, 0, b as int);
                    if -1 <= q.0 - x <= 1 && -1 <= q.1 - y <= 1 && q.2 == z {
                        assert(added.contains(spec_zone_idx(x + (q.0 - x), y + (q.1 - y), z as int)));
                    } else {
                        assert(q.0 == x && q.1 == y);
                    }
                    assert(added.contains(b as int));
                }
                if exists|j: int| 0 <= j < k + 1 && needed_by(active@[j] as int, b as int) {
                    let j = choose|j: int| 0 <= j < k + 1 && needed_by(active@[j] as int, b as int);
                    if j == k {
                        assert(needed_by(a as int, b as int));
                    }
                }
            }
        }
        k += 1;
    }
    needed
}

/// The zone `i` is resident.
pub open spec fn is_resident(resident: Seq<(usize, ZoneStatus)>, i: int) -> bool {
    exists|k: int| 0 <= k < resident.len() && resident[k].0 == i
}

/// The zone `i` is resident with the given status.
pub open spec fn resident_as(resident: Seq<(usize, ZoneStatus)>, i: int, s: ZoneStatus) -> bool {
    exists|k: int| 0 <= k < resident.len() && resident[k].0 == i && resident[k].1 == s
}

/// No zone is listed twice.
pub open spec fn distinct_zones(resident: Seq<(usize, ZoneStatus)>) -> bool {
    forall|j: int, k: int| 0 <= j < resident.len() && 0 <= k < resident.len() && resident[j].0 == resident[k].0 ==> j == k
}

pub open spec fn no_repeats(s: Seq<usize>) -> bool {
    forall|j: int, k: int| 0 <= j < s.len() && 0 <= k < s.len() && s[j] == s[k] ==> j == k
}

/// What one tick of streaming must do: zones to load, zones to unload, and
/// zones whose status must change.
pub struct ZoneUpdates {
    pub load: Vec<usize>,
    pub unload: Vec<usize>,
    pub to_active: Vec<usize>,
    pub to_dormant: Vec<usize>,
}

/// The status of zone `i` in the resident table, if it is resident.
fn find_status(resident: &Vec<(usize, ZoneStatus)>, i: usize) -> (r: Option<ZoneStatus>)
    requires
        distinct_zones(resident@),
    ensures
        r is None <==> !is_resident(resident@, i as int),
        r matches Some(s) ==> resident_as(resident@, i as int, s),
        r matches Some(s) ==> forall|t: ZoneStatus| resident_as(resident@, i as int, t) ==> t == s,
{
    let mut k: usize = 0;
    while k < resident.len()
        invariant
            k <= resident@.len(),
            distinct_zones(resident@),
            forall|j: int| 0 <= j < k ==> resident@[j].0 != i,
        decreases resident@.len() - k,
    {
        if resident[k].0 == i {
            let s = resident[k].1;
            proof {
                assert(resident@[k as int].0 == i && resident@[k as int].1 == s);
                assert forall|t: ZoneStatus| resident_as(resident@, i as int, t) implies t == s by {
                    let k2 = choose|k2: int| 0 <= k2 < resident@.len() && resident@[k2].0 == i && resident@[k2].1 == t;
                    assert(resident@[k2].0 == resident@[k as int].0);
                }
            }
            return Some(s);
        }
        k += 1;
    }
    None
}

fn contains_zone(v: &Vec<usize>, i: usize) -> (r: bool)
    ensures
        r == v@.contains(i),
{
    let mut k: usize = 0;
    while k < v.len()
        invariant
            k <= v@.len(),
            forall|j: int| 0 <= j < k ==> v@[j] != i,
        decreases v@.len() - k,
    {
        if v[k] == i {
            proof {
                assert(v@[k as int] == i);
            }
            return true;
        }
        k += 1;
    }
    false
}

/// Diffs the zones that the active roster needs against the resident ones.
///
/// A needed zone that is not resident is loaded; a resident zone that is
/// not needed is unloaded. A needed zone in the roster becomes active unless
/// it already is; a needed, active zone outside the roster becomes dormant.
pub fn plan_zone_updates(active: &Vec<usize>, resident: &Vec<(usize, ZoneStatus)>) -> (r: ZoneUpdates)
    requires
        all_zones(active@),
        distinct_zones(resident@),
    ensures
        forall|i: usize| #[trigger] r.load@.contains(i) <==> is_needed(active@, i as int) && !is_resident(resident@, i as int),
        forall|i: usize| #[trigger] r.unload@.contains(i) <==> is_resident(resident@, i as int) && !is_needed(active@, i as int),
        forall|i: usize| #[trigger] r.to_active@.contains(i) <==> {
            &&& is_needed(active@, i as int)
            &&& active@.contains(i)
            &&& !resident_as(resident@, i as int, ZoneStatus::Active)
        },
        forall|i: usize| #[trigger] r.to_dormant@.contains(i) <==> {
            &&& is_needed(active@, i as int)
            &&& !active@.contains(i)
            &&& resident_as(resident@, i as int, ZoneStatus::Active)
        },
        no_repeats(r.load@),
        strictly_ascending(r.load@),
        no_repeats(r.unload@),
        no_repeats(r.to_active@),
        no_repeats(r.to_dormant@),
        // What is loaded, with what is resident and needed, is exactly
        // what is needed; what is unloaded is exactly what is resident and
        // not needed; and no zone is both loaded and unloaded, or unloaded
        // and given a status, or given both statuses.
        forall|i: usize|
            (#[trigger] r.load@.contains(i) || (is_resident(resident@, i as int) && is_needed(active@, i as int)))
                <==> is_needed(active@, i as int),
        forall|i: usize|
            !(#[trigger] r.load@.contains(i) && r.unload@.contains(i)) && !(r.unload@.contains(i) && (
            r.to_active@.contains(i) || r.to_dormant@.contains(i))) && !(r.to_active@.contains(i)
                && r.to_dormant@.contains(i)) && !(r.load@.contains(i) && r.to_dormant@.contains(i)),
{
    let needed = needed_zones(active);
    let mut load: Vec<usize> = Vec::new();
    let mut to_active: Vec<usize> = Vec::new();
    let mut to_dormant: Vec<usize> = Vec::new();
    let mut k: usize = 0;
    while k < needed.len()
        invariant
            k <= needed@.len(),
            all_zones(active@),
            distinct_zones(resident@),
            strictly_ascending(needed@),
            forall|b: usize| #[trigger] needed@.contains(b) <==> is_needed(active@, b as int),
            forall|i: usize| #[trigger] load@.contains(i) <==> exists|j: int| 0 <= j < k && needed@[j] == i && !is_resident(resident@, i as int),
            forall|i: usize| #[trigger] to_active@.contains(i) <==> exists|j: int| 0 <= j < k && needed@[j] == i && active@.contains(i) && !resident_as(resident@, i as int, ZoneStatus::Active),
            forall|i: usize| #[trigger] to_dormant@.contains(i) <==> exists|j: int| 0 <= j < k && needed@[j] == i && !active@.contains(i) && resident_as(resident@, i as int, ZoneStatus::Active),
            forall|j: int| 0 <= j < load@.len() && k < needed@.len() ==> #[trigger] load@[j] < needed@[k as int],
            forall|j: int| 0 <= j < to_active@.len() && k < needed@.len() ==> #[trigger] to_active@[j] < needed@[k as int],
            forall|j: int| 0 <= j < to_dormant@.len() && k < needed@.len() ==> #[trigger] to_dormant@[j] < needed@[k as int],
            no_repeats(load@),
            strictly_ascending(load@),
            no_repeats(to_active@),
            no_repeats(to_dormant@),
        decreases needed@.len() - k,
    {
        let idx = needed[k];
        let is_active = contains_zone(active, idx);
        let status = find_status(resident, idx);
        proof {
            assert forall|j: int| 0 <= j < k implies needed@[j] != idx by {}
        }
        let ghost l0 = load@;
        let ghost a0 = to_active@;
        let ghost d0 = to_dormant@;
        match status {
            Some(ZoneStatus::Active) => {
                if !is_active {
                    to_dormant.push(idx);
                }
            },
            Some(ZoneStatus::Dormant) => {
                if is_active {
                    to_active.push(idx);
                }
            },
            None => {
                load.push(idx);
                if is_active {
                    to_active.push(idx);
                }
            },
        }
        proof {
            lemma_push_list(l0, load@, idx);
            lemma_push_list(a0, to_active@, idx);
            lemma_push_list(d0, to_dormant@, idx);
            if k + 1 < needed@.len() {
                assert(needed@[k as int] < needed@[k + 1]);
            }
            if status == Some(ZoneStatus::Dormant) {
                assert(!resident_as(resident@, idx as int, ZoneStatus::Active));
            }
            if status is None {
                if resident_as(resident@, idx as int, ZoneStatus::Active) {
                    let m = choose|m: int| 0 <= m < resident@.len() && resident@[m].0 == idx && resident@[m].1 == ZoneStatus::Active;
                    assert(is_resident(resident@, idx as int));
                }
            }
            assert(needed@[k as int] == idx);
            assert forall|i: usize| #[trigger] load@.contains(i) <==> exists|j: int| 0 <= j < k + 1 && needed@[j] == i && !is_resident(resident@, i as int) by {
                if exists|j: int| 0 <= j < k + 1 && needed@[j] == i && !is_resident(resident@, i as int) {
                    let j = choose|j: int| 0 <= j < k + 1 && needed@[j] == i && !is_resident(resident@, i as int);
                    if j < k {
                        assert(l0.contains(i));
                    }
                }
            }
            assert forall|i: usize| #[trigger] to_active@.contains(i) <==> exists|j: int| 0 <= j < k + 1 && needed@[j] == i && active@.contains(i) && !resident_as(resident@, i as int, ZoneStatus::Active) by {
                let p = exists|j: int| 0 <= j < k && needed@[j] == i && active@.contains(i) && !resident_as(resident@, i as int, ZoneStatus::Active);
                assert(a0.contains(i) <==> p);
                if to_active@.contains(i) {
                    if a0.contains(i) {
                        let j = choose|j: int| 0 <= j < k && needed@[j] == i && active@.contains(i) && !resident_as(resident@, i as int, ZoneStatus::Active);
                        assert(0 <= j < k + 1 && needed@[j] == i);
                    } else {
                        assert(i == idx);
                        assert(needed@[k as int] == i);
                    }
                }
                if exists|j: int| 0 <= j < k + 1 && needed@[j] == i && active@.contains(i) && !resident_as(resident@, i as int, ZoneStatus::Active) {
                    let j = choose|j: int| 0 <= j < k + 1 && needed@[j] == i && active@.contains(i) && !resident_as(resident@, i as int, ZoneStatus::Active);
                    if j < k {
                        assert(a0.contains(i));
                    } else {
                        assert(i == idx);
                        assert(is_active);
                        assert(status != Some(ZoneStatus::Active));
                    }
                }
            }
            assert forall|i: usize| #[trigger] to_dormant@.contains(i) <==> exists|j: int| 0 <= j < k + 1 && needed@[j] == i && !active@.contains(i) && resident_as(resident@, i as int, ZoneStatus::Active) by {
                if exists|j: int| 0 <= j < k + 1 && needed@[j] == i && !active@.contains(i) && resident_as(resident@, i as int, ZoneStatus::Active) {
                    let j = choose|j: int| 0 <= j < k + 1 && needed@[j] == i && !active@.contains(i) && resident_as(resident@, i as int, ZoneStatus::Active);
                    if j < k {
                        assert(d0.contains(i));
                    }
                }
            }
        }
        k += 1;
    }
    proof {
        assert forall|i: usize| #[trigger] load@.contains(i) <==> is_needed(active@, i as int) && !is_resident(resident@, i as int) by {
            if is_needed(active@, i as int) && !is_resident(resident@, i as int) {
                assert(needed@.contains(i));
                let j = choose|j: int| 0 <= j < needed@.len() && needed@[j] == i;
                assert(load@.contains(i));
            }
            if load@.contains(i) {
                let j = choose|j: int| 0 <= j < needed@.len() && needed@[j] == i && !is_resident(resident@, i as int);
                assert(needed@.contains(i));
            }
        }
        assert forall|i: usize| #[trigger] to_active@.contains(i) <==> is_needed(active@, i as int) && active@.contains(i) && !resident_as(resident@, i as int, ZoneStatus::Active) by {
            if is_needed(active@, i as int) && active@.contains(i) && !resident_as(resident@, i as int, ZoneStatus::Active) {
                assert(needed@.contains(i));
                let j = choose|j: int| 0 <= j < needed@.len() && needed@[j] == i;
                assert(to_active@.contains(i));
            }
            if to_active@.contains(i) {
                let j = choose|j: int| 0 <= j < needed@.len() && needed@[j] == i && active@.contains(i) && !resident_as(resident@, i as int, ZoneStatus::Active);
                assert(needed@.contains(i));
            }
        }
        assert forall|i: usize| #[trigger] to_dormant@.contains(i) <==> is_needed(active@, i as int) && !active@.contains(i) && resident_as(resident@, i as int, ZoneStatus::Active) by {
            if is_needed(active@, i as int) && !active@.contains(i) && resident_as(resident@, i as int, ZoneStatus::Active) {
                assert(needed@.contains(i));
                let j = choose|j: int| 0 <= j < needed@.len() && needed@[j] == i;
                assert(to_dormant@.contains(i));
            }
            if to_dormant@.contains(i) {
                let j = choose|j: int| 0 <= j < needed@.len() && needed@[j] == i && !active@.contains(i) && resident_as(resident@, i as int, ZoneStatus::Active);
                assert(needed@.contains(i));
            }
        }
    }
    let mut unload: Vec<usize> = Vec::new();
    let mut k: usize = 0;
    while k < resident.len()
        invariant
            k <= resident@.len(),
            distinct_zones(resident@),
            forall|b: usize| #[trigger] needed@.contains(b) <==> is_needed(active@, b as int),
            forall|i: usize| #[trigger] unload@.contains(i) <==> exists|j: int| 0 <= j < k && resident@[j].0 == i && !is_needed(active@, i as int),
            forall|j: int| 0 <= j < unload@.len() ==> exists|m: int| 0 <= m < k && resident@[m].0 == #[trigger] unload@[j],
            no_repeats(unload@),
        decreases resident@.len() - k,
    {
        let idx = resident[k].0;
        let ghost u0 = unload@;
        if !contains_zone(&needed, idx) {
            unload.push(idx);
            proof {
                assert forall|a: int, b: int| 0 <= a < unload@.len() && 0 <= b < unload@.len() && unload@[a] == unload@[b] implies a == b by {
                    if a < u0.len() && b == u0.len() {
                        let m = choose|m: int| 0 <= m < k && resident@[m].0 == u0[a];
                        assert(resident@[m].0 == resident@[k as int].0);
                    } else if b < u0.len() && a == u0.len() {
                        let m = choose|m: int| 0 <= m < k && resident@[m].0 == u0[b];
                        assert(resident@[m].0 == resident@[k as int].0);
                    }
                }
                assert forall|j: int| 0 <= j < unload@.len() implies exists|m: int| 0 <= m < k + 1 && resident@[m].0 == #[trigger] unload@[j] by {
                    if j < u0.len() {
                        assert(unload@[j] == u0[j]);
                    } else {
                        assert(resident@[k as int].0 == unload@[j]);
                    }
                }
            }
        }
        proof {
            assert forall|i: usize| #[trigger] unload@.contains(i) <==> exists|j: int| 0 <= j < k + 1 && resident@[j].0 == i && !is_needed(active@, i as int) by {
                if unload@.contains(i) {
                    let p = choose|p: int| 0 <= p < unload@.len() && unload@[p] == i;
                    if p < u0.len() {
                        assert(u0.contains(i));
                    }
                }
                if u0.contains(i) {
                    let p = choose|p: int| 0 <= p < u0.len() && u0[p] == i;
                    assert(unload@[p] == i);
                }
                if exists|j: int| 0 <= j < k + 1 && resident@[j].0 == i && !is_needed(active@, i as int) {
                    let j = choose|j: int| 0 <= j < k + 1 && resident@[j].0 == i && !is_needed(active@, i as int);
                    if j < k {
                        assert(u0.contains(i));
                    } else {
                        assert(unload@[unload@.len() - 1] == i);
                    }
                }
            }
        }
        k += 1;
    }
    proof {
        assert forall|i: usize| #[trigger] unload@.contains(i) <==> is_resident(resident@, i as int) && !is_needed(active@, i as int) by {
        }
        assert forall|i: usize| (#[trigger] load@.contains(i) || (is_resident(resident@, i as int) && is_needed(active@, i as int))) <==> is_needed(active@, i as int) by {
        }
        assert forall|i: usize| !(#[trigger] load@.contains(i) && unload@.contains(i)) && !(unload@.contains(i) && (
            to_active@.contains(i) || to_dormant@.contains(i))) && !(to_active@.contains(i)
                && to_dormant@.contains(i)) && !(load@.contains(i) && to_dormant@.contains(i)) by {
            if load@.contains(i) && to_dormant@.contains(i) {
                let k = choose|k: int| 0 <= k < resident@.len() && resident@[k].0 == i && resident@[k].1 == ZoneStatus::Active;
                assert(is_resident(resident@, i as int));
            }
        }
    }
    ZoneUpdates { load, unload, to_active, to_dormant }
}

/// A list whose entries are all below `idx`, grown by at most `idx`, holds
/// no repeats if it held none.
proof fn lemma_push_list(before: Seq<usize>, after: Seq<usize>, idx: usize)
    requires
        no_repeats(before),
        forall|j: int| 0 <= j < before.len() ==> #[trigger] before[j] < idx,
        after == before || after == before.push(idx),
    ensures
        no_repeats(after),
        forall|j: int| 0 <= j < after.len() ==> #[trigger] after[j] <= idx,
        forall|i: usize| #[trigger] after.contains(i) <==> (before.contains(i) || (after != before && i == idx)),
{
    assert forall|j: int| 0 <= j < after.len() implies #[trigger] after[j] <= idx by {
        if j < before.len() {
            assert(after[j] == before[j]);
        }
    }
    assert forall|i: usize| #[trigger] after.contains(i) <==> (before.contains(i) || (after != before && i == idx)) by {
        if after != before {
            if after.contains(i) {
                let p = choose|p: int| 0 <= p < after.len() && after[p] == i;
                if p < before.len() {
                    assert(before[p] == i);
                }
            }
            if before.contains(i) {
                let p = choose|p: int| 0 <= p < before.len() && before[p] == i;
                assert(after[p] == i);
            }
            if i == idx {
                assert(after[before.len() as int] == i);
            }
        }
    }
}

/// The active roster: the zones wanted active, and the zone of the player.
pub struct Zones {
    pub active: Vec<usize>,
    pub player: usize,
}

impl Default for Zones {
    fn default() -> (r: Self)
        ensures
            r.active@.len() == 0,
            r.player == 0,
    {
        Zones { active: Vec::new(), player: 0 }
    }
}

impl Zones {
    /// The player moved to the world coordinates `(x, y, z)`: its zone
    /// becomes the player's zone, and the whole roster when it was not
    /// already active.
    pub fn on_player_move(&mut self, x: usize, y: usize, z: usize)
        requires
            spec_zone_idx(x as int / ZONE_WIDTH as int, y as int / ZONE_HEIGHT as int, z as int) <= usize::MAX,
        ensures
            ({
                let idx = spec_zone_idx(x as int / ZONE_WIDTH as int, y as int / ZONE_HEIGHT as int, z as int);
                &&& final(self).player == idx
                &&& old(self).active@.contains(idx as usize) ==> final(self).active@ == old(self).active@
                &&& !old(self).active@.contains(idx as usize) ==> final(self).active@ == seq![idx as usize]
            }),
    {
        let idx = world_to_zone_idx(x, y, z);
        self.player = idx;
        if !contains_zone(&self.active, idx) {
            let mut roster: Vec<usize> = Vec::new();
            roster.push(idx);
            self.active = roster;
        }
    }
}

/// A zone is shown only on the player's level: when its depth is `player_z`.
pub fn is_zone_visible(zone_idx: usize, player_z: usize) -> (r: bool)
    ensures
        r == (spec_zone_xyz(zone_idx as int).2 == player_z),
{
    let (_, _, z) = zone_xyz(zone_idx);
    z == player_z
}

} // verus!
