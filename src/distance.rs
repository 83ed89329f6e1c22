use vstd::prelude::*;

verus! {

/// The distance measures between two points of space.
#[derive(Clone, Copy, PartialEq, Eq, Structural, Debug)]
pub enum DistanceFormula {
    Manhattan,
    Diagonal,
    Euclidean,
    EuclideanSq,
    Chebyshev,
}

pub open spec fn abs_diff(a: i32, b: i32) -> nat {
    if a >= b {
        (a - b) as nat
    } else {
        (b - a) as nat
    }
}

pub open spec fn spec_chebyshev(a: [i32; 3], b: [i32; 3]) -> nat {
    let dx = abs_diff(a[0], b[0]);
    let dy = abs_diff(a[1], b[1]);
    let dz = abs_diff(a[2], b[2]);
    if dx >= dy && dx >= dz {
        dx
    } else if dy >= dz {
        dy
    } else {
        dz
    }
}

fn abs_diff_exec(a: i32, b: i32) -> (r: u64)
    ensures
        r == abs_diff(a, b),
        r <= 0xffff_ffff,
{
    if a >= b {
        (a as i64 - b as i64) as u64
    } else {
        (b as i64 - a as i64) as u64
    }
}

/// Integer distances between points of 3D space.
pub struct Distance;

impl Distance {
    /// The sum of the distances along each axis.
    pub fn manhattan(a: [i32; 3], b: [i32; 3]) -> (r: u64)
        ensures
            r == abs_diff(a[0], b[0]) + abs_diff(a[1], b[1]) + abs_diff(a[2], b[2]),
    {
        abs_diff_exec(a[0], b[0]) + abs_diff_exec(a[1], b[1]) + abs_diff_exec(a[2], b[2])
    }

    /// The largest of the distances along each axis.
    pub fn chebyshev(a: [i32; 3], b: [i32; 3]) -> (r: u64)
        ensures
            r == spec_chebyshev(a, b),
    {
        let dx = abs_diff_exec(a[0], b[0]);
        let dy = abs_diff_exec(a[1], b[1]);
        let dz = abs_diff_exec(a[2], b[2]);
        if dx >= dy && dx >= dz {
            dx
        } else if dy >= dz {
            dy
        } else {
            dz
        }
    }

    /// The square of the straight-line distance.
    pub fn euclidean_sq(a: [i32; 3], b: [i32; 3]) -> (r: u128)
        ensures
            r == abs_diff(a[0], b[0]) * abs_diff(a[0], b[0]) + abs_diff(a[1], b[1]) * abs_diff(a[1], b[1])
                + abs_diff(a[2], b[2]) * abs_diff(a[2], b[2]),
    {
        let dx = abs_diff_exec(a[0], b[0]) as u128;
        let dy = abs_diff_exec(a[1], b[1]) as u128;
        let dz = abs_diff_exec(a[2], b[2]) as u128;
        assert(dx * dx <= 0xffff_ffff * 0xffff_ffff && dy * dy <= 0xffff_ffff * 0xffff_ffff && dz * dz
            <= 0xffff_ffff * 0xffff_ffff) by (nonlinear_arith)
            requires
                dx <= 0xffff_ffff,
                dy <= 0xffff_ffff,
                dz <= 0xffff_ffff,
        ;
        dx * dx + dy * dy + dz * dz
    }
}

} // verus!
