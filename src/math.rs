use vstd::prelude::*;

verus! {

pub open spec fn spec_min3(a: int, b: int, c: int) -> int {
    if a <= b && a <= c {
        a
    } else if b <= c {
        b
    } else {
        c
    }
}

pub open spec fn spec_max3(a: int, b: int, c: int) -> int {
    if a >= b && a >= c {
        a
    } else if b >= c {
        b
    } else {
        c
    }
}

/// The smallest of three values.
pub fn min_3(a: i32, b: i32, c: i32) -> (r: i32)
    ensures
        r == spec_min3(a as int, b as int, c as int),
        r <= a && r <= b && r <= c,
        r == a || r == b || r == c,
{
    if a <= b && a <= c {
        return a;
    }
    if b <= a && b <= c {
        return b;
    }
    c
}

/// The largest of three values.
pub fn max_3(a: i32, b: i32, c: i32) -> (r: i32)
    ensures
        r == spec_max3(a as int, b as int, c as int),
        r >= a && r >= b && r >= c,
        r == a || r == b || r == c,
{
    if a >= b && a >= c {
        return a;
    }
    if b >= a && b >= c {
        return b;
    }
    c
}

/// The two values, the smaller first.
pub fn min_max(a: u32, b: u32) -> (r: [u32; 2])
    ensures
        r@ == (if a > b { seq![b, a] } else { seq![a, b] }),
{
    if a > b {
        [b, a]
    } else {
        [a, b]
    }
}

/// The three values in ascending order.
pub fn min_max_3(a: i32, b: i32, c: i32) -> (r: [i32; 3])
    ensures
        r[0] <= r[1] <= r[2],
        r@.to_multiset() == seq![a, b, c].to_multiset(),
{
    let r = if a > b {
        if a > c {
            if b > c {
                [c, b, a]
            } else {
                [b, c, a]
            }
        } else {
            [b, a, c]
        }
    } else if b > c {
        if a > c {
            [c, a, b]
        } else {
            [a, c, b]
        }
    } else {
        [a, b, c]
    };
    proof {
        let s = seq![a, b, c];
        assert(s.to_multiset() =~= vstd::multiset::Multiset::empty().insert(a).insert(b).insert(c)) by {
            assert(s == seq![a, b].push(c));
            assert(seq![a, b] == seq![a].push(b));
            assert(seq![a] == Seq::<i32>::empty().push(a));
            Seq::<i32>::empty().push(a).to_multiset_ensures();
            seq![a].push(b).to_multiset_ensures();
            seq![a, b].push(c).to_multiset_ensures();
        }
        let t = r@;
        assert(t == seq![t[0], t[1]].push(t[2]));
        assert(seq![t[0], t[1]] == seq![t[0]].push(t[1]));
        assert(seq![t[0]] == Seq::<i32>::empty().push(t[0]));
        Seq::<i32>::empty().push(t[0]).to_multiset_ensures();
        seq![t[0]].push(t[1]).to_multiset_ensures();
        seq![t[0], t[1]].push(t[2]).to_multiset_ensures();
        assert(t.to_multiset() =~= vstd::multiset::Multiset::empty().insert(t[0]).insert(t[1]).insert(t[2]));
        assert(t.to_multiset() =~= s.to_multiset());
    }
    r
}

} // verus!
