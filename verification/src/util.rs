//! Small helpers: integer square roots for edge lengths, a stopgap random
//! number from the clock, and byte-size helpers for buffer uploads.

use vstd::prelude::*;
use crate::mesh::{point_in_range, Point2};

verus! {

/// The integer square root: the largest `r` with `r * r <= n`.
pub open spec fn spec_isqrt(n: nat) -> nat
    decreases n,
{
    if n == 0 {
        0
    } else {
        let r = spec_isqrt((n - 1) as nat);
        if (r + 1) * (r + 1) <= n {
            r + 1
        } else {
            r
        }
    }
}

/// The integer square root squares to at most its argument, and the next
/// integer squares past it.
pub proof fn lemma_isqrt_bounds(n: nat)
    ensures
        spec_isqrt(n) * spec_isqrt(n) <= n,
        n < (spec_isqrt(n) + 1) * (spec_isqrt(n) + 1),
    decreases n,
{
    let s = spec_isqrt(n);
    if n == 0 {
        assert(s == 0);
        assert(s * s <= n && n < (s + 1) * (s + 1)) by (nonlinear_arith)
            requires
                s == 0,
                n == 0,
        ;
    } else {
        lemma_isqrt_bounds((n - 1) as nat);
        let r = spec_isqrt((n - 1) as nat);
        assert(r * r <= n - 1);
        assert(n - 1 < (r + 1) * (r + 1));
        if (r + 1) * (r + 1) <= n {
            assert(s == r + 1);
            assert(s * s <= n && n < (s + 1) * (s + 1)) by (nonlinear_arith)
                requires
                    s == r + 1,
                    r >= 0,
                    (r + 1) * (r + 1) <= n,
                    n - 1 < (r + 1) * (r + 1),
            ;
        } else {
            assert(s == r);
            assert(s * s <= n && n < (s + 1) * (s + 1)) by (nonlinear_arith)
                requires
                    s == r,
                    r * r <= n - 1,
                    !((r + 1) * (r + 1) <= n),
            ;
        }
    }
}

/// Any value bracketed the same way is the integer square root.
pub proof fn lemma_isqrt_unique(n: nat, r: nat)
    requires
        r * r <= n,
        n < (r + 1) * (r + 1),
    ensures
        r == spec_isqrt(n),
{
    lemma_isqrt_bounds(n);
    let s = spec_isqrt(n);
    assert(r == s) by (nonlinear_arith)
        requires
            r * r <= n < (r + 1) * (r + 1),
            s * s <= n < (s + 1) * (s + 1),
            r >= 0,
            s >= 0,
    ;
}

/// Computes the integer square root by bisection.
pub fn isqrt(n: u64) -> (r: u64)
    ensures
        r == spec_isqrt(n as nat),
        r * r <= n,
        n < (r + 1) * (r + 1),
{
    let mut lo: u64 = 0;
    let mut hi: u64 = 0x1_0000_0000;
    proof {
        assert((n as int) < 0x1_0000_0000 * 0x1_0000_0000);
    }
    while hi - lo > 1
        invariant
            0 <= lo < hi <= 0x1_0000_0000,
            lo * lo <= n,
            (n as int) < (hi as int) * (hi as int),
        decreases hi - lo,
    {
        let mid = lo + (hi - lo) / 2;
        proof {
            crate::normals::lemma_mul_bound(mid as int, mid as int, 0x1_0000_0000);
        }
        if (mid as u128) * (mid as u128) <= n as u128 {
            lo = mid;
        } else {
            hi = mid;
        }
    }
    proof {
        assert((n as int) < ((lo + 1) as int) * ((lo + 1) as int));
        lemma_isqrt_unique(n as nat, lo as nat);
    }
    lo
}

/// The 2D distance between two points, rounded down to an integer.
pub open spec fn spec_edge_length(a: Point2, b: Point2) -> int {
    spec_isqrt(((b.x - a.x) * (b.x - a.x) + (b.y - a.y) * (b.y - a.y)) as nat) as int
}

/// Computes the rounded-down 2D distance between two in-range points.
pub fn edge_length(a: Point2, b: Point2) -> (r: u64)
    requires
        point_in_range(a),
        point_in_range(b),
    ensures
        r == spec_edge_length(a, b),
        r <= 0x4000_0000,
{
    let dx = b.x - a.x;
    let dy = b.y - a.y;
    proof {
        crate::normals::lemma_mul_bound(dx as int, dx as int, 0x2000_0000);
        crate::normals::lemma_mul_bound(dy as int, dy as int, 0x2000_0000);
        assert((dx as int) * (dx as int) >= 0 && (dy as int) * (dy as int) >= 0) by (
        nonlinear_arith);
    }
    let sq = (dx * dx + dy * dy) as u64;
    assert(sq as int <= 0x800_0000_0000_0000);
    let r = isqrt(sq);
    proof {
        assert(r <= 0x4000_0000) by (nonlinear_arith)
            requires
                (r as int) * (r as int) <= (sq as int),
                (sq as int) <= 0x800_0000_0000_0000,
                r >= 0,
        ;
    }
    r
}

/// Relies on std's `SystemTime::now` and `Duration::subsec_nanos`: the
/// subsecond part of a duration is below one billion nanoseconds, and a
/// clock before the epoch is mapped to zero here.
#[verifier::external_body]
fn subsec_nanos_now() -> (r: u32)
    ensures
        r < 1_000_000_000,
{
    match std::time::SystemTime::now().duration_since(std::time::UNIX_EPOCH) {
        Ok(d) => d.subsec_nanos(),
        Err(_) => 0,
    }
}

/// A stopgap random number drawn from the clock's subsecond nanoseconds,
/// reduced below the given bound.
pub fn rand_num_hack2(max_number: u32) -> (r: u32)
    requires
        max_number > 0,
    ensures
        r < max_number,
{
    let time = subsec_nanos_now();
    time % max_number
}

/// The size in bytes of a slice's contents, for sizing upload buffers.
pub fn byte_size_of_array<T>(val: &[T]) -> (r: isize)
    requires
        val@.len() * vstd::layout::size_of::<T>() <= isize::MAX,
    ensures
        r == val@.len() * vstd::layout::size_of::<T>(),
{
    broadcast use vstd::layout::layout_of_slices;

    core::mem::size_of_val(val) as isize
}

/// The size of the given type in bytes.
pub fn size_of<T>() -> (r: usize)
    ensures
        r == vstd::layout::size_of::<T>(),
{
    core::mem::size_of::<T>()
}

} // verus!
