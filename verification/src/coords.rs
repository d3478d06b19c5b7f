//! The skew integer lattice that addresses the unfolded icosahedron.
//!
//! A coordinate is an ordered pair of signed integers. The six unit offsets
//! `(1,0), (1,1), (0,1), (-1,0), (-1,-1), (0,-1)` cover the triangular
//! lattice; consecutive offsets in that list are 60 degrees apart, so listing
//! neighbors in offset order yields a counter-clockwise walk.

use vstd::prelude::*;

verus! {

/// A point on the skew lattice. Two coordinates may alias one physical
/// vertex where the unfolded icosahedron wraps onto itself.
#[derive(Clone, Copy, PartialEq, Eq, Structural, Debug)]
pub struct Coord {
    pub x: i32,
    pub y: i32,
}

/// Every coordinate a built net stores fits well inside this magnitude, so
/// adding a unit offset to a stored coordinate can never overflow.
pub const COORD_LIMIT: i32 = 0x4000_0000;

impl Coord {
    /// True when both components are small enough that unit offsets and
    /// further lattice arithmetic stay inside `i32`.
    pub open spec fn bounded(self) -> bool {
        -COORD_LIMIT <= self.x <= COORD_LIMIT && -COORD_LIMIT <= self.y <= COORD_LIMIT
    }
}

/// Componentwise coordinate addition, the lattice's only combining operation.
pub fn coord_add(a: Coord, b: Coord) -> (r: Coord)
    requires
        i32::MIN <= a.x + b.x <= i32::MAX,
        i32::MIN <= a.y + b.y <= i32::MAX,
    ensures
        r.x == a.x + b.x,
        r.y == a.y + b.y,
{
    Coord { x: a.x + b.x, y: a.y + b.y }
}

/// Scaling by the subdivision factor multiplies both components.
pub fn coord_scale(a: Coord, k: i32) -> (r: Coord)
    requires
        i32::MIN <= a.x * k <= i32::MAX,
        i32::MIN <= a.y * k <= i32::MAX,
    ensures
        r.x == a.x * k,
        r.y == a.y * k,
{
    Coord { x: a.x * k, y: a.y * k }
}

/// The spec-level image of `coord_add`.
pub open spec fn spec_add(a: Coord, b: Coord) -> Coord {
    Coord { x: (a.x + b.x) as i32, y: (a.y + b.y) as i32 }
}

/// The spec-level image of `coord_scale`.
pub open spec fn spec_scale(a: Coord, k: i32) -> Coord {
    Coord { x: (a.x * k) as i32, y: (a.y * k) as i32 }
}

/// Whether a coordinate occurs in a list of coordinates.
pub fn coords_contain(v: &Vec<Coord>, c: Coord) -> (r: bool)
    ensures
        r == v@.contains(c),
{
    let mut k: usize = 0;
    while k < v.len()
        invariant
            k <= v@.len(),
            forall|j: int| 0 <= j < k ==> v@[j] != c,
        decreases v@.len() - k,
    {
        if v[k] == c {
            return true;
        }
        k += 1;
    }
    false
}

/// Floored modulus: the unique representative in `[0, n)`, also for negative
/// `a`. Rust's `%` truncates toward zero instead, so `-1 % 5 == -1`, while the
/// seam stitching of the net needs `mod_floor(-1, 5) == 4`. Spec-level `%` is
/// Euclidean, which for a positive modulus is exactly the floored modulus.
pub fn mod_floor(a: i32, n: i32) -> (r: i32)
    requires
        1 <= n,
    ensures
        r == a as int % n as int,
        0 <= r < n,
{
    if a >= 0 {
        a % n
    } else {
        // With b = -a - 1 >= 0 (no overflow, also for i32::MIN):
        // a = -(b + 1), and -(b + 1) mod n == n - 1 - (b mod n).
        let b: i32 = -(a + 1);
        let s: i32 = b % n;
        proof {
            lemma_negative_mod_floor(b as int, n as int);
        }
        n - 1 - s
    }
}

/// For b >= 0 and n > 0, the Euclidean remainder of -(b + 1) is
/// n - 1 - (b % n): writing b = q * n + s places -(b + 1) at
/// -(q + 1) * n + (n - 1 - s), whose offset already lies in [0, n).
proof fn lemma_negative_mod_floor(b: int, n: int)
    requires
        0 <= b,
        1 <= n,
    ensures
        (-b - 1) % n == n - 1 - (b % n),
{
    let q = b / n;
    let s = b % n;
    assert(b == q * n + s && 0 <= s < n) by (nonlinear_arith)
        requires 0 <= b && 1 <= n && q == b / n && s == b % n;
    assert(-b - 1 == (-q - 1) * n + (n - 1 - s)) by (nonlinear_arith)
        requires b == q * n + s;
    assert((-b - 1) % n == n - 1 - s) by (nonlinear_arith)
        requires -b - 1 == (-q - 1) * n + (n - 1 - s) && 0 <= n - 1 - s < n && 1 <= n;
}

} // verus!
