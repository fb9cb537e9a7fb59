//! Quantizing a stick direction into one of `n` equal sectors (`n` is 4 or 8).
//!
//! Directions are measured clockwise from "up" (the positive `y` axis).
//! Sector `k` of `n` is centred on the direction `k * 360 / n` degrees and
//! runs clockwise from its lower boundary, which it includes, to the next
//! boundary, which it excludes: a direction on a boundary rounds half up.
//!
//! For eight sectors the boundaries lie at odd multiples of 22.5 degrees,
//! whose slopes involve the square root of two. They are handled exactly:
//! a number `p + q * sqrt(2)` is held as the pair `(p, q)`.
use vstd::prelude::*;
use crate::vector::Vector2;

verus! {

/// Whether `p + q * sqrt(2)` is strictly positive.
pub open spec fn positive(p: int, q: int) -> bool {
    if p >= 0 && q >= 0 {
        p > 0 || q > 0
    } else if p > 0 && q < 0 {
        p * p > 2 * (q * q)
    } else if p < 0 && q > 0 {
        2 * (q * q) > p * p
    } else {
        false
    }
}

/// A direction on the lower boundary of sector `k` of `n`, clockwise from up.
/// Its coordinates are `(xp + xq * sqrt(2), yp + yq * sqrt(2))`, returned as
/// `(xp, xq, yp, yq)`.
pub open spec fn boundary(n: int, k: int) -> (int, int, int, int) {
    if n == 4 {
        if k == 0 {
            (-1, 0, 1, 0)
        } else if k == 1 {
            (1, 0, 1, 0)
        } else if k == 2 {
            (1, 0, -1, 0)
        } else {
            (-1, 0, -1, 0)
        }
    } else {
        if k == 0 {
            (1, -1, 1, 0)
        } else if k == 1 {
            (-1, 1, 1, 0)
        } else if k == 2 {
            (1, 0, -1, 1)
        } else if k == 3 {
            (1, 0, 1, -1)
        } else if k == 4 {
            (-1, 1, -1, 0)
        } else if k == 5 {
            (1, -1, -1, 0)
        } else if k == 6 {
            (-1, 0, 1, -1)
        } else {
            (-1, 0, -1, 1)
        }
    }
}

/// The cross product `b.y * x - b.x * y` of a boundary direction `b` with `(x, y)`:
/// positive when `(x, y)` lies clockwise of `b`, within half a turn.
pub open spec fn turn(b: (int, int, int, int), x: int, y: int) -> (int, int) {
    (b.2 * x - b.0 * y, b.3 * x - b.1 * y)
}

/// Whether `(x, y)` lies on boundary `k` of `n` or clockwise of it, within half a turn.
#[verifier::opaque]
pub open spec fn at_or_past(n: int, k: int, x: int, y: int) -> bool {
    let t = turn(boundary(n, k), x, y);
    !positive(-t.0, -t.1)
}

/// The index after `k`, going round the `n` sectors.
pub open spec fn next_index(n: int, k: int) -> int {
    if k + 1 >= n {
        0
    } else {
        k + 1
    }
}

/// Whether the direction of `(x, y)` lies in sector `k` of `n`.
/// The zero vector lies in no sector.
pub open spec fn in_sector(n: int, k: int, x: int, y: int) -> bool {
    at_or_past(n, k, x, y) && !at_or_past(n, next_index(n, k), x, y)
}

/// The first sector, from `k` on, that holds `(x, y)`; 0 when none does.
pub open spec fn first_sector_from(n: int, k: int, x: int, y: int) -> int
    decreases n - k,
{
    if k >= n {
        0
    } else if in_sector(n, k, x, y) {
        k
    } else {
        first_sector_from(n, k + 1, x, y)
    }
}

/// The sector of `n` that holds the direction of `v`; 0 for the zero vector,
/// which has no direction.
pub open spec fn sector_of(n: int, v: Vector2) -> int {
    first_sector_from(n, 0, v.x as int, v.y as int)
}

proof fn lemma_sqrt2_irrational(p: nat, q: nat)
    requires
        p * p == 2 * (q * q),
    ensures
        q == 0,
    decreases q,
{
    if q > 0 {
        let a = p / 2;
        if p % 2 == 1 {
            assert(p * p == 2 * (2 * (a * a) + 2 * a) + 1) by (nonlinear_arith)
                requires
                    p == 2 * a + 1,
            ;
            assert(false);
        }
        assert(q * q == 2 * (a * a)) by (nonlinear_arith)
            requires
                p == 2 * a,
                p * p == 2 * (q * q),
        ;
        assert(a < q) by (nonlinear_arith)
            requires
                q * q == 2 * (a * a),
                q > 0,
                a >= 0,
        ;
        lemma_sqrt2_irrational(q, a);
        assert(q * q > 0) by (nonlinear_arith)
            requires
                q > 0,
        ;
    }
}

/// A number `p + q * sqrt(2)` that is neither positive nor negative is zero.
proof fn lemma_trichotomy(p: int, q: int)
    requires
        !positive(p, q),
        !positive(-p, -q),
    ensures
        p == 0 && q == 0,
{
    assert((-p) * (-p) == p * p) by (nonlinear_arith);
    assert((-q) * (-q) == q * q) by (nonlinear_arith);
    if p > 0 && q < 0 || p < 0 && q > 0 {
        let ap: nat = if p >= 0 { p as nat } else { (-p) as nat };
        let aq: nat = if q >= 0 { q as nat } else { (-q) as nat };
        assert(ap * ap == p * p && aq * aq == q * q) by (nonlinear_arith)
            requires
                ap == p || ap == -p,
                aq == q || aq == -q,
        ;
        lemma_sqrt2_irrational(ap, aq);
    }
}

/// A number `p + q * sqrt(2)` is not both positive and negative.
proof fn lemma_antisymmetric(p: int, q: int)
    ensures
        !(positive(p, q) && positive(-p, -q)),
{
    assert((-p) * (-p) == p * p) by (nonlinear_arith);
    assert((-q) * (-q) == q * q) by (nonlinear_arith);
}

/// The cross products with each boundary, written out.
proof fn lemma_turn_values(n: int, k: int, x: int, y: int)
    requires
        n == 4 || n == 8,
        0 <= k < n,
    ensures
        turn(boundary(n, k), x, y) == (if n == 4 {
            if k == 0 {
                (x + y, 0)
            } else if k == 1 {
                (x - y, 0)
            } else if k == 2 {
                (-x - y, 0)
            } else {
                (y - x, 0)
            }
        } else {
            if k == 0 {
                (x - y, y)
            } else if k == 1 {
                (x + y, -y)
            } else if k == 2 {
                (-x - y, x)
            } else if k == 3 {
                (x - y, -x)
            } else if k == 4 {
                (y - x, -y)
            } else if k == 5 {
                (-x - y, y)
            } else if k == 6 {
                (x + y, -x)
            } else {
                (y - x, x)
            }
        }),
{
    let b = boundary(n, k);
    assert(turn(b, x, y) == (b.2 * x - b.0 * y, b.3 * x - b.1 * y));
    assert(b.2 == -1 ==> b.2 * x == -x) by (nonlinear_arith);
    assert(b.0 == -1 ==> b.0 * y == -y) by (nonlinear_arith);
    assert(b.3 == -1 ==> b.3 * x == -x) by (nonlinear_arith);
    assert(b.1 == -1 ==> b.1 * y == -y) by (nonlinear_arith);
    assert(b.2 == 1 ==> b.2 * x == x) by (nonlinear_arith);
    assert(b.0 == 1 ==> b.0 * y == y) by (nonlinear_arith);
    assert(b.3 == 1 ==> b.3 * x == x) by (nonlinear_arith);
    assert(b.1 == 1 ==> b.1 * y == y) by (nonlinear_arith);
    assert(b.2 == 0 ==> b.2 * x == 0) by (nonlinear_arith);
    assert(b.0 == 0 ==> b.0 * y == 0) by (nonlinear_arith);
    assert(b.3 == 0 ==> b.3 * x == 0) by (nonlinear_arith);
    assert(b.1 == 0 ==> b.1 * y == 0) by (nonlinear_arith);
}

/// The boundaries of the far half of the circle are those of the near half, reversed.
proof fn lemma_opposite(n: int, k: int, x: int, y: int)
    requires
        n == 4 || n == 8,
        0 <= k < n / 2,
    ensures
        turn(boundary(n, k + n / 2), x, y).0 == -turn(boundary(n, k), x, y).0,
        turn(boundary(n, k + n / 2), x, y).1 == -turn(boundary(n, k), x, y).1,
{
    lemma_turn_values(n, k, x, y);
    lemma_turn_values(n, k + n / 2, x, y);
}

proof fn lemma_at_or_past(n: int, k: int, x: int, y: int)
    ensures
        at_or_past(n, k, x, y) == !positive(
            -turn(boundary(n, k), x, y).0,
            -turn(boundary(n, k), x, y).1,
        ),
{
    reveal(at_or_past);
}

/// Passing boundary `a` and, in turn, each boundary after it up to `b`.
proof fn lemma_chain(n: int, a: int, b: int, x: int, y: int)
    requires
        0 <= a <= b < n,
        at_or_past(n, a, x, y),
        forall|j: int| 0 <= j < n && #[trigger] at_or_past(n, j, x, y) ==> at_or_past(n, next_index(n, j), x, y),
    ensures
        at_or_past(n, b, x, y),
    decreases b - a,
{
    if a < b {
        assert(at_or_past(n, next_index(n, a), x, y));
        lemma_chain(n, a + 1, b, x, y);
    }
}

/// Every non-zero vector lies in some sector.
pub proof fn lemma_sector_exists(n: int, x: int, y: int)
    requires
        n == 4 || n == 8,
        x != 0 || y != 0,
    ensures
        exists|k: int| 0 <= k < n && in_sector(n, k, x, y),
{
    if forall|j: int| 0 <= j < n && #[trigger] at_or_past(n, j, x, y) ==> at_or_past(n, next_index(n, j), x, y) {
        let h = n / 2;
        let t0 = turn(boundary(n, 0), x, y);
        let t1 = turn(boundary(n, 1), x, y);
        lemma_opposite(n, 0, x, y);
        lemma_opposite(n, 1, x, y);
        lemma_turn_values(n, 0, x, y);
        lemma_turn_values(n, 1, x, y);
        lemma_at_or_past(n, 0, x, y);
        lemma_at_or_past(n, 1, x, y);
        lemma_at_or_past(n, h, x, y);
        lemma_at_or_past(n, h + 1, x, y);
        if at_or_past(n, 0, x, y) {
            lemma_chain(n, 0, h, x, y);
            lemma_chain(n, 0, h + 1, x, y);
            lemma_chain(n, 0, 1, x, y);
            lemma_trichotomy(t0.0, t0.1);
            lemma_trichotomy(t1.0, t1.1);
        } else {
            lemma_antisymmetric(t0.0, t0.1);
            assert(at_or_past(n, h, x, y));
            lemma_chain(n, h, n - 1, x, y);
            assert(at_or_past(n, next_index(n, n - 1), x, y));
        }
    } else {
        let j = choose|j: int| !(0 <= j < n && #[trigger] at_or_past(n, j, x, y) ==> at_or_past(n, next_index(n, j), x, y));
        assert(in_sector(n, j, x, y));
    }
}

/// Sectors turn with the vector: turning `(x, y)` a quarter turn clockwise,
/// to `(y, -x)`, moves it exactly `n / 4` sectors on, round the circle.
pub proof fn lemma_quarter_turn(n: int, k: int, x: int, y: int)
    requires
        n == 4 || n == 8,
        0 <= k < n,
    ensures
        in_sector(n, k, x, y) <==> in_sector(n, (k + n / 4) % n, y, -x),
{
    let k2 = (k + n / 4) % n;
    let k1 = next_index(n, k);
    let k3 = next_index(n, k2);
    assert(k3 == (k1 + n / 4) % n);
    lemma_turn_values(n, k, x, y);
    lemma_turn_values(n, k1, x, y);
    lemma_turn_values(n, k2, y, -x);
    lemma_turn_values(n, k3, y, -x);
    lemma_at_or_past(n, k, x, y);
    lemma_at_or_past(n, k1, x, y);
    lemma_at_or_past(n, k2, y, -x);
    lemma_at_or_past(n, k3, y, -x);
    assert(turn(boundary(n, k2), y, -x) == turn(boundary(n, k), x, y));
    assert(turn(boundary(n, k3), y, -x) == turn(boundary(n, k1), x, y));
}

/// Whether `p + q * sqrt(2)` is strictly positive.
fn is_positive(p: i64, q: i64) -> (r: bool)
    requires
        -0x4_0000_0000 <= p <= 0x4_0000_0000,
        -0x4_0000_0000 <= q <= 0x4_0000_0000,
    ensures
        r == positive(p as int, q as int),
{
    if p >= 0 && q >= 0 {
        p > 0 || q > 0
    } else {
        let pw = p as i128;
        let qw = q as i128;
        proof {
            assert(0 <= pw * pw <= 0x10_0000_0000_0000_0000) by (nonlinear_arith)
                requires
                    -0x4_0000_0000 <= pw <= 0x4_0000_0000,
            ;
            assert(0 <= qw * qw <= 0x10_0000_0000_0000_0000) by (nonlinear_arith)
                requires
                    -0x4_0000_0000 <= qw <= 0x4_0000_0000,
            ;
        }
        let pp = pw * pw;
        let qq2 = 2 * (qw * qw);
        if p > 0 && q < 0 {
            pp > qq2
        } else if p < 0 && q > 0 {
            qq2 > pp
        } else {
            false
        }
    }
}

/// The cross product of boundary `k` of `n` with `(x, y)`.
fn boundary_turn(n: u8, k: u8, x: i32, y: i32) -> (r: (i64, i64))
    requires
        n == 4 || n == 8,
        k < n,
    ensures
        r.0 as int == turn(boundary(n as int, k as int), x as int, y as int).0,
        r.1 as int == turn(boundary(n as int, k as int), x as int, y as int).1,
        -0x4_0000_0000 <= r.0 <= 0x4_0000_0000,
        -0x4_0000_0000 <= r.1 <= 0x4_0000_0000,
{
    proof {
        lemma_turn_values(n as int, k as int, x as int, y as int);
    }
    let x = x as i64;
    let y = y as i64;
    if n == 4 {
        if k == 0 {
            (x + y, 0)
        } else if k == 1 {
            (x - y, 0)
        } else if k == 2 {
            (-x - y, 0)
        } else {
            (y - x, 0)
        }
    } else {
        if k == 0 {
            (x - y, y)
        } else if k == 1 {
            (x + y, -y)
        } else if k == 2 {
            (-x - y, x)
        } else if k == 3 {
            (x - y, -x)
        } else if k == 4 {
            (y - x, -y)
        } else if k == 5 {
            (-x - y, y)
        } else if k == 6 {
            (x + y, -x)
        } else {
            (y - x, x)
        }
    }
}

/// Whether `(x, y)` lies on boundary `k` of `n` or clockwise of it.
fn check_at_or_past(n: u8, k: u8, x: i32, y: i32) -> (r: bool)
    requires
        n == 4 || n == 8,
        k < n,
    ensures
        r == at_or_past(n as int, k as int, x as int, y as int),
{
    let t = boundary_turn(n, k, x, y);
    proof {
        lemma_at_or_past(n as int, k as int, x as int, y as int);
    }
    !is_positive(-t.0, -t.1)
}

/// The index of the sector of `n` (4 or 8) that holds the direction of `v`,
/// rounding to the nearest sector centre, half up. Index 0 is centred on
/// "up" and indices advance clockwise. The zero vector gives 0.
pub fn quantize(v: &Vector2, n: u8) -> (r: u8)
    requires
        n == 4 || n == 8,
    ensures
        r < n,
        r == sector_of(n as int, *v),
        !v.is_zero_spec() ==> in_sector(n as int, r as int, v.x as int, v.y as int),
        forall|j: int| 0 <= j < r ==> !in_sector(n as int, j, v.x as int, v.y as int),
{
    let ghost (gn, gx, gy) = (n as int, v.x as int, v.y as int);
    let mut k: u8 = 0;
    while k < n
        invariant
            n == 4 || n == 8,
            gn == n as int && gx == v.x as int && gy == v.y as int,
            0 <= k <= n,
            first_sector_from(gn, 0, gx, gy) == first_sector_from(gn, k as int, gx, gy),
            forall|j: int| 0 <= j < k ==> !in_sector(gn, j, gx, gy),
        decreases n - k,
    {
        let next: u8 = if k + 1 >= n {
            0
        } else {
            k + 1
        };
        if check_at_or_past(n, k, v.x, v.y) && !check_at_or_past(n, next, v.x, v.y) {
            assert(in_sector(gn, k as int, gx, gy));
            return k;
        }
        k = k + 1;
    }
    proof {
        if !v.is_zero_spec() {
            lemma_sector_exists(gn, gx, gy);
        }
    }
    0
}

} // verus!
