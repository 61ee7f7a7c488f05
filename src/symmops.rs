//! Space-group operations in a lattice basis: an integer rotation matrix and a
//! translation, kept as integer numerators over a fixed denominator and
//! reduced into the unit cell.
//!
//! An operation maps a fractional position `x` to `R·x + t`.  Composition
//! `a ∘ b` applies `b` first: its rotation is `R_a·R_b` and its translation
//! `(R_a·t_b + t_a) mod 1`.

use vstd::prelude::*;

verus! {

/// Denominator of the translation numerators.
pub const TRANS_DENOM: i32 = 12;

/// A space-group operation.
#[derive(Debug, Clone, Copy, Eq, Hash)]
pub struct FracOp {
    /// Rotation, acting on fractional column vectors.
    pub rot: [[i32; 3]; 3],
    /// Translation numerators over `TRANS_DENOM`.
    pub trans: [i32; 3],
}

impl PartialEq for FracOp {
    fn eq(&self, other: &FracOp) -> (r: bool) {
        let mut i: usize = 0;
        while i < 3
            invariant
                i <= 3,
                forall|k: int| 0 <= k < i ==> self.rot[k] == other.rot[k] && self.trans[k] == other.trans[k],
            decreases 3 - i,
        {
            let mut j: usize = 0;
            while j < 3
                invariant
                    i < 3,
                    j <= 3,
                    forall|l: int| 0 <= l < j ==> self.rot[i as int][l] == other.rot[i as int][l],
                decreases 3 - j,
            {
                if self.rot[i][j] != other.rot[i][j] {
                    return false;
                }
                j += 1;
            }
            assert(self.rot[i as int] =~= other.rot[i as int]);
            if self.trans[i] != other.trans[i] {
                return false;
            }
            i += 1;
        }
        assert(self.rot =~= other.rot);
        assert(self.trans =~= other.trans);
        true
    }
}

impl vstd::std_specs::cmp::PartialEqSpecImpl for FracOp {
    open spec fn obeys_eq_spec() -> bool {
        true
    }

    open spec fn eq_spec(&self, other: &FracOp) -> bool {
        *self == *other
    }
}

/// Entry (`r`, `c`) of the product `a·b`.
pub open spec fn mat_mul_entry(a: [[i32; 3]; 3], b: [[i32; 3]; 3], r: int, c: int) -> int {
    a[r][0] * b[0][c] + a[r][1] * b[1][c] + a[r][2] * b[2][c]
}

/// Entry (`r`, `c`) of the rotation of `a ∘ b` fits in `i32`.
pub open spec fn entry_fits(a: FracOp, b: FracOp, r: int, c: int) -> bool {
    i32::MIN <= mat_mul_entry(a.rot, b.rot, r, c) <= i32::MAX
}

/// Component `k` of `(R_a·t_b + t_a)`, before reduction.
pub open spec fn trans_sum(a: FracOp, b: FracOp, k: int) -> int {
    a.rot[k][0] * b.trans[0] + a.rot[k][1] * b.trans[1] + a.rot[k][2] * b.trans[2] + a.trans[k]
}

impl FracOp {
    /// The translation lies in the unit cell.
    pub open spec fn wf(self) -> bool {
        forall|k: int| 0 <= k < 3 ==> 0 <= #[trigger] self.trans[k] < TRANS_DENOM
    }

    /// The rotation of `a ∘ b` has all its entries in `i32`.
    pub open spec fn composable(a: FracOp, b: FracOp) -> bool {
        &&& entry_fits(a, b, 0, 0) && entry_fits(a, b, 0, 1) && entry_fits(a, b, 0, 2)
        &&& entry_fits(a, b, 1, 0) && entry_fits(a, b, 1, 1) && entry_fits(a, b, 1, 2)
        &&& entry_fits(a, b, 2, 0) && entry_fits(a, b, 2, 1) && entry_fits(a, b, 2, 2)
    }

    /// `a ∘ b`, for composable operations.
    #[verifier::opaque]
    pub open spec fn of_spec(a: FracOp, b: FracOp) -> FracOp {
        FracOp {
            rot: [
                [mat_mul_entry(a.rot, b.rot, 0, 0) as i32, mat_mul_entry(a.rot, b.rot, 0, 1) as i32, mat_mul_entry(a.rot, b.rot, 0, 2) as i32],
                [mat_mul_entry(a.rot, b.rot, 1, 0) as i32, mat_mul_entry(a.rot, b.rot, 1, 1) as i32, mat_mul_entry(a.rot, b.rot, 1, 2) as i32],
                [mat_mul_entry(a.rot, b.rot, 2, 0) as i32, mat_mul_entry(a.rot, b.rot, 2, 1) as i32, mat_mul_entry(a.rot, b.rot, 2, 2) as i32],
            ],
            trans: [
                (trans_sum(a, b, 0) % (TRANS_DENOM as int)) as i32,
                (trans_sum(a, b, 1) % (TRANS_DENOM as int)) as i32,
                (trans_sum(a, b, 2) % (TRANS_DENOM as int)) as i32,
            ],
        }
    }

    /// The identity operation.
    pub fn identity() -> (r: FracOp)
        ensures
            r.wf(),
            forall|i: int, j: int| 0 <= i < 3 && 0 <= j < 3 ==> r.rot[i][j] == (if i == j { 1int } else { 0int }),
            forall|k: int| 0 <= k < 3 ==> r.trans[k] == 0,
    {
        FracOp { rot: [[1, 0, 0], [0, 1, 0], [0, 0, 1]], trans: [0, 0, 0] }
    }

    /// An operation from a rotation and translation numerators, reducing the
    /// translation into the unit cell.
    pub fn new(rot: [[i32; 3]; 3], trans: [i32; 3]) -> (r: FracOp)
        ensures
            r.wf(),
            r.rot == rot,
            forall|k: int| 0 <= k < 3 ==> r.trans[k] == (trans[k] as int) % (TRANS_DENOM as int),
    {
        FracOp { rot, trans: [reduce(trans[0] as i64), reduce(trans[1] as i64), reduce(trans[2] as i64)] }
    }

    /// `self ∘ other` (`other` applied first), or `None` when an entry of the
    /// rotation does not fit in `i32`.
    pub fn of(&self, other: &FracOp) -> (r: Option<FracOp>)
        requires
            self.wf(),
            other.wf(),
        ensures
            r is Some <==> FracOp::composable(*self, *other),
            r matches Some(op) ==> op == FracOp::of_spec(*self, *other) && op.wf(),
    {
        let a = &self.rot;
        let b = &other.rot;
        let mut rot: [[i32; 3]; 3] = [[0; 3]; 3];
        let mut r: usize = 0;
        while r < 3
            invariant
                r <= 3,
                *a == self.rot,
                *b == other.rot,
                forall|i: int, j: int| 0 <= i < r && 0 <= j < 3 ==> rot[i][j] == mat_mul_entry(*a, *b, i, j),
                forall|i: int, j: int|
                    0 <= i < r && 0 <= j < 3 ==> i32::MIN <= #[trigger] mat_mul_entry(*a, *b, i, j) <= i32::MAX,
            decreases 3 - r,
        {
            let mut row: [i32; 3] = [0; 3];
            let mut c: usize = 0;
            while c < 3
                invariant
                    r < 3,
                    c <= 3,
                    *a == self.rot,
                    *b == other.rot,
                    forall|j: int| 0 <= j < c ==> row[j] == mat_mul_entry(*a, *b, r as int, j),
                    forall|j: int| 0 <= j < c ==> i32::MIN <= #[trigger] mat_mul_entry(*a, *b, r as int, j) <= i32::MAX,
                decreases 3 - c,
            {
                let x = dot3(a[r][0], a[r][1], a[r][2], b[0][c] as i64, b[1][c] as i64, b[2][c] as i64);
                if x < i32::MIN as i128 || x > i32::MAX as i128 {
                    assert(!(i32::MIN <= mat_mul_entry(*a, *b, r as int, c as int) <= i32::MAX));
                    return None;
                }
                row[c] = x as i32;
                c += 1;
            }
            rot[r] = row;
            r += 1;
        }
        let t = &other.trans;
        let mut trans: [i32; 3] = [0; 3];
        let mut k: usize = 0;
        while k < 3
            invariant
                k <= 3,
                *a == self.rot,
                *t == other.trans,
                other.wf(),
                self.wf(),
                forall|j: int| 0 <= j < k ==> trans[j] == trans_sum(*self, *other, j) % (TRANS_DENOM as int),
            decreases 3 - k,
        {
            let sum = trans_dot(a[k][0], a[k][1], a[k][2], t[0], t[1], t[2]) + (self.trans[k] as i64);
            trans[k] = reduce(sum);
            k += 1;
        }
        let op = FracOp { rot, trans };
        reveal(FracOp::of_spec);
        assert(op.rot[0] =~= FracOp::of_spec(*self, *other).rot[0]);
        assert(op.rot[1] =~= FracOp::of_spec(*self, *other).rot[1]);
        assert(op.rot[2] =~= FracOp::of_spec(*self, *other).rot[2]);
        assert(op.rot =~= FracOp::of_spec(*self, *other).rot);
        assert(op.trans =~= FracOp::of_spec(*self, *other).trans);
        Some(op)
    }
}

/// `a0*b0 + a1*b1 + a2*b2`, computed without overflow for `|b| < 2^32`.
pub(crate) fn dot3(a0: i32, a1: i32, a2: i32, b0: i64, b1: i64, b2: i64) -> (r: i128)
    requires
        -0x1_0000_0000 <= b0 <= 0x1_0000_0000,
        -0x1_0000_0000 <= b1 <= 0x1_0000_0000,
        -0x1_0000_0000 <= b2 <= 0x1_0000_0000,
    ensures
        r == a0 * b0 + a1 * b1 + a2 * b2,
        -0x4_0000_0000 * 0x1_0000_0000 <= r <= 0x4_0000_0000 * 0x1_0000_0000,
{
    proof {
        lemma_bounded_product(a0 as int, b0 as int);
        lemma_bounded_product(a1 as int, b1 as int);
        lemma_bounded_product(a2 as int, b2 as int);
    }
    (a0 as i128) * (b0 as i128) + (a1 as i128) * (b1 as i128) + (a2 as i128) * (b2 as i128)
}

/// `a0*t0 + a1*t1 + a2*t2` for translation numerators `t`.
fn trans_dot(a0: i32, a1: i32, a2: i32, t0: i32, t1: i32, t2: i32) -> (r: i64)
    requires
        0 <= t0 < TRANS_DENOM,
        0 <= t1 < TRANS_DENOM,
        0 <= t2 < TRANS_DENOM,
    ensures
        r == a0 * t0 + a1 * t1 + a2 * t2,
        -0x20_0000_0000 <= r <= 0x20_0000_0000,
{
    proof {
        lemma_small_product(a0 as int, t0 as int);
        lemma_small_product(a1 as int, t1 as int);
        lemma_small_product(a2 as int, t2 as int);
    }
    (a0 as i64) * (t0 as i64) + (a1 as i64) * (t1 as i64) + (a2 as i64) * (t2 as i64)
}

proof fn lemma_small_product(a: int, t: int)
    requires
        -0x8000_0000 <= a <= 0x8000_0000,
        0 <= t < 12,
    ensures
        -0x8000_0000 * 12 <= a * t <= 0x8000_0000 * 12,
{
    assert(-0x8000_0000 * 12 <= a * t <= 0x8000_0000 * 12) by (nonlinear_arith)
        requires
            -0x8000_0000 <= a <= 0x8000_0000,
            0 <= t < 12,
    ;
}

proof fn lemma_bounded_product(a: int, b: int)
    requires
        -0x8000_0000 <= a <= 0x8000_0000,
        -0x1_0000_0000 <= b <= 0x1_0000_0000,
    ensures
        -0x8000_0000 * 0x1_0000_0000 <= a * b <= 0x8000_0000 * 0x1_0000_0000,
{
    assert(-0x8000_0000 * 0x1_0000_0000 <= a * b <= 0x8000_0000 * 0x1_0000_0000) by (nonlinear_arith)
        requires
            -0x8000_0000 <= a <= 0x8000_0000,
            -0x1_0000_0000 <= b <= 0x1_0000_0000,
    ;
}

/// `x mod TRANS_DENOM`, in `0..TRANS_DENOM`.
fn reduce(x: i64) -> (r: i32)
    ensures
        r == (x as int) % (TRANS_DENOM as int),
        0 <= r < TRANS_DENOM,
{
    let m = x % 12;
    let m = if m < 0 { m + 12 } else { m };
    assert(m == (x as int) % 12);
    m as i32
}

proof fn lemma_distribute_right(x: int, y: int, z: int, c: int)
    ensures
        (x + y + z) * c == x * c + y * c + z * c,
{
    assert((x + y + z) * c == x * c + y * c + z * c) by (nonlinear_arith);
}

proof fn lemma_distribute_left(a: int, x: int, y: int, z: int)
    ensures
        a * (x + y + z) == a * x + a * y + a * z,
{
    assert(a * (x + y + z) == a * x + a * y + a * z) by (nonlinear_arith);
}

proof fn lemma_regroup_product(a: int, b: int, c: int)
    ensures
        (a * b) * c == a * (b * c),
{
    assert((a * b) * c == a * (b * c)) by (nonlinear_arith);
}

/// A sum of three products of three factors, regrouped.
proof fn lemma_triple_regroup(
    a0: int, a1: int, a2: int,
    b00: int, b01: int, b02: int, b10: int, b11: int, b12: int, b20: int, b21: int, b22: int,
    c0: int, c1: int, c2: int,
)
    ensures
        (a0 * b00 + a1 * b10 + a2 * b20) * c0 + (a0 * b01 + a1 * b11 + a2 * b21) * c1 + (a0 * b02 + a1 * b12 + a2 * b22) * c2
            == a0 * (b00 * c0 + b01 * c1 + b02 * c2) + a1 * (b10 * c0 + b11 * c1 + b12 * c2) + a2 * (b20 * c0 + b21 * c1
            + b22 * c2),
{
    lemma_distribute_right(a0 * b00, a1 * b10, a2 * b20, c0);
    lemma_distribute_right(a0 * b01, a1 * b11, a2 * b21, c1);
    lemma_distribute_right(a0 * b02, a1 * b12, a2 * b22, c2);
    lemma_distribute_left(a0, b00 * c0, b01 * c1, b02 * c2);
    lemma_distribute_left(a1, b10 * c0, b11 * c1, b12 * c2);
    lemma_distribute_left(a2, b20 * c0, b21 * c1, b22 * c2);
    lemma_regroup_product(a0, b00, c0);
    lemma_regroup_product(a0, b01, c1);
    lemma_regroup_product(a0, b02, c2);
    lemma_regroup_product(a1, b10, c0);
    lemma_regroup_product(a1, b11, c1);
    lemma_regroup_product(a1, b12, c2);
    lemma_regroup_product(a2, b20, c0);
    lemma_regroup_product(a2, b21, c1);
    lemma_regroup_product(a2, b22, c2);
}

/// `a0*x0 + a1*x1 + a2*x2 + w`, with each `x` replaced by its remainder
/// modulo `TRANS_DENOM`, is unchanged modulo `TRANS_DENOM`.
proof fn lemma_reduce_inside(a0: int, a1: int, a2: int, x0: int, x1: int, x2: int, w: int)
    ensures
        (a0 * (x0 % 12) + a1 * (x1 % 12) + a2 * (x2 % 12) + w) % 12 == (a0 * x0 + a1 * x1 + a2 * x2 + w) % 12,
{
    vstd::arithmetic::div_mod::lemma_fundamental_div_mod(x0, 12);
    vstd::arithmetic::div_mod::lemma_fundamental_div_mod(x1, 12);
    vstd::arithmetic::div_mod::lemma_fundamental_div_mod(x2, 12);
    let q0 = x0 / 12;
    let q1 = x1 / 12;
    let q2 = x2 / 12;
    let lhs = a0 * (x0 % 12) + a1 * (x1 % 12) + a2 * (x2 % 12) + w;
    let rhs = a0 * x0 + a1 * x1 + a2 * x2 + w;
    assert(rhs == 12 * (a0 * q0 + a1 * q1 + a2 * q2) + lhs) by (nonlinear_arith)
        requires
            x0 == 12 * q0 + x0 % 12,
            x1 == 12 * q1 + x1 % 12,
            x2 == 12 * q2 + x2 % 12,
            lhs == a0 * (x0 % 12) + a1 * (x1 % 12) + a2 * (x2 % 12) + w,
            rhs == a0 * x0 + a1 * x1 + a2 * x2 + w,
    ;
    vstd::arithmetic::div_mod::lemma_mod_multiples_vanish(a0 * q0 + a1 * q1 + a2 * q2, lhs, 12);
}

/// `x + (y mod TRANS_DENOM)` is `x + y` modulo `TRANS_DENOM`.
proof fn lemma_reduce_last(x: int, y: int)
    ensures
        (x + y % 12) % 12 == (x + y) % 12,
{
    lemma_reduce_inside(0, 0, 1, 0, 0, y, x);
}

/// Composition of operations is associative: when `b ∘ c`, `a ∘ b` and
/// `(a ∘ b) ∘ c` are composable, so is `a ∘ (b ∘ c)`, and the two agree.
pub proof fn law_of_associative(a: FracOp, b: FracOp, c: FracOp)
    requires
        a.wf(),
        b.wf(),
        c.wf(),
        FracOp::composable(a, b),
        FracOp::composable(b, c),
        FracOp::composable(FracOp::of_spec(a, b), c),
    ensures
        FracOp::composable(a, FracOp::of_spec(b, c)),
        FracOp::of_spec(a, FracOp::of_spec(b, c)) == FracOp::of_spec(FracOp::of_spec(a, b), c),
{
    reveal(FracOp::of_spec);
    let ab = FracOp::of_spec(a, b);
    let bc = FracOp::of_spec(b, c);
    let lhs = FracOp::of_spec(a, bc);
    let rhs = FracOp::of_spec(ab, c);
    assert forall|k: int, n: int| 0 <= k < 3 && 0 <= n < 3 implies mat_mul_entry(a.rot, bc.rot, k, n) == mat_mul_entry(
        ab.rot,
        c.rot,
        k,
        n,
    ) by {
        assert(bc.rot[0][n] == mat_mul_entry(b.rot, c.rot, 0, n));
        assert(bc.rot[1][n] == mat_mul_entry(b.rot, c.rot, 1, n));
        assert(bc.rot[2][n] == mat_mul_entry(b.rot, c.rot, 2, n));
        assert(ab.rot[k][0] == mat_mul_entry(a.rot, b.rot, k, 0));
        assert(ab.rot[k][1] == mat_mul_entry(a.rot, b.rot, k, 1));
        assert(ab.rot[k][2] == mat_mul_entry(a.rot, b.rot, k, 2));
        lemma_triple_regroup(
            a.rot[k][0] as int, a.rot[k][1] as int, a.rot[k][2] as int,
            b.rot[0][0] as int, b.rot[0][1] as int, b.rot[0][2] as int,
            b.rot[1][0] as int, b.rot[1][1] as int, b.rot[1][2] as int,
            b.rot[2][0] as int, b.rot[2][1] as int, b.rot[2][2] as int,
            c.rot[0][n] as int, c.rot[1][n] as int, c.rot[2][n] as int,
        );
    }
    assert forall|k: int| 0 <= k < 3 implies trans_sum(a, bc, k) % 12 == trans_sum(ab, c, k) % 12 by {
        let u0 = trans_sum(b, c, 0);
        let u1 = trans_sum(b, c, 1);
        let u2 = trans_sum(b, c, 2);
        assert(bc.trans[0] == u0 % 12 && bc.trans[1] == u1 % 12 && bc.trans[2] == u2 % 12);
        lemma_reduce_inside(a.rot[k][0] as int, a.rot[k][1] as int, a.rot[k][2] as int, u0, u1, u2, a.trans[k] as int);
        let y = trans_sum(a, b, k);
        assert(ab.trans[k] == y % 12);
        let x = ab.rot[k][0] * c.trans[0] + ab.rot[k][1] * c.trans[1] + ab.rot[k][2] * c.trans[2];
        lemma_reduce_last(x, y);
        assert(ab.rot[k][0] == mat_mul_entry(a.rot, b.rot, k, 0));
        assert(ab.rot[k][1] == mat_mul_entry(a.rot, b.rot, k, 1));
        assert(ab.rot[k][2] == mat_mul_entry(a.rot, b.rot, k, 2));
        lemma_triple_regroup(
            a.rot[k][0] as int, a.rot[k][1] as int, a.rot[k][2] as int,
            b.rot[0][0] as int, b.rot[0][1] as int, b.rot[0][2] as int,
            b.rot[1][0] as int, b.rot[1][1] as int, b.rot[1][2] as int,
            b.rot[2][0] as int, b.rot[2][1] as int, b.rot[2][2] as int,
            c.trans[0] as int, c.trans[1] as int, c.trans[2] as int,
        );
        let s0 = b.rot[0][0] * c.trans[0] + b.rot[0][1] * c.trans[1] + b.rot[0][2] * c.trans[2];
        let s1 = b.rot[1][0] * c.trans[0] + b.rot[1][1] * c.trans[1] + b.rot[1][2] * c.trans[2];
        let s2 = b.rot[2][0] * c.trans[0] + b.rot[2][1] * c.trans[1] + b.rot[2][2] * c.trans[2];
        assert(a.rot[k][0] * u0 == a.rot[k][0] * s0 + a.rot[k][0] * b.trans[0]) by (nonlinear_arith)
            requires
                u0 == s0 + b.trans[0],
        ;
        assert(a.rot[k][1] * u1 == a.rot[k][1] * s1 + a.rot[k][1] * b.trans[1]) by (nonlinear_arith)
            requires
                u1 == s1 + b.trans[1],
        ;
        assert(a.rot[k][2] * u2 == a.rot[k][2] * s2 + a.rot[k][2] * b.trans[2]) by (nonlinear_arith)
            requires
                u2 == s2 + b.trans[2],
        ;
        assert(a.rot[k][0] * u0 + a.rot[k][1] * u1 + a.rot[k][2] * u2 + a.trans[k] == x + y);
    }
    assert(lhs.rot[0] =~= rhs.rot[0]);
    assert(lhs.rot[1] =~= rhs.rot[1]);
    assert(lhs.rot[2] =~= rhs.rot[2]);
    assert(lhs.rot =~= rhs.rot);
    assert(lhs.trans =~= rhs.trans);
}

} // verus!
