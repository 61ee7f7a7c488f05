//! Small fixed-size matrices, stored as arrays of rows.
//!
//! Matrices hold their rows as plain arrays; the arithmetic here is on integer
//! matrices, where it is exact.

use vstd::prelude::*;

verus! {

/// A matrix with 2 rows.
#[derive(Debug, Clone, Copy, PartialEq, Eq, Hash)]
pub struct M2<V>(pub [V; 2]);

/// A matrix with 3 rows.
#[derive(Debug, Clone, Copy, PartialEq, Eq, Hash)]
pub struct M3<V>(pub [V; 3]);

/// A matrix with 4 rows.
#[derive(Debug, Clone, Copy, PartialEq, Eq, Hash)]
pub struct M4<V>(pub [V; 4]);

/// A square 2x2 matrix.
pub type M22<X> = M2<[X; 2]>;

/// A square 3x3 matrix.
pub type M33<X> = M3<[X; 3]>;

/// A square 4x4 matrix.
pub type M44<X> = M4<[X; 4]>;

/// Entry (`r`, `c`) of the identity.
pub open spec fn eye_entry(r: int, c: int) -> int {
    if r == c { 1 } else { 0 }
}

/// Determinant of a 2x2 integer matrix.
pub open spec fn det22(m: [[i32; 2]; 2]) -> int {
    m[0][0] * m[1][1] - m[0][1] * m[1][0]
}

/// Determinant of a 3x3 integer matrix.
pub open spec fn det33(m: [[i32; 3]; 3]) -> int {
    m[0][0] * m[1][1] * m[2][2] + m[0][1] * m[1][2] * m[2][0] + m[0][2] * m[1][0] * m[2][1]
        - m[0][0] * m[1][2] * m[2][1] - m[0][1] * m[1][0] * m[2][2] - m[0][2] * m[1][1] * m[2][0]
}

/// Cofactor (`r`, `c`) of a 3x3 integer matrix.
pub open spec fn cofactor33(m: [[i32; 3]; 3], r: int, c: int) -> int {
    m[(r + 1) % 3][(c + 1) % 3] * m[(r + 2) % 3][(c + 2) % 3]
        - m[(r + 1) % 3][(c + 2) % 3] * m[(r + 2) % 3][(c + 1) % 3]
}

/// Fits in an `i32`.
pub open spec fn fits_i32(x: int) -> bool {
    i32::MIN <= x <= i32::MAX
}

/// Builds a matrix from a function on (row, column) indices.
pub trait FromFn<F>: Sized {
    /// `f` may be called on every index pair of the matrix.
    spec fn accepts(f: F) -> bool;

    /// Each entry of `self` is a result of `f` on its indices.
    spec fn built_by(self, f: F) -> bool;

    fn from_fn(f: F) -> (r: Self)
        requires
            Self::accepts(f),
        ensures
            r.built_by(f),
    ;
}

impl<X, F: Fn(usize, usize) -> X> FromFn<F> for M22<X> {
    open spec fn accepts(f: F) -> bool {
        forall|r: usize, c: usize| r < 2 && c < 2 ==> call_requires(f, (r, c))
    }

    open spec fn built_by(self, f: F) -> bool {
        forall|r: int, c: int| 0 <= r < 2 && 0 <= c < 2 ==> call_ensures(f, (r as usize, c as usize), self.0[r][c])
    }

    fn from_fn(f: F) -> (r: Self) {
        M2([[f(0, 0), f(0, 1)], [f(1, 0), f(1, 1)]])
    }
}

impl<X, F: Fn(usize, usize) -> X> FromFn<F> for M33<X> {
    open spec fn accepts(f: F) -> bool {
        forall|r: usize, c: usize| r < 3 && c < 3 ==> call_requires(f, (r, c))
    }

    open spec fn built_by(self, f: F) -> bool {
        forall|r: int, c: int| 0 <= r < 3 && 0 <= c < 3 ==> call_ensures(f, (r as usize, c as usize), self.0[r][c])
    }

    fn from_fn(f: F) -> (r: Self) {
        M3([[f(0, 0), f(0, 1), f(0, 2)], [f(1, 0), f(1, 1), f(1, 2)], [f(2, 0), f(2, 1), f(2, 2)]])
    }
}

impl<X, F: Fn(usize, usize) -> X> FromFn<F> for M44<X> {
    open spec fn accepts(f: F) -> bool {
        forall|r: usize, c: usize| r < 4 && c < 4 ==> call_requires(f, (r, c))
    }

    open spec fn built_by(self, f: F) -> bool {
        forall|r: int, c: int| 0 <= r < 4 && 0 <= c < 4 ==> call_ensures(f, (r as usize, c as usize), self.0[r][c])
    }

    fn from_fn(f: F) -> (r: Self) {
        M4(
            [
                [f(0, 0), f(0, 1), f(0, 2), f(0, 3)],
                [f(1, 0), f(1, 1), f(1, 2), f(1, 3)],
                [f(2, 0), f(2, 1), f(2, 2), f(2, 3)],
                [f(3, 0), f(3, 1), f(3, 2), f(3, 3)],
            ],
        )
    }
}

/// Construct a matrix from a function on indices.
pub fn from_fn<M: FromFn<F>, F>(f: F) -> (r: M)
    requires
        M::accepts(f),
    ensures
        r.built_by(f),
{
    M::from_fn(f)
}

/// Turns a 2D array of rows into a matrix.
pub trait IntoMatrix: Sized {
    type Matrix;

    /// `m` holds the rows of `self`.
    spec fn holds_rows(self, m: Self::Matrix) -> bool;

    fn into_matrix(self) -> (r: Self::Matrix)
        ensures
            self.holds_rows(r),
    ;
}

/// Gives back the 2D array of rows of a matrix.
pub trait IntoArray: Sized {
    type Array;

    /// The rows of `self`.
    spec fn rows(&self) -> Self::Array;

    fn into_array(self) -> (r: Self::Array)
        ensures
            r == self.rows(),
    ;

    fn as_array(&self) -> (r: &Self::Array)
        ensures
            *r == self.rows(),
    ;

    fn as_array_mut(&mut self) -> (r: &mut Self::Array)
        ensures
            *r == old(self).rows(),
            final(self).rows() == *final(r),
    ;
}

impl<X> IntoMatrix for [[X; 2]; 2] {
    type Matrix = M22<X>;

    open spec fn holds_rows(self, m: M22<X>) -> bool {
        m.0 == self
    }

    fn into_matrix(self) -> (r: M22<X>) {
        M2(self)
    }
}

impl<X> IntoMatrix for [[X; 3]; 3] {
    type Matrix = M33<X>;

    open spec fn holds_rows(self, m: M33<X>) -> bool {
        m.0 == self
    }

    fn into_matrix(self) -> (r: M33<X>) {
        M3(self)
    }
}

impl<X> IntoMatrix for [[X; 4]; 4] {
    type Matrix = M44<X>;

    open spec fn holds_rows(self, m: M44<X>) -> bool {
        m.0 == self
    }

    fn into_matrix(self) -> (r: M44<X>) {
        M4(self)
    }
}

impl<X> IntoArray for M22<X> {
    type Array = [[X; 2]; 2];

    open spec fn rows(&self) -> [[X; 2]; 2] {
        self.0
    }

    fn into_array(self) -> (r: [[X; 2]; 2]) {
        self.0
    }

    fn as_array(&self) -> (r: &[[X; 2]; 2]) {
        &self.0
    }

    fn as_array_mut(&mut self) -> (r: &mut [[X; 2]; 2]) {
        &mut self.0
    }
}

impl<X> IntoArray for M33<X> {
    type Array = [[X; 3]; 3];

    open spec fn rows(&self) -> [[X; 3]; 3] {
        self.0
    }

    fn into_array(self) -> (r: [[X; 3]; 3]) {
        self.0
    }

    fn as_array(&self) -> (r: &[[X; 3]; 3]) {
        &self.0
    }

    fn as_array_mut(&mut self) -> (r: &mut [[X; 3]; 3]) {
        &mut self.0
    }
}

impl<X> IntoArray for M44<X> {
    type Array = [[X; 4]; 4];

    open spec fn rows(&self) -> [[X; 4]; 4] {
        self.0
    }

    fn into_array(self) -> (r: [[X; 4]; 4]) {
        self.0
    }

    fn as_array(&self) -> (r: &[[X; 4]; 4]) {
        &self.0
    }

    fn as_array_mut(&mut self) -> (r: &mut [[X; 4]; 4]) {
        &mut self.0
    }
}

/// Construct a matrix from a 2D array of rows.
pub fn from_array<A: IntoMatrix>(arr: A) -> (r: A::Matrix)
    ensures
        arr.holds_rows(r),
{
    arr.into_matrix()
}

/// The identity matrix.
pub trait Eye: Sized {
    /// `self` is the identity.
    spec fn is_eye(&self) -> bool;

    fn eye() -> (r: Self)
        ensures
            r.is_eye(),
    ;
}

impl Eye for M22<i32> {
    open spec fn is_eye(&self) -> bool {
        forall|r: int, c: int| 0 <= r < 2 && 0 <= c < 2 ==> self.0[r][c] == eye_entry(r, c)
    }

    fn eye() -> (r: Self) {
        M2([[1, 0], [0, 1]])
    }
}

impl Eye for M33<i32> {
    open spec fn is_eye(&self) -> bool {
        forall|r: int, c: int| 0 <= r < 3 && 0 <= c < 3 ==> self.0[r][c] == eye_entry(r, c)
    }

    fn eye() -> (r: Self) {
        M3([[1, 0, 0], [0, 1, 0], [0, 0, 1]])
    }
}

impl Eye for M44<i32> {
    open spec fn is_eye(&self) -> bool {
        forall|r: int, c: int| 0 <= r < 4 && 0 <= c < 4 ==> self.0[r][c] == eye_entry(r, c)
    }

    fn eye() -> (r: Self) {
        M4([[1, 0, 0, 0], [0, 1, 0, 0], [0, 0, 1, 0], [0, 0, 0, 1]])
    }
}

/// Construct an identity matrix.
pub fn eye<M: Eye>() -> (r: M)
    ensures
        r.is_eye(),
{
    M::eye()
}

/// The matrix determinant.
pub trait Det {
    type Output;

    /// The determinant can be represented in `Output`.
    spec fn det_fits(&self) -> bool;

    fn det(&self) -> (r: Self::Output)
        requires
            self.det_fits(),
    ;
}

proof fn lemma_product_bounds(a: int, b: int, c: int)
    requires
        -0x8000_0000 <= a <= 0x8000_0000,
        -0x8000_0000 <= b <= 0x8000_0000,
        -0x8000_0000 <= c <= 0x8000_0000,
    ensures
        -0x4000_0000_0000_0000 <= a * b <= 0x4000_0000_0000_0000,
        -0x2000_0000_0000_0000_0000_0000 <= a * b * c <= 0x2000_0000_0000_0000_0000_0000,
{
    assert(-0x4000_0000_0000_0000 <= a * b <= 0x4000_0000_0000_0000) by (nonlinear_arith)
        requires
            -0x8000_0000 <= a <= 0x8000_0000,
            -0x8000_0000 <= b <= 0x8000_0000,
    ;
    assert(-0x2000_0000_0000_0000_0000_0000 <= (a * b) * c <= 0x2000_0000_0000_0000_0000_0000) by (nonlinear_arith)
        requires
            -0x4000_0000_0000_0000 <= a * b <= 0x4000_0000_0000_0000,
            -0x8000_0000 <= c <= 0x8000_0000,
    ;
}

/// `a * b * c`, computed without overflow.
fn mul3(a: i32, b: i32, c: i32) -> (r: i128)
    ensures
        r == a * b * c,
        -0x2000_0000_0000_0000_0000_0000 <= r <= 0x2000_0000_0000_0000_0000_0000,
{
    proof {
        lemma_product_bounds(a as int, b as int, c as int);
    }
    let ab = (a as i64) * (b as i64);
    (ab as i128) * (c as i128)
}

/// `a * b - c * d`, computed without overflow.
fn cross2(a: i32, b: i32, c: i32, d: i32) -> (r: i128)
    ensures
        r == a * b - c * d,
{
    proof {
        lemma_product_bounds(a as int, b as int, 1);
        lemma_product_bounds(c as int, d as int, 1);
    }
    ((a as i64) * (b as i64)) as i128 - ((c as i64) * (d as i64)) as i128
}

impl Det for M22<i32> {
    type Output = i32;

    open spec fn det_fits(&self) -> bool {
        fits_i32(det22(self.0))
    }

    fn det(&self) -> (r: i32)
        ensures
            r == det22(self.0),
    {
        let m = &self.0;
        cross2(m[0][0], m[1][1], m[0][1], m[1][0]) as i32
    }
}

impl Det for M33<i32> {
    type Output = i32;

    open spec fn det_fits(&self) -> bool {
        fits_i32(det33(self.0))
    }

    fn det(&self) -> (r: i32)
        ensures
            r == det33(self.0),
    {
        let m = &self.0;
        let d = mul3(m[0][0], m[1][1], m[2][2]) + mul3(m[0][1], m[1][2], m[2][0]) + mul3(m[0][2], m[1][0], m[2][1])
            - mul3(m[0][0], m[1][2], m[2][1]) - mul3(m[0][1], m[1][0], m[2][2]) - mul3(m[0][2], m[1][1], m[2][0]);
        d as i32
    }
}

/// The inverse of a unimodular integer matrix (determinant ±1), which is again
/// an integer matrix.
pub trait Inv: Sized {
    /// The determinant is ±1 and the entries of the inverse fit the entry type.
    spec fn invertible(&self) -> bool;

    fn inv(&self) -> (r: Self)
        requires
            self.invertible(),
    ;
}

impl Inv for M22<i32> {
    open spec fn invertible(&self) -> bool {
        &&& (det22(self.0) == 1 || det22(self.0) == -1)
        &&& forall|r: int, c: int| 0 <= r < 2 && 0 <= c < 2 ==> self.0[r][c] != i32::MIN
    }

    fn inv(&self) -> (r: Self)
        ensures
            r.0[0][0] == det22(self.0) * self.0[1][1],
            r.0[0][1] == -det22(self.0) * self.0[0][1],
            r.0[1][0] == -det22(self.0) * self.0[1][0],
            r.0[1][1] == det22(self.0) * self.0[0][0],
    {
        let m = &self.0;
        assert(m[0][0] != i32::MIN && m[0][1] != i32::MIN && m[1][0] != i32::MIN && m[1][1] != i32::MIN);
        let d = self.det();
        if d == 1 {
            M2([[m[1][1], -m[0][1]], [-m[1][0], m[0][0]]])
        } else {
            M2([[-m[1][1], m[0][1]], [m[1][0], -m[0][0]]])
        }
    }
}

/// Entry (`r`, `c`) of the inverse of a unimodular 3x3 matrix with determinant `d`.
fn inv33_entry(m: &[[i32; 3]; 3], d: i32, r: usize, c: usize) -> (x: i32)
    requires
        d == 1 || d == -1,
        r < 3,
        c < 3,
        fits_i32(cofactor33(*m, c as int, r as int)),
        fits_i32(-cofactor33(*m, c as int, r as int)),
    ensures
        x == d * cofactor33(*m, c as int, r as int),
{
    let c1 = (c + 1) % 3;
    let c2 = (c + 2) % 3;
    let r1 = (r + 1) % 3;
    let r2 = (r + 2) % 3;
    let cof = cross2(m[c1][r1], m[c2][r2], m[c1][r2], m[c2][r1]);
    if d == 1 {
        cof as i32
    } else {
        (-cof) as i32
    }
}

impl Inv for M33<i32> {
    open spec fn invertible(&self) -> bool {
        &&& (det33(self.0) == 1 || det33(self.0) == -1)
        &&& forall|r: int, c: int|
            0 <= r < 3 && 0 <= c < 3 ==> fits_i32(#[trigger] cofactor33(self.0, r, c)) && fits_i32(
                -cofactor33(self.0, r, c),
            )
    }

    fn inv(&self) -> (r: Self)
        ensures
            forall|i: int, j: int| 0 <= i < 3 && 0 <= j < 3 ==> r.0[i][j] == det33(self.0) * cofactor33(self.0, j, i),
    {
        let m = &self.0;
        let d = self.det();
        assert(fits_i32(cofactor33(*m, 0, 0)));
        assert(fits_i32(cofactor33(*m, 0, 1)));
        assert(fits_i32(cofactor33(*m, 0, 2)));
        assert(fits_i32(cofactor33(*m, 1, 0)));
        assert(fits_i32(cofactor33(*m, 1, 1)));
        assert(fits_i32(cofactor33(*m, 1, 2)));
        assert(fits_i32(cofactor33(*m, 2, 0)));
        assert(fits_i32(cofactor33(*m, 2, 1)));
        assert(fits_i32(cofactor33(*m, 2, 2)));
        M3(
            [
                [inv33_entry(m, d, 0, 0), inv33_entry(m, d, 0, 1), inv33_entry(m, d, 0, 2)],
                [inv33_entry(m, d, 1, 0), inv33_entry(m, d, 1, 1), inv33_entry(m, d, 1, 2)],
                [inv33_entry(m, d, 2, 0), inv33_entry(m, d, 2, 1), inv33_entry(m, d, 2, 2)],
            ],
        )
    }
}

/// The matrix transpose.
pub trait Transpose {
    type Output;

    /// `t` is the transpose of `self`.
    spec fn transposed_by(&self, t: Self::Output) -> bool;

    fn t(&self) -> (r: Self::Output)
        ensures
            self.transposed_by(r),
    ;
}

impl<X: Copy> Transpose for M22<X> {
    type Output = M22<X>;

    open spec fn transposed_by(&self, t: M22<X>) -> bool {
        forall|r: int, c: int| 0 <= r < 2 && 0 <= c < 2 ==> t.0[r][c] == self.0[c][r]
    }

    fn t(&self) -> (r: M22<X>) {
        let m = &self.0;
        M2([[m[0][0], m[1][0]], [m[0][1], m[1][1]]])
    }
}

impl<X: Copy> Transpose for M33<X> {
    type Output = M33<X>;

    open spec fn transposed_by(&self, t: M33<X>) -> bool {
        forall|r: int, c: int| 0 <= r < 3 && 0 <= c < 3 ==> t.0[r][c] == self.0[c][r]
    }

    fn t(&self) -> (r: M33<X>) {
        let m = &self.0;
        M3([[m[0][0], m[1][0], m[2][0]], [m[0][1], m[1][1], m[2][1]], [m[0][2], m[1][2], m[2][2]]])
    }
}

impl<X: Copy> Transpose for M44<X> {
    type Output = M44<X>;

    open spec fn transposed_by(&self, t: M44<X>) -> bool {
        forall|r: int, c: int| 0 <= r < 4 && 0 <= c < 4 ==> t.0[r][c] == self.0[c][r]
    }

    fn t(&self) -> (r: M44<X>) {
        let m = &self.0;
        M4(
            [
                [m[0][0], m[1][0], m[2][0], m[3][0]],
                [m[0][1], m[1][1], m[2][1], m[3][1]],
                [m[0][2], m[1][2], m[2][2], m[3][2]],
                [m[0][3], m[1][3], m[2][3], m[3][3]],
            ],
        )
    }
}

/// The determinant of a 3x3 integer matrix, exactly.
pub fn det33_wide(m: &[[i32; 3]; 3]) -> (r: i128)
    ensures
        r == det33(*m),
{
    mul3(m[0][0], m[1][1], m[2][2]) + mul3(m[0][1], m[1][2], m[2][0]) + mul3(m[0][2], m[1][0], m[2][1])
        - mul3(m[0][0], m[1][2], m[2][1]) - mul3(m[0][1], m[1][0], m[2][2]) - mul3(m[0][2], m[1][1], m[2][0])
}

/// The determinant is ±1.
pub open spec fn unimodular33(m: [[i32; 3]; 3]) -> bool {
    det33(m) == 1 || det33(m) == -1
}

/// The matrix whose row `k` is entry `(i, j, k)[k]` of `choices[k]`.
pub open spec fn rows_at(choices: [Vec<[i32; 3]>; 3], i: int, j: int, k: int) -> [[i32; 3]; 3] {
    [choices[0]@[i], choices[1]@[j], choices[2]@[k]]
}

/// `(i, j, k)` indexes the three lists of choices.
pub open spec fn in_choices(choices: [Vec<[i32; 3]>; 3], i: int, j: int, k: int) -> bool {
    0 <= i < choices[0]@.len() && 0 <= j < choices[1]@.len() && 0 <= k < choices[2]@.len()
}

/// `m` is unimodular and takes each row `k` from `choices[k]`.
pub open spec fn unimodular_choice(choices: [Vec<[i32; 3]>; 3], m: [[i32; 3]; 3]) -> bool {
    &&& unimodular33(m)
    &&& exists|i: int, j: int, k: int| in_choices(choices, i, j, k) && m == #[trigger] rows_at(choices, i, j, k)
}

/// Output `m` is unimodular and made of the choices that `origin[m]` indexes.
spec fn origin_ok(choices: [Vec<[i32; 3]>; 3], origin: Seq<(int, int, int)>, out: Seq<M33<i32>>, m: int) -> bool {
    &&& in_choices(choices, origin[m].0, origin[m].1, origin[m].2)
    &&& out[m].0 == rows_at(choices, origin[m].0, origin[m].1, origin[m].2)
    &&& unimodular33(out[m].0)
}

/// `(i, j, k)` comes before `(x, y, z)` in lexicographic order.
spec fn lex_before(x: int, y: int, z: int, i: int, j: int, k: int) -> bool {
    x < i || (x == i && y < j) || (x == i && y == j && z < k)
}

/// The unimodular matrices whose row `k` is taken from `choices[k]`: each
/// one listed is such a matrix, and each such way of choosing is listed.
pub fn unimodular_combinations(choices: &[Vec<[i32; 3]>; 3]) -> (r: Vec<M33<i32>>)
    ensures
        forall|m: int| 0 <= m < r@.len() ==> unimodular_choice(*choices, #[trigger] r@[m].0),
        forall|i: int, j: int, k: int|
            in_choices(*choices, i, j, k) && unimodular33(#[trigger] rows_at(*choices, i, j, k)) ==> exists|m: int|
                0 <= m < r@.len() && (#[trigger] r@[m]).0 == rows_at(*choices, i, j, k),
{
    let mut out: Vec<M33<i32>> = Vec::new();
    // For each output matrix, the indices of its rows.
    let ghost mut origin: Seq<(int, int, int)> = Seq::empty();
    let n0 = choices[0].len();
    let n1 = choices[1].len();
    let n2 = choices[2].len();
    let mut i: usize = 0;
    let mut j: usize = 0;
    let mut k: usize = 0;
    // One loop over all index triples in lexicographic order.
    while i < n0
        invariant
            n0 == choices[0]@.len(),
            n1 == choices[1]@.len(),
            n2 == choices[2]@.len(),
            i <= n0,
            j < n1 || (j == 0 && n1 == 0),
            k < n2 || (k == 0 && n2 == 0),
            origin.len() == out@.len(),
            forall|m: int| 0 <= m < out@.len() ==> #[trigger] origin_ok(*choices, origin, out@, m),
            forall|x: int, y: int, z: int|
                in_choices(*choices, x, y, z) && lex_before(x, y, z, i as int, j as int, k as int) && unimodular33(
                    #[trigger] rows_at(*choices, x, y, z),
                ) ==> exists|m: int| 0 <= m < out@.len() && (#[trigger] out@[m]).0 == rows_at(*choices, x, y, z),
        decreases n0 - i, n1 - j, n2 - k,
    {
        if n1 == 0 || n2 == 0 {
            proof {
                assert forall|x: int, y: int, z: int|
                    in_choices(*choices, x, y, z) && lex_before(x, y, z, n0 as int, 0, 0) && unimodular33(
                        #[trigger] rows_at(*choices, x, y, z),
                    ) implies exists|m: int| 0 <= m < out@.len() && (#[trigger] out@[m]).0 == rows_at(*choices, x, y, z) by {
                }
            }
            i = n0;
            j = 0;
            k = 0;
        } else {
            let rows = [choices[0][i], choices[1][j], choices[2][k]];
            let d = det33_wide(&rows);
            let ghost before = out@;
            let ghost origin_before = origin;
            if d == 1 || d == -1 {
                out.push(M3(rows));
                proof {
                    origin = origin.push((i as int, j as int, k as int));
                }
            }
            proof {
                assert(rows == rows_at(*choices, i as int, j as int, k as int));
                assert forall|m: int| 0 <= m < out@.len() implies #[trigger] origin_ok(*choices, origin, out@, m) by {
                    if m < before.len() {
                        assert(origin_ok(*choices, origin_before, before, m));
                        assert(out@[m] == before[m]);
                        assert(origin[m] == origin_before[m]);
                    } else {
                        assert(out@[m].0 == rows);
                        assert(origin[m] == (i as int, j as int, k as int));
                        assert(det33(rows) == d);
                    }
                }
                let (ni, nj, nk) = if k + 1 < n2 {
                    (i as int, j as int, k + 1)
                } else if j + 1 < n1 {
                    (i as int, j + 1, 0int)
                } else {
                    (i + 1, 0int, 0int)
                };
                assert forall|x: int, y: int, z: int|
                    in_choices(*choices, x, y, z) && lex_before(x, y, z, ni, nj, nk) && unimodular33(
                        #[trigger] rows_at(*choices, x, y, z),
                    ) implies exists|m: int| 0 <= m < out@.len() && (#[trigger] out@[m]).0 == rows_at(*choices, x, y, z) by {
                    if x == i && y == j && z == k {
                        assert(out@[before.len() as int].0 == rows_at(*choices, x, y, z));
                    } else {
                        assert(lex_before(x, y, z, i as int, j as int, k as int));
                        let m = choose|m: int| 0 <= m < before.len() && (#[trigger] before[m]).0 == rows_at(*choices, x, y, z);
                        assert(out@[m] == before[m]);
                    }
                }
            }
            if k + 1 < n2 {
                k += 1;
            } else if j + 1 < n1 {
                j += 1;
                k = 0;
            } else {
                i += 1;
                j = 0;
                k = 0;
            }
        }
    }
    proof {
        assert forall|m: int| 0 <= m < out@.len() implies unimodular_choice(*choices, #[trigger] out@[m].0) by {
            assert(origin_ok(*choices, origin, out@, m));
            assert(out@[m].0 == rows_at(*choices, origin[m].0, origin[m].1, origin[m].2));
        }
    }
    out
}

} // verus!
