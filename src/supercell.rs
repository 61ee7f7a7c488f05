//! Diagonal supercells: each site of the supercell is an image of a
//! primitive atom under a lattice translation.
//!
//! Site `cell * n + atom` is the image of primitive atom `atom` in cell `cell`
//! (with `n` primitive atoms).  Cell `c` sits at lattice point
//! `(c mod a, (c / a) mod b, c / (a·b))` for periods `(a, b, c)`; cell 0 holds
//! the designated image of each primitive atom.

use vstd::prelude::*;

verus! {

/// The number of cells of a diagonal supercell with these periods.
pub open spec fn cell_count(periods: [u32; 3]) -> int {
    periods[0] * periods[1] * periods[2]
}

/// The supercell site of primitive atom `atom` in cell `cell`.
pub open spec fn image_index(n: int, cell: int, atom: int) -> int {
    cell * n + atom
}

/// The lattice point of cell `cell`.
pub open spec fn cell_point(periods: [u32; 3], cell: int) -> (int, int, int) {
    (cell % (periods[0] as int), (cell / (periods[0] as int)) % (periods[1] as int), cell / (periods[0] * periods[1]))
}

/// Records how a diagonal supercell was built from a primitive cell.
#[derive(Debug, Clone, Copy, PartialEq, Eq)]
pub struct SupercellToken {
    periods: [u32; 3],
    num_primitive: usize,
    num_cells: usize,
}

proof fn lemma_image_bounds(n: int, cells: int, cell: int, atom: int)
    requires
        0 <= atom < n,
        0 <= cell < cells,
    ensures
        0 <= image_index(n, cell, atom) < cells * n,
        image_index(n, cell, atom) % n == atom,
        image_index(n, cell, atom) / n == cell,
{
    assert(cell * n + atom < cells * n) by (nonlinear_arith)
        requires
            0 <= atom < n,
            0 <= cell < cells,
    ;
    assert(0 <= cell * n) by (nonlinear_arith)
        requires
            0 <= atom < n,
            0 <= cell,
    ;
    vstd::arithmetic::div_mod::lemma_fundamental_div_mod_converse(cell * n + atom, n, cell, atom);
}

/// Every site of a supercell with `cells` cells of `n` atoms is the image of
/// exactly one (atom, cell) pair: the image of `s % n` in cell `s / n`.
pub proof fn law_sites_are_images(n: int, cells: int, s: int)
    requires
        n > 0,
        0 <= s < cells * n,
    ensures
        0 <= s % n < n,
        0 <= s / n < cells,
        s == image_index(n, s / n, s % n),
{
    vstd::arithmetic::div_mod::lemma_fundamental_div_mod(s, n);
    vstd::arithmetic::div_mod::lemma_mod_pos_bound(s, n);
    let q = s / n;
    let r = s % n;
    assert(s == q * n + r) by (nonlinear_arith)
        requires
            s == n * q + r,
    ;
    assert(0 <= q < cells) by (nonlinear_arith)
        requires
            s == q * n + r,
            0 <= r < n,
            0 <= s < cells * n,
            n > 0,
    ;
}

/// Each primitive atom has one image per cell, all distinct: the images of
/// `atom` in cells `c1` and `c2` coincide only if `c1 == c2`, and the image
/// in cell `c` maps back to `atom` and `c`.
pub proof fn law_one_image_per_cell(n: int, cells: int, atom: int, c1: int, c2: int)
    requires
        0 <= atom < n,
        0 <= c1 < cells,
        0 <= c2 < cells,
    ensures
        0 <= image_index(n, c1, atom) < cells * n,
        image_index(n, c1, atom) % n == atom,
        image_index(n, c1, atom) / n == c1,
        image_index(n, c1, atom) == image_index(n, c2, atom) ==> c1 == c2,
{
    lemma_image_bounds(n, cells, c1, atom);
    lemma_image_bounds(n, cells, c2, atom);
}

impl SupercellToken {
    #[verifier::type_invariant]
    closed spec fn well_formed(self) -> bool {
        &&& self.periods[0] >= 1 && self.periods[1] >= 1 && self.periods[2] >= 1
        &&& self.num_cells == cell_count(self.periods)
        &&& self.num_cells * self.num_primitive <= usize::MAX
    }

    /// The periods along the three lattice vectors.
    pub closed spec fn periods_spec(&self) -> [u32; 3] {
        self.periods
    }

    /// The number of primitive atoms.
    pub closed spec fn num_primitive_spec(&self) -> int {
        self.num_primitive as int
    }

    /// A diagonal supercell of `periods` cells along each lattice vector, for
    /// a primitive cell of `num_primitive` atoms; `None` if a period is zero
    /// or the number of cells or of sites does not fit in `usize`.
    pub fn diagonal(periods: [u32; 3], num_primitive: usize) -> (r: Option<SupercellToken>)
        ensures
            r is Some <==> (periods[0] >= 1 && periods[1] >= 1 && periods[2] >= 1 && cell_count(periods) <= usize::MAX
                && cell_count(periods) * num_primitive <= usize::MAX),
            r matches Some(t) ==> t.periods_spec() == periods && t.num_primitive_spec() == num_primitive,
    {
        if periods[0] == 0 || periods[1] == 0 || periods[2] == 0 {
            return None;
        }
        proof {
            assert((periods[0] as int) * (periods[1] as int) <= 0xffff_ffff * 0xffff_ffff) by (nonlinear_arith)
                requires
                    periods[0] <= 0xffff_ffff,
                    periods[1] <= 0xffff_ffff,
            ;
            assert((periods[0] as int) * (periods[1] as int) * (periods[2] as int) <= 0xffff_ffff * 0xffff_ffff
                * 0xffff_ffff) by (nonlinear_arith)
                requires
                    (periods[0] as int) * (periods[1] as int) <= 0xffff_ffff * 0xffff_ffff,
                    periods[0] >= 0,
                    periods[1] >= 0,
                    periods[2] <= 0xffff_ffff,
            ;
        }
        let ab = (periods[0] as u64) * (periods[1] as u64);
        let cells = (ab as u128) * (periods[2] as u128);
        proof {
            assert(cells as int == cell_count(periods));
            assert(cell_count(periods) >= 1) by (nonlinear_arith)
                requires
                    periods[0] >= 1,
                    periods[1] >= 1,
                    periods[2] >= 1,
            ;
        }
        if cells > usize::MAX as u128 {
            return None;
        }
        let cells = cells as usize;
        match cells.checked_mul(num_primitive) {
            Some(_) => Some(SupercellToken { periods, num_primitive, num_cells: cells }),
            None => None,
        }
    }

    /// The number of cells, `a·b·c`.
    pub fn num_cells(&self) -> (r: usize)
        ensures
            r == cell_count(self.periods_spec()),
    {
        proof {
            use_type_invariant(self);
        }
        self.num_cells
    }

    /// The number of primitive atoms.
    pub fn num_primitive(&self) -> (r: usize)
        ensures
            r == self.num_primitive_spec(),
    {
        self.num_primitive
    }

    /// The number of supercell sites: one image of each primitive atom per cell.
    pub fn num_supercell(&self) -> (r: usize)
        ensures
            r == cell_count(self.periods_spec()) * self.num_primitive_spec(),
    {
        proof {
            use_type_invariant(self);
        }
        self.num_cells * self.num_primitive
    }

    /// The supercell site of `atom` in cell `cell`.
    pub fn image(&self, atom: usize, cell: usize) -> (r: usize)
        requires
            atom < self.num_primitive_spec(),
            cell < cell_count(self.periods_spec()),
        ensures
            r == image_index(self.num_primitive_spec(), cell as int, atom as int),
    {
        proof {
            use_type_invariant(self);
            lemma_image_bounds(self.num_primitive as int, self.num_cells as int, cell as int, atom as int);
        }
        cell * self.num_primitive + atom
    }

    /// The primitive atom of which site `s` is an image.
    pub fn atom_of(&self, s: usize) -> (r: usize)
        requires
            s < cell_count(self.periods_spec()) * self.num_primitive_spec(),
        ensures
            r == (s as int) % self.num_primitive_spec(),
    {
        s % self.num_primitive
    }

    /// The cell that holds site `s`.
    pub fn cell_of(&self, s: usize) -> (r: usize)
        requires
            s < cell_count(self.periods_spec()) * self.num_primitive_spec(),
        ensures
            r == (s as int) / self.num_primitive_spec(),
    {
        s / self.num_primitive
    }

    /// The lattice point of the cell that holds site `s`.
    pub fn lattice_point_of(&self, s: usize) -> (r: [u32; 3])
        requires
            s < cell_count(self.periods_spec()) * self.num_primitive_spec(),
        ensures
            (r[0] as int, r[1] as int, r[2] as int) == cell_point(
                self.periods_spec(),
                (s as int) / self.num_primitive_spec(),
            ),
    {
        proof {
            use_type_invariant(self);
            assert(self.num_primitive > 0) by (nonlinear_arith)
                requires
                    s < self.num_cells * self.num_primitive,
                    s >= 0,
                    self.num_cells >= 0,
            ;
        }
        let c = s / self.num_primitive;
        let a = self.periods[0] as usize;
        let b = self.periods[1] as usize;
        proof {
            assert(c <= s) by (nonlinear_arith)
                requires
                    c == s / self.num_primitive,
                    self.num_primitive > 0,
            ;
            assert(a * b <= a * b * self.periods[2]) by (nonlinear_arith)
                requires
                    self.periods[2] >= 1,
                    a >= 1,
                    b >= 1,
            ;
            assert(a * b * self.periods[2] == self.num_cells);
            assert(a * b >= 1) by (nonlinear_arith)
                requires
                    a >= 1,
                    b >= 1,
            ;
            assert(c < self.num_cells) by (nonlinear_arith)
                requires
                    c == s / self.num_primitive,
                    s < self.num_cells * self.num_primitive,
                    self.num_primitive > 0,
                    s >= 0,
            ;
        }
        let ab = a * b;
        proof {
            assert(c / ab <= c) by (nonlinear_arith)
                requires
                    ab >= 1,
                    c >= 0,
            ;
            assert(c / ab < self.periods[2]) by (nonlinear_arith)
                requires
                    ab >= 1,
                    c >= 0,
                    c < ab * self.periods[2],
            ;
        }
        [(c % a) as u32, ((c / a) % b) as u32, (c / ab) as u32]
    }

    /// Values of the primitive atoms, repeated for each cell: site `s` gets the
    /// value of atom `s % n`.
    pub fn replicate<T: Copy>(&self, prim: &Vec<T>) -> (r: Vec<T>)
        requires
            prim@.len() == self.num_primitive_spec(),
        ensures
            r@.len() == cell_count(self.periods_spec()) * self.num_primitive_spec(),
            forall|s: int| 0 <= s < r@.len() ==> #[trigger] r@[s] == prim@[s % self.num_primitive_spec()],
    {
        proof {
            use_type_invariant(self);
        }
        let total = self.num_cells * self.num_primitive;
        let n = self.num_primitive;
        let mut out: Vec<T> = Vec::new();
        let mut s: usize = 0;
        while s < total
            invariant
                n == prim@.len(),
                total == self.num_cells * n,
                s <= total,
                out@.len() == s,
                forall|k: int| 0 <= k < s ==> #[trigger] out@[k] == prim@[k % n as int],
            decreases total - s,
        {
            proof {
                assert(n > 0) by (nonlinear_arith)
                    requires
                        s < total,
                        total == self.num_cells * n,
                        self.num_cells >= 0,
                ;
                vstd::arithmetic::div_mod::lemma_mod_pos_bound(s as int, n as int);
            }
            out.push(prim[s % n]);
            s += 1;
        }
        out
    }
}

} // verus!
