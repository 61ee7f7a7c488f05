//! Choice of the atomic displacements whose force responses determine the
//! force constants under symmetry.
//!
//! Directions are integer vectors in the lattice basis.  For each atom that
//! represents its orbit under the space group, the candidates are taken in
//! order; a candidate is emitted unless it is already covered, and emitting a
//! direction covers its images under every operation that fixes the atom.

use vstd::prelude::*;

use crate::config::PhononDispFinderRsp2Directions;
use crate::perm::{inverse_of, is_perm, lemma_inverse, Perm};
use crate::symmops::{dot3, FracOp};

verus! {

/// Component `k` of `R·d`.
pub open spec fn rotated(r: [[i32; 3]; 3], d: [i32; 3], k: int) -> int {
    r[k][0] * d[0] + r[k][1] * d[1] + r[k][2] * d[2]
}

/// `e` is `R·d`.
pub open spec fn is_rotation_of(r: [[i32; 3]; 3], d: [i32; 3], e: [i32; 3]) -> bool {
    e[0] == rotated(r, d, 0) && e[1] == rotated(r, d, 1) && e[2] == rotated(r, d, 2)
}

/// No operation maps atom `i` to a smaller index: `i` is the first atom of
/// its orbit.
pub open spec fn is_representative(perms: Seq<Perm>, i: int) -> bool {
    forall|g: int| 0 <= g < perms.len() ==> (#[trigger] perms[g]@)[i] >= i
}

/// Displacing atom `i` along `e` determines its response along `d`: `d` is
/// `e`, or its image under an operation that fixes `i`.
pub open spec fn covers(ops: Seq<FracOp>, perms: Seq<Perm>, i: int, e: [i32; 3], d: [i32; 3]) -> bool {
    d == e || exists|g: int|
        0 <= g < ops.len() && (#[trigger] perms[g]@)[i] == i && is_rotation_of(ops[g].rot, e, d)
}

/// Some displacement of atom `i` in `plan` covers direction `d`.
pub open spec fn plan_covers(
    ops: Seq<FracOp>,
    perms: Seq<Perm>,
    plan: Seq<(usize, [i32; 3])>,
    i: int,
    d: [i32; 3],
) -> bool {
    exists|m: int| 0 <= m < plan.len() && plan[m].0 == i && #[trigger] covers(ops, perms, i, plan[m].1, d)
}

/// A rotated direction has an entry that does not fit in `i32`.
#[derive(Debug, Clone, Copy, PartialEq, Eq, Structural)]
pub struct DirectionOverflow;

/// Whether two directions are equal.
fn same_direction(a: &[i32; 3], b: &[i32; 3]) -> (r: bool)
    ensures
        r == (*a == *b),
{
    let r = a[0] == b[0] && a[1] == b[1] && a[2] == b[2];
    if r {
        assert(*a =~= *b);
    }
    r
}

/// Whether `d` occurs in `dirs`.
fn contains_direction(dirs: &Vec<[i32; 3]>, d: &[i32; 3]) -> (r: bool)
    ensures
        r == dirs@.contains(*d),
{
    let mut i: usize = 0;
    while i < dirs.len()
        invariant
            i <= dirs@.len(),
            forall|j: int| 0 <= j < i ==> dirs@[j] != *d,
        decreases dirs.len() - i,
    {
        if same_direction(&dirs[i], d) {
            assert(dirs@[i as int] == *d);
            return true;
        }
        i += 1;
    }
    false
}

/// Every entry of `R·d` fits in `i32`.
pub open spec fn rotation_fits(r: [[i32; 3]; 3], d: [i32; 3]) -> bool {
    &&& i32::MIN <= rotated(r, d, 0) <= i32::MAX
    &&& i32::MIN <= rotated(r, d, 1) <= i32::MAX
    &&& i32::MIN <= rotated(r, d, 2) <= i32::MAX
}

/// `R·d`, or `None` when an entry does not fit in `i32`.
fn rotate(r: &[[i32; 3]; 3], d: &[i32; 3]) -> (out: Option<[i32; 3]>)
    ensures
        out is Some <==> rotation_fits(*r, *d),
        out matches Some(e) ==> is_rotation_of(*r, *d, e),
{
    let x = dot3(r[0][0], r[0][1], r[0][2], d[0] as i64, d[1] as i64, d[2] as i64);
    let y = dot3(r[1][0], r[1][1], r[1][2], d[0] as i64, d[1] as i64, d[2] as i64);
    let z = dot3(r[2][0], r[2][1], r[2][2], d[0] as i64, d[1] as i64, d[2] as i64);
    if x < i32::MIN as i128 || x > i32::MAX as i128 || y < i32::MIN as i128 || y > i32::MAX as i128 || z < i32::MIN
        as i128 || z > i32::MAX as i128 {
        return None;
    }
    Some([x as i32, y as i32, z as i32])
}

/// Whether atom `i` is the first of its orbit.
fn representative(perms: &Vec<Perm>, i: usize) -> (r: bool)
    requires
        forall|g: int| 0 <= g < perms@.len() ==> i < (#[trigger] perms@[g]@).len(),
    ensures
        r == is_representative(perms@, i as int),
{
    let mut g: usize = 0;
    while g < perms.len()
        invariant
            g <= perms@.len(),
            forall|h: int| 0 <= h < perms@.len() ==> i < (#[trigger] perms@[h]@).len(),
            forall|h: int| 0 <= h < g ==> (#[trigger] perms@[h]@)[i as int] >= i,
        decreases perms.len() - g,
    {
        if perms[g].get(i) < i {
            return false;
        }
        g += 1;
    }
    true
}

/// The largest coordinate of the candidate directions of a policy.
pub open spec fn policy_reach(policy: PhononDispFinderRsp2Directions) -> int {
    match policy {
        PhononDispFinderRsp2Directions::Axial => 0,
        PhononDispFinderRsp2Directions::Diag => 1,
        _ => 2,
    }
}

/// A direction off the axes, coordinates within `reach`, first nonzero
/// coordinate positive.
pub open spec fn off_axis_candidate(d: [i32; 3], reach: int) -> bool {
    &&& -reach <= d[0] <= reach && -reach <= d[1] <= reach && -reach <= d[2] <= reach
    &&& (d[0] > 0 || (d[0] == 0 && (d[1] > 0 || (d[1] == 0 && d[2] > 0))))
    &&& (if d[0] != 0 { 1int } else { 0int }) + (if d[1] != 0 { 1int } else { 0int }) + (if d[2] != 0 { 1int } else { 0int }) >= 2
}

/// `(x, y, z)` comes before `(a, b, c)` in lexicographic order.
spec fn lex_lt(x: int, y: int, z: int, a: int, b: int, c: int) -> bool {
    x < a || (x == a && y < b) || (x == a && y == b && z < c)
}

/// The candidate directions of a policy: the lattice vectors, then every
/// direction off the axes with coordinates within `-1..=1` for `Diag` or
/// `-2..=2` for `Diag2` and `Survey`, each up to sign.
pub fn candidate_directions(policy: PhononDispFinderRsp2Directions) -> (r: Vec<[i32; 3]>)
    ensures
        r@.len() >= 3,
        r@[0] == [1i32, 0, 0] && r@[1] == [0i32, 1, 0] && r@[2] == [0i32, 0, 1],
        forall|m: int| 3 <= m < r@.len() ==> off_axis_candidate(#[trigger] r@[m], policy_reach(policy)),
        forall|d: [i32; 3]| #[trigger] off_axis_candidate(d, policy_reach(policy)) ==> r@.contains(d),
{
    let mut out: Vec<[i32; 3]> = Vec::new();
    out.push([1, 0, 0]);
    out.push([0, 1, 0]);
    out.push([0, 0, 1]);
    let max: i32 = match policy {
        PhononDispFinderRsp2Directions::Axial => 0,
        PhononDispFinderRsp2Directions::Diag => 1,
        _ => 2,
    };
    if max == 0 {
        assert forall|d: [i32; 3]| #[trigger] off_axis_candidate(d, policy_reach(policy)) implies out@.contains(d) by {
            assert(d[0] == 0 && d[1] == 0 && d[2] == 0);
        }
        return out;
    }
    let ghost reach = max as int;
    let mut a: i32 = -max;
    let mut b: i32 = -max;
    let mut c: i32 = -max;
    while a <= max
        invariant
            1 <= max <= 2,
            reach == max,
            reach == policy_reach(policy),
            -max <= a <= max + 1,
            -max <= b <= max,
            -max <= c <= max,
            a == max + 1 ==> b == -max && c == -max,
            out@.len() >= 3,
            out@[0] == [1i32, 0, 0] && out@[1] == [0i32, 1, 0] && out@[2] == [0i32, 0, 1],
            forall|m: int| 3 <= m < out@.len() ==> off_axis_candidate(#[trigger] out@[m], reach),
            forall|d: [i32; 3]|
                #[trigger] off_axis_candidate(d, reach) && lex_lt(d[0] as int, d[1] as int, d[2] as int, a as int, b as int, c as int)
                    ==> out@.contains(d),
        decreases max + 1 - a, max - b, max - c,
    {
        let d = [a, b, c];
        let positive = a > 0 || (a == 0 && (b > 0 || (b == 0 && c > 0)));
        let nonzero = (a != 0) as i32 + (b != 0) as i32 + (c != 0) as i32;
        let ghost before = out@;
        if positive && nonzero >= 2 {
            out.push(d);
        }
        proof {
            assert(off_axis_candidate(d, reach) == (positive && nonzero >= 2));
            assert forall|m: int| 3 <= m < out@.len() implies off_axis_candidate(#[trigger] out@[m], reach) by {
                if m < before.len() {
                    assert(out@[m] == before[m]);
                }
            }
            let (na, nb, nc) = if c < max {
                (a as int, b as int, c + 1)
            } else if b < max {
                (a as int, b + 1, -reach)
            } else {
                (a + 1, -reach, -reach)
            };
            assert forall|e: [i32; 3]|
                #[trigger] off_axis_candidate(e, reach) && lex_lt(e[0] as int, e[1] as int, e[2] as int, na, nb, nc)
                    implies out@.contains(e) by {
                if e[0] == a && e[1] == b && e[2] == c {
                    assert(e =~= d);
                    assert(out@[out@.len() - 1] == d);
                } else {
                    assert(lex_lt(e[0] as int, e[1] as int, e[2] as int, a as int, b as int, c as int));
                    assert(before.contains(e));
                    let k = choose|k: int| 0 <= k < before.len() && before[k] == e;
                    assert(out@[k] == e);
                }
            }
        }
        if c < max {
            c += 1;
        } else if b < max {
            b += 1;
            c = -max;
        } else {
            a += 1;
            b = -max;
            c = -max;
        }
    }
    proof {
        assert forall|d: [i32; 3]| #[trigger] off_axis_candidate(d, policy_reach(policy)) implies out@.contains(d) by {
            assert(lex_lt(d[0] as int, d[1] as int, d[2] as int, a as int, b as int, c as int));
        }
    }
    out
}

proof fn lemma_plan_covers_push(
    ops: Seq<FracOp>,
    perms: Seq<Perm>,
    plan: Seq<(usize, [i32; 3])>,
    x: (usize, [i32; 3]),
    a: int,
    d: [i32; 3],
)
    requires
        plan_covers(ops, perms, plan, a, d),
    ensures
        plan_covers(ops, perms, plan.push(x), a, d),
{
    let m = choose|m: int| 0 <= m < plan.len() && plan[m].0 == a && #[trigger] covers(ops, perms, a, plan[m].1, d);
    assert(plan.push(x)[m] == plan[m]);
}

proof fn lemma_contains_push(s: Seq<[i32; 3]>, x: [i32; 3], e: [i32; 3])
    requires
        s.contains(e),
    ensures
        s.push(x).contains(e),
{
    let k = choose|k: int| 0 <= k < s.len() && s[k] == e;
    assert(s.push(x)[k] == e);
}

/// Plans the displacements: for each representative atom, each candidate
/// direction not yet covered is emitted, and covers its images under the
/// operations that fix the atom.  `site_perms[g]` is the permutation of the
/// atoms induced by `ops[g]`.
pub fn plan_displacements(
    num_atoms: usize,
    ops: &Vec<FracOp>,
    site_perms: &Vec<Perm>,
    candidates: &Vec<[i32; 3]>,
) -> (r: Result<Vec<(usize, [i32; 3])>, DirectionOverflow>)
    requires
        ops@.len() == site_perms@.len(),
        forall|g: int| 0 <= g < site_perms@.len() ==> (#[trigger] site_perms@[g]@).len() == num_atoms,
    ensures
        r matches Ok(out) ==> {
            &&& forall|m: int|
                0 <= m < out@.len() ==> (#[trigger] out@[m]).0 < num_atoms && is_representative(
                    site_perms@,
                    out@[m].0 as int,
                ) && candidates@.contains(out@[m].1)
            &&& forall|i: int, c: int|
                0 <= i < num_atoms && 0 <= c < candidates@.len() && is_representative(site_perms@, i)
                    ==> #[trigger] plan_covers(ops@, site_perms@, out@, i, candidates@[c])
            &&& forall|m1: int, m2: int|
                0 <= m1 < m2 < out@.len() && out@[m1].0 == out@[m2].0 ==> !#[trigger] covers(
                    ops@,
                    site_perms@,
                    out@[m1].0 as int,
                    out@[m1].1,
                    out@[m2].1,
                )
        },
        r is Err ==> exists|g: int, c: int|
            0 <= g < ops@.len() && 0 <= c < candidates@.len() && !#[trigger] rotation_fits(ops@[g].rot, candidates@[c]),
{
    let mut out: Vec<(usize, [i32; 3])> = Vec::new();
    let mut i: usize = 0;
    while i < num_atoms
        invariant
            i <= num_atoms,
            ops@.len() == site_perms@.len(),
            forall|g: int| 0 <= g < site_perms@.len() ==> (#[trigger] site_perms@[g]@).len() == num_atoms,
            forall|m: int|
                0 <= m < out@.len() ==> (#[trigger] out@[m]).0 < i && is_representative(site_perms@, out@[m].0 as int)
                    && candidates@.contains(out@[m].1),
            forall|a: int, c: int|
                0 <= a < i && 0 <= c < candidates@.len() && is_representative(site_perms@, a)
                    ==> #[trigger] plan_covers(ops@, site_perms@, out@, a, candidates@[c]),
            forall|m1: int, m2: int|
                0 <= m1 < m2 < out@.len() && out@[m1].0 == out@[m2].0 ==> !#[trigger] covers(
                    ops@,
                    site_perms@,
                    out@[m1].0 as int,
                    out@[m1].1,
                    out@[m2].1,
                ),
        decreases num_atoms - i,
    {
        if !representative(site_perms, i) {
            i += 1;
            continue;
        }
        let ghost start = out@.len() as int;
        let mut covered: Vec<[i32; 3]> = Vec::new();
        let mut c: usize = 0;
        while c < candidates.len()
            invariant
                i < num_atoms,
                ops@.len() == site_perms@.len(),
                forall|g: int| 0 <= g < site_perms@.len() ==> (#[trigger] site_perms@[g]@).len() == num_atoms,
                is_representative(site_perms@, i as int),
                0 <= start <= out@.len(),
                c <= candidates@.len(),
                forall|m: int|
                    0 <= m < start ==> (#[trigger] out@[m]).0 < i && is_representative(site_perms@, out@[m].0 as int)
                        && candidates@.contains(out@[m].1),
                forall|m: int|
                    start <= m < out@.len() ==> (#[trigger] out@[m]).0 == i && candidates@.contains(out@[m].1),
                forall|a: int, cc: int|
                    0 <= a < i && 0 <= cc < candidates@.len() && is_representative(site_perms@, a)
                        ==> #[trigger] plan_covers(ops@, site_perms@, out@, a, candidates@[cc]),
                forall|d: [i32; 3]| #[trigger] covered@.contains(d) ==> plan_covers(ops@, site_perms@, out@, i as int, d),
                forall|m: int, d: [i32; 3]|
                    start <= m < out@.len() && #[trigger] covers(ops@, site_perms@, i as int, out@[m].1, d)
                        ==> covered@.contains(d),
                forall|cc: int| 0 <= cc < c ==> #[trigger] covered@.contains(candidates@[cc]),
                forall|m1: int, m2: int|
                    0 <= m1 < m2 < out@.len() && out@[m1].0 == out@[m2].0 ==> !#[trigger] covers(
                        ops@,
                        site_perms@,
                        out@[m1].0 as int,
                        out@[m1].1,
                        out@[m2].1,
                    ),
            decreases candidates.len() - c,
        {
            let d = candidates[c];
            proof {
                assert(candidates@.contains(d)) by {
                    assert(candidates@[c as int] == d);
                }
            }
            if !contains_direction(&covered, &d) {
                let ghost m_new = out@.len() as int;
                let ghost before = out@;
                let ghost covered_before = covered@;
                out.push((i, d));
                covered.push(d);
                proof {
                    assert(out@[m_new] == (i, d));
                    assert forall|m1: int, m2: int|
                        0 <= m1 < m2 < out@.len() && out@[m1].0 == out@[m2].0 implies !#[trigger] covers(
                        ops@,
                        site_perms@,
                        out@[m1].0 as int,
                        out@[m1].1,
                        out@[m2].1,
                    ) by {
                        if m2 == m_new {
                            assert(out@[m1] == before[m1]);
                            if m1 < start {
                                assert(before[m1].0 < i);
                            } else {
                                if covers(ops@, site_perms@, i as int, before[m1].1, d) {
                                    assert(covered_before.contains(d));
                                }
                            }
                        } else {
                            assert(out@[m1] == before[m1] && out@[m2] == before[m2]);
                        }
                    }
                    assert forall|m: int| 0 <= m < start implies (#[trigger] out@[m]).0 < i && is_representative(
                        site_perms@,
                        out@[m].0 as int,
                    ) && candidates@.contains(out@[m].1) by {
                        assert(out@[m] == before[m]);
                    }
                    assert forall|m: int| start <= m < out@.len() implies (#[trigger] out@[m]).0 == i
                        && candidates@.contains(out@[m].1) by {
                        if m < m_new {
                            assert(out@[m] == before[m]);
                        }
                    }
                    assert forall|a: int, cc: int|
                        0 <= a < i && 0 <= cc < candidates@.len() && is_representative(site_perms@, a) implies #[trigger] plan_covers(
                        ops@,
                        site_perms@,
                        out@,
                        a,
                        candidates@[cc],
                    ) by {
                        lemma_plan_covers_push(ops@, site_perms@, before, (i, d), a, candidates@[cc]);
                    }
                    assert forall|e: [i32; 3]| #[trigger] covered@.contains(e) implies plan_covers(
                        ops@,
                        site_perms@,
                        out@,
                        i as int,
                        e,
                    ) by {
                        if e == d {
                            assert(covers(ops@, site_perms@, i as int, out@[m_new].1, e));
                        } else {
                            let k = choose|k: int| 0 <= k < covered@.len() && covered@[k] == e;
                            assert(covered_before[k] == e);
                            assert(covered_before.contains(e));
                            lemma_plan_covers_push(ops@, site_perms@, before, (i, d), i as int, e);
                        }
                    }
                    assert forall|m: int, e: [i32; 3]|
                        start <= m < m_new && #[trigger] covers(ops@, site_perms@, i as int, out@[m].1, e) implies covered@.contains(
                        e,
                    ) by {
                        assert(out@[m] == before[m]);
                        lemma_contains_push(covered_before, d, e);
                    }
                    assert forall|cc: int| 0 <= cc < c implies #[trigger] covered@.contains(candidates@[cc]) by {
                        lemma_contains_push(covered_before, d, candidates@[cc]);
                    }
                    assert(covered@[covered@.len() - 1] == d);
                }
                let mut g: usize = 0;
                while g < ops.len()
                    invariant
                        i < num_atoms,
                        ops@.len() == site_perms@.len(),
                        forall|h: int| 0 <= h < site_perms@.len() ==> (#[trigger] site_perms@[h]@).len() == num_atoms,
                        g <= ops@.len(),
                        c < candidates@.len(),
                        candidates@[c as int] == d,
                        0 <= start <= m_new < out@.len(),
                        out@.len() == m_new + 1,
                        out@[m_new] == (i, d),
                        covered@.contains(d),
                        forall|e: [i32; 3]| #[trigger] covered@.contains(e) ==> plan_covers(ops@, site_perms@, out@, i as int, e),
                        forall|m: int, e: [i32; 3]|
                            start <= m < m_new && #[trigger] covers(ops@, site_perms@, i as int, out@[m].1, e)
                                ==> covered@.contains(e),
                        forall|cc: int| 0 <= cc < c ==> #[trigger] covered@.contains(candidates@[cc]),
                        forall|h: int, e: [i32; 3]|
                            0 <= h < g && site_perms@[h]@[i as int] == i && #[trigger] is_rotation_of(ops@[h].rot, d, e)
                                ==> covered@.contains(e),
                    decreases ops.len() - g,
                {
                    if site_perms[g].get(i) == i {
                        match rotate(&ops[g].rot, &d) {
                            Some(e) => {
                                let ghost old_covered = covered@;
                                covered.push(e);
                                proof {
                                    assert(covers(ops@, site_perms@, i as int, d, e));
                                    assert(covers(ops@, site_perms@, i as int, out@[m_new].1, e));
                                    assert forall|ee: [i32; 3]| #[trigger] covered@.contains(ee) implies plan_covers(
                                        ops@,
                                        site_perms@,
                                        out@,
                                        i as int,
                                        ee,
                                    ) by {
                                        if ee != e {
                                            let k = choose|k: int| 0 <= k < covered@.len() && covered@[k] == ee;
                                            assert(old_covered[k] == ee);
                                            assert(old_covered.contains(ee));
                                        }
                                    }
                                    assert forall|m: int, ee: [i32; 3]|
                                        start <= m < m_new && #[trigger] covers(ops@, site_perms@, i as int, out@[m].1, ee)
                                            implies covered@.contains(ee) by {
                                        lemma_contains_push(old_covered, e, ee);
                                    }
                                    assert forall|cc: int| 0 <= cc < c implies #[trigger] covered@.contains(candidates@[cc]) by {
                                        lemma_contains_push(old_covered, e, candidates@[cc]);
                                    }
                                    assert forall|h: int, ee: [i32; 3]|
                                        0 <= h < g + 1 && site_perms@[h]@[i as int] == i && #[trigger] is_rotation_of(
                                            ops@[h].rot,
                                            d,
                                            ee,
                                        ) implies covered@.contains(ee) by {
                                        if h == g {
                                            assert(ee =~= e);
                                            assert(covered@[covered@.len() - 1] == e);
                                        } else {
                                            lemma_contains_push(old_covered, e, ee);
                                        }
                                    }
                                    lemma_contains_push(old_covered, e, d);
                                }
                            },
                            None => {
                                assert(candidates@[c as int] == d);
                                assert(!rotation_fits(ops@[g as int].rot, candidates@[c as int]));
                                return Err(DirectionOverflow);
                            },
                        }
                    }
                    g += 1;
                }
                proof {
                    assert forall|m: int, e: [i32; 3]|
                        start <= m < out@.len() && #[trigger] covers(ops@, site_perms@, i as int, out@[m].1, e)
                            implies covered@.contains(e) by {
                        if m == m_new {
                            if e != d {
                                let h = choose|h: int|
                                    0 <= h < ops@.len() && (#[trigger] site_perms@[h]@)[i as int] == i && is_rotation_of(
                                        ops@[h].rot,
                                        d,
                                        e,
                                    );
                                assert(is_rotation_of(ops@[h].rot, d, e));
                            }
                        }
                    }
                }
            }
            proof {
                assert(covered@.contains(d));
                assert forall|cc: int| 0 <= cc < c + 1 implies #[trigger] covered@.contains(candidates@[cc]) by {
                    if cc == c {
                        assert(candidates@[cc] == d);
                    }
                }
            }
            c += 1;
        }
        proof {
            assert forall|a: int, cc: int|
                0 <= a < i + 1 && 0 <= cc < candidates@.len() && is_representative(site_perms@, a) implies #[trigger] plan_covers(
                ops@,
                site_perms@,
                out@,
                a,
                candidates@[cc],
            ) by {
                if a == i {
                    assert(covered@.contains(candidates@[cc]));
                }
            }
        }
        i += 1;
    }
    Ok(out)
}

/// For each atom `t`, an operation `g` and a representative atom `i` with
/// `site_perms[g]` sending `i` to `t` (the first such `g`), or `None` when
/// there is none: the rows of the force constants of `t` follow from those
/// of `i` under `g`.
pub fn orbit_sources(num_atoms: usize, site_perms: &Vec<Perm>) -> (r: Vec<Option<(usize, usize)>>)
    requires
        forall|g: int| 0 <= g < site_perms@.len() ==> (#[trigger] site_perms@[g]@).len() == num_atoms,
    ensures
        r@.len() == num_atoms,
        forall|t: int|
            0 <= t < num_atoms ==> match #[trigger] r@[t] {
                Some((g, i)) => {
                    &&& g < site_perms@.len()
                    &&& i < num_atoms
                    &&& is_representative(site_perms@, i as int)
                    &&& site_perms@[g as int]@[i as int] == t
                },
                None => forall|h: int, a: int|
                    0 <= h < site_perms@.len() && 0 <= a < num_atoms && is_representative(site_perms@, a)
                        ==> #[trigger] site_perms@[h]@[a] != t,
            },
{
    let mut inverses: Vec<Perm> = Vec::new();
    let mut g: usize = 0;
    while g < site_perms.len()
        invariant
            g <= site_perms@.len(),
            inverses@.len() == g,
            forall|h: int| 0 <= h < g ==> (#[trigger] inverses@[h])@ == inverse_of(site_perms@[h]@),
            forall|h: int| 0 <= h < g ==> is_perm(#[trigger] site_perms@[h]@),
        decreases site_perms.len() - g,
    {
        inverses.push(site_perms[g].inverted());
        g += 1;
    }
    let mut out: Vec<Option<(usize, usize)>> = Vec::new();
    let mut t: usize = 0;
    while t < num_atoms
        invariant
            t <= num_atoms,
            inverses@.len() == site_perms@.len(),
            forall|h: int| 0 <= h < inverses@.len() ==> (#[trigger] inverses@[h])@ == inverse_of(site_perms@[h]@),
            forall|h: int| 0 <= h < site_perms@.len() ==> (#[trigger] site_perms@[h]@).len() == num_atoms,
            forall|h: int| 0 <= h < site_perms@.len() ==> is_perm(#[trigger] site_perms@[h]@),
            out@.len() == t,
            forall|u: int|
                0 <= u < t ==> match #[trigger] out@[u] {
                    Some((g, i)) => {
                        &&& g < site_perms@.len()
                        &&& i < num_atoms
                        &&& is_representative(site_perms@, i as int)
                        &&& site_perms@[g as int]@[i as int] == u
                    },
                    None => forall|h: int, a: int|
                        0 <= h < site_perms@.len() && 0 <= a < num_atoms && is_representative(site_perms@, a)
                            ==> #[trigger] site_perms@[h]@[a] != u,
                },
        decreases num_atoms - t,
    {
        let mut found: Option<(usize, usize)> = None;
        let mut g: usize = 0;
        while g < inverses.len() && found.is_none()
            invariant
                t < num_atoms,
                g <= inverses@.len(),
                inverses@.len() == site_perms@.len(),
                forall|h: int| 0 <= h < inverses@.len() ==> (#[trigger] inverses@[h])@ == inverse_of(site_perms@[h]@),
                forall|h: int| 0 <= h < site_perms@.len() ==> (#[trigger] site_perms@[h]@).len() == num_atoms,
                forall|h: int| 0 <= h < site_perms@.len() ==> is_perm(#[trigger] site_perms@[h]@),
                found matches Some((gg, i)) ==> {
                    &&& gg < site_perms@.len()
                    &&& i < num_atoms
                    &&& is_representative(site_perms@, i as int)
                    &&& site_perms@[gg as int]@[i as int] == t
                },
                found is None ==> forall|h: int, i: int|
                    0 <= h < g && 0 <= i < num_atoms && is_representative(site_perms@, i)
                        ==> #[trigger] site_perms@[h]@[i] != t,
            decreases inverses.len() - g, if found is None { 1int } else { 0int },
        {
            proof {
                lemma_inverse(site_perms@[g as int]@);
            }
            let i = inverses[g].get(t);
            if representative(site_perms, i) {
                found = Some((g, i));
            } else {
                proof {
                    assert forall|ii: int|
                        0 <= ii < num_atoms && is_representative(site_perms@, ii) implies #[trigger] site_perms@[g as int]@[ii]
                        != t by {
                        if site_perms@[g as int]@[ii] == t {
                            assert(inverse_of(site_perms@[g as int]@)[site_perms@[g as int]@[ii] as int] == ii);
                        }
                    }
                }
                g += 1;
            }
        }
        out.push(found);
        t += 1;
    }
    out
}

} // verus!
