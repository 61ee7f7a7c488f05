//! Finite groups of space-group operations: closure of a generator set, and a
//! tree that writes each member as the composition of two earlier members, so
//! that a homomorphism need only be computed directly at the leaves.

use vstd::prelude::*;

use crate::symmops::FracOp;

verus! {

/// Why a set of operations does not form a usable finite group.
#[derive(Debug, Clone, Copy, PartialEq, Eq)]
pub enum GroupError {
    /// More distinct operations were generated than the bound allows.
    TooLarge,
    /// A composition has a rotation entry that does not fit in `i32`.
    Overflow,
    /// A composition of two members is not a member.
    NotClosed,
}

/// No operation occurs twice in `s`.
pub open spec fn no_dups(s: Seq<FracOp>) -> bool {
    forall|i: int, j: int| 0 <= i < s.len() && 0 <= j < s.len() && i != j ==> s[i] != s[j]
}

/// Every operation in `s` is well formed.
pub open spec fn all_wf(s: Seq<FracOp>) -> bool {
    forall|i: int| 0 <= i < s.len() ==> (#[trigger] s[i]).wf()
}

/// `s[k]` is an earlier element of `s` composed with a generator.
pub open spec fn derived_at(gens: Seq<FracOp>, s: Seq<FracOp>, k: int) -> bool {
    exists|j: int, h: FracOp|
        0 <= j < k && gens.contains(h) && FracOp::composable(s[j], h) && s[k] == #[trigger] FracOp::of_spec(s[j], h)
}

/// Each element of `s` is a generator, or an earlier element composed with a
/// generator: all of `s` lies in the group generated by `gens`.
pub open spec fn generated_chain(gens: Seq<FracOp>, s: Seq<FracOp>) -> bool {
    forall|k: int| 0 <= k < s.len() ==> gens.contains(#[trigger] s[k]) || derived_at(gens, s, k)
}

/// `a ∘ h` exists and lies in `s`.
pub open spec fn product_in(s: Seq<FracOp>, a: FracOp, h: FracOp) -> bool {
    FracOp::composable(a, h) && s.contains(FracOp::of_spec(a, h))
}

/// Composing any element of `s` with a generator stays in `s`.
pub open spec fn closed_under(gens: Seq<FracOp>, s: Seq<FracOp>) -> bool {
    forall|a: FracOp, h: FracOp| s.contains(a) && gens.contains(h) ==> #[trigger] product_in(s, a, h)
}

/// Whether `op` occurs in `ops`.
fn contains_op(ops: &Vec<FracOp>, op: &FracOp) -> (r: bool)
    ensures
        r == ops@.contains(*op),
{
    let mut i: usize = 0;
    while i < ops.len()
        invariant
            i <= ops.len(),
            forall|j: int| 0 <= j < i ==> ops@[j] != *op,
        decreases ops.len() - i,
    {
        if ops[i] == *op {
            assert(ops@[i as int] == *op);
            return true;
        }
        i += 1;
    }
    false
}

/// Generates the finite group spanned by a non-empty set of generators, which
/// may contain duplicates or redundant elements.  Fails when more than
/// `max_order` operations turn up, or a rotation entry overflows.
///
/// The result lists each generated operation once, each being a generator or
/// an earlier element composed with a generator, and it is closed under
/// composition with the generators.
pub fn generate_finite_group(generators: &Vec<FracOp>, max_order: usize) -> (r: Result<Vec<FracOp>, GroupError>)
    requires
        generators@.len() > 0,
        all_wf(generators@),
    ensures
        r matches Ok(out) ==> {
            &&& no_dups(out@)
            &&& all_wf(out@)
            &&& generated_chain(generators@, out@)
            &&& closed_under(generators@, out@)
            &&& forall|h: FracOp| generators@.contains(h) ==> out@.contains(h)
            &&& out@.len() <= max_order
            &&& out@.len() > 0 && out@[0] == generators@[0]
        },
        r matches Err(GroupError::TooLarge) ==> exists|s: Seq<FracOp>|
            #[trigger] generated_chain(generators@, s) && no_dups(s) && s.len() > max_order,
        r matches Err(GroupError::Overflow) ==> exists|s: Seq<FracOp>, h: FracOp|
            #[trigger] generated_chain(generators@, s) && s.len() > 0 && #[trigger] generators@.contains(h)
                && !FracOp::composable(s.last(), h),
        !(r matches Err(GroupError::NotClosed)),
{
    let ghost n_gens = generators@.len() as int;
    let mut out: Vec<FracOp> = Vec::new();
    let mut queue: Vec<FracOp> = Vec::new();
    let mut k: usize = 0;
    while k < generators.len()
        invariant
            k <= generators.len(),
            queue@ == generators@.subrange(0, k as int),
        decreases generators.len() - k,
    {
        queue.push(generators[k]);
        k += 1;
    }
    assert(queue@ =~= generators@);
    // For a queued product: the element of `out` and the generator it came from.
    let ghost mut origin: Seq<int> = Seq::new(generators@.len(), |i: int| 0int);
    let ghost mut which: Seq<int> = Seq::new(generators@.len(), |i: int| 0int);
    // Where the product of `out[j]` and generator `m` sits in the queue.
    let ghost mut slot: Seq<Seq<int>> = Seq::empty();
    // Where a visited queue entry sits in `out`.
    let ghost mut seen_at: Seq<int> = Seq::empty();
    let mut head: usize = 0;
    while head < queue.len()
        invariant
            n_gens == generators@.len(),
            head <= queue.len(),
            n_gens <= queue.len(),
            all_wf(generators@),
            forall|i: int| 0 <= i < n_gens ==> queue@[i] == generators@[i],
            forall|i: int| 0 <= i < queue.len() ==> (#[trigger] queue@[i]).wf(),
            no_dups(out@),
            all_wf(out@),
            out@.len() <= max_order,
            generated_chain(generators@, out@),
            origin.len() == queue.len(),
            which.len() == queue.len(),
            forall|i: int|
                n_gens <= i < queue.len() ==> {
                    &&& 0 <= #[trigger] origin[i] < out@.len()
                    &&& 0 <= which[i] < n_gens
                    &&& FracOp::composable(out@[origin[i]], generators@[which[i]])
                    &&& queue@[i] == FracOp::of_spec(out@[origin[i]], generators@[which[i]])
                },
            slot.len() == out@.len(),
            forall|j: int, m: int|
                0 <= j < out@.len() && 0 <= m < n_gens ==> {
                    &&& 0 <= #[trigger] slot[j][m] < queue.len()
                    &&& FracOp::composable(out@[j], generators@[m])
                    &&& queue@[slot[j][m]] == FracOp::of_spec(out@[j], generators@[m])
                },
            forall|j: int| 0 <= j < out@.len() ==> (#[trigger] slot[j]).len() == n_gens,
            seen_at.len() == head,
            head > 0 ==> out@.len() > 0 && out@[0] == generators@[0],
            head == 0 ==> out@.len() == 0,
            generators@.len() > 0,
            forall|i: int| 0 <= i < head ==> 0 <= #[trigger] seen_at[i] < out@.len() && out@[seen_at[i]] == queue@[i],
        decreases max_order - out@.len(), queue.len() - head,
    {
        let g = queue[head];
        let ghost gi = head as int;
        head += 1;
        let found = contains_op(&out, &g);
        if found {
            proof {
                let idx = choose|idx: int| 0 <= idx < out@.len() && out@[idx] == g;
                seen_at = seen_at.push(idx);
            }
        } else {
            let ghost prev = out@;
            let ghost grown = out@.push(g);
            let ghost kk = out@.len() as int;
            assert(grown[kk] == g);
            assert(generated_chain(generators@, grown)) by {
                if !generators@.contains(g) {
                    if gi < n_gens {
                        assert(generators@[gi] == g);
                    }
                    let j = origin[gi];
                    let h = generators@[which[gi]];
                    assert(grown[j] == out@[j]);
                    assert(FracOp::of_spec(grown[j], h) == g);
                    assert(generators@.contains(h));
                    assert(derived_at(generators@, grown, kk));
                }
                assert forall|m: int| 0 <= m < grown.len() implies generators@.contains(#[trigger] grown[m]) || derived_at(generators@, grown, m) by {
                    if m < kk {
                        assert(grown[m] == out@[m]);
                        if !generators@.contains(out@[m]) {
                            assert(derived_at(generators@, out@, m));
                            let (j, h) = choose|j: int, h: FracOp|
                                0 <= j < m && generators@.contains(h) && FracOp::composable(out@[j], h) && out@[m]
                                    == #[trigger] FracOp::of_spec(out@[j], h);
                            assert(grown[j] == out@[j]);
                            assert(FracOp::of_spec(grown[j], h) == grown[m]);
                        }
                    }
                }
            }
            assert(no_dups(grown)) by {
                assert forall|i: int, j: int| 0 <= i < grown.len() && 0 <= j < grown.len() && i != j implies grown[i] != grown[j] by {
                    if i < kk && j < kk {
                        assert(grown[i] == out@[i] && grown[j] == out@[j]);
                    } else if i < kk {
                        assert(out@.contains(grown[i]));
                    } else if j < kk {
                        assert(out@.contains(grown[j]));
                    }
                }
            }
            if out.len() >= max_order {
                assert(generated_chain(generators@, grown) && no_dups(grown) && grown.len() > max_order);
                return Err(GroupError::TooLarge);
            }
            let ghost mut row: Seq<int> = Seq::empty();
            let mut l: usize = 0;
            while l < generators.len()
                invariant
                    n_gens == generators@.len(),
                    l <= generators.len(),
                    head <= queue.len(),
                    n_gens <= queue.len(),
                    g.wf(),
                    all_wf(generators@),
                    out@ == prev,
                    grown == prev.push(g),
                    kk == prev.len(),
                    generated_chain(generators@, grown),
                    forall|i: int| 0 <= i < n_gens ==> queue@[i] == generators@[i],
                    forall|i: int| 0 <= i < queue.len() ==> (#[trigger] queue@[i]).wf(),
                    origin.len() == queue.len(),
                    which.len() == queue.len(),
                    forall|i: int|
                        n_gens <= i < queue.len() ==> {
                            &&& 0 <= #[trigger] origin[i] < grown.len()
                            &&& 0 <= which[i] < n_gens
                            &&& FracOp::composable(grown[origin[i]], generators@[which[i]])
                            &&& queue@[i] == FracOp::of_spec(grown[origin[i]], generators@[which[i]])
                        },
                    slot.len() == prev.len(),
                    forall|j: int, m: int|
                        0 <= j < prev.len() && 0 <= m < n_gens ==> {
                            &&& 0 <= #[trigger] slot[j][m] < queue.len()
                            &&& FracOp::composable(prev[j], generators@[m])
                            &&& queue@[slot[j][m]] == FracOp::of_spec(prev[j], generators@[m])
                        },
                    forall|j: int| 0 <= j < prev.len() ==> (#[trigger] slot[j]).len() == n_gens,
                    row.len() == l,
                    forall|m: int|
                        0 <= m < l ==> {
                            &&& 0 <= #[trigger] row[m] < queue.len()
                            &&& FracOp::composable(g, generators@[m])
                            &&& queue@[row[m]] == FracOp::of_spec(g, generators@[m])
                        },
                    seen_at.len() == head - 1,
                    forall|i: int| 0 <= i < head - 1 ==> 0 <= #[trigger] seen_at[i] < prev.len() && prev[seen_at[i]] == queue@[i],
                    queue@[head - 1] == g,
                    head > 1 ==> out@.len() > 0 && out@[0] == generators@[0],
                    head == 1 ==> out@.len() == 0 && g == generators@[0],
                decreases generators.len() - l,
            {
                let h = generators[l];
                match g.of(&h) {
                    Some(p) => {
                        proof {
                            row = row.push(queue@.len() as int);
                            origin = origin.push(kk);
                            which = which.push(l as int);
                        }
                        let ghost before = queue@;
                        queue.push(p);
                        proof {
                            assert(generators@[l as int] == h);
                            assert(p == FracOp::of_spec(grown[kk], generators@[which[before.len() as int]]));
                            assert forall|i: int|
                                n_gens <= i < queue.len() implies {
                                    &&& 0 <= #[trigger] origin[i] < grown.len()
                                    &&& 0 <= which[i] < n_gens
                                    &&& FracOp::composable(grown[origin[i]], generators@[which[i]])
                                    &&& queue@[i] == FracOp::of_spec(grown[origin[i]], generators@[which[i]])
                                } by {
                                if i < before.len() {
                                    assert(queue@[i] == before[i]);
                                }
                            }
                        }
                    },
                    None => {
                        proof {
                            assert(generators@[l as int] == h);
                            assert(generators@.contains(h));
                            assert(grown.last() == g);
                            assert(!FracOp::composable(grown.last(), h));
                            assert(generated_chain(generators@, grown) && grown.len() > 0 && generators@.contains(h)
                                && !FracOp::composable(grown.last(), h));
                        }
                        return Err(GroupError::Overflow);
                    },
                }
                l += 1;
            }
            out.push(g);
            let ghost old_slot = slot;
            proof {
                slot = slot.push(row);
                seen_at = seen_at.push(kk);
                assert(out@ == grown);
                assert forall|j: int, m: int| 0 <= j < out@.len() && 0 <= m < n_gens implies {
                    &&& 0 <= #[trigger] slot[j][m] < queue.len()
                    &&& FracOp::composable(out@[j], generators@[m])
                    &&& queue@[slot[j][m]] == FracOp::of_spec(out@[j], generators@[m])
                } by {
                    if j < kk {
                        assert(out@[j] == prev[j]);
                        assert(slot[j] == old_slot[j]);
                    } else {
                        assert(slot[j] == row);
                        assert(out@[j] == g);
                        assert(0 <= row[m] < queue.len());
                    }
                }
            }
        }
    }
    assert(closed_under(generators@, out@)) by {
        assert forall|a: FracOp, h: FracOp|
            out@.contains(a) && generators@.contains(h) implies #[trigger] product_in(out@, a, h) by {
            let j = choose|j: int| 0 <= j < out@.len() && out@[j] == a;
            let m = choose|m: int| 0 <= m < generators@.len() && generators@[m] == h;
            let i = slot[j][m];
            assert(0 <= i < queue@.len());
            assert(queue@[i] == FracOp::of_spec(a, h));
            assert(out@[seen_at[i]] == queue@[i]);
            assert(out@.contains(FracOp::of_spec(a, h)));
            assert(FracOp::composable(out@[j], generators@[m]));
        }
    }
    proof {
        assert forall|h: FracOp| generators@.contains(h) implies out@.contains(h) by {
            let m = choose|m: int| 0 <= m < generators@.len() && generators@[m] == h;
            assert(out@[seen_at[m]] == queue@[m]);
        }
        assert(no_dups(out@));
        assert(all_wf(out@));
        assert(generated_chain(generators@, out@));
        assert(out@.len() <= max_order);
    }
    Ok(out)
}

proof fn lemma_closed_at(gens: Seq<FracOp>, s: Seq<FracOp>, a: FracOp, k: int)
    requires
        all_wf(gens),
        all_wf(s),
        generated_chain(gens, s),
        closed_under(gens, s),
        s.contains(a),
        0 <= k < s.len(),
    ensures
        FracOp::composable(a, s[k]),
        s.contains(FracOp::of_spec(a, s[k])),
    decreases k,
{
    if gens.contains(s[k]) {
        assert(product_in(s, a, s[k]));
    } else {
        assert(derived_at(gens, s, k));
        let (j, h) = choose|j: int, h: FracOp|
            0 <= j < k && gens.contains(h) && FracOp::composable(s[j], h) && s[k] == #[trigger] FracOp::of_spec(s[j], h);
        lemma_closed_at(gens, s, a, j);
        let ab = FracOp::of_spec(a, s[j]);
        assert(s.contains(ab) && gens.contains(h));
        assert(product_in(s, ab, h));
        let x = choose|x: int| 0 <= x < gens.len() && gens[x] == h;
        assert(gens[x].wf());
        let y = choose|y: int| 0 <= y < s.len() && s[y] == a;
        assert(s[y].wf());
        assert(s[j].wf());
        crate::symmops::law_of_associative(a, s[j], h);
    }
}

/// The output of `generate_finite_group` is closed under composition of any
/// two of its members: it is the whole group.
pub proof fn law_generated_set_is_closed(gens: Seq<FracOp>, s: Seq<FracOp>, a: FracOp, b: FracOp)
    requires
        all_wf(gens),
        all_wf(s),
        generated_chain(gens, s),
        closed_under(gens, s),
        s.contains(a),
        s.contains(b),
    ensures
        FracOp::composable(a, b),
        s.contains(FracOp::of_spec(a, b)),
{
    let k = choose|k: int| 0 <= k < s.len() && s[k] == b;
    lemma_closed_at(gens, s, a, k);
}

/// Some pair `b <= a < c` of earlier members composes to member `c`.
pub open spec fn product_before(m: Seq<FracOp>, c: int) -> bool {
    exists|a: int, b: int|
        0 <= b <= a < c && FracOp::composable(m[a], m[b]) && m[c] == #[trigger] FracOp::of_spec(m[a], m[b])
}

/// Each `decomps[c]` writes member `c` as the composition of two earlier
/// members, and is `None` exactly when no such pair exists.
pub open spec fn decomps_ok(m: Seq<FracOp>, decomps: Seq<Option<(usize, usize)>>) -> bool {
    &&& decomps.len() == m.len()
    &&& forall|c: int|
        0 <= c < m.len() ==> match #[trigger] decomps[c] {
            Some((a, b)) => {
                &&& b <= a < c
                &&& FracOp::composable(m[a as int], m[b as int])
                &&& m[c] == FracOp::of_spec(m[a as int], m[b as int])
            },
            None => !product_before(m, c),
        }
}

/// A finite group whose members are listed once each, every member that is
/// a composition of two earlier ones being recorded as such; the others are
/// the leaves.
pub struct GroupTree {
    members: Vec<FracOp>,
    decomps: Vec<Option<(usize, usize)>>,
}

/// The index of `op` in `ops`.
fn index_of(ops: &Vec<FracOp>, op: &FracOp) -> (r: Option<usize>)
    ensures
        r matches Some(i) ==> i < ops@.len() && ops@[i as int] == *op,
        r is None ==> !ops@.contains(*op),
{
    let mut i: usize = 0;
    while i < ops.len()
        invariant
            i <= ops.len(),
            forall|j: int| 0 <= j < i ==> ops@[j] != *op,
        decreases ops.len() - i,
    {
        if ops[i] == *op {
            return Some(i);
        }
        i += 1;
    }
    None
}

impl GroupTree {
    #[verifier::type_invariant]
    closed spec fn well_formed(self) -> bool {
        decomps_ok(self.members@, self.decomps@)
    }

    /// The members, in the order given at construction.
    pub closed spec fn members_spec(&self) -> Seq<FracOp> {
        self.members@
    }

    /// The recorded decompositions.
    pub closed spec fn decomps_spec(&self) -> Seq<Option<(usize, usize)>> {
        self.decomps@
    }

    /// Builds the tree from a list holding each member of a finite group
    /// exactly once, keeping that order.  Fails when a composition of two
    /// members is not listed, or overflows.
    pub fn from_all_members(members: Vec<FracOp>) -> (r: Result<GroupTree, GroupError>)
        requires
            members@.len() > 0,
            no_dups(members@),
            all_wf(members@),
        ensures
            r matches Ok(t) ==> t.members_spec() == members@ && decomps_ok(members@, t.decomps_spec()),
            r matches Err(GroupError::NotClosed) ==> exists|a: int, b: int|
                0 <= b <= a < members@.len() && FracOp::composable(members@[a], members@[b]) && !members@.contains(
                    #[trigger] FracOp::of_spec(members@[a], members@[b]),
                ),
            r matches Err(GroupError::Overflow) ==> exists|a: int, b: int|
                0 <= b <= a < members@.len() && !FracOp::composable(#[trigger] members@[a], #[trigger] members@[b]),
            !(r matches Err(GroupError::TooLarge)),
    {
        let n = members.len();
        let mut decomps: Vec<Option<(usize, usize)>> = Vec::new();
        let mut k: usize = 0;
        while k < n
            invariant
                k <= n,
                decomps@.len() == k,
                forall|c: int| 0 <= c < k ==> #[trigger] decomps@[c] is None,
            decreases n - k,
        {
            decomps.push(None);
            k += 1;
        }
        let mut a: usize = 0;
        while a < n
            invariant
                n == members@.len(),
                a <= n,
                no_dups(members@),
                all_wf(members@),
                decomps@.len() == n,
                forall|c: int|
                    0 <= c < n ==> match #[trigger] decomps@[c] {
                        Some((x, y)) => {
                            &&& y <= x < c
                            &&& FracOp::composable(members@[x as int], members@[y as int])
                            &&& members@[c] == FracOp::of_spec(members@[x as int], members@[y as int])
                        },
                        None => forall|p: int, q: int|
                            0 <= q <= p < c && p < a && FracOp::composable(members@[p], members@[q]) ==> members@[c]
                                != #[trigger] FracOp::of_spec(members@[p], members@[q]),
                    },
            decreases n - a,
        {
            let mut b: usize = 0;
            while b <= a
                invariant
                    n == members@.len(),
                    a < n,
                    b <= a + 1,
                    no_dups(members@),
                    all_wf(members@),
                    decomps@.len() == n,
                    forall|c: int|
                        0 <= c < n ==> match #[trigger] decomps@[c] {
                            Some((x, y)) => {
                                &&& y <= x < c
                                &&& FracOp::composable(members@[x as int], members@[y as int])
                                &&& members@[c] == FracOp::of_spec(members@[x as int], members@[y as int])
                            },
                            None => forall|p: int, q: int|
                                0 <= q <= p < c && (p < a || (p == a && q < b)) && FracOp::composable(
                                    members@[p],
                                    members@[q],
                                ) ==> members@[c] != #[trigger] FracOp::of_spec(members@[p], members@[q]),
                        },
                decreases a + 1 - b,
            {
                let product = match members[a].of(&members[b]) {
                    Some(p) => p,
                    None => {
                        assert(!FracOp::composable(members@[a as int], members@[b as int]));
                        return Err(GroupError::Overflow);
                    },
                };
                let c = match index_of(&members, &product) {
                    Some(c) => c,
                    None => {
                        assert(!members@.contains(FracOp::of_spec(members@[a as int], members@[b as int])));
                        return Err(GroupError::NotClosed);
                    },
                };
                let ghost before = decomps@;
                if c > a {
                    decomps.set(c, Some((a, b)));
                }
                proof {
                    assert forall|cc: int| 0 <= cc < n implies match #[trigger] decomps@[cc] {
                        Some((x, y)) => {
                            &&& y <= x < cc
                            &&& FracOp::composable(members@[x as int], members@[y as int])
                            &&& members@[cc] == FracOp::of_spec(members@[x as int], members@[y as int])
                        },
                        None => forall|p: int, q: int|
                            0 <= q <= p < cc && (p < a || (p == a && q < b + 1)) && FracOp::composable(
                                members@[p],
                                members@[q],
                            ) ==> members@[cc] != #[trigger] FracOp::of_spec(members@[p], members@[q]),
                    } by {
                        if cc != c {
                            assert(decomps@[cc] == before[cc]);
                            if decomps@[cc] is None {
                                assert(members@[c as int] != members@[cc]);
                            }
                        } else if c <= a {
                            assert(decomps@[cc] == before[cc]);
                        }
                    }
                }
                b += 1;
            }
            a += 1;
        }
        proof {
            assert forall|c: int| 0 <= c < n && #[trigger] decomps@[c] is None implies !product_before(members@, c) by {
                if product_before(members@, c) {
                    let (x, y) = choose|x: int, y: int|
                        0 <= y <= x < c && FracOp::composable(members@[x], members@[y]) && members@[c]
                            == #[trigger] FracOp::of_spec(members@[x], members@[y]);
                    assert(members@[c] != FracOp::of_spec(members@[x], members@[y]));
                }
            }
        }
        Ok(GroupTree { members, decomps })
    }

    /// The members, in order.
    pub fn members(&self) -> (r: &Vec<FracOp>)
        ensures
            r@ == self.members_spec(),
    {
        &self.members
    }

    /// Computes a homomorphism of the group, calling `compute` only at the
    /// leaves and `compose` (second, first) for every member recorded as a
    /// composition.  Stops at the first error.
    pub fn try_compute_homomorphism<H, E, F, C>(&self, compute: F, compose: C) -> (r: Result<Vec<H>, E>)
        where
            F: Fn(&FracOp) -> Result<H, E>,
            C: Fn(&H, &H) -> Result<H, E>,
        requires
            forall|g: &FracOp| call_requires(compute, (g,)),
            forall|x: &H, y: &H| call_requires(compose, (x, y)),
        ensures
            r matches Ok(out) ==> {
                &&& out@.len() == self.members_spec().len()
                &&& forall|i: int|
                    0 <= i < out@.len() ==> match #[trigger] self.decomps_spec()[i] {
                        None => call_ensures(compute, (&self.members_spec()[i],), Ok(out@[i])),
                        Some((a, b)) => call_ensures(compose, (&out@[a as int], &out@[b as int]), Ok(out@[i])),
                    }
            },
            r matches Err(e) ==> (exists|i: int|
                0 <= i < self.members_spec().len() && #[trigger] call_ensures(
                    compute,
                    (&self.members_spec()[i],),
                    Err(e),
                )) || (exists|x: &H, y: &H| #[trigger] call_ensures(compose, (x, y), Err(e))),
    {
        proof {
            use_type_invariant(self);
        }
        let n = self.members.len();
        let mut out: Vec<H> = Vec::new();
        let mut i: usize = 0;
        while i < n
            invariant
                n == self.members@.len(),
                decomps_ok(self.members@, self.decomps@),
                i <= n,
                out@.len() == i,
                forall|g: &FracOp| call_requires(compute, (g,)),
                forall|x: &H, y: &H| call_requires(compose, (x, y)),
                forall|j: int|
                    0 <= j < i ==> match #[trigger] self.decomps@[j] {
                        None => call_ensures(compute, (&self.members@[j],), Ok(out@[j])),
                        Some((a, b)) => call_ensures(compose, (&out@[a as int], &out@[b as int]), Ok(out@[j])),
                    },
            decreases n - i,
        {
            let value = match self.decomps[i] {
                None => match compute(&self.members[i]) {
                    Ok(v) => v,
                    Err(e) => {
                        let r: Result<Vec<H>, E> = Err(e);
                        assert(self.members_spec()[i as int] == self.members@[i as int]);
                        assert(r matches Err(err) && call_ensures(compute, (&self.members_spec()[i as int],), Err(err)));
                        return r;
                    },
                },
                Some((a, b)) => {
                    assert(b <= a < i);
                    match compose(&out[a], &out[b]) {
                        Ok(v) => v,
                        Err(e) => {
                            let r: Result<Vec<H>, E> = Err(e);
                            assert(r matches Err(err) && call_ensures(compose, (&out@[a as int], &out@[b as int]), Err(err)));
                            return r;
                        },
                    }
                },
            };
            out.push(value);
            i += 1;
        }
        Ok(out)
    }
}

/// Evaluating the tree with the identity at the leaves and composition at
/// the inner nodes gives back the members themselves.
pub proof fn law_tree_reproduces_members(m: Seq<FracOp>, decomps: Seq<Option<(usize, usize)>>, out: Seq<FracOp>)
    requires
        decomps_ok(m, decomps),
        out.len() == m.len(),
        forall|i: int|
            0 <= i < out.len() ==> match #[trigger] decomps[i] {
                None => out[i] == m[i],
                Some((a, b)) => out[i] == FracOp::of_spec(out[a as int], out[b as int]),
            },
    ensures
        out == m,
{
    assert forall|i: int| 0 <= i < out.len() implies out[i] == m[i] by {
        lemma_reproduces_upto(m, decomps, out, i);
    }
    assert(out =~= m);
}

proof fn lemma_reproduces_upto(m: Seq<FracOp>, decomps: Seq<Option<(usize, usize)>>, out: Seq<FracOp>, i: int)
    requires
        decomps_ok(m, decomps),
        out.len() == m.len(),
        forall|k: int|
            0 <= k < out.len() ==> match #[trigger] decomps[k] {
                None => out[k] == m[k],
                Some((a, b)) => out[k] == FracOp::of_spec(out[a as int], out[b as int]),
            },
        0 <= i < out.len(),
    ensures
        out[i] == m[i],
    decreases i,
{
    match decomps[i] {
        None => {},
        Some((a, b)) => {
            lemma_reproduces_upto(m, decomps, out, a as int);
            lemma_reproduces_upto(m, decomps, out, b as int);
        },
    }
}

} // verus!
