//! Permutations as total bijections on `0..n`.
//!
//! A permutation `p` sends index `i` to `p[i]`.  Applying it to a sequence moves
//! the element at `i` to position `p[i]`, so that composition `(a∘b)[i] = a[b[i]]`
//! applies `b` first and `a` second.

use vstd::prelude::*;

verus! {

/// `p` lists every index of `0..p.len()` exactly once.
pub open spec fn is_perm(p: Seq<usize>) -> bool {
    &&& p.len() <= usize::MAX
    &&& forall|i: int| 0 <= i < p.len() ==> #[trigger] p[i] < p.len()
    &&& forall|i: int, j: int|
        0 <= i < p.len() && 0 <= j < p.len() && #[trigger] p[i] == #[trigger] p[j] ==> i == j
    &&& forall|k: int| 0 <= k < p.len() ==> #[trigger] in_image(p, k)
}

/// Some index of `p` holds `k`.
pub open spec fn in_image(p: Seq<usize>, k: int) -> bool {
    exists|i: int| 0 <= i < p.len() && p[i] == k
}

/// The index that `p` sends to `k`.
pub open spec fn preimage(p: Seq<usize>, k: int) -> int {
    choose|i: int| 0 <= i < p.len() && p[i] == k
}

/// The inverse permutation: `inverse_of(p)[p[i]] == i`.
pub open spec fn inverse_of(p: Seq<usize>) -> Seq<usize> {
    Seq::new(p.len(), |k: int| preimage(p, k) as usize)
}

/// Composition, `b` first: `composed(a, b)[i] == a[b[i]]`.
pub open spec fn composed(a: Seq<usize>, b: Seq<usize>) -> Seq<usize> {
    Seq::new(b.len(), |i: int| a[b[i] as int])
}

/// `s` with the element at `i` moved to position `p[i]`.
pub open spec fn permuted<T>(p: Seq<usize>, s: Seq<T>) -> Seq<T> {
    Seq::new(s.len(), |k: int| s[inverse_of(p)[k] as int])
}

/// The identity on `0..n`.
pub open spec fn identity(n: nat) -> Seq<usize> {
    Seq::new(n, |i: int| i as usize)
}

proof fn lemma_preimage(p: Seq<usize>, k: int)
    requires
        is_perm(p),
        0 <= k < p.len(),
    ensures
        0 <= preimage(p, k) < p.len(),
        p[preimage(p, k)] == k,
{
    assert(in_image(p, k));
}

proof fn lemma_preimage_of_image(p: Seq<usize>, i: int)
    requires
        is_perm(p),
        0 <= i < p.len(),
    ensures
        preimage(p, p[i] as int) == i,
{
    lemma_preimage(p, p[i] as int);
}

/// Facts about `inverse_of`, in both directions.
pub proof fn lemma_inverse(p: Seq<usize>)
    requires
        is_perm(p),
    ensures
        inverse_of(p).len() == p.len(),
        is_perm(inverse_of(p)),
        forall|i: int| 0 <= i < p.len() ==> #[trigger] inverse_of(p)[p[i] as int] == i,
        forall|k: int| 0 <= k < p.len() ==> #[trigger] p[inverse_of(p)[k] as int] == k,
{
    let q = inverse_of(p);
    assert forall|k: int| 0 <= k < p.len() implies #[trigger] p[q[k] as int] == k && q[k] < p.len() by {
        lemma_preimage(p, k);
        assert(q[k] == preimage(p, k));
    }
    assert forall|i: int| 0 <= i < p.len() implies #[trigger] q[p[i] as int] == i by {
        lemma_preimage_of_image(p, i);
        assert(q[p[i] as int] == preimage(p, p[i] as int));
    }
    assert forall|i: int, j: int|
        0 <= i < q.len() && 0 <= j < q.len() && #[trigger] q[i] == #[trigger] q[j] implies i == j by {
        assert(p[q[i] as int] == i);
        assert(p[q[j] as int] == j);
    }
    assert forall|k: int| 0 <= k < q.len() implies #[trigger] q[k] < q.len() by {
        assert(p[q[k] as int] == k);
    }
    assert forall|k: int| 0 <= k < q.len() implies in_image(q, k) by {
        assert(q[p[k] as int] == k);
    }
}

/// The identity is a permutation.
pub proof fn lemma_identity_is_perm(n: nat)
    requires
        n <= usize::MAX,
    ensures
        is_perm(identity(n)),
{
    let p = identity(n);
    assert forall|k: int| 0 <= k < p.len() implies in_image(p, k) by {
        assert(p[k] == k as usize);
    }
}

/// Inverting twice gives back the permutation.
pub proof fn law_inverse_involution(p: Seq<usize>)
    requires
        is_perm(p),
    ensures
        inverse_of(inverse_of(p)) == p,
{
    lemma_inverse(p);
    let q = inverse_of(p);
    lemma_inverse(q);
    assert forall|i: int| 0 <= i < p.len() implies inverse_of(q)[i] == p[i] by {
        lemma_preimage_of_image(q, p[i] as int);
        assert(q[p[i] as int] == i);
        assert(inverse_of(q)[q[p[i] as int] as int] == p[i]);
    }
    assert(inverse_of(q) =~= p);
}

/// The composition of two permutations of the same length is a permutation.
pub proof fn lemma_composed_is_perm(a: Seq<usize>, b: Seq<usize>)
    requires
        is_perm(a),
        is_perm(b),
        a.len() == b.len(),
    ensures
        is_perm(composed(a, b)),
{
    let c = composed(a, b);
    assert forall|i: int, j: int|
        0 <= i < c.len() && 0 <= j < c.len() && #[trigger] c[i] == #[trigger] c[j] implies i == j by {
        assert(a[b[i] as int] == a[b[j] as int]);
    }
    assert forall|k: int| 0 <= k < c.len() implies in_image(c, k) by {
        lemma_preimage(a, k);
        let j = preimage(a, k);
        lemma_preimage(b, j);
        let i = preimage(b, j);
        assert(c[i] == k);
    }
}

/// Undoing a permutation with its inverse gives back the original sequence.
pub proof fn law_inverse_undoes(p: Seq<usize>, s: Seq<int>)
    requires
        is_perm(p),
        s.len() == p.len(),
    ensures
        permuted(inverse_of(p), permuted(p, s)) == s,
{
    lemma_inverse(p);
    law_inverse_involution(p);
    let u = permuted(inverse_of(p), permuted(p, s));
    assert forall|i: int| 0 <= i < s.len() implies u[i] == s[i] by {
        assert(inverse_of(inverse_of(p))[i] == p[i]);
    }
    assert(u =~= s);
}

/// Applying a composition is applying its parts in turn, the right one first.
pub proof fn law_compose_applies_in_turn(a: Seq<usize>, b: Seq<usize>, s: Seq<int>)
    requires
        is_perm(a),
        is_perm(b),
        a.len() == b.len(),
        s.len() == a.len(),
    ensures
        permuted(composed(a, b), s) == permuted(a, permuted(b, s)),
{
    let c = composed(a, b);
    lemma_composed_is_perm(a, b);
    lemma_inverse(a);
    lemma_inverse(b);
    lemma_inverse(c);
    let lhs = permuted(c, s);
    let rhs = permuted(a, permuted(b, s));
    assert forall|k: int| 0 <= k < s.len() implies lhs[k] == rhs[k] by {
        let j = inverse_of(a)[k] as int;
        let i = inverse_of(b)[j] as int;
        assert(c[i] == k);
        assert(inverse_of(c)[c[i] as int] == i);
    }
    assert(lhs =~= rhs);
}

/// A permutation of `0..n`, kept together with its inverse.
#[derive(Debug, PartialEq, Eq, Hash)]
pub struct Perm {
    fwd: Vec<usize>,
    inv: Vec<usize>,
}

impl View for Perm {
    type V = Seq<usize>;

    closed spec fn view(&self) -> Seq<usize> {
        self.fwd@
    }
}

impl Clone for Perm {
    fn clone(&self) -> (r: Perm)
        ensures
            r@ == self@,
    {
        proof {
            use_type_invariant(self);
        }
        Perm { fwd: self.fwd.clone(), inv: self.inv.clone() }
    }
}

/// A vector that is not a permutation of its own index range.
#[derive(Debug, Clone, Copy, PartialEq, Eq, Structural)]
pub struct BadPerm;

impl Perm {
    #[verifier::type_invariant]
    closed spec fn well_formed(self) -> bool {
        &&& is_perm(self.fwd@)
        &&& self.inv@ == inverse_of(self.fwd@)
    }

    /// The identity permutation of `0..n`.
    pub fn eye(n: usize) -> (r: Perm)
        ensures
            r@ == identity(n as nat),
    {
        let mut fwd: Vec<usize> = Vec::new();
        let mut i: usize = 0;
        while i < n
            invariant
                i <= n,
                fwd@ == identity(i as nat),
            decreases n - i,
        {
            fwd.push(i);
            i += 1;
            assert(fwd@ =~= identity(i as nat));
        }
        proof {
            lemma_identity_is_perm(n as nat);
            let p = identity(n as nat);
            assert forall|k: int| 0 <= k < n implies preimage(p, k) == k by {
                lemma_preimage_of_image(p, k);
            }
            assert(inverse_of(p) =~= p);
        }
        let inv = fwd.clone();
        Perm { fwd, inv }
    }

    /// Validates `v` and wraps it, failing unless each index of `0..v.len()`
    /// appears exactly once.
    pub fn from_vec(v: Vec<usize>) -> (r: Result<Perm, BadPerm>)
        ensures
            r.is_ok() <==> is_perm(v@),
            r matches Ok(p) ==> p@ == v@,
    {
        let n = v.len();
        let mut inv: Vec<usize> = Vec::new();
        let mut k: usize = 0;
        while k < n
            invariant
                k <= n,
                n == v.len(),
                inv@.len() == k,
                forall|j: int| 0 <= j < k ==> #[trigger] inv@[j] == n,
            decreases n - k,
        {
            inv.push(n);
            k += 1;
        }
        // Place each index, refusing out-of-range and repeated entries.
        let mut i: usize = 0;
        while i < n
            invariant
                i <= n,
                n == v.len(),
                inv@.len() == n,
                forall|j: int| 0 <= j < i ==> #[trigger] v@[j] < n,
                forall|j: int| 0 <= j < i ==> inv@[#[trigger] v@[j] as int] == j,
                forall|k: int| 0 <= k < n && inv@[k] != n ==> (inv@[k] < i && v@[#[trigger] inv@[k] as int] == k),
            decreases n - i,
        {
            let target = v[i];
            if target >= n {
                return Err(BadPerm);
            }
            if inv[target] != n {
                proof {
                    let j = inv@[target as int] as int;
                    assert(v@[j] == target && j != i);
                }
                return Err(BadPerm);
            }
            inv.set(target, i);
            i += 1;
        }
        proof {
            assert forall|a: int, b: int|
                0 <= a < n && 0 <= b < n && #[trigger] v@[a] == #[trigger] v@[b] implies a == b by {
                assert(inv@[v@[a] as int] == a);
                assert(inv@[v@[b] as int] == b);
            }
        }
        // Every index must have been placed.
        let mut k: usize = 0;
        while k < n
            invariant
                k <= n,
                n == v.len(),
                inv@.len() == n,
                forall|j: int| 0 <= j < n ==> #[trigger] v@[j] < n,
                forall|j: int| 0 <= j < n ==> inv@[#[trigger] v@[j] as int] == j,
                forall|c: int| 0 <= c < n && inv@[c] != n ==> (inv@[c] < n && v@[#[trigger] inv@[c] as int] == c),
                forall|c: int| 0 <= c < k ==> #[trigger] inv@[c] != n,
            decreases n - k,
        {
            if inv[k] == n {
                proof {
                    assert forall|j: int| 0 <= j < n implies #[trigger] v@[j] != k by {
                        assert(inv@[v@[j] as int] == j);
                    }
                    assert(!in_image(v@, k as int));
                }
                return Err(BadPerm);
            }
            k += 1;
        }
        proof {
            assert forall|c: int| 0 <= c < n implies in_image(v@, c) by {
                assert(v@[inv@[c] as int] == c);
            }
            assert(is_perm(v@));
            assert forall|c: int| 0 <= c < n implies inv@[c] == inverse_of(v@)[c] by {
                lemma_preimage_of_image(v@, inv@[c] as int);
            }
            assert(inv@ =~= inverse_of(v@));
        }
        Ok(Perm { fwd: v, inv })
    }

    /// The number of indices permuted.
    pub fn len(&self) -> (r: usize)
        ensures
            r == self@.len(),
    {
        self.fwd.len()
    }

    /// The image of index `i`.
    pub fn get(&self, i: usize) -> (r: usize)
        requires
            i < self@.len(),
        ensures
            r == self@[i as int],
    {
        self.fwd[i]
    }

    /// The underlying vector: entry `i` is the image of `i`.
    pub fn into_vec(self) -> (r: Vec<usize>)
        ensures
            r@ == self@,
    {
        self.fwd
    }

    /// The inverse permutation.
    pub fn inverted(&self) -> (r: Perm)
        ensures
            r@ == inverse_of(self@),
            is_perm(self@),
    {
        proof {
            use_type_invariant(self);
            lemma_inverse(self.fwd@);
            law_inverse_involution(self.fwd@);
        }
        Perm { fwd: self.inv.clone(), inv: self.fwd.clone() }
    }

    /// The composition `self ∘ other`, which applies `other` first.
    pub fn compose(&self, other: &Perm) -> (r: Perm)
        requires
            self@.len() == other@.len(),
        ensures
            r@ == composed(self@, other@),
    {
        proof {
            use_type_invariant(self);
            lemma_inverse(self.fwd@);
            use_type_invariant(other);
            lemma_inverse(other.fwd@);
        }
        let n = other.fwd.len();
        let mut fwd: Vec<usize> = Vec::new();
        let mut i: usize = 0;
        while i < n
            invariant
                i <= n,
                n == other@.len(),
                n == self@.len(),
                is_perm(self@),
                is_perm(other@),
                fwd@ =~= composed(self@, other@).subrange(0, i as int),
            decreases n - i,
        {
            let b = other.fwd[i];
            fwd.push(self.fwd[b]);
            i += 1;
        }
        let mut inv: Vec<usize> = Vec::new();
        let mut k: usize = 0;
        while k < n
            invariant
                k <= n,
                n == other@.len(),
                n == self@.len(),
                is_perm(self.inv@),
                is_perm(other.inv@),
                self.inv@.len() == n,
                other.inv@.len() == n,
                inv@ =~= composed(other.inv@, self.inv@).subrange(0, k as int),
            decreases n - k,
        {
            let a = self.inv[k];
            inv.push(other.inv[a]);
            k += 1;
        }
        proof {
            assert(fwd@ =~= composed(self@, other@));
            assert(inv@ =~= composed(other.inv@, self.inv@));
            lemma_composed_is_perm(self@, other@);
            let c = composed(self@, other@);
            assert forall|k: int| 0 <= k < n implies inv@[k] == inverse_of(c)[k] by {
                let j = self.inv@[k] as int;
                let i = other.inv@[j] as int;
                lemma_inverse(self@);
                lemma_inverse(other@);
                assert(c[i] == k);
                lemma_preimage_of_image(c, i);
            }
            assert(inv@ =~= inverse_of(c));
        }
        Perm { fwd, inv }
    }

    /// `s` with the element at each index `i` moved to position `self[i]`.
    pub fn apply<T: Copy>(&self, s: &Vec<T>) -> (r: Vec<T>)
        requires
            s@.len() == self@.len(),
        ensures
            r@ == permuted(self@, s@),
    {
        proof {
            use_type_invariant(self);
            lemma_inverse(self.fwd@);
        }
        let n = s.len();
        let mut out: Vec<T> = Vec::new();
        let mut k: usize = 0;
        while k < n
            invariant
                k <= n,
                n == s@.len(),
                n == self@.len(),
                is_perm(self.inv@),
                self.inv@ == inverse_of(self@),
                out@ =~= permuted(self@, s@).subrange(0, k as int),
            decreases n - k,
        {
            let src = self.inv[k];
            out.push(s[src]);
            k += 1;
        }
        assert(out@ =~= permuted(self@, s@));
        out
    }
}

/// `matches(from, to)` holds exactly when `q[to] == from`, for a
/// permutation `q` of `0..n`.
pub open spec fn matches_exactly<F: Fn(usize, usize) -> bool>(q: Seq<usize>, n: usize, matches: F) -> bool {
    &&& q.len() == n
    &&& is_perm(q)
    &&& forall|a: usize, b: usize, x: bool|
        a < n && b < n && #[trigger] call_ensures(matches, (a, b), x) ==> x == (q[b as int] == a)
}

/// Finds the permutation that pairs each index `from` with an index `to`
/// for which `matches(from, to)` holds: entry `to` of the result is `from`.
///
/// Each `from` in turn takes the first free `to`, starting at the first free
/// index, so the work is about linear when the answer is close to the
/// identity.  `None` when some `from` finds no free match; when `matches`
/// singles out a permutation, that permutation is found.
pub fn brute_force_near_identity<F>(n: usize, matches: F) -> (r: Option<Perm>)
    where
        F: Fn(usize, usize) -> bool,
    requires
        forall|a: usize, b: usize| a < n && b < n ==> call_requires(matches, (a, b)),
    ensures
        r matches Some(p) ==> p@.len() == n && forall|to: int|
            0 <= to < n ==> #[trigger] call_ensures(matches, (p@[to], to as usize), true),
        forall|q: Seq<usize>| #[trigger] matches_exactly(q, n, matches) ==> (r matches Some(p) && p@ == q),
{
    let ghost hyp = exists|q: Seq<usize>| #[trigger] matches_exactly(q, n, matches);
    let ghost q: Seq<usize> = if hyp {
        choose|q: Seq<usize>| #[trigger] matches_exactly(q, n, matches)
    } else {
        Seq::empty()
    };
    // `n` marks a position that no `from` has taken yet.
    let mut perm: Vec<usize> = Vec::new();
    let mut k: usize = 0;
    while k < n
        invariant
            k <= n,
            perm@.len() == k,
            forall|t: int| 0 <= t < k ==> #[trigger] perm@[t] == n,
        decreases n - k,
    {
        perm.push(n);
        k += 1;
    }
    let mut search_start: usize = 0;
    let mut from: usize = 0;
    while from < n
        invariant
            from <= n,
            perm@.len() == n,
            search_start <= n,
            forall|a: usize, b: usize| a < n && b < n ==> call_requires(matches, (a, b)),
            forall|t: int|
                0 <= t < n && #[trigger] perm@[t] != n ==> perm@[t] < n && call_ensures(matches, (perm@[t], t as usize), true),
            hyp == (exists|q2: Seq<usize>| #[trigger] matches_exactly(q2, n, matches)),
            hyp ==> matches_exactly(q, n, matches),
            hyp ==> forall|t: int| 0 <= t < n ==> ((#[trigger] perm@[t] != n) == (q[t] < from)),
            hyp ==> forall|t: int| 0 <= t < n && #[trigger] perm@[t] != n ==> perm@[t] == q[t],
            hyp ==> forall|t: int| 0 <= t < search_start ==> #[trigger] perm@[t] != n,
        decreases n - from,
    {
        // Skip past positions filled out of order.
        while search_start < n && perm[search_start] != n
            invariant
                search_start <= n,
                perm@.len() == n,
                hyp ==> forall|t: int| 0 <= t < search_start ==> #[trigger] perm@[t] != n,
            decreases n - search_start,
        {
            search_start += 1;
        }
        let ghost partner: int = if hyp {
            choose|t: int| 0 <= t < n && q[t] == from
        } else {
            0
        };
        proof {
            if hyp {
                assert(in_image(q, from as int));
                assert(0 <= partner < n && q[partner] == from);
                assert(perm@[partner] == n);
                assert(partner >= search_start);
            }
        }
        let mut to: usize = search_start;
        let mut found = false;
        while to < n && !found
            invariant
                from < n,
                to <= n,
                search_start <= to,
                perm@.len() == n,
                forall|a: usize, b: usize| a < n && b < n ==> call_requires(matches, (a, b)),
                forall|t: int|
                    0 <= t < n && #[trigger] perm@[t] != n ==> perm@[t] < n && call_ensures(matches, (perm@[t], t as usize), true),
                hyp ==> matches_exactly(q, n, matches),
                hyp ==> 0 <= partner < n && q[partner] == from,
                hyp && !found ==> partner >= to && perm@[partner] == n,
                hyp && !found ==> forall|t: int| 0 <= t < n ==> ((#[trigger] perm@[t] != n) == (q[t] < from)),
                hyp && found ==> forall|t: int| 0 <= t < n ==> ((#[trigger] perm@[t] != n) == (q[t] < from + 1)),
                hyp ==> forall|t: int| 0 <= t < n && #[trigger] perm@[t] != n ==> perm@[t] == q[t],
                hyp ==> forall|t: int| 0 <= t < search_start ==> #[trigger] perm@[t] != n,
            decreases n - to, if found { 0int } else { 1int },
        {
            if perm[to] == n && matches(from, to) {
                proof {
                    if hyp {
                        assert(q[to as int] == from);
                        assert(to as int == partner) by {
                            assert(q[partner] == q[to as int]);
                        }
                    }
                }
                perm.set(to, from);
                found = true;
            } else {
                proof {
                    if hyp && to as int == partner {
                        assert(perm@[partner] == n);
                    }
                }
                to += 1;
            }
        }
        if !found {
            proof {
                if hyp {
                    assert(partner >= to);
                }
                assert forall|q2: Seq<usize>| !#[trigger] matches_exactly(q2, n, matches) by {
                    if matches_exactly(q2, n, matches) {
                        assert(hyp);
                    }
                }
            }
            return None;
        }
        from += 1;
    }
    proof {
        if hyp {
            assert forall|t: int| 0 <= t < n implies perm@[t] == q[t] by {
                assert(q[t] < n);
            }
            assert(perm@ =~= q);
        }
        assert forall|q2: Seq<usize>| #[trigger] matches_exactly(q2, n, matches) implies perm@ == q2 by {
            assert(hyp);
            assert forall|t: int| 0 <= t < n implies perm@[t] == q2[t] by {
                assert(q[t] < n);
                assert(perm@[t] != n);
                assert(call_ensures(matches, (perm@[t], t as usize), true));
            }
            assert(perm@ =~= q2);
        }
    }
    match Perm::from_vec(perm) {
        Ok(p) => Some(p),
        Err(_) => None,
    }
}

} // verus!
