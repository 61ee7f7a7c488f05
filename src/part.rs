//! Partitions of the indices `0..n` into labelled parts, used to split
//! per-atom data (into layers, for instance).

use vstd::prelude::*;

verus! {

/// Position `(k, j)` holds index `parts[k][j]`.
pub open spec fn at(parts: Seq<Seq<usize>>, k: int, j: int) -> usize {
    parts[k][j]
}

/// Index `i` appears somewhere in `parts`.
pub open spec fn appears(parts: Seq<Seq<usize>>, i: int) -> bool {
    exists|k: int, j: int| 0 <= k < parts.len() && 0 <= j < parts[k].len() && #[trigger] at(parts, k, j) == i
}

/// Every index of `0..n` appears in exactly one position of `parts`.
pub open spec fn is_partition(n: nat, parts: Seq<Seq<usize>>) -> bool {
    &&& forall|k: int, j: int| 0 <= k < parts.len() && 0 <= j < parts[k].len() ==> #[trigger] at(parts, k, j) < n
    &&& forall|k1: int, j1: int, k2: int, j2: int|
        0 <= k1 < parts.len() && 0 <= j1 < parts[k1].len() && 0 <= k2 < parts.len() && 0 <= j2 < parts[k2].len()
            && #[trigger] at(parts, k1, j1) == #[trigger] at(parts, k2, j2) ==> k1 == k2 && j1 == j2
    &&& forall|i: int| 0 <= i < n ==> #[trigger] appears(parts, i)
}

/// Lists of indices that do not partition `0..n`.
#[derive(Debug, Clone, Copy, PartialEq, Eq, Structural)]
pub struct BadPart;

/// A partition of `0..n` into labelled parts.
#[derive(Debug)]
pub struct Part<L> {
    labels: Vec<L>,
    parts: Vec<Vec<usize>>,
    len: usize,
}

/// The index lists of `parts`.
pub open spec fn index_view(parts: Seq<Vec<usize>>) -> Seq<Seq<usize>> {
    parts.map_values(|p: Vec<usize>| p@)
}

impl<L> Part<L> {
    #[verifier::type_invariant]
    closed spec fn well_formed(self) -> bool {
        &&& self.labels@.len() == self.parts@.len()
        &&& is_partition(self.len as nat, index_view(self.parts@))
    }

    /// The index lists, one per part.
    pub closed spec fn parts_spec(&self) -> Seq<Seq<usize>> {
        index_view(self.parts@)
    }

    /// The labels, one per part.
    pub closed spec fn labels_spec(&self) -> Seq<L> {
        self.labels@
    }

    /// The number of indices partitioned.
    pub closed spec fn len_spec(&self) -> nat {
        self.len as nat
    }

    /// A partition from lists of indices and their labels, failing unless
    /// there is one label per list and each index of `0..n` occurs in exactly
    /// one place.
    pub fn new(n: usize, labels: Vec<L>, lists: Vec<Vec<usize>>) -> (r: Result<Part<L>, BadPart>)
        ensures
            r.is_ok() <==> (labels@.len() == lists@.len() && is_partition(n as nat, index_view(lists@))),
            r matches Ok(part) ==> part.len_spec() == n && part.parts_spec() == index_view(lists@)
                && part.labels_spec() == labels@,
    {
        if labels.len() != lists.len() {
            return Err(BadPart);
        }
        // Mark each index, refusing out-of-range and repeated ones.
        let mut seen: Vec<bool> = Vec::new();
        let mut i: usize = 0;
        while i < n
            invariant
                i <= n,
                seen@.len() == i,
                forall|x: int| 0 <= x < i ==> !#[trigger] seen@[x],
            decreases n - i,
        {
            seen.push(false);
            i += 1;
        }
        // Where each seen index was found.
        let ghost mut found_at: Map<int, (int, int)> = Map::empty();
        let ghost parts_v = index_view(lists@);
        let mut k: usize = 0;
        while k < lists.len()
            invariant
                parts_v == index_view(lists@),
                k <= lists@.len(),
                seen@.len() == n,
                forall|a: int, b: int| 0 <= a < k && 0 <= b < parts_v[a].len() ==> #[trigger] at(parts_v, a, b) < n,
                forall|x: int| 0 <= x < n && #[trigger] seen@[x] ==> found_at.contains_key(x) && {
                    let (a, b) = found_at[x];
                    0 <= a < k && 0 <= b < parts_v[a].len() && at(parts_v, a, b) == x
                },
                forall|a: int, b: int| 0 <= a < k && 0 <= b < parts_v[a].len() ==> seen@[#[trigger] at(parts_v, a, b) as int]
                    && found_at[at(parts_v, a, b) as int] == (a, b),
            decreases lists.len() - k,
        {
            let list = &lists[k];
            let mut j: usize = 0;
            while j < list.len()
                invariant
                    parts_v == index_view(lists@),
                    k < lists@.len(),
                    *list == lists@[k as int],
                    j <= list@.len(),
                    seen@.len() == n,
                    forall|a: int, b: int|
                        0 <= a < k && 0 <= b < parts_v[a].len() ==> #[trigger] at(parts_v, a, b) < n,
                    forall|b: int| 0 <= b < j ==> #[trigger] at(parts_v, k as int, b) < n,
                    forall|x: int| 0 <= x < n && #[trigger] seen@[x] ==> found_at.contains_key(x) && {
                        let (a, b) = found_at[x];
                        ((0 <= a < k && 0 <= b < parts_v[a].len()) || (a == k && 0 <= b < j)) && at(parts_v, a, b) == x
                    },
                    forall|a: int, b: int|
                        0 <= a < k && 0 <= b < parts_v[a].len() ==> seen@[#[trigger] at(parts_v, a, b) as int]
                            && found_at[at(parts_v, a, b) as int] == (a, b),
                    forall|b: int| 0 <= b < j ==> seen@[#[trigger] at(parts_v, k as int, b) as int]
                        && found_at[at(parts_v, k as int, b) as int] == (k as int, b),
                decreases list.len() - j,
            {
                let x = list[j];
                proof {
                    assert(parts_v[k as int] == list@);
                    assert(at(parts_v, k as int, j as int) == x);
                }
                if x >= n {
                    return Err(BadPart);
                }
                if seen[x] {
                    proof {
                        let (a, b) = found_at[x as int];
                        assert(at(parts_v, a, b) == at(parts_v, k as int, j as int));
                        assert(!(a == k && b == j));
                    }
                    return Err(BadPart);
                }
                seen.set(x, true);
                proof {
                    found_at = found_at.insert(x as int, (k as int, j as int));
                }
                j += 1;
            }
            k += 1;
        }
        // Every index must have been seen.
        let mut i: usize = 0;
        while i < n
            invariant
                parts_v == index_view(lists@),
                i <= n,
                seen@.len() == n,
                forall|x: int| 0 <= x < i ==> #[trigger] seen@[x],
                forall|x: int| 0 <= x < n && #[trigger] seen@[x] ==> found_at.contains_key(x) && {
                    let (a, b) = found_at[x];
                    0 <= a < lists@.len() && 0 <= b < parts_v[a].len() && at(parts_v, a, b) == x
                },
                forall|a: int, b: int|
                    0 <= a < lists@.len() && 0 <= b < parts_v[a].len() ==> seen@[#[trigger] at(parts_v, a, b) as int],
            decreases n - i,
        {
            if !seen[i] {
                proof {
                    assert(!appears(parts_v, i as int));
                }
                return Err(BadPart);
            }
            i += 1;
        }
        proof {
            assert forall|x: int| 0 <= x < n implies #[trigger] appears(parts_v, x) by {
                assert(seen@[x]);
                let (a, b) = found_at[x];
                assert(at(parts_v, a, b) == x);
            }
            assert forall|k1: int, j1: int, k2: int, j2: int|
                0 <= k1 < parts_v.len() && 0 <= j1 < parts_v[k1].len() && 0 <= k2 < parts_v.len() && 0 <= j2
                    < parts_v[k2].len() && #[trigger] at(parts_v, k1, j1) == #[trigger] at(parts_v, k2, j2) implies k1 == k2
                && j1 == j2 by {
                assert(found_at[at(parts_v, k1, j1) as int] == (k1, j1));
                assert(found_at[at(parts_v, k2, j2) as int] == (k2, j2));
            }
        }
        Ok(Part { labels, parts: lists, len: n })
    }

    /// The number of parts.
    pub fn num_parts(&self) -> (r: usize)
        ensures
            r == self.parts_spec().len(),
    {
        self.parts.len()
    }

    /// The data of each part: entry `j` of part `k` is `v[parts[k][j]]`.
    pub fn partition<T: Copy>(&self, v: &Vec<T>) -> (r: Vec<Vec<T>>)
        requires
            v@.len() == self.len_spec(),
        ensures
            r@.len() == self.parts_spec().len(),
            forall|k: int| 0 <= k < r@.len() ==> (#[trigger] r@[k])@.len() == self.parts_spec()[k].len(),
            forall|k: int, j: int|
                0 <= k < r@.len() && 0 <= j < r@[k]@.len() ==> r@[k]@[j] == v@[at(self.parts_spec(), k, j) as int],
    {
        proof {
            use_type_invariant(self);
        }
        let ghost parts_v = index_view(self.parts@);
        let mut out: Vec<Vec<T>> = Vec::new();
        let mut k: usize = 0;
        while k < self.parts.len()
            invariant
                parts_v == index_view(self.parts@),
                is_partition(self.len as nat, parts_v),
                v@.len() == self.len,
                k <= self.parts@.len(),
                out@.len() == k,
                forall|a: int| 0 <= a < k ==> (#[trigger] out@[a])@.len() == parts_v[a].len(),
                forall|a: int, b: int| 0 <= a < k && 0 <= b < out@[a]@.len() ==> out@[a]@[b] == v@[at(parts_v, a, b) as int],
            decreases self.parts.len() - k,
        {
            let list = &self.parts[k];
            let mut data: Vec<T> = Vec::new();
            let mut j: usize = 0;
            while j < list.len()
                invariant
                    parts_v == index_view(self.parts@),
                    is_partition(self.len as nat, parts_v),
                    v@.len() == self.len,
                    k < self.parts@.len(),
                    *list == self.parts@[k as int],
                    j <= list@.len(),
                    data@.len() == j,
                    forall|b: int| 0 <= b < j ==> data@[b] == v@[at(parts_v, k as int, b) as int],
                decreases list.len() - j,
            {
                proof {
                    assert(parts_v[k as int] == list@);
                    assert(at(parts_v, k as int, j as int) < self.len);
                }
                data.push(v[list[j]]);
                j += 1;
            }
            out.push(data);
            k += 1;
        }
        out
    }
}

} // verus!
