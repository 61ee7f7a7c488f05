//! Building and mapping fixed-size arrays through functions, with fallible
//! variants that stop at the first failure.
//!
//! When a fallible build stops, the elements made so far are dropped newest
//! first; when a fallible map stops, the mapped elements are dropped newest
//! first and then the elements not yet mapped, in order.

use vstd::prelude::*;

verus! {

/// Relies on std's `From<[T; N]>` for `Vec<T>`: the vector holds the array's
/// elements in order.
#[verifier::external_body]
fn array_into_vec<T, const N: usize>(a: [T; N]) -> (r: Vec<T>)
    ensures
        r@ == a@,
{
    Vec::from(a)
}

/// Relies on std's `TryFrom<Vec<T>>` for `[T; N]`: it succeeds exactly when
/// the length is `N`, and then holds the vector's elements in order.
#[verifier::external_body]
fn vec_into_array<T, const N: usize>(v: Vec<T>) -> (r: Option<[T; N]>)
    ensures
        r is Some <==> v@.len() == N,
        r matches Some(a) ==> a@ == v@,
{
    <[T; N]>::try_from(v).ok()
}

/// Drops the elements of `v` from the last to the first.
fn drop_newest_first<T>(v: Vec<T>) {
    let mut v = v;
    while v.len() > 0
        decreases v.len(),
    {
        let _x = v.pop();
    }
}

/// Drops the elements of `v` from the first to the last.
fn drop_oldest_first<T>(v: Vec<T>) {
    let mut stack = reversed(v);
    while stack.len() > 0
        decreases stack.len(),
    {
        let _x = stack.pop();
    }
}

/// `v` back to front.
fn reversed<T>(v: Vec<T>) -> (r: Vec<T>)
    ensures
        r@ == v@.reverse(),
{
    let mut v = v;
    let ghost original = v@;
    let mut out: Vec<T> = Vec::new();
    while v.len() > 0
        invariant
            v@.len() <= original.len(),
            v@ == original.subrange(0, v@.len() as int),
            out@ == original.subrange(v@.len() as int, original.len() as int).reverse(),
        decreases v.len(),
    {
        let ghost before = v@;
        let x = v.pop().unwrap();
        out.push(x);
        proof {
            let n = original.len() as int;
            let l = v@.len() as int;
            assert(x == original[l]);
            let lhs = original.subrange(l, n).reverse();
            let rhs = original.subrange(l + 1, n).reverse().push(x);
            assert(lhs.len() == rhs.len());
            assert forall|k: int| 0 <= k < lhs.len() implies lhs[k] == rhs[k] by {
                if k < n - l - 1 {
                    assert(lhs[k] == original[n - 1 - k]);
                    assert(rhs[k] == original[n - 1 - k]);
                }
            }
            assert(lhs =~= rhs);
        }
    }
    assert(out@ =~= original.reverse());
    out
}

/// Builds an array whose element `i` is `f(i)`.
pub fn arr_from_fn<T, F, const N: usize>(f: F) -> (r: [T; N])
    where
        F: Fn(usize) -> T,
    requires
        forall|i: usize| i < N ==> call_requires(f, (i,)),
    ensures
        forall|i: int| 0 <= i < N ==> call_ensures(f, (i as usize,), #[trigger] r@[i]),
{
    let mut out: Vec<T> = Vec::new();
    let mut i: usize = 0;
    while i < N
        invariant
            i <= N,
            out@.len() == i,
            forall|k: usize| k < N ==> call_requires(f, (k,)),
            forall|k: int| 0 <= k < i ==> call_ensures(f, (k as usize,), #[trigger] out@[k]),
        decreases N - i,
    {
        out.push(f(i));
        i += 1;
    }
    vec_into_array(out).unwrap()
}

/// Builds an array whose element `i` is the value in `f(i)`, or gives the
/// first error, dropping what was built newest first.
pub fn try_arr_from_fn<T, E, F, const N: usize>(f: F) -> (r: Result<[T; N], E>)
    where
        F: Fn(usize) -> Result<T, E>,
    requires
        forall|i: usize| i < N ==> call_requires(f, (i,)),
    ensures
        r matches Ok(a) ==> forall|i: int| 0 <= i < N ==> call_ensures(f, (i as usize,), Ok(#[trigger] a@[i])),
        r matches Err(e) ==> exists|i: usize|
            i < N && #[trigger] call_ensures(f, (i,), Err(e)),
{
    let mut out: Vec<T> = Vec::new();
    let mut i: usize = 0;
    while i < N
        invariant
            i <= N,
            out@.len() == i,
            forall|k: usize| k < N ==> call_requires(f, (k,)),
            forall|k: int| 0 <= k < i ==> call_ensures(f, (k as usize,), Ok(#[trigger] out@[k])),
        decreases N - i,
    {
        match f(i) {
            Ok(x) => out.push(x),
            Err(e) => {
                assert(call_ensures(f, (i,), Err(e)));
                drop_newest_first(out);
                let r: Result<[T; N], E> = Err(e);
                assert(r matches Err(err) && call_ensures(f, (i,), Err(err)));
                return r;
            },
        }
        i += 1;
    }
    Ok(vec_into_array(out).unwrap())
}

/// Builds an array whose element `i` is the value in `f(i)`, or gives `None`
/// at the first `None`, dropping what was built newest first.
pub fn opt_arr_from_fn<T, F, const N: usize>(f: F) -> (r: Option<[T; N]>)
    where
        F: Fn(usize) -> Option<T>,
    requires
        forall|i: usize| i < N ==> call_requires(f, (i,)),
    ensures
        r matches Some(a) ==> forall|i: int| 0 <= i < N ==> call_ensures(f, (i as usize,), Some(#[trigger] a@[i])),
        r is None ==> exists|i: usize| i < N && #[trigger] call_ensures(f, (i,), None),
{
    let mut out: Vec<T> = Vec::new();
    let mut i: usize = 0;
    while i < N
        invariant
            i <= N,
            out@.len() == i,
            forall|k: usize| k < N ==> call_requires(f, (k,)),
            forall|k: int| 0 <= k < i ==> call_ensures(f, (k as usize,), Some(#[trigger] out@[k])),
        decreases N - i,
    {
        match f(i) {
            Some(x) => out.push(x),
            None => {
                drop_newest_first(out);
                return None;
            },
        }
        i += 1;
    }
    Some(vec_into_array(out).unwrap())
}

/// Maps each element of an array by value.
pub fn map_arr<A, B, F, const N: usize>(v: [A; N], f: F) -> (r: [B; N])
    where
        F: Fn(A) -> B,
    requires
        forall|i: int| 0 <= i < N ==> call_requires(f, (#[trigger] v@[i],)),
    ensures
        forall|i: int| 0 <= i < N ==> call_ensures(f, (v@[i],), #[trigger] r@[i]),
{
    let mut rest = reversed(array_into_vec(v));
    let mut out: Vec<B> = Vec::new();
    let mut i: usize = 0;
    while i < N
        invariant
            i <= N,
            out@.len() == i,
            rest@ == v@.subrange(i as int, N as int).reverse(),
            forall|k: int| 0 <= k < N ==> call_requires(f, (#[trigger] v@[k],)),
            forall|k: int| 0 <= k < i ==> call_ensures(f, (v@[k],), #[trigger] out@[k]),
        decreases N - i,
    {
        let x = rest.pop().unwrap();
        proof {
            assert(x == v@[i as int]);
            assert(v@.subrange(i + 1, N as int).reverse() =~= v@.subrange(i as int, N as int).reverse().drop_last());
        }
        out.push(f(x));
        i += 1;
    }
    vec_into_array(out).unwrap()
}

/// Maps each element of an array by value, or gives the first error; the
/// mapped elements are then dropped newest first, and the unmapped ones in
/// order.
pub fn try_map_arr<A, B, E, F, const N: usize>(v: [A; N], f: F) -> (r: Result<[B; N], E>)
    where
        F: Fn(A) -> Result<B, E>,
    requires
        forall|i: int| 0 <= i < N ==> call_requires(f, (#[trigger] v@[i],)),
    ensures
        r matches Ok(a) ==> forall|i: int| 0 <= i < N ==> call_ensures(f, (v@[i],), Ok(#[trigger] a@[i])),
        r matches Err(e) ==> exists|i: int| 0 <= i < N && #[trigger] call_ensures(f, (v@[i],), Err(e)),
{
    let mut rest = reversed(array_into_vec(v));
    let mut out: Vec<B> = Vec::new();
    let mut i: usize = 0;
    while i < N
        invariant
            i <= N,
            out@.len() == i,
            rest@ == v@.subrange(i as int, N as int).reverse(),
            forall|k: int| 0 <= k < N ==> call_requires(f, (#[trigger] v@[k],)),
            forall|k: int| 0 <= k < i ==> call_ensures(f, (v@[k],), Ok(#[trigger] out@[k])),
        decreases N - i,
    {
        let x = rest.pop().unwrap();
        proof {
            assert(x == v@[i as int]);
            assert(v@.subrange(i + 1, N as int).reverse() =~= v@.subrange(i as int, N as int).reverse().drop_last());
        }
        match f(x) {
            Ok(y) => out.push(y),
            Err(e) => {
                assert(call_ensures(f, (v@[i as int],), Err(e)));
                drop_newest_first(out);
                drop_oldest_first(reversed(rest));
                let r: Result<[B; N], E> = Err(e);
                assert(r matches Err(err) && call_ensures(f, (v@[i as int],), Err(err)));
                return r;
            },
        }
        i += 1;
    }
    Ok(vec_into_array(out).unwrap())
}

/// Maps each element of an array by value, or gives `None` at the first
/// `None`, dropping the rest as `try_map_arr` does.
pub fn opt_map_arr<A, B, F, const N: usize>(v: [A; N], f: F) -> (r: Option<[B; N]>)
    where
        F: Fn(A) -> Option<B>,
    requires
        forall|i: int| 0 <= i < N ==> call_requires(f, (#[trigger] v@[i],)),
    ensures
        r matches Some(a) ==> forall|i: int| 0 <= i < N ==> call_ensures(f, (v@[i],), Some(#[trigger] a@[i])),
        r is None ==> exists|i: int| 0 <= i < N && #[trigger] call_ensures(f, (v@[i],), None),
{
    let mut rest = reversed(array_into_vec(v));
    let mut out: Vec<B> = Vec::new();
    let mut i: usize = 0;
    while i < N
        invariant
            i <= N,
            out@.len() == i,
            rest@ == v@.subrange(i as int, N as int).reverse(),
            forall|k: int| 0 <= k < N ==> call_requires(f, (#[trigger] v@[k],)),
            forall|k: int| 0 <= k < i ==> call_ensures(f, (v@[k],), Some(#[trigger] out@[k])),
        decreases N - i,
    {
        let x = rest.pop().unwrap();
        proof {
            assert(x == v@[i as int]);
            assert(v@.subrange(i + 1, N as int).reverse() =~= v@.subrange(i as int, N as int).reverse().drop_last());
        }
        match f(x) {
            Some(y) => out.push(y),
            None => {
                assert(call_ensures(f, (v@[i as int],), None));
                drop_newest_first(out);
                drop_oldest_first(reversed(rest));
                return None;
            },
        }
        i += 1;
    }
    Some(vec_into_array(out).unwrap())
}

} // verus!
