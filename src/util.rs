//! Small helpers: a shared counter, tuples from arrays, zipping and
//! transposing, and the text of a `key = value` configuration file.

use vstd::prelude::*;

use std::sync::atomic::{AtomicUsize, Ordering};
use std::sync::Arc;

verus! {

/// Wraps a value as a success, for brevity where the error type is known.
pub fn ok<T, E>(x: T) -> (r: Result<T, E>)
    ensures
        r == Ok::<T, E>(x),
{
    Ok(x)
}

/// An outcome with two layers of error, flattened the other way round:
/// errors of the inner kind become inner results.
pub open spec fn nested<A, B, C>(x: Result<A, Result<B, C>>) -> Result<Result<A, B>, C> {
    match x {
        Ok(a) => Ok(Ok(a)),
        Err(Ok(b)) => Ok(Err(b)),
        Err(Err(c)) => Err(c),
    }
}

/// Runs `f` and separates its two kinds of error, so that `?` can be used
/// inside `f` for both.
pub fn nest_err<A, B, C, F>(f: F) -> (r: Result<Result<A, B>, C>)
    where
        F: FnOnce() -> Result<A, Result<B, C>>,
    requires
        call_requires(f, ()),
    ensures
        exists|x: Result<A, Result<B, C>>| call_ensures(f, (), x) && r == nested(x),
{
    let x = f();
    let ghost seen = x;
    let r: Result<Result<A, B>, C> = match x {
        Ok(a) => Ok(Ok(a)),
        Err(Ok(b)) => Ok(Err(b)),
        Err(Err(c)) => Err(c),
    };
    assert(call_ensures(f, (), seen) && r == nested(seen));
    r
}

/// A counter shared between clones, for use across threads.
#[derive(Clone)]
pub struct AtomicCounter(Arc<AtomicUsize>);

impl AtomicCounter {
    /// A counter at zero.
    pub fn new() -> (r: AtomicCounter) {
        AtomicCounter(Arc::new(AtomicUsize::new(0)))
    }

    /// The current count; other clones may change it at any time.
    pub fn get(&self) -> (r: usize) {
        self.0.load(Ordering::SeqCst)
    }

    /// Adds one to the count and returns the count before.
    pub fn inc(&self) -> (r: usize) {
        self.0.fetch_add(1, Ordering::SeqCst)
    }
}

/// The two elements of an array, as a tuple.
pub fn tup2<T: Copy>(arr: [T; 2]) -> (r: (T, T))
    ensures
        r == (arr[0], arr[1]),
{
    (arr[0], arr[1])
}

/// The three elements of an array, as a tuple.
pub fn tup3<T: Copy>(arr: [T; 3]) -> (r: (T, T, T))
    ensures
        r == (arr[0], arr[1], arr[2]),
{
    (arr[0], arr[1], arr[2])
}

/// Pairs up two sequences of equal length.
pub fn zip_eq<A: Copy, B: Copy>(a: &Vec<A>, b: &Vec<B>) -> (r: Vec<(A, B)>)
    requires
        a@.len() == b@.len(),
    ensures
        r@.len() == a@.len(),
        forall|i: int| 0 <= i < r@.len() ==> #[trigger] r@[i] == (a@[i], b@[i]),
{
    let mut out: Vec<(A, B)> = Vec::new();
    let mut i: usize = 0;
    while i < a.len()
        invariant
            a@.len() == b@.len(),
            i <= a@.len(),
            out@.len() == i,
            forall|k: int| 0 <= k < i ==> #[trigger] out@[k] == (a@[k], b@[k]),
        decreases a.len() - i,
    {
        out.push((a[i], b[i]));
        i += 1;
    }
    out
}

/// The transpose of a non-empty list of rows of equal length.
pub fn transpose_iter_to_vec<T: Copy>(input: &Vec<Vec<T>>) -> (r: Vec<Vec<T>>)
    requires
        input@.len() > 0,
        forall|i: int| 0 <= i < input@.len() ==> (#[trigger] input@[i])@.len() == input@[0]@.len(),
    ensures
        r@.len() == input@[0]@.len(),
        forall|j: int| 0 <= j < r@.len() ==> (#[trigger] r@[j])@.len() == input@.len(),
        forall|i: int, j: int| 0 <= i < input@.len() && 0 <= j < r@.len() ==> r@[j]@[i] == input@[i]@[j],
{
    let width = input[0].len();
    let height = input.len();
    let mut out: Vec<Vec<T>> = Vec::new();
    let mut j: usize = 0;
    while j < width
        invariant
            width == input@[0]@.len(),
            height == input@.len(),
            forall|i: int| 0 <= i < input@.len() ==> (#[trigger] input@[i])@.len() == width,
            j <= width,
            out@.len() == j,
            forall|c: int| 0 <= c < j ==> (#[trigger] out@[c])@.len() == height,
            forall|i: int, c: int| 0 <= i < height && 0 <= c < j ==> out@[c]@[i] == input@[i]@[c],
        decreases width - j,
    {
        let mut column: Vec<T> = Vec::new();
        let mut i: usize = 0;
        while i < height
            invariant
                width == input@[0]@.len(),
                height == input@.len(),
                forall|k: int| 0 <= k < input@.len() ==> (#[trigger] input@[k])@.len() == width,
                j < width,
                i <= height,
                column@.len() == i,
                forall|k: int| 0 <= k < i ==> column@[k] == input@[k]@[j as int],
            decreases height - i,
        {
            assert(input@[i as int]@.len() == width);
            column.push(input[i][j]);
            i += 1;
        }
        out.push(column);
        j += 1;
    }
    out
}

/// A configuration key that holds `=`, which the file format cannot express.
#[derive(Debug, Clone, Copy, PartialEq, Eq, Structural)]
pub struct EqualsInConfKey;

/// The line `key = value` followed by a newline.
pub open spec fn conf_line(key: Seq<u8>, value: Seq<u8>) -> Seq<u8> {
    key + seq![0x20u8, 0x3du8, 0x20u8] + value + seq![0x0au8]
}

/// The lines of all entries, in order.
pub open spec fn conf_text(entries: Seq<(Seq<u8>, Seq<u8>)>) -> Seq<u8>
    decreases entries.len(),
{
    if entries.len() == 0 {
        Seq::empty()
    } else {
        conf_text(entries.drop_last()) + conf_line(entries.last().0, entries.last().1)
    }
}

/// The keys and values of `conf` as byte sequences.
pub open spec fn conf_view(conf: Seq<(Vec<u8>, Vec<u8>)>) -> Seq<(Seq<u8>, Seq<u8>)> {
    conf.map_values(|e: (Vec<u8>, Vec<u8>)| (e.0@, e.1@))
}

/// Appends the bytes of `src` to `dst`.
fn extend_bytes(dst: &mut Vec<u8>, src: &Vec<u8>)
    ensures
        final(dst)@ == old(dst)@ + src@,
{
    let mut i: usize = 0;
    while i < src.len()
        invariant
            i <= src@.len(),
            dst@ == old(dst)@ + src@.subrange(0, i as int),
        decreases src.len() - i,
    {
        dst.push(src[i]);
        i += 1;
        assert(dst@ =~= old(dst)@ + src@.subrange(0, i as int));
    }
    assert(src@.subrange(0, src@.len() as int) =~= src@);
}

/// The text of a `key = value` configuration file with one line per entry,
/// refused when a key holds `=`.
pub fn write_conf(conf: &Vec<(Vec<u8>, Vec<u8>)>) -> (r: Result<Vec<u8>, EqualsInConfKey>)
    ensures
        r is Err <==> exists|i: int| 0 <= i < conf@.len() && (#[trigger] conf@[i]).0@.contains(0x3du8),
        r matches Ok(text) ==> text@ == conf_text(conf_view(conf@)),
{
    let mut out: Vec<u8> = Vec::new();
    let mut i: usize = 0;
    while i < conf.len()
        invariant
            i <= conf@.len(),
            out@ == conf_text(conf_view(conf@.subrange(0, i as int))),
            forall|k: int| 0 <= k < i ==> !(#[trigger] conf@[k]).0@.contains(0x3du8),
        decreases conf.len() - i,
    {
        let key = &conf[i].0;
        let value = &conf[i].1;
        let mut j: usize = 0;
        while j < key.len()
            invariant
                i < conf@.len(),
                j <= key@.len(),
                *key == conf@[i as int].0,
                forall|k: int| 0 <= k < j ==> key@[k] != 0x3du8,
            decreases key.len() - j,
        {
            if key[j] == 0x3d {
                assert(conf@[i as int].0@.contains(0x3du8)) by {
                    assert(key@[j as int] == 0x3du8);
                }
                return Err(EqualsInConfKey);
            }
            j += 1;
        }
        let ghost before = out@;
        extend_bytes(&mut out, key);
        out.push(0x20);
        out.push(0x3d);
        out.push(0x20);
        extend_bytes(&mut out, value);
        out.push(0x0a);
        proof {
            let prefix = conf@.subrange(0, i as int);
            let grown = conf@.subrange(0, i + 1);
            assert(grown.drop_last() =~= prefix);
            assert(conf_view(grown).drop_last() =~= conf_view(prefix));
            assert(conf_view(grown).last() == (key@, value@));
            assert(out@ =~= before + conf_line(key@, value@));
        }
        i += 1;
    }
    assert(conf@.subrange(0, conf@.len() as int) =~= conf@);
    Ok(out)
}

} // verus!
