//! Classification of low-lying eigenmodes into translations, rotations,
//! imaginary modes and vibrations.
//!
//! The numerical tests (how close a mode is to a uniform translation, how the
//! force changes on both sides of a mode) are made by the caller; this module
//! turns their outcomes into one kind per mode.

use vstd::prelude::*;

verus! {

/// The kind of an eigenmode.
#[derive(Debug, Clone, Copy, PartialEq, Eq, Structural)]
pub enum ModeKind {
    /// A uniform translation of the whole structure; there are three.
    Translational,
    /// A mode where the force is at a zero and at an inflection point.
    Rotational,
    /// An imaginary mode that is not acoustic.
    Imaginary,
    /// Everything else.
    Vibrational,
}

impl ModeKind {
    /// A one-character symbol for tables.
    pub fn symbol(&self) -> (r: &'static str)
        ensures
            r@ == mode_symbol(*self),
    {
        match *self {
            ModeKind::Translational => {
                proof {
                    reveal_strlit("T");
                }
                "T"
            },
            ModeKind::Rotational => {
                proof {
                    reveal_strlit("R");
                }
                "R"
            },
            ModeKind::Imaginary => {
                proof {
                    reveal_strlit("‼");
                }
                "‼"
            },
            ModeKind::Vibrational => {
                proof {
                    reveal_strlit("-");
                }
                "-"
            },
        }
    }
}

/// The symbol of each kind.
pub open spec fn mode_symbol(k: ModeKind) -> Seq<char> {
    match k {
        ModeKind::Translational => seq!['T'],
        ModeKind::Rotational => seq!['R'],
        ModeKind::Imaginary => seq!['‼'],
        ModeKind::Vibrational => seq!['-'],
    }
}

/// How the changes in force on the two sides of a mode compare, after
/// normalising them and holding their dot product against the thresholds.
#[derive(Debug, Clone, Copy, PartialEq, Eq, Structural)]
pub enum ForceAlignment {
    /// Anti-parallel beyond the rotational threshold.
    AntiParallel,
    /// Parallel beyond the imaginary threshold.
    Parallel,
    /// Neither.
    Unclear,
}

/// More than three modes looked like pure translations: the eigenbasis is
/// not orthonormal.
#[derive(Debug, Clone, Copy, PartialEq, Eq, Structural)]
pub struct TooManyTranslations;

/// How many of `flags` are set.
pub open spec fn count_set(flags: Seq<bool>) -> nat
    decreases flags.len(),
{
    if flags.len() == 0 {
        0
    } else {
        count_set(flags.drop_last()) + if flags.last() { 1nat } else { 0nat }
    }
}

/// One past the last set flag, or `default` when none is set.
pub open spec fn end_of_set(flags: Seq<bool>, default: int) -> int
    decreases flags.len(),
{
    if flags.len() == 0 {
        default
    } else if flags.last() {
        flags.len() as int
    } else {
        end_of_set(flags.drop_last(), default)
    }
}

/// Where the first pass ends: past the last negative mode and the last
/// translation, whichever is later.
pub open spec fn first_pass_end(flags: Seq<bool>, zero_index: int) -> int {
    let last = end_of_set(flags, 0);
    if last > zero_index { last } else { zero_index }
}

/// The kind a mode gets from the translation test alone, `None` where the
/// force test must decide.  Modes before the end of the first pass keep their
/// translation flag; the others below the first non-negative eigenvalue
/// (`zero_index`) need the force test; all the rest are vibrations.
pub open spec fn first_pass_kind(flags: Seq<bool>, zero_index: int, i: int) -> Option<ModeKind> {
    let t_end = first_pass_end(flags, zero_index);
    if i < t_end && flags[i] {
        Some(ModeKind::Translational)
    } else if i < t_end && i < zero_index {
        None
    } else {
        Some(ModeKind::Vibrational)
    }
}

/// The kind the force test gives.
pub open spec fn kind_of_alignment(a: ForceAlignment) -> ModeKind {
    match a {
        ForceAlignment::AntiParallel => ModeKind::Rotational,
        _ => ModeKind::Imaginary,
    }
}

proof fn lemma_count_set_push(flags: Seq<bool>, b: bool)
    ensures
        count_set(flags.push(b)) == count_set(flags) + if b { 1nat } else { 0nat },
        end_of_set(flags.push(b), 0) == if b { flags.len() as int + 1 } else { end_of_set(flags, 0) },
{
    assert(flags.push(b).drop_last() =~= flags);
}

proof fn lemma_set_flag_before_end(flags: Seq<bool>, i: int)
    requires
        0 <= i < flags.len(),
        flags[i],
    ensures
        i < end_of_set(flags, 0),
    decreases flags.len(),
{
    if !flags.last() {
        assert(i < flags.len() - 1);
        assert(flags.drop_last()[i] == flags[i]);
        lemma_set_flag_before_end(flags.drop_last(), i);
    }
}

/// The first pass marks exactly the flagged modes as translations, and when
/// no eigenvalue is negative (`zero_index == 0`) it leaves nothing to the
/// force test: every other mode is a vibration.
pub proof fn law_first_pass_translations(flags: Seq<bool>, zero_index: int, i: int)
    requires
        0 <= i < flags.len(),
        0 <= zero_index,
    ensures
        (first_pass_kind(flags, zero_index, i) == Some(ModeKind::Translational)) == flags[i],
        zero_index == 0 ==> first_pass_kind(flags, zero_index, i) == if flags[i] {
            Some(ModeKind::Translational)
        } else {
            Some(ModeKind::Vibrational)
        },
{
    if flags[i] {
        lemma_set_flag_before_end(flags, i);
    }
}

/// First pass of the classification: marks the translational modes and the
/// vibrations, leaving `None` for each mode that the force test must decide.
///
/// `translational[i]` says whether mode `i` passed the translation test;
/// `zero_index` is the index of the first non-negative eigenvalue.
pub fn mark_translations(translational: &Vec<bool>, zero_index: usize) -> (r: Result<Vec<Option<ModeKind>>, TooManyTranslations>)
    requires
        zero_index <= translational@.len(),
    ensures
        r is Err <==> count_set(translational@) > 3,
        r matches Ok(kinds) ==> kinds@.len() == translational@.len() && forall|i: int|
            0 <= i < kinds@.len() ==> #[trigger] kinds@[i] == first_pass_kind(translational@, zero_index as int, i),
{
    let n = translational.len();
    let mut count: usize = 0;
    let mut t_end: usize = 0;
    let mut i: usize = 0;
    while i < n
        invariant
            n == translational@.len(),
            i <= n,
            count == count_set(translational@.subrange(0, i as int)),
            t_end == end_of_set(translational@.subrange(0, i as int), 0),
            count <= i,
            t_end <= i,
        decreases n - i,
    {
        proof {
            lemma_count_set_push(translational@.subrange(0, i as int), translational@[i as int]);
            assert(translational@.subrange(0, i as int).push(translational@[i as int]) =~= translational@.subrange(0, i + 1));
        }
        if translational[i] {
            count += 1;
            t_end = i + 1;
        }
        i += 1;
    }
    assert(translational@.subrange(0, n as int) =~= translational@);
    if count > 3 {
        return Err(TooManyTranslations);
    }
    let t_end = if t_end > zero_index { t_end } else { zero_index };
    let mut kinds: Vec<Option<ModeKind>> = Vec::new();
    let mut j: usize = 0;
    while j < n
        invariant
            n == translational@.len(),
            j <= n,
            t_end == first_pass_end(translational@, zero_index as int),
            kinds@.len() == j,
            forall|k: int| 0 <= k < j ==> #[trigger] kinds@[k] == first_pass_kind(translational@, zero_index as int, k),
        decreases n - j,
    {
        let kind = if j < t_end && translational[j] {
            Some(ModeKind::Translational)
        } else if j < t_end && j < zero_index {
            None
        } else {
            Some(ModeKind::Vibrational)
        };
        kinds.push(kind);
        j += 1;
    }
    Ok(kinds)
}

/// Second pass: each mode left open by the first pass takes the kind of its
/// force test (`alignments[i]`); the others keep theirs.
pub fn finish_classification(kinds: &Vec<Option<ModeKind>>, alignments: &Vec<ForceAlignment>) -> (r: Vec<ModeKind>)
    requires
        kinds@.len() == alignments@.len(),
    ensures
        r@.len() == kinds@.len(),
        forall|i: int|
            0 <= i < r@.len() ==> #[trigger] r@[i] == match kinds@[i] {
                Some(k) => k,
                None => kind_of_alignment(alignments@[i]),
            },
{
    let mut out: Vec<ModeKind> = Vec::new();
    let mut i: usize = 0;
    while i < kinds.len()
        invariant
            kinds@.len() == alignments@.len(),
            i <= kinds@.len(),
            out@.len() == i,
            forall|k: int|
                0 <= k < i ==> #[trigger] out@[k] == match kinds@[k] {
                    Some(m) => m,
                    None => kind_of_alignment(alignments@[k]),
                },
        decreases kinds.len() - i,
    {
        let kind = match kinds[i] {
            Some(k) => k,
            None => match alignments[i] {
                ForceAlignment::AntiParallel => ModeKind::Rotational,
                _ => ModeKind::Imaginary,
            },
        };
        out.push(kind);
        i += 1;
    }
    out
}

/// The indices of the imaginary modes, in order: the modes to chase.
pub fn imaginary_modes(kinds: &Vec<ModeKind>) -> (r: Vec<usize>)
    ensures
        r@ == Seq::new(kinds@.len(), |i: int| i).filter(|i: int| kinds@[i] == ModeKind::Imaginary).map_values(
            |i: int| i as usize,
        ),
{
    let ghost all = Seq::new(kinds@.len(), |i: int| i);
    let ghost pick = |i: int| kinds@[i] == ModeKind::Imaginary;
    let ghost cast = |i: int| i as usize;
    let mut out: Vec<usize> = Vec::new();
    let mut i: usize = 0;
    while i < kinds.len()
        invariant
            i <= kinds@.len(),
            all == Seq::new(kinds@.len(), |i: int| i),
            pick == (|i: int| kinds@[i] == ModeKind::Imaginary),
            cast == (|i: int| i as usize),
            out@ == all.subrange(0, i as int).filter(pick).map_values(cast),
        decreases kinds.len() - i,
    {
        proof {
            let pre = all.subrange(0, i as int);
            assert(all.subrange(0, i + 1) =~= pre.push(i as int));
            pre.lemma_filter_push(i as int, pick);
        }
        if kinds[i] == ModeKind::Imaginary {
            out.push(i);
            proof {
                assert(out@ =~= all.subrange(0, i + 1).filter(pick).map_values(cast));
            }
        }
        i += 1;
    }
    assert(all.subrange(0, kinds@.len() as int) =~= all);
    out
}

} // verus!
