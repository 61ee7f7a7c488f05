use rsp2::acoustic::{finish_classification, imaginary_modes, mark_translations, ForceAlignment, ModeKind, TooManyTranslations};

use ModeKind::{Imaginary, Rotational, Translational, Vibrational};

#[test]
fn translations_then_force_tests() {
    let flags = vec![false, true, true, true, false, false];
    let kinds = mark_translations(&flags, 2).unwrap();
    assert_eq!(
        kinds,
        vec![None, Some(Translational), Some(Translational), Some(Translational), Some(Vibrational), Some(Vibrational)]
    );
    let alignments = vec![ForceAlignment::AntiParallel; 6];
    assert_eq!(
        finish_classification(&kinds, &alignments),
        vec![Rotational, Translational, Translational, Translational, Vibrational, Vibrational]
    );
}

#[test]
fn negative_modes_without_translations() {
    let flags = vec![false, false, false, false];
    let kinds = mark_translations(&flags, 3).unwrap();
    assert_eq!(kinds, vec![None, None, None, Some(Vibrational)]);
    let alignments = vec![
        ForceAlignment::Parallel,
        ForceAlignment::Unclear,
        ForceAlignment::AntiParallel,
        ForceAlignment::Parallel,
    ];
    assert_eq!(finish_classification(&kinds, &alignments), vec![Imaginary, Imaginary, Rotational, Vibrational]);
}

#[test]
fn more_than_three_translations_fail() {
    let flags = vec![true, true, true, true, false];
    assert_eq!(mark_translations(&flags, 0), Err(TooManyTranslations));
}

#[test]
fn imaginary_modes_are_the_ones_to_chase() {
    assert_eq!(imaginary_modes(&vec![Imaginary, Translational, Imaginary, Vibrational]), vec![0, 2]);
    assert_eq!(imaginary_modes(&vec![Translational, Rotational]), Vec::<usize>::new());
}

#[test]
fn symbols() {
    assert_eq!(Translational.symbol(), "T");
    assert_eq!(Rotational.symbol(), "R");
    assert_eq!(Vibrational.symbol(), "-");
    assert_eq!(Imaginary.symbol(), "\u{203c}");
}

#[test]
fn negative_mode_after_a_translation_gets_the_force_test() {
    let kinds = mark_translations(&vec![true, false], 2).unwrap();
    assert_eq!(kinds, vec![Some(Translational), None]);
    let alignments = vec![ForceAlignment::Parallel; 2];
    assert_eq!(finish_classification(&kinds, &alignments), vec![Translational, Imaginary]);
}

#[test]
fn all_zero_modes_with_three_translations() {
    let flags = vec![true, false, true, false, true, false];
    let kinds = mark_translations(&flags, 0).unwrap();
    let alignments = vec![ForceAlignment::Unclear; 6];
    let out = finish_classification(&kinds, &alignments);
    assert_eq!(out.iter().filter(|&&k| k == Translational).count(), 3);
    assert!(!out.contains(&Imaginary));
}
