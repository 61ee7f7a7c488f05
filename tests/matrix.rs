use rsp2::matrix::{unimodular_combinations, eye, from_array, from_fn, Det, Inv, IntoArray, Transpose, M2, M22, M3, M33, M44};

#[test]
fn determinants() {
    let m: M22<i32> = from_array([[7, 2], [-11, 4]]);
    assert_eq!(m.det(), 50);
    let m: M33<i32> = from_array([[1, 2, 4], [5, 2, 1], [3, 6, 3]]);
    assert_eq!(m.det(), 72);
}

#[test]
fn unimodular_inverses() {
    let m: M22<i32> = M2([[2, 1], [1, 1]]);
    assert_eq!(m.inv(), M2([[1, -1], [-1, 2]]));
    let m: M22<i32> = M2([[0, 1], [1, 0]]);
    assert_eq!(m.inv(), M2([[0, 1], [1, 0]]));
    let m: M33<i32> = M3([[1, 1, 0], [0, 1, 0], [0, 0, 1]]);
    assert_eq!(m.inv(), M3([[1, -1, 0], [0, 1, 0], [0, 0, 1]]));
    let rot: M33<i32> = M3([[0, -1, 0], [1, 0, 0], [0, 0, 1]]);
    assert_eq!(rot.inv(), M3([[0, 1, 0], [-1, 0, 0], [0, 0, 1]]));
}

#[test]
fn identities() {
    let e: M33<i32> = eye();
    assert_eq!(e, M3([[1, 0, 0], [0, 1, 0], [0, 0, 1]]));
    let e: M44<i32> = eye();
    assert_eq!(e.into_array()[3], [0, 0, 0, 1]);
    let mut e: M22<i32> = eye();
    assert_eq!(e.as_array(), &[[1, 0], [0, 1]]);
    e.as_array_mut()[0][1] = 5;
    assert_eq!(e, M2([[1, 5], [0, 1]]));
}

#[test]
fn transpose_and_from_fn() {
    let m: M33<usize> = from_fn(|r: usize, c: usize| 3 * r + c);
    assert_eq!(m, M3([[0, 1, 2], [3, 4, 5], [6, 7, 8]]));
    assert_eq!(m.t(), M3([[0, 3, 6], [1, 4, 7], [2, 5, 8]]));
    let m: M22<i64> = from_fn(|r: usize, c: usize| (r as i64) - (c as i64));
    assert_eq!(m.t(), M2([[0, 1], [-1, 0]]));
}

#[test]
fn unimodular_choices() {
    let choices = [vec![[1, 0, 0], [2, 0, 0]], vec![[0, 1, 0]], vec![[0, 0, 1], [0, 0, -1]]];
    let found = unimodular_combinations(&choices);
    assert_eq!(found, vec![M3([[1, 0, 0], [0, 1, 0], [0, 0, 1]]), M3([[1, 0, 0], [0, 1, 0], [0, 0, -1]])]);
    let none: [Vec<[i32; 3]>; 3] = [vec![], vec![[0, 1, 0]], vec![[0, 0, 1]]];
    assert!(unimodular_combinations(&none).is_empty());
    let big = [vec![[i32::MAX, 0, 0]], vec![[0, i32::MAX, 0]], vec![[0, 0, i32::MAX]]];
    assert!(unimodular_combinations(&big).is_empty());
}
