use rsp2::perm::{brute_force_near_identity, BadPerm, Perm};

fn perm(v: Vec<usize>) -> Perm {
    Perm::from_vec(v).unwrap()
}

#[test]
fn from_vec_rejects_non_permutations() {
    assert_eq!(Perm::from_vec(vec![0, 0, 1]), Err(BadPerm));
    assert_eq!(Perm::from_vec(vec![0, 3, 1]), Err(BadPerm));
    assert!(Perm::from_vec(vec![]).is_ok());
    assert_eq!(Perm::from_vec(vec![1, 2, 0]).unwrap().into_vec(), vec![1, 2, 0]);
}

#[test]
fn apply_moves_each_element_to_its_image() {
    let p = perm(vec![2, 0, 1]);
    assert_eq!(p.apply(&vec![10, 20, 30]), vec![20, 30, 10]);
}

#[test]
fn inverse_undoes_apply() {
    let p = perm(vec![2, 0, 1]);
    let q = p.inverted();
    assert_eq!(q.clone().into_vec(), vec![1, 2, 0]);
    let s = vec!['a', 'b', 'c'];
    assert_eq!(q.apply(&p.apply(&s)), s);
}

#[test]
fn inverse_is_an_involution() {
    let p = perm(vec![3, 0, 4, 1, 2]);
    assert_eq!(p.inverted().inverted(), p);
}

#[test]
fn compose_applies_right_first() {
    let a = perm(vec![2, 0, 1]);
    let b = perm(vec![1, 0, 2]);
    let c = a.compose(&b);
    assert_eq!(c.clone().into_vec(), vec![0, 2, 1]);
    let s = vec![7, 8, 9];
    assert_eq!(c.apply(&s), a.apply(&b.apply(&s)));
}

#[test]
fn eye_is_identity() {
    let e = Perm::eye(4);
    assert_eq!(e.clone().into_vec(), vec![0, 1, 2, 3]);
    assert_eq!(e.apply(&vec![4, 5, 6, 7]), vec![4, 5, 6, 7]);
    assert_eq!(e.len(), 4);
    assert_eq!(perm(vec![1, 0]).get(0), 1);
}

#[test]
fn brute_force_recovers_the_permutation() {
    let original = vec![10, 20, 30, 40];
    let permuted = vec![20, 30, 10, 40];
    let p = brute_force_near_identity(4, |from: usize, to: usize| original[from] == permuted[to]).unwrap();
    assert_eq!(p.clone().into_vec(), vec![1, 2, 0, 3]);
    let none = brute_force_near_identity(2, |from: usize, _to: usize| from == 0);
    assert!(none.is_none());
    assert_eq!(brute_force_near_identity(3, |f: usize, t: usize| f == t).unwrap(), Perm::eye(3));
}
