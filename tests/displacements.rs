use rsp2::config::PhononDispFinderRsp2Directions;
use rsp2::displacements::{candidate_directions, orbit_sources, plan_displacements};
use rsp2::group::generate_finite_group;
use rsp2::perm::Perm;
use rsp2::symmops::FracOp;

#[test]
fn candidate_counts() {
    let axial = candidate_directions(PhononDispFinderRsp2Directions::Axial);
    assert_eq!(axial, vec![[1, 0, 0], [0, 1, 0], [0, 0, 1]]);
    let diag = candidate_directions(PhononDispFinderRsp2Directions::Diag);
    assert_eq!(diag.len(), 13);
    assert!(diag.contains(&[1, -1, 0]));
    assert!(diag.contains(&[1, 1, 1]));
    assert!(!diag.contains(&[-1, 1, 0]));
    let diag2 = candidate_directions(PhononDispFinderRsp2Directions::Diag2);
    assert_eq!(diag2.len(), 59);
    assert!(diag2.contains(&[2, -1, 0]));
}

#[test]
fn no_symmetry_needs_three_per_atom() {
    let ops = vec![FracOp::identity()];
    let perms = vec![Perm::eye(2)];
    let candidates = candidate_directions(PhononDispFinderRsp2Directions::Axial);
    let plan = plan_displacements(2, &ops, &perms, &candidates).unwrap();
    assert_eq!(
        plan,
        vec![(0, [1, 0, 0]), (0, [0, 1, 0]), (0, [0, 0, 1]), (1, [1, 0, 0]), (1, [0, 1, 0]), (1, [0, 0, 1])]
    );
}

#[test]
fn equivalent_atoms_are_displaced_once() {
    let inversion = FracOp::new([[-1, 0, 0], [0, -1, 0], [0, 0, -1]], [0, 0, 0]);
    let ops = vec![FracOp::identity(), inversion];
    let perms = vec![Perm::eye(2), Perm::from_vec(vec![1, 0]).unwrap()];
    let candidates = candidate_directions(PhononDispFinderRsp2Directions::Axial);
    let plan = plan_displacements(2, &ops, &perms, &candidates).unwrap();
    assert_eq!(plan, vec![(0, [1, 0, 0]), (0, [0, 1, 0]), (0, [0, 0, 1])]);
}

#[test]
fn fourfold_axis_covers_the_second_in_plane_direction() {
    let fourfold = FracOp::new([[0, -1, 0], [1, 0, 0], [0, 0, 1]], [0, 0, 0]);
    let ops = generate_finite_group(&vec![fourfold], 48).unwrap();
    let perms: Vec<Perm> = ops.iter().map(|_| Perm::eye(1)).collect();
    let candidates = candidate_directions(PhononDispFinderRsp2Directions::Axial);
    let plan = plan_displacements(1, &ops, &perms, &candidates).unwrap();
    assert_eq!(plan, vec![(0, [1, 0, 0]), (0, [0, 0, 1])]);
}

#[test]
fn overflowing_rotation_is_reported() {
    let big = FracOp::new([[i32::MAX, 0, 0], [0, 1, 0], [0, 0, 1]], [0, 0, 0]);
    let ops = vec![big];
    let perms = vec![Perm::eye(1)];
    let candidates = vec![[2, 0, 0]];
    assert!(plan_displacements(1, &ops, &perms, &candidates).is_err());
}

#[test]
fn orbit_sources_point_at_representatives() {
    let perms = vec![Perm::eye(3), Perm::from_vec(vec![1, 0, 2]).unwrap()];
    assert_eq!(orbit_sources(3, &perms), vec![Some((0, 0)), Some((1, 0)), Some((0, 2))]);
    let only_swap = vec![Perm::from_vec(vec![1, 0]).unwrap()];
    // Atom 1 is not a representative, and nothing maps atom 0 onto itself.
    assert_eq!(orbit_sources(2, &only_swap), vec![None, Some((0, 0))]);
}
