use rsp2::group::{generate_finite_group, GroupError, GroupTree};
use rsp2::symmops::FracOp;

fn fourfold() -> FracOp {
    FracOp::new([[0, -1, 0], [1, 0, 0], [0, 0, 1]], [0, 0, 0])
}

fn screw() -> FracOp {
    FracOp::new([[0, -1, 0], [1, 0, 0], [0, 0, 1]], [0, 0, 3])
}

#[test]
fn compose_multiplies_rotations_and_shifts_translations() {
    let a = FracOp::new([[0, -1, 0], [1, 0, 0], [0, 0, 1]], [1, 0, 0]);
    let b = FracOp::new([[1, 0, 0], [0, 1, 0], [0, 0, 1]], [0, 2, 11]);
    let c = a.of(&b).unwrap();
    assert_eq!(c.rot, [[0, -1, 0], [1, 0, 0], [0, 0, 1]]);
    // R_a * t_b + t_a = (-2, 0, 11) + (1, 0, 0) = (-1, 0, 11), reduced mod 12.
    assert_eq!(c.trans, [11, 0, 11]);
}

#[test]
fn new_reduces_translation() {
    let op = FracOp::new([[1, 0, 0], [0, 1, 0], [0, 0, 1]], [-1, 12, 25]);
    assert_eq!(op.trans, [11, 0, 1]);
    assert_eq!(FracOp::identity(), FracOp::new([[1, 0, 0], [0, 1, 0], [0, 0, 1]], [0, 0, 0]));
}

#[test]
fn compose_reports_overflow() {
    let big = FracOp::new([[i32::MAX, 0, 0], [0, 1, 0], [0, 0, 1]], [0, 0, 0]);
    assert_eq!(big.of(&big), None);
}

#[test]
fn fourfold_rotation_generates_four_elements() {
    let group = generate_finite_group(&vec![fourfold()], 48).unwrap();
    assert_eq!(group.len(), 4);
    assert_eq!(group[0], fourfold());
    assert_eq!(group[3], FracOp::identity());
    for a in &group {
        assert!(group.contains(&a.of(&fourfold()).unwrap()));
    }
}

#[test]
fn redundant_generators_are_tolerated() {
    let two = fourfold().of(&fourfold()).unwrap();
    let group = generate_finite_group(&vec![fourfold(), two, fourfold()], 48).unwrap();
    assert_eq!(group.len(), 4);
}

#[test]
fn screw_axis_closes_through_translations() {
    let group = generate_finite_group(&vec![screw()], 48).unwrap();
    assert_eq!(group.len(), 4);
    assert!(group.contains(&FracOp::identity()));
}

#[test]
fn infinite_group_is_rejected() {
    let shear = FracOp::new([[1, 1, 0], [0, 1, 0], [0, 0, 1]], [0, 0, 0]);
    assert_eq!(generate_finite_group(&vec![shear], 48), Err(GroupError::TooLarge));
}

#[test]
fn tree_decomposes_later_members() {
    let group = generate_finite_group(&vec![fourfold()], 48).unwrap();
    let tree = GroupTree::from_all_members(group.clone()).unwrap();
    assert_eq!(tree.members(), &group);
    let rebuilt: Result<Vec<FracOp>, ()> =
        tree.try_compute_homomorphism(|g: &FracOp| Ok(*g), |a: &FracOp, b: &FracOp| a.of(b).ok_or(()));
    assert_eq!(rebuilt.unwrap(), group);
}

#[test]
fn tree_homomorphism_counts_leaf_calls() {
    let group = generate_finite_group(&vec![fourfold()], 48).unwrap();
    let tree = GroupTree::from_all_members(group).unwrap();
    // Leaves map to the trace of their rotation; every composition fails.
    let traces: Result<Vec<i32>, ()> = tree.try_compute_homomorphism(
        |g: &FracOp| Ok(g.rot[0][0] + g.rot[1][1] + g.rot[2][2]),
        |_a: &i32, _b: &i32| Err(()),
    );
    // Only the generator is a leaf; the second member is a composition.
    assert_eq!(traces, Err(()));
}

#[test]
fn tree_refuses_a_non_group() {
    let not_closed = vec![fourfold(), FracOp::identity()];
    assert!(matches!(GroupTree::from_all_members(not_closed), Err(GroupError::NotClosed)));
}

#[test]
fn generated_group_is_closed_and_composition_associates() {
    let mirror = FracOp::new([[1, 0, 0], [0, -1, 0], [0, 0, 1]], [6, 0, 0]);
    let group = generate_finite_group(&vec![fourfold(), mirror], 48).unwrap();
    assert_eq!(group.len(), 16);
    for a in &group {
        for b in &group {
            let ab = a.of(b).unwrap();
            assert!(group.contains(&ab));
            for c in &group {
                assert_eq!(ab.of(c), a.of(&b.of(c).unwrap()));
            }
        }
    }
}
