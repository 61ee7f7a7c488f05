use rsp2::supercell::SupercellToken;

#[test]
fn graphene_seven_by_seven() {
    let sc = SupercellToken::diagonal([7, 7, 1], 2).unwrap();
    assert_eq!(sc.num_cells(), 49);
    assert_eq!(sc.num_supercell(), 98);
    assert_eq!(sc.atom_of(15), 1);
    assert_eq!(sc.cell_of(15), 7);
    assert_eq!(sc.lattice_point_of(15), [0, 1, 0]);
    assert_eq!(sc.lattice_point_of(97), [6, 6, 0]);
    assert_eq!(sc.image(1, 7), 15);
    assert_eq!(sc.image(0, 0), 0);
}

#[test]
fn each_atom_has_one_image_per_cell() {
    let sc = SupercellToken::diagonal([2, 3, 2], 3).unwrap();
    for atom in 0..3 {
        let images: Vec<usize> = (0..sc.num_supercell()).filter(|&s| sc.atom_of(s) == atom).collect();
        assert_eq!(images.len(), 12);
    }
    assert_eq!(sc.lattice_point_of(sc.image(2, 11)), [1, 2, 1]);
}

#[test]
fn replicate_repeats_primitive_values() {
    let sc = SupercellToken::diagonal([3, 1, 1], 2).unwrap();
    assert_eq!(sc.replicate(&vec!['a', 'b']), vec!['a', 'b', 'a', 'b', 'a', 'b']);
}

#[test]
fn degenerate_supercells_are_refused() {
    assert!(SupercellToken::diagonal([0, 1, 1], 2).is_none());
    assert!(SupercellToken::diagonal([u32::MAX, u32::MAX, u32::MAX], 2).is_none());
    assert_eq!(SupercellToken::diagonal([1, 1, 1], 0).unwrap().num_supercell(), 0);
}
