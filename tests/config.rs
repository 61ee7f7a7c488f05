use rsp2::config::{
    fill_lammps_from_deprecated, CgFlavor, CgOnLsFailure, DeprecatedLammpsSettings, Filled, Lammps, LammpsUpdateStyle,
    Threading,
};

#[test]
fn test_defaults() {
    let _ = Threading::default();
    let _ = rsp2::config::EvLoop::default();
    let _ = Lammps::default();
    assert_eq!(Threading::default(), Threading::Lammps);
    assert_eq!(CgOnLsFailure::default(), CgOnLsFailure::Succeed);
    assert_eq!(CgFlavor::default(), CgFlavor::Hager {});
    assert_eq!(LammpsUpdateStyle::default(), LammpsUpdateStyle::Safe);
}

#[test]
fn filled_accessors() {
    let mut f = Filled::from(5);
    assert_eq!(*f.as_ref(), 5);
    *f.as_mut() += 1;
    assert_eq!(f.into_inner(), 6);
}

#[test]
fn deprecated_settings_move_to_new_place() {
    let mut lammps = Lammps::default();
    let mut old = DeprecatedLammpsSettings {
        lammps_update_style: Some(LammpsUpdateStyle::Fast { sync_positions_every: 4 }),
        lammps_processor_axis_mask: Some([true, false, true]),
    };
    fill_lammps_from_deprecated(&mut lammps, &mut old);
    assert_eq!(lammps.processor_axis_mask.into_inner(), [true, false, true]);
    assert_eq!(lammps.update_style.into_inner(), LammpsUpdateStyle::Fast { sync_positions_every: 4 });
    assert_eq!(old, DeprecatedLammpsSettings::default());
}

#[test]
fn new_place_wins_and_defaults_fill_the_rest() {
    let mut lammps = Lammps { processor_axis_mask: Filled::from([false, false, true]), update_style: Lammps::default().update_style };
    let mut old = DeprecatedLammpsSettings { lammps_update_style: None, lammps_processor_axis_mask: Some([true, true, false]) };
    fill_lammps_from_deprecated(&mut lammps, &mut old);
    assert_eq!(lammps.processor_axis_mask.into_inner(), [false, false, true]);
    assert_eq!(lammps.update_style.into_inner(), LammpsUpdateStyle::Safe);
    assert_eq!(old.lammps_processor_axis_mask, None);

    let mut lammps = Lammps::default();
    fill_lammps_from_deprecated(&mut lammps, &mut DeprecatedLammpsSettings::default());
    assert_eq!(lammps.processor_axis_mask.into_inner(), [true, true, true]);
}
