use rsp2::config::EvLoop;
use rsp2::ev_loop::{DidEvChasing, EvLoopFsm, EvLoopStatus, TOO_MANY_STEPS};

fn config(min_positive_iter: u32, max_iter: u32, fail: bool) -> EvLoop {
    EvLoop { min_positive_iter, max_iter, fail }
}

#[test]
fn settles_after_clean_streak() {
    let mut fsm = EvLoopFsm::new(&config(3, 15, true));
    assert_eq!(fsm.iteration(), 1);
    assert_eq!(fsm.step(DidEvChasing(true)), EvLoopStatus::KeepGoing);
    assert_eq!(fsm.step(DidEvChasing(true)), EvLoopStatus::KeepGoing);
    assert_eq!(fsm.step(DidEvChasing(false)), EvLoopStatus::KeepGoing);
    assert_eq!(fsm.step(DidEvChasing(false)), EvLoopStatus::KeepGoing);
    assert_eq!(fsm.step(DidEvChasing(false)), EvLoopStatus::Done);
    assert_eq!(fsm.iteration(), 6);
}

#[test]
fn chasing_resets_the_streak() {
    let mut fsm = EvLoopFsm::new(&config(2, 15, true));
    assert_eq!(fsm.step(DidEvChasing(false)), EvLoopStatus::KeepGoing);
    assert_eq!(fsm.step(DidEvChasing(true)), EvLoopStatus::KeepGoing);
    assert_eq!(fsm.step(DidEvChasing(false)), EvLoopStatus::KeepGoing);
    assert_eq!(fsm.step(DidEvChasing(false)), EvLoopStatus::Done);
}

#[test]
fn saddle_exhausts_with_failure() {
    let mut fsm = EvLoopFsm::new(&config(3, 15, true));
    for _ in 0..14 {
        assert_eq!(fsm.step(DidEvChasing(true)), EvLoopStatus::KeepGoing);
    }
    assert_eq!(fsm.step(DidEvChasing(true)), EvLoopStatus::ItsBadGuys(TOO_MANY_STEPS));
}

#[test]
fn saddle_exhausts_quietly_without_failure() {
    let mut fsm = EvLoopFsm::new(&config(3, 4, false));
    for _ in 0..3 {
        assert_eq!(fsm.step(DidEvChasing(true)), EvLoopStatus::KeepGoing);
    }
    assert_eq!(fsm.step(DidEvChasing(true)), EvLoopStatus::Exhausted(TOO_MANY_STEPS));
}

#[test]
fn default_bounds() {
    let cfg = EvLoop::default();
    assert_eq!(cfg, config(3, 15, true));
}
