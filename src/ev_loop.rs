//! The outer loop that alternates relaxation with eigen-analysis, as a state
//! machine driven by whether imaginary modes were chased in an iteration.

use vstd::prelude::*;

use crate::config::EvLoop;

verus! {

/// What the loop should do after an iteration.
#[derive(Debug, Clone, Copy, PartialEq, Eq)]
pub enum EvLoopStatus {
    /// Run another iteration.
    KeepGoing,
    /// Stop: the structure has settled.
    Done,
    /// Stop without failing: the iteration bound was hit and failure is off.
    Exhausted(&'static str),
    /// Stop with a failure: the iteration bound was hit.
    ItsBadGuys(&'static str),
}

/// Whether any imaginary modes were chased in an iteration.
#[derive(Debug, Clone, Copy, PartialEq, Eq)]
pub struct DidEvChasing(pub bool);

/// Message of the failure reported when the iteration bound is hit.
pub const TOO_MANY_STEPS: &'static str = "Too many relaxation steps!";

/// Iteration number after a step from iteration `it`.
pub open spec fn next_iteration(it: int) -> int {
    it + 1
}

/// Clean-streak length after a step.
pub open spec fn next_clean(clean: int, did: bool) -> int {
    if did { 0 } else { clean + 1 }
}

/// Whether a step from (`it`, `clean`) with input `did` stops the loop,
/// and whether it stops with a failure.
pub open spec fn stops(cfg: EvLoop, it: int, clean: int, did: bool) -> bool {
    if did {
        next_iteration(it) > cfg.max_iter
    } else {
        next_clean(clean, did) >= cfg.min_positive_iter
    }
}

/// The status a step reports, as a function of the state before it.
pub open spec fn status_spec(cfg: EvLoop, it: int, clean: int, did: bool) -> EvLoopStatus {
    if !stops(cfg, it, clean, did) {
        EvLoopStatus::KeepGoing
    } else if did && cfg.fail {
        EvLoopStatus::ItsBadGuys(TOO_MANY_STEPS)
    } else if did {
        EvLoopStatus::Exhausted(TOO_MANY_STEPS)
    } else {
        EvLoopStatus::Done
    }
}

/// Feeding the inputs `dids` in turn from (`it`, `clean`), some step stops the loop.
pub open spec fn stops_within(cfg: EvLoop, it: int, clean: int, dids: Seq<bool>) -> bool
    decreases dids.len(),
{
    if dids.len() == 0 {
        false
    } else {
        stops(cfg, it, clean, dids[0]) || stops_within(
            cfg,
            next_iteration(it),
            next_clean(clean, dids[0]),
            dids.drop_first(),
        )
    }
}

/// Feeding `dids` from (`it`, `clean`) keeps going at every step but the last,
/// which reports `last`.
pub open spec fn run_ends_with(cfg: EvLoop, it: int, clean: int, dids: Seq<bool>, last: EvLoopStatus) -> bool
    decreases dids.len(),
{
    if dids.len() == 0 {
        false
    } else if dids.len() == 1 {
        status_spec(cfg, it, clean, dids[0]) == last
    } else {
        !stops(cfg, it, clean, dids[0]) && run_ends_with(
            cfg,
            next_iteration(it),
            next_clean(clean, dids[0]),
            dids.drop_first(),
            last,
        )
    }
}

/// How many more steps may pass before the loop must stop.
spec fn steps_left(cfg: EvLoop, it: int, clean: int) -> int {
    if it <= cfg.max_iter {
        cfg.max_iter + 1 - it + cfg.min_positive_iter
    } else if clean >= cfg.min_positive_iter {
        1
    } else {
        cfg.min_positive_iter - clean
    }
}

proof fn lemma_stops_within_steps_left(cfg: EvLoop, it: int, clean: int, dids: Seq<bool>)
    requires
        clean >= 0,
        dids.len() >= steps_left(cfg, it, clean),
        dids.len() >= 1,
    ensures
        stops_within(cfg, it, clean, dids),
    decreases dids.len(),
{
    if !stops(cfg, it, clean, dids[0]) {
        lemma_stops_within_steps_left(cfg, next_iteration(it), next_clean(clean, dids[0]), dids.drop_first());
    }
}

/// Whatever the inputs, the loop stops within `max_iter + min_positive_iter + 1`
/// steps of its initial state.
pub proof fn law_loop_terminates(cfg: EvLoop, dids: Seq<bool>)
    requires
        dids.len() >= cfg.max_iter + cfg.min_positive_iter + 1,
    ensures
        stops_within(cfg, 1, 0, dids),
{
    lemma_stops_within_steps_left(cfg, 1, 0, dids);
}

/// From any state, `min_positive_iter` iterations in a row without chasing
/// keep going until the last, which reports `Done`.
pub proof fn law_clean_streak_finishes(cfg: EvLoop, it: int)
    requires
        cfg.min_positive_iter >= 1,
    ensures
        run_ends_with(cfg, it, 0, Seq::new(cfg.min_positive_iter as nat, |i: int| false), EvLoopStatus::Done),
{
    lemma_clean_run(cfg, it, 0, cfg.min_positive_iter as nat);
}

proof fn lemma_clean_run(cfg: EvLoop, it: int, clean: int, k: nat)
    requires
        k >= 1,
        clean >= 0,
        clean + k == cfg.min_positive_iter,
    ensures
        run_ends_with(cfg, it, clean, Seq::new(k, |i: int| false), EvLoopStatus::Done),
    decreases k,
{
    let dids = Seq::new(k, |i: int| false);
    if k > 1 {
        lemma_clean_run(cfg, it + 1, clean + 1, (k - 1) as nat);
        assert(dids.drop_first() =~= Seq::new((k - 1) as nat, |i: int| false));
    }
}

/// Chasing in every iteration from the initial state keeps going for
/// `max_iter - 1` steps; the next step hits the bound and fails when `fail`
/// is set.
pub proof fn law_chasing_exhausts(cfg: EvLoop)
    requires
        cfg.max_iter >= 1,
        cfg.fail,
    ensures
        run_ends_with(cfg, 1, 0, Seq::new(cfg.max_iter as nat, |i: int| true), EvLoopStatus::ItsBadGuys(TOO_MANY_STEPS)),
{
    lemma_chase_run(cfg, 1, cfg.max_iter as nat);
}

proof fn lemma_chase_run(cfg: EvLoop, it: int, k: nat)
    requires
        k >= 1,
        cfg.fail,
        it + k == cfg.max_iter + 1,
    ensures
        run_ends_with(cfg, it, 0, Seq::new(k, |i: int| true), EvLoopStatus::ItsBadGuys(TOO_MANY_STEPS)),
    decreases k,
{
    let dids = Seq::new(k, |i: int| true);
    if k > 1 {
        lemma_chase_run(cfg, it + 1, (k - 1) as nat);
        assert(dids.drop_first() =~= Seq::new((k - 1) as nat, |i: int| true));
    }
}

/// The state machine itself.
pub struct EvLoopFsm {
    config: EvLoop,
    iteration: u32,
    all_ok_count: u32,
}

impl EvLoopFsm {
    /// A clean streak is never longer than the iterations run so far.
    #[verifier::type_invariant]
    closed spec fn well_formed(self) -> bool {
        self.all_ok_count < self.iteration
    }

    /// The loop's configuration.
    pub closed spec fn config(&self) -> EvLoop {
        self.config
    }

    /// The number of the current iteration, counted from 1.
    pub closed spec fn iteration_spec(&self) -> int {
        self.iteration as int
    }

    /// How many iterations in a row ended without chasing.
    pub closed spec fn clean_spec(&self) -> int {
        self.all_ok_count as int
    }

    /// A machine at iteration 1 with no clean iterations.
    pub fn new(config: &EvLoop) -> (r: EvLoopFsm)
        ensures
            r.config() == *config,
            r.iteration_spec() == 1,
            r.clean_spec() == 0,
    {
        EvLoopFsm { config: *config, iteration: 1, all_ok_count: 0 }
    }

    /// The number of the current iteration.
    pub fn iteration(&self) -> (r: u32)
        ensures
            r == self.iteration_spec(),
    {
        self.iteration
    }

    /// Records the outcome of an iteration and says whether to go on.
    pub fn step(&mut self, did: DidEvChasing) -> (r: EvLoopStatus)
        requires
            old(self).iteration_spec() < u32::MAX,
        ensures
            r == status_spec(old(self).config(), old(self).iteration_spec(), old(self).clean_spec(), did.0),
            final(self).config() == old(self).config(),
            final(self).iteration_spec() == next_iteration(old(self).iteration_spec()),
            final(self).clean_spec() == next_clean(old(self).clean_spec(), did.0),
    {
        proof {
            use_type_invariant(&*self);
        }
        self.iteration += 1;
        match did {
            DidEvChasing(true) => {
                self.all_ok_count = 0;
                if self.iteration > self.config.max_iter {
                    if self.config.fail {
                        EvLoopStatus::ItsBadGuys(TOO_MANY_STEPS)
                    } else {
                        EvLoopStatus::Exhausted(TOO_MANY_STEPS)
                    }
                } else {
                    EvLoopStatus::KeepGoing
                }
            },
            DidEvChasing(false) => {
                self.all_ok_count += 1;
                if self.all_ok_count >= self.config.min_positive_iter {
                    EvLoopStatus::Done
                } else {
                    EvLoopStatus::KeepGoing
                }
            },
        }
    }
}

} // verus!
