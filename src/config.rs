//! Configuration data of the driver that holds no real numbers, with the
//! defaults that apply when a field is omitted and the migration of
//! deprecated settings.

use vstd::prelude::*;

use core::marker::PhantomData;

verus! {

/// A field that is guaranteed to be filled once the configuration has been
/// validated; before that it may still be empty.
#[derive(Debug, Clone, Copy, PartialEq, Eq)]
pub struct Filled<T>(Option<T>);

impl<T> Filled<T> {
    /// What the field holds, if anything.
    pub closed spec fn inner(&self) -> Option<T> {
        self.0
    }

    /// An empty field, to be filled by validation.
    fn default() -> (r: Self)
        ensures
            r.inner() is None,
    {
        Filled(None)
    }

    /// The value of a filled field.
    pub fn into_inner(self) -> (r: T)
        requires
            self.inner() is Some,
        ensures
            r == self.inner()->Some_0,
    {
        self.0.unwrap()
    }

    /// A reference to the value of a filled field.
    pub fn as_ref(&self) -> (r: &T)
        requires
            self.inner() is Some,
        ensures
            *r == self.inner()->Some_0,
    {
        self.0.as_ref().unwrap()
    }

    /// A mutable reference to the value of a filled field.
    pub fn as_mut(&mut self) -> (r: &mut T)
        requires
            old(self).inner() is Some,
        ensures
            *r == old(self).inner()->Some_0,
            final(self).inner() == Some(*final(r)),
    {
        self.0.as_mut().unwrap()
    }

    /// Fills the field with `value` unless it already holds one.
    pub fn fill_with(&mut self, value: T)
        ensures
            final(self).inner() == if old(self).inner() is Some { old(self).inner() } else { Some(value) },
    {
        if self.0.is_none() {
            self.0 = Some(value);
        }
    }
}

impl<T> From<T> for Filled<T> {
    fn from(x: T) -> (r: Self)
        ensures
            r.inner() == Some(x),
    {
        Filled(Some(x))
    }
}

impl<T> vstd::std_specs::convert::FromSpecImpl<T> for Filled<T> {
    open spec fn obeys_from_spec() -> bool {
        true
    }

    closed spec fn from_spec(x: T) -> Self {
        Filled(Some(x))
    }
}

/// Settings that moved under `lammps` and are still read from their old place.
#[derive(Debug, Clone, Copy, PartialEq)]
pub struct DeprecatedLammpsSettings {
    pub lammps_update_style: Option<LammpsUpdateStyle>,
    pub lammps_processor_axis_mask: Option<[bool; 3]>,
}

impl Default for DeprecatedLammpsSettings {
    fn default() -> (r: Self)
        ensures
            r.lammps_update_style is None,
            r.lammps_processor_axis_mask is None,
    {
        DeprecatedLammpsSettings { lammps_update_style: None, lammps_processor_axis_mask: None }
    }
}

#[allow(non_snake_case)]
fn _settings__update_large_neighbor_lists() -> (r: bool)
    ensures
        r,
{
    true
}

#[allow(non_snake_case)]
fn _scale_ranges__repeat_count() -> (r: u32)
    ensures
        r == 1,
{
    1
}

#[allow(non_snake_case)]
fn _scale_ranges__fail() -> (r: bool)
    ensures
        !r,
{
    false
}

/// Three lattice parameters, one per lattice vector.
pub type Parameters = [Parameter; 3];

/// How one lattice vector's length is scaled.
#[derive(Debug, Clone, Copy, PartialEq, Eq)]
pub enum Parameter {
    /// Scaled together with the other vectors that carry the same letter.
    Param(char),
    /// Not scaled.
    One,
    /// Not periodic (e.g. a vacuum direction).
    NotPeriodic,
}

/// A bool that is written as the integer 0 or 1.
#[derive(Debug, Clone, Copy, PartialEq, Eq)]
pub struct MaskBit(pub bool);

/// Band unfolding methods.
#[derive(Debug, Clone, Copy, PartialEq, Eq)]
pub enum UnfoldBands {
    /// The method of Zheng and Zhang (2017).
    Zheng {},
}

/// What to do when a linesearch along steepest descent fails.
#[derive(Debug, Clone, Copy, PartialEq, Eq)]
pub enum CgOnLsFailure {
    /// Treat it as a successful stop.
    Succeed,
    /// Succeed, but log a warning.
    Warn,
    /// Fail.
    Fail,
}

impl Default for CgOnLsFailure {
    fn default() -> (r: Self)
        ensures
            r == CgOnLsFailure::Succeed,
    {
        CgOnLsFailure::Succeed
    }
}

/// The conjugate-gradient variant.
#[derive(Debug, Clone, Copy, PartialEq, Eq)]
pub enum CgFlavor {
    Acgsd { ls_iteration_limit: Option<u32> },
    Hager {},
}

impl Default for CgFlavor {
    fn default() -> (r: Self)
        ensures
            r == (CgFlavor::Hager {}),
    {
        CgFlavor::Hager {}
    }
}

/// Which pair of eigenvectors an energy plot spans.
#[derive(Debug, Clone, Copy, PartialEq, Eq)]
pub enum EnergyPlotEvIndices {
    Shear,
    These(usize, usize),
}

/// The REBO potential.
#[derive(Debug, Clone, Copy, PartialEq, Eq)]
pub struct PotentialRebo {
    pub omp: Option<bool>,
}

#[allow(non_snake_case)]
fn _potential_kolmogorov_crespi_z__rebo() -> (r: bool)
    ensures
        r,
{
    true
}

#[allow(non_snake_case)]
fn _potential_kolmogorov_crespi_full__rebo() -> (r: bool)
    ensures
        r,
{
    true
}

#[allow(non_snake_case)]
fn _potential_kolmogorov_crespi_z_new__skin_check_frequency() -> (r: u64)
    ensures
        r == 1,
{
    1
}

/// The built-in REBO implementation.
#[derive(Debug, Clone, Copy, PartialEq, Eq)]
pub struct PotentialReboNew {
    /// "brenner" or "lammps".
    pub params: PotentialReboNewParams,
}

/// Parameter sets of the built-in REBO implementation.
#[derive(Debug, Clone, Copy, PartialEq, Eq)]
pub enum PotentialReboNewParams {
    Brenner,
    Lammps,
    LammpsFavata,
}

/// A DFTB+ potential, configured by an embedded HSD document.
#[derive(Debug, Clone, PartialEq, Eq)]
pub struct PotentialDftbPlus {
    pub hsd: String,
}

/// Eigensolvers for the dynamical matrix.
#[derive(Debug, Clone, Copy, PartialEq, Eq)]
pub enum PhononEigenSolver {
    /// No longer available.
    Phonopy(AlwaysFail<MessagePhononEigenSolverPhonopy>),
    /// The built-in solver.
    Rsp2 { dense: bool, shift_invert_attempts: u32, how_many: usize },
}

#[allow(non_snake_case)]
fn _phonons__eigensolver() -> (r: PhononEigenSolver)
    ensures
        r == (PhononEigenSolver::Rsp2 { dense: false, shift_invert_attempts: 4, how_many: 12 }),
{
    PhononEigenSolver::Rsp2 {
        dense: _phonon_eigen_solver__rsp2__dense(),
        shift_invert_attempts: _phonon_eigen_solver__rsp2__shift_invert_attempts(),
        how_many: _phonon_eigen_solver__rsp2__how_many(),
    }
}

#[allow(non_snake_case)]
fn _phonons__disp_finder() -> (r: PhononDispFinder)
    ensures
        r == (PhononDispFinder::Rsp2 { directions: PhononDispFinderRsp2Directions::Diag }),
{
    PhononDispFinder::Rsp2 { directions: _phonon_disp_finder__rsp2__directions() }
}

#[allow(non_snake_case)]
fn _phonon_eigen_solver__phonopy__save_bands() -> (r: bool)
    ensures
        !r,
{
    false
}

#[allow(non_snake_case)]
fn _phonon_eigen_solver__rsp2__shift_invert_attempts() -> (r: u32)
    ensures
        r == 4,
{
    4
}

#[allow(non_snake_case)]
fn _phonon_eigen_solver__rsp2__how_many() -> (r: usize)
    ensures
        r == 12,
{
    12
}

#[allow(non_snake_case)]
fn _phonon_eigen_solver__rsp2__dense() -> (r: bool)
    ensures
        !r,
{
    false
}

/// Message of the retired phonopy eigensolver.
#[derive(Debug, Clone, Copy, PartialEq, Eq, PartialOrd, Ord, Hash)]
pub struct MessagePhononEigenSolverPhonopy;

impl FailMessage for MessagePhononEigenSolverPhonopy {
    const FAIL_MESSAGE: &'static str = "`phonon.eigen-solver: phonopy` is no longer implemented";
}

/// How the displacements for force constants are chosen.
#[derive(Debug, Clone, Copy, PartialEq, Eq)]
pub enum PhononDispFinder {
    /// No longer available.
    Phonopy(AlwaysFail<MessagePhononDispFinderPhonopy>),
    /// The built-in planner.
    Rsp2 { directions: PhononDispFinderRsp2Directions },
}

#[allow(non_snake_case)]
fn _phonon_disp_finder__phonopy__diag() -> (r: bool)
    ensures
        r,
{
    true
}

#[allow(non_snake_case)]
fn _phonon_disp_finder__rsp2__directions() -> (r: PhononDispFinderRsp2Directions)
    ensures
        r == PhononDispFinderRsp2Directions::Diag,
{
    PhononDispFinderRsp2Directions::Diag
}

/// Message of the retired phonopy displacement finder.
#[derive(Debug, Clone, Copy, PartialEq, Eq, PartialOrd, Ord, Hash)]
pub struct MessagePhononDispFinderPhonopy;

impl FailMessage for MessagePhononDispFinderPhonopy {
    const FAIL_MESSAGE: &'static str = "`phonon.disp-finder: phonopy` is no longer implemented";
}

/// Direction policies of the built-in displacement planner.
#[derive(Debug, Clone, Copy, PartialEq, Eq)]
pub enum PhononDispFinderRsp2Directions {
    /// Only along lattice vectors.
    Axial,
    /// Also along sums and differences of lattice vectors.
    Diag,
    /// Diagonal directions with fractional coordinates up to 2.
    Diag2,
    /// Try all three and report how many each finds.
    Survey,
}

/// How multiple cores are used.
#[derive(Debug, Clone, Copy, PartialEq, Eq)]
pub enum Threading {
    /// One potential at a time; the potential may use many cores.
    Lammps,
    /// Displaced structures in parallel.
    Rayon,
    /// Everything in serial.
    Serial,
}

impl Default for Threading {
    fn default() -> (r: Self)
        ensures
            r == Threading::Lammps,
    {
        Threading::Lammps
    }
}

/// Scales of the axes of an energy plot.
#[derive(Debug, Clone, Copy, PartialEq, Eq)]
pub enum NormalizationMode {
    /// 2-norm of the 3N-component vector.
    CoordNorm,
    /// Root mean square of the atomic displacement distances.
    AtomRms,
    /// Mean of the atomic displacement distances.
    AtomMean,
    /// Largest atomic displacement distance.
    AtomMax,
}

/// Bounds of the loop that alternates relaxation with diagonalization.
#[derive(Debug, Clone, Copy, PartialEq, Eq)]
pub struct EvLoop {
    /// Stop after this many iterations in a row without imaginary modes.
    pub min_positive_iter: u32,
    /// Give up after this many iterations.
    pub max_iter: u32,
    /// Whether giving up is a failure.
    pub fail: bool,
}

#[allow(non_snake_case)]
fn _ev_loop__min_positive_iter() -> (r: u32)
    ensures
        r == 3,
{
    3
}

#[allow(non_snake_case)]
fn _ev_loop__max_iter() -> (r: u32)
    ensures
        r == 15,
{
    15
}

#[allow(non_snake_case)]
fn _ev_loop__fail() -> (r: bool)
    ensures
        r,
{
    true
}

impl Default for EvLoop {
    fn default() -> (r: Self)
        ensures
            r.min_positive_iter == 3,
            r.max_iter == 15,
            r.fail,
    {
        EvLoop {
            min_positive_iter: _ev_loop__min_positive_iter(),
            max_iter: _ev_loop__max_iter(),
            fail: _ev_loop__fail(),
        }
    }
}

/// Settings of the LAMMPS interface.
#[derive(Debug, Clone, Copy, PartialEq, Eq)]
pub struct Lammps {
    pub processor_axis_mask: Filled<[bool; 3]>,
    pub update_style: Filled<LammpsUpdateStyle>,
}

impl Default for Lammps {
    fn default() -> (r: Self)
        ensures
            r.processor_axis_mask.inner() is None,
            r.update_style.inner() is None,
    {
        Lammps { processor_axis_mask: Filled::default(), update_style: Filled::default() }
    }
}

/// How LAMMPS is told of updated positions.
#[derive(Debug, Clone, Copy, PartialEq, Eq)]
pub enum LammpsUpdateStyle {
    /// `run 0`.
    Safe,
    /// `run 1 pre no post no`.
    Fast { sync_positions_every: u32 },
    /// A custom `run _ pre _ post _`.
    Run { n: u32, pre: bool, post: bool, sync_positions_every: u32 },
}

impl Default for LammpsUpdateStyle {
    fn default() -> (r: Self)
        ensures
            r == LammpsUpdateStyle::Safe,
    {
        LammpsUpdateStyle::Safe
    }
}

/// A setting that can never be given a value; reading one fails with the
/// message of `T`.
#[derive(Debug, Copy, Eq)]
pub struct AlwaysFail<T>(pub Never, pub PhantomData<T>);

impl<T> Clone for AlwaysFail<T> {
    fn clone(&self) -> (r: Self)
        ensures
            r == *self,
    {
        AlwaysFail(self.0, PhantomData)
    }
}

impl<T> PartialEq for AlwaysFail<T> {
    fn eq(&self, other: &Self) -> (r: bool) {
        true
    }
}

impl<T> vstd::std_specs::cmp::PartialEqSpecImpl for AlwaysFail<T> {
    open spec fn obeys_eq_spec() -> bool {
        true
    }

    open spec fn eq_spec(&self, other: &Self) -> bool {
        true
    }
}

/// A type without values.
pub type Never = core::convert::Infallible;

/// The message given when an `AlwaysFail<Self>` setting is read.
pub trait FailMessage {
    const FAIL_MESSAGE: &'static str;
}

/// The LAMMPS settings after migration: a value given at the new place wins,
/// else one given at the deprecated place, else the default.
pub open spec fn migrated<T>(new: Option<T>, old: Option<T>, default: T) -> Option<T> {
    if new is Some {
        new
    } else if old is Some {
        old
    } else {
        Some(default)
    }
}

/// Moves the deprecated LAMMPS settings to their new place (where nothing was
/// given there) and fills what is still missing with defaults.
pub fn fill_lammps_from_deprecated(lammps: &mut Lammps, deprecated: &mut DeprecatedLammpsSettings)
    ensures
        final(lammps).processor_axis_mask.inner() == migrated(
            old(lammps).processor_axis_mask.inner(),
            old(deprecated).lammps_processor_axis_mask,
            [true, true, true],
        ),
        final(lammps).update_style.inner() == migrated(
            old(lammps).update_style.inner(),
            old(deprecated).lammps_update_style,
            LammpsUpdateStyle::Safe,
        ),
        final(deprecated).lammps_processor_axis_mask is None,
        final(deprecated).lammps_update_style is None,
{
    let taken_mask = deprecated.lammps_processor_axis_mask.take();
    if let Some(value) = taken_mask {
        lammps.processor_axis_mask.fill_with(value);
    }
    lammps.processor_axis_mask.fill_with([true; 3]);

    let taken_style = deprecated.lammps_update_style.take();
    if let Some(value) = taken_style {
        lammps.update_style.fill_with(value);
    }
    lammps.update_style.fill_with(LammpsUpdateStyle::default());
}

} // verus!
