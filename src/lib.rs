//! Integer core of a driver that relaxes atomic structures and analyses their
//! vibrational modes at the Γ point.
//!
//! - `perm`, `part`: permutations of sites, and partitions of them.
//! - `matrix`, `symmops`, `group`: small integer matrices, space-group
//!   operations, and finite groups generated from them.
//! - `supercell`: the site mapping of diagonal supercells.
//! - `displacements`: which atoms to displace, and along which directions.
//! - `acoustic`, `ev_loop`: mode classification and the outer loop that
//!   alternates relaxation with eigen-analysis.
//! - `config`, `bonds`, `functional`, `util`: configuration data, bond types,
//!   array helpers and small utilities.

pub mod acoustic;
pub mod bonds;
pub mod config;
pub mod displacements;
pub mod ev_loop;
pub mod functional;
pub mod group;
pub mod matrix;
pub mod part;
pub mod perm;
pub mod supercell;
pub mod symmops;
pub mod util;
