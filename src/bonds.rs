//! Bond types of the bond-polarizability model, from the elements at the
//! two ends of a bond.

use vstd::prelude::*;

verus! {

/// A chemical element, by atomic number.
#[derive(Debug, Clone, Copy, PartialEq, Eq, PartialOrd, Ord, Hash, Structural)]
pub struct Element(pub u16);

/// Atomic number of hydrogen.
pub const HYDROGEN: u16 = 1;

/// Atomic number of carbon.
pub const CARBON: u16 = 6;

/// The kinds of bonds that have polarization constants.
#[derive(Debug, Clone, Copy, PartialEq, Eq, PartialOrd, Ord, Hash, Structural)]
pub enum BondType {
    CC,
    CH,
    HH,
}

/// No polarization constants exist for bonds between these elements.
#[derive(Debug, Clone, Copy, PartialEq, Eq, Structural)]
pub struct UnsupportedBond {
    pub a: Element,
    pub b: Element,
}

/// The bond type between elements with atomic numbers `a` and `b`, if any.
pub open spec fn bond_type_of(a: u16, b: u16) -> Option<BondType> {
    if a == 6 && b == 6 {
        Some(BondType::CC)
    } else if (a == 6 && b == 1) || (a == 1 && b == 6) {
        Some(BondType::CH)
    } else if a == 1 && b == 1 {
        Some(BondType::HH)
    } else {
        None
    }
}

impl BondType {
    /// The type of a bond between `a` and `b`, in either order.
    pub fn from_elements(a: Element, b: Element) -> (r: Result<BondType, UnsupportedBond>)
        ensures
            r matches Ok(t) ==> bond_type_of(a.0, b.0) == Some(t),
            r is Err <==> bond_type_of(a.0, b.0) is None,
            r matches Err(e) ==> e == (UnsupportedBond { a, b }),
    {
        if a.0 == CARBON && b.0 == CARBON {
            Ok(BondType::CC)
        } else if (a.0 == CARBON && b.0 == HYDROGEN) || (a.0 == HYDROGEN && b.0 == CARBON) {
            Ok(BondType::CH)
        } else if a.0 == HYDROGEN && b.0 == HYDROGEN {
            Ok(BondType::HH)
        } else {
            Err(UnsupportedBond { a, b })
        }
    }
}

} // verus!
