//! Fixed-point amounts with checked arithmetic.
//!
//! `Amount` is an unsigned quantity of atoms (the smallest coin unit);
//! `SignedAmount` is its signed counterpart, used by the delta collections to
//! record balance changes that may be negative. All arithmetic is checked:
//! an operation whose mathematical result does not fit in the representation
//! returns `None` instead of wrapping or panicking.

use vstd::prelude::*;

verus! {

/// An unsigned amount of atoms.
#[derive(Clone, Copy, Debug, PartialEq, Eq, Structural, Hash)]
pub struct Amount {
    pub atoms: u128,
}

/// A signed amount of atoms, the delta representation of balance changes.
#[derive(Clone, Copy, Debug, PartialEq, Eq, Structural, Hash)]
pub struct SignedAmount {
    pub atoms: i128,
}

impl Amount {
    pub fn from_atoms(atoms: u128) -> (r: Amount)
        ensures
            r.atoms == atoms,
    {
        Amount { atoms }
    }

    pub fn into_atoms(self) -> (r: u128)
        ensures
            r == self.atoms,
    {
        self.atoms
    }

    pub fn zero() -> (r: Amount)
        ensures
            r.atoms == 0,
    {
        Amount { atoms: 0 }
    }

    /// Checked addition: `Some` exactly when the mathematical sum fits.
    pub fn checked_add(self, other: Amount) -> (r: Option<Amount>)
        ensures
            self.atoms + other.atoms <= u128::MAX ==> r == Some(Amount {
                atoms: (self.atoms + other.atoms) as u128,
            }),
            self.atoms + other.atoms > u128::MAX ==> r is None,
    {
        if self.atoms <= u128::MAX - other.atoms {
            Some(Amount { atoms: self.atoms + other.atoms })
        } else {
            None
        }
    }

    /// Checked subtraction: `Some` exactly when no underflow occurs.
    pub fn checked_sub(self, other: Amount) -> (r: Option<Amount>)
        ensures
            other.atoms <= self.atoms ==> r == Some(Amount {
                atoms: (self.atoms - other.atoms) as u128,
            }),
            other.atoms > self.atoms ==> r is None,
    {
        if other.atoms <= self.atoms {
            Some(Amount { atoms: self.atoms - other.atoms })
        } else {
            None
        }
    }

    /// Conversion to the signed representation: `Some` exactly when the value
    /// fits in the signed range.
    pub fn into_signed(self) -> (r: Option<SignedAmount>)
        ensures
            self.atoms <= i128::MAX ==> r == Some(SignedAmount { atoms: self.atoms as i128 }),
            self.atoms > i128::MAX ==> r is None,
    {
        if self.atoms <= i128::MAX as u128 {
            Some(SignedAmount { atoms: self.atoms as i128 })
        } else {
            None
        }
    }
}

impl SignedAmount {
    pub fn from_atoms(atoms: i128) -> (r: SignedAmount)
        ensures
            r.atoms == atoms,
    {
        SignedAmount { atoms }
    }

    pub fn into_atoms(self) -> (r: i128)
        ensures
            r == self.atoms,
    {
        self.atoms
    }

    pub fn zero() -> (r: SignedAmount)
        ensures
            r.atoms == 0,
    {
        SignedAmount { atoms: 0 }
    }

    /// Checked addition: `Some` exactly when the mathematical sum fits.
    pub fn checked_add(self, other: SignedAmount) -> (r: Option<SignedAmount>)
        ensures
            i128::MIN <= self.atoms + other.atoms <= i128::MAX ==> r == Some(SignedAmount {
                atoms: (self.atoms + other.atoms) as i128,
            }),
            !(i128::MIN <= self.atoms + other.atoms <= i128::MAX) ==> r is None,
    {
        match self.atoms.checked_add(other.atoms) {
            Some(s) => Some(SignedAmount { atoms: s }),
            None => None,
        }
    }

    /// Checked negation: `Some` for every value but `i128::MIN`.
    pub fn checked_neg(self) -> (r: Option<SignedAmount>)
        ensures
            self.atoms > i128::MIN ==> r == Some(SignedAmount { atoms: (-self.atoms) as i128 }),
            self.atoms == i128::MIN ==> r is None,
    {
        if self.atoms > i128::MIN {
            Some(SignedAmount { atoms: -self.atoms })
        } else {
            None
        }
    }

    /// Conversion back to the unsigned representation: `Some` exactly when the
    /// value is not negative.
    pub fn into_unsigned(self) -> (r: Option<Amount>)
        ensures
            self.atoms >= 0 ==> r == Some(Amount { atoms: self.atoms as u128 }),
            self.atoms < 0 ==> r is None,
    {
        if self.atoms >= 0 {
            Some(Amount { atoms: self.atoms as u128 })
        } else {
            None
        }
    }
}

} // verus!
