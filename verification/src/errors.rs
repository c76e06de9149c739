//! Error values of the library.
//!
//! Referencing a link that does not exist is the one recoverable error the
//! chain itself raises; domain errors reject non-positive physical
//! quantities at construction or mutation; an unrepresentable step means
//! the exact arithmetic of one advance left the stored range.  No error is
//! fatal: a rejected mutation or step leaves the prior state intact.

use vstd::prelude::*;

verus! {

/// The index named no link of the chain.
#[derive(Clone, Copy, Debug, PartialEq, Eq, Structural)]
pub struct MissingLinkError;

/// A physical quantity outside its domain.
#[derive(Clone, Copy, Debug, PartialEq, Eq, Structural)]
pub enum DomainError {
    /// A mass must be strictly positive.
    NonPositiveMass,
    /// A length must be strictly positive.
    NonPositiveLength,
    /// A gear ratio must be strictly positive.
    NonPositiveRatio,
}

/// Why a chain operation was rejected.
#[derive(Clone, Copy, Debug, PartialEq, Eq, Structural)]
pub enum ArmError {
    /// The index named no link of the chain.
    LinkNotFound(MissingLinkError),
    /// A physical quantity outside its domain.
    Domain(DomainError),
    /// The exact result of the step left the representable range.
    Unrepresentable,
}

} // verus!
