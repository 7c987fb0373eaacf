use vstd::prelude::*;

verus! {

/// A type with a layout fixed by its interface description, so that it can cross a language
/// boundary.
pub trait Diplomat {
    /// The stable identifier of the type.
    const TYPE_ID: u128;
}

/// A remote interface, described by its protocol.
pub trait ForeignInterface {
    type Protocol;
}

} // verus!
