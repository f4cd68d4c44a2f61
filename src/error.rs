use vstd::prelude::*;

verus! {

/// Why an operation on the blog store was refused.
#[derive(Clone, Copy, Debug, PartialEq, Eq, Structural)]
pub enum BlogError {
    /// A record already occupies the derived address.
    AlreadyExists,
    /// No record occupies the address, or the address does not derive from
    /// the given owner and title.
    NotFound,
    /// The caller is not the record's owner.
    Unauthorized,
    /// A text field is longer than its cap.
    ValidationError,
    /// Stored bytes fail the discriminator or bounds checks.
    CorruptRecord,
    /// No slot address can be derived from the given owner and title.
    InvalidSeeds,
}

} // verus!
