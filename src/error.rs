use vstd::prelude::*;

verus! {

/// Why an operation on texts produced no value.
#[derive(Clone, Copy, Debug, PartialEq, Eq, Structural)]
pub enum TextError {
    /// No record holds the requested key.
    NotFound,
    /// The store refused a write: a record with that key is already there.
    StorageError,
    /// A stored ciphertext does not decrypt under the key.
    DecodeError,
}

} // verus!
