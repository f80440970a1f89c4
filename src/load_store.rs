//! The codec capability that turns a resource's values into bytes and back.
use vstd::prelude::*;

use crate::error::PersistenceError;

verus! {

/// A serialization strategy for the values of one resource; callers implement it
/// (for instance over bincode or canonical serialization).
pub trait LoadStore {
    type ParamType;

    /// Decodes a value from the bytes of one record.
    fn load(&self, stream: &[u8]) -> Result<Self::ParamType, PersistenceError>;

    /// Encodes a value as the bytes of one record.
    fn store(&mut self, param: &Self::ParamType) -> Result<Vec<u8>, PersistenceError>;
}

} // verus!
