//! The serialized `(key, value)` pair form of an auxiliary vector entry.

use vstd::prelude::*;
use crate::typ::AuxVarType;
use crate::typ::ParseAuxVarTypeError;
use crate::typ::spec_is_valid_code;
use crate::typ::spec_type_of_code;
use crate::typ::spec_val;

verus! {

/// Serialized form of an [`crate::AuxVar`] as used in the Linux ABI: a pair
/// of a key code word and a value word. Depending on the key, the value is a
/// boolean, an integer, or a pointer into the _auxv data area_.
#[derive(Clone, Copy, Debug, PartialEq, Eq, Structural)]
pub struct AuxVarRaw {
    /// Encoded variant of [`AuxVarType`].
    pub key: u64,
    /// The raw value word.
    pub value: u64,
}

impl AuxVarRaw {
    /// Creates a new raw entry from the key code and the value word.
    pub fn new(key: u64, val: u64) -> (r: AuxVarRaw)
        ensures
            r.key == key,
            r.value == val,
    {
        AuxVarRaw { key, value: val }
    }

    /// Tries to parse the underlying raw key code as [`AuxVarType`].
    pub fn key(&self) -> (r: Result<AuxVarType, ParseAuxVarTypeError>)
        ensures
            r is Ok <==> spec_is_valid_code(self.key),
            r is Ok ==> spec_val(r->Ok_0) == self.key && r->Ok_0 == spec_type_of_code(self.key),
            r is Err ==> r->Err_0 == (ParseAuxVarTypeError { 0: self.key }),
    {
        AuxVarType::try_from_val(self.key)
    }

    /// Returns the raw key code word.
    pub fn key_raw(&self) -> (r: u64)
        ensures
            r == self.key,
    {
        self.key
    }

    /// Returns the raw value word.
    pub fn value(&self) -> (r: u64)
        ensures
            r == self.value,
    {
        self.value
    }
}

} // verus!
