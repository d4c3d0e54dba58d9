//! The flag set carried by an [`crate::AuxVarType::Flags`] entry.

use vstd::prelude::*;

verus! {

/// Bit for preserving `argv[0]` for the interpreter; the only flag bit the
/// kernel defines for the auxiliary vector.
pub const PRESERVE_ARGV0_BIT: u64 = 1;

/// Flags for the auxiliary vector, stored as the raw bit set of the entry's
/// value word. Only [`PRESERVE_ARGV0_BIT`] is a defined bit.
#[derive(Copy, Clone, Debug, PartialEq, Eq, Structural)]
pub struct AuxVarFlags {
    /// The raw bit set, as stored in the entry's value word.
    pub bits: u64,
}

/// A well-formed flag set carries only defined bits.
pub open spec fn spec_flags_wf(f: AuxVarFlags) -> bool {
    f.bits == 0 || f.bits == 1
}

impl AuxVarFlags {
    /// The flag set with no flag raised.
    pub fn empty() -> (r: AuxVarFlags)
        ensures
            r.bits == 0,
            spec_flags_wf(r),
    {
        AuxVarFlags { bits: 0 }
    }

    /// The flag set with only the preserve-`argv[0]` flag raised.
    pub fn preserve_argv0() -> (r: AuxVarFlags)
        ensures
            r.bits == 1,
            spec_flags_wf(r),
    {
        AuxVarFlags { bits: 1 }
    }

    /// Keeps the defined bits of a raw value word and drops the rest.
    pub fn from_bits_truncate(v: u64) -> (r: AuxVarFlags)
        ensures
            r.bits == v & 1,
            spec_flags_wf(r),
    {
        let b = v & 1;
        assert(v & 1 == 0 || v & 1 == 1) by (bit_vector);
        AuxVarFlags { bits: b }
    }

    /// Returns the raw bit set.
    pub fn bits(self) -> (r: u64)
        ensures
            r == self.bits,
    {
        self.bits
    }

    /// Whether the preserve-`argv[0]` flag is raised.
    pub fn preserves_argv0(self) -> (r: bool)
        ensures
            r == (self.bits & 1 == 1),
    {
        self.bits & 1 == 1
    }
}

} // verus!
