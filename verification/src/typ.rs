//! The closed set of auxiliary-vector keys and their fixed ABI codes.

use vstd::prelude::*;

verus! {

/// The code that did not name any [`AuxVarType`] variant.
#[derive(Debug, Clone, PartialEq, Eq, Structural)]
pub struct ParseAuxVarTypeError(pub u64);

/// Rust-style representation of the auxiliary variable's type.
///
/// Each variant is bound to a fixed ABI integer code, given by [`Self::val`]:
/// - `0-17` are architecture independent,
/// - `>=32` are for `x86_64`,
/// - `>=40` are for PowerPC.
#[derive(Copy, Clone, Debug, PartialEq, Eq, Structural)]
pub enum AuxVarType {
    /// end of vector
    Null,
    /// entry should be ignored
    Ignore,
    /// file descriptor of program
    ExecFd,
    /// program headers for program
    Phdr,
    /// size of program header entry
    Phent,
    /// number of program headers
    Phnum,
    /// system page size
    Pagesz,
    /// The base address of the program interpreter (usually, the
    /// dynamic linker).
    Base,
    /// Flags that apply on the whole auxiliary vector. See
    /// [`crate::AuxVarFlags`].
    Flags,
    /// entry point of program
    Entry,
    /// program is not ELF
    NotElf,
    /// real uid
    Uid,
    /// effective uid
    EUid,
    /// real gid
    Gid,
    /// effective gid
    EGid,
    /// string identifying CPU for optimizations
    Platform,
    /// Arch dependent hints at CPU capabilities.
    HwCap,
    /// frequency at which times() increments
    Clktck,
    /// secure mode boolean
    Secure,
    /// string identifying real platform, may differ from Platform.
    BasePlatform,
    /// address of 16 random bytes
    Random,
    /// extension of HwCap
    HwCap2,
    /// filename of program
    ExecFn,
    /// The entry point to the system call function in the vDSO.
    Sysinfo,
    /// The address of a page containing the virtual Dynamic Shared Object
    /// (vDSO).
    SysinfoEhdr,
    /// L1 instruction cache size
    L1iCacheSize,
    /// L1 instruction cache geometry
    L1iCacheGeometry,
    /// L1 data cache size
    L1dCacheSize,
    /// L1 data cache geometry
    L1dCacheGeometry,
    /// L2 cache size
    L2CacheSize,
    /// L2 cache geometry
    L2CacheGeometry,
    /// L3 cache size
    L3CacheSize,
    /// L3 cache geometry
    L3CacheGeometry,
    /// Minimal stack size for signal delivery.
    MinSigStkSz,
}

/// The fixed ABI code of each key.
pub open spec fn spec_val(t: AuxVarType) -> usize {
    match t {
        AuxVarType::Null => 0,
        AuxVarType::Ignore => 1,
        AuxVarType::ExecFd => 2,
        AuxVarType::Phdr => 3,
        AuxVarType::Phent => 4,
        AuxVarType::Phnum => 5,
        AuxVarType::Pagesz => 6,
        AuxVarType::Base => 7,
        AuxVarType::Flags => 8,
        AuxVarType::Entry => 9,
        AuxVarType::NotElf => 10,
        AuxVarType::Uid => 11,
        AuxVarType::EUid => 12,
        AuxVarType::Gid => 13,
        AuxVarType::EGid => 14,
        AuxVarType::Platform => 15,
        AuxVarType::HwCap => 16,
        AuxVarType::Clktck => 17,
        AuxVarType::Secure => 23,
        AuxVarType::BasePlatform => 24,
        AuxVarType::Random => 25,
        AuxVarType::HwCap2 => 26,
        AuxVarType::ExecFn => 31,
        AuxVarType::Sysinfo => 32,
        AuxVarType::SysinfoEhdr => 33,
        AuxVarType::L1iCacheSize => 40,
        AuxVarType::L1iCacheGeometry => 41,
        AuxVarType::L1dCacheSize => 42,
        AuxVarType::L1dCacheGeometry => 43,
        AuxVarType::L2CacheSize => 44,
        AuxVarType::L2CacheGeometry => 45,
        AuxVarType::L3CacheSize => 46,
        AuxVarType::L3CacheGeometry => 47,
        AuxVarType::MinSigStkSz => 51,
    }
}

/// Whether code `v` names a key of the closed set.
pub open spec fn spec_is_valid_code(v: u64) -> bool {
    exists|t: AuxVarType| spec_val(t) == v
}

/// The key named by code `v`.
pub open spec fn spec_type_of_code(v: u64) -> AuxVarType
    recommends
        spec_is_valid_code(v),
{
    choose|t: AuxVarType| spec_val(t) == v
}

/// The canonical listing of all keys, ascending by code.
pub open spec fn spec_variants() -> Seq<AuxVarType> {
    seq![
        AuxVarType::Null,
        AuxVarType::Ignore,
        AuxVarType::ExecFd,
        AuxVarType::Phdr,
        AuxVarType::Phent,
        AuxVarType::Phnum,
        AuxVarType::Pagesz,
        AuxVarType::Base,
        AuxVarType::Flags,
        AuxVarType::Entry,
        AuxVarType::NotElf,
        AuxVarType::Uid,
        AuxVarType::EUid,
        AuxVarType::Gid,
        AuxVarType::EGid,
        AuxVarType::Platform,
        AuxVarType::HwCap,
        AuxVarType::Clktck,
        AuxVarType::Secure,
        AuxVarType::BasePlatform,
        AuxVarType::Random,
        AuxVarType::HwCap2,
        AuxVarType::ExecFn,
        AuxVarType::Sysinfo,
        AuxVarType::SysinfoEhdr,
        AuxVarType::L1iCacheSize,
        AuxVarType::L1iCacheGeometry,
        AuxVarType::L1dCacheSize,
        AuxVarType::L1dCacheGeometry,
        AuxVarType::L2CacheSize,
        AuxVarType::L2CacheGeometry,
        AuxVarType::L3CacheSize,
        AuxVarType::L3CacheGeometry,
        AuxVarType::MinSigStkSz,
    ]
}

/// Whether the key's value is a pointer into the auxv data area rather than
/// an immediate value.
pub open spec fn spec_in_data_area(t: AuxVarType) -> bool {
    t == AuxVarType::Platform || t == AuxVarType::BasePlatform || t == AuxVarType::Random || t
        == AuxVarType::ExecFn
}

/// Whether the referenced payload is a null-terminated C-string.
pub open spec fn spec_is_cstr(t: AuxVarType) -> bool {
    t == AuxVarType::Platform || t == AuxVarType::BasePlatform || t == AuxVarType::ExecFn
}

/// The order in which the builder writes the auxiliary vector: ascending by
/// code, except that [`AuxVarType::Null`] (the end marker) sorts after every
/// other key even though its code 0 is the smallest. The codes are fixed by
/// the ABI, so the inversion lives in the comparison, not in the codes; it is
/// what keeps the end marker at the last position of an ordered collection.
pub open spec fn spec_key_lt(a: AuxVarType, b: AuxVarType) -> bool {
    if a == AuxVarType::Null {
        false
    } else if b == AuxVarType::Null {
        true
    } else {
        spec_val(a) < spec_val(b)
    }
}

impl AuxVarType {
    /// Returns an ordered listing of all variants.
    pub fn variants() -> (r: Vec<AuxVarType>)
        ensures
            r@ == spec_variants(),
    {
        let v: Vec<AuxVarType> = vec![
            AuxVarType::Null,
            AuxVarType::Ignore,
            AuxVarType::ExecFd,
            AuxVarType::Phdr,
            AuxVarType::Phent,
            AuxVarType::Phnum,
            AuxVarType::Pagesz,
            AuxVarType::Base,
            AuxVarType::Flags,
            AuxVarType::Entry,
            AuxVarType::NotElf,
            AuxVarType::Uid,
            AuxVarType::EUid,
            AuxVarType::Gid,
            AuxVarType::EGid,
            AuxVarType::Platform,
            AuxVarType::HwCap,
            AuxVarType::Clktck,
            AuxVarType::Secure,
            AuxVarType::BasePlatform,
            AuxVarType::Random,
            AuxVarType::HwCap2,
            AuxVarType::ExecFn,
            AuxVarType::Sysinfo,
            AuxVarType::SysinfoEhdr,
            AuxVarType::L1iCacheSize,
            AuxVarType::L1iCacheGeometry,
            AuxVarType::L1dCacheSize,
            AuxVarType::L1dCacheGeometry,
            AuxVarType::L2CacheSize,
            AuxVarType::L2CacheGeometry,
            AuxVarType::L3CacheSize,
            AuxVarType::L3CacheGeometry,
            AuxVarType::MinSigStkSz,
        ];
        assert(v@ =~= spec_variants());
        v
    }

    /// Returns the underlying ABI-compatible integer value.
    pub fn val(self) -> (r: usize)
        ensures
            r == spec_val(self),
    {
        match self {
            AuxVarType::Null => 0,
            AuxVarType::Ignore => 1,
            AuxVarType::ExecFd => 2,
            AuxVarType::Phdr => 3,
            AuxVarType::Phent => 4,
            AuxVarType::Phnum => 5,
            AuxVarType::Pagesz => 6,
            AuxVarType::Base => 7,
            AuxVarType::Flags => 8,
            AuxVarType::Entry => 9,
            AuxVarType::NotElf => 10,
            AuxVarType::Uid => 11,
            AuxVarType::EUid => 12,
            AuxVarType::Gid => 13,
            AuxVarType::EGid => 14,
            AuxVarType::Platform => 15,
            AuxVarType::HwCap => 16,
            AuxVarType::Clktck => 17,
            AuxVarType::Secure => 23,
            AuxVarType::BasePlatform => 24,
            AuxVarType::Random => 25,
            AuxVarType::HwCap2 => 26,
            AuxVarType::ExecFn => 31,
            AuxVarType::Sysinfo => 32,
            AuxVarType::SysinfoEhdr => 33,
            AuxVarType::L1iCacheSize => 40,
            AuxVarType::L1iCacheGeometry => 41,
            AuxVarType::L1dCacheSize => 42,
            AuxVarType::L1dCacheGeometry => 43,
            AuxVarType::L2CacheSize => 44,
            AuxVarType::L2CacheGeometry => 45,
            AuxVarType::L3CacheSize => 46,
            AuxVarType::L3CacheGeometry => 47,
            AuxVarType::MinSigStkSz => 51,
        }
    }

    /// Maps a raw ABI code back to its key. Fails exactly on the codes that
    /// name no key of the closed set, which can happen when the data comes
    /// from untrusted or foreign memory.
    pub fn try_from_val(v: u64) -> (r: Result<AuxVarType, ParseAuxVarTypeError>)
        ensures
            r is Ok <==> spec_is_valid_code(v),
            r is Ok ==> spec_val(r->Ok_0) == v && r->Ok_0 == spec_type_of_code(v),
            r is Err ==> r->Err_0 == (ParseAuxVarTypeError { 0: v }),
    {
        let r = match v {
            0 => Ok(AuxVarType::Null),
            1 => Ok(AuxVarType::Ignore),
            2 => Ok(AuxVarType::ExecFd),
            3 => Ok(AuxVarType::Phdr),
            4 => Ok(AuxVarType::Phent),
            5 => Ok(AuxVarType::Phnum),
            6 => Ok(AuxVarType::Pagesz),
            7 => Ok(AuxVarType::Base),
            8 => Ok(AuxVarType::Flags),
            9 => Ok(AuxVarType::Entry),
            10 => Ok(AuxVarType::NotElf),
            11 => Ok(AuxVarType::Uid),
            12 => Ok(AuxVarType::EUid),
            13 => Ok(AuxVarType::Gid),
            14 => Ok(AuxVarType::EGid),
            15 => Ok(AuxVarType::Platform),
            16 => Ok(AuxVarType::HwCap),
            17 => Ok(AuxVarType::Clktck),
            23 => Ok(AuxVarType::Secure),
            24 => Ok(AuxVarType::BasePlatform),
            25 => Ok(AuxVarType::Random),
            26 => Ok(AuxVarType::HwCap2),
            31 => Ok(AuxVarType::ExecFn),
            32 => Ok(AuxVarType::Sysinfo),
            33 => Ok(AuxVarType::SysinfoEhdr),
            40 => Ok(AuxVarType::L1iCacheSize),
            41 => Ok(AuxVarType::L1iCacheGeometry),
            42 => Ok(AuxVarType::L1dCacheSize),
            43 => Ok(AuxVarType::L1dCacheGeometry),
            44 => Ok(AuxVarType::L2CacheSize),
            45 => Ok(AuxVarType::L2CacheGeometry),
            46 => Ok(AuxVarType::L3CacheSize),
            47 => Ok(AuxVarType::L3CacheGeometry),
            51 => Ok(AuxVarType::MinSigStkSz),
            _ => Err(ParseAuxVarTypeError(v)),
        };
        proof {
            if r is Ok {
                assert(spec_val(r->Ok_0) == v);
                lemma_codes_injective();
            } else {
                assert forall|t: AuxVarType| spec_val(t) != v by {
                    lemma_code_cases(t);
                }
            }
        }
        r
    }

    /// If this is true, the value of the key should be interpreted as pointer
    /// into the auxv data area. Otherwise, the value of the key is an
    /// immediate value/integer.
    pub fn value_in_data_area(self) -> (r: bool)
        ensures
            r == spec_in_data_area(self),
    {
        matches!(
            self,
            AuxVarType::Platform | AuxVarType::BasePlatform | AuxVarType::Random
                | AuxVarType::ExecFn
        )
    }

    /// The payload of entries where this returns true represents a
    /// null-terminated C-string.
    pub fn value_is_cstr(self) -> (r: bool)
        ensures
            r == spec_is_cstr(self),
    {
        matches!(self, AuxVarType::Platform | AuxVarType::BasePlatform | AuxVarType::ExecFn)
    }

    /// Most data-area payloads are variable-length and null-terminated. If a
    /// payload has a fixed size instead, this returns it.
    pub fn data_area_val_size_hint(self) -> (r: Option<usize>)
        ensures
            self == AuxVarType::Random ==> r == Some(16usize),
            self != AuxVarType::Random ==> r is None,
    {
        match self {
            AuxVarType::Random => Some(16),
            _ => None,
        }
    }

    /// Whether `self` is written before `other` by the builder: ascending by
    /// code, except that the end marker [`AuxVarType::Null`] sorts after
    /// every other key despite carrying the smallest code.
    pub fn sorts_before(self, other: AuxVarType) -> (r: bool)
        ensures
            r == spec_key_lt(self, other),
    {
        if matches!(self, AuxVarType::Null) {
            false
        } else if matches!(other, AuxVarType::Null) {
            true
        } else {
            self.val() < other.val()
        }
    }
}

/// Each variant's code is one of the listed values; used to show that other
/// codes name no variant.
proof fn lemma_code_cases(t: AuxVarType)
    ensures
        spec_val(t) == 0 || spec_val(t) == 1 || spec_val(t) == 2 || spec_val(t) == 3 || spec_val(t)
            == 4 || spec_val(t) == 5 || spec_val(t) == 6 || spec_val(t) == 7 || spec_val(t) == 8
            || spec_val(t) == 9 || spec_val(t) == 10 || spec_val(t) == 11 || spec_val(t) == 12
            || spec_val(t) == 13 || spec_val(t) == 14 || spec_val(t) == 15 || spec_val(t) == 16
            || spec_val(t) == 17 || spec_val(t) == 23 || spec_val(t) == 24 || spec_val(t) == 25
            || spec_val(t) == 26 || spec_val(t) == 31 || spec_val(t) == 32 || spec_val(t) == 33
            || spec_val(t) == 40 || spec_val(t) == 41 || spec_val(t) == 42 || spec_val(t) == 43
            || spec_val(t) == 44 || spec_val(t) == 45 || spec_val(t) == 46 || spec_val(t) == 47
            || spec_val(t) == 51,
{
}

/// Distinct keys carry distinct codes.
pub proof fn lemma_codes_injective()
    ensures
        forall|a: AuxVarType, b: AuxVarType| spec_val(a) == spec_val(b) ==> a == b,
{
}

/// The builder's key order is a strict total order: connected on distinct
/// keys, asymmetric, and transitive.
pub proof fn lemma_key_lt_props()
    ensures
        forall|a: AuxVarType, b: AuxVarType|
            a != b ==> (#[trigger] spec_key_lt(a, b) || #[trigger] spec_key_lt(b, a)),
        forall|a: AuxVarType, b: AuxVarType| #[trigger] spec_key_lt(a, b) ==> !spec_key_lt(b, a) && a != b,
        forall|a: AuxVarType, b: AuxVarType, c: AuxVarType|
            #[trigger] spec_key_lt(a, b) && #[trigger] spec_key_lt(b, c) ==> spec_key_lt(a, c),
{
    lemma_codes_injective();
}

} // verus!
