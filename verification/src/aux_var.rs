//! High-level representation of one auxiliary vector entry.

use vstd::prelude::*;
use crate::typ::AuxVarType;
use crate::typ::spec_in_data_area;
use crate::flags::AuxVarFlags;
use crate::flags::spec_flags_wf;
use crate::cstr_util::spec_cstr_wf;
use crate::cstr_util::spec_at_most_terminating_null;
use crate::cstr_util::spec_with_null;
use crate::cstr_util::lemma_with_null_wf;

verus! {

/// High-level version of an auxiliary vector (`auxv`) entry. Also called
/// _Auxiliary Variable_ or _AT Variable_.
///
/// The data/payload is either an immediate value embedded into the enum
/// variant or a byte string destined for (or read from) the `auxv` data
/// area. Addresses that are never resolved by this crate (program headers,
/// entry point, vDSO pages) are carried as plain unsigned integers.
#[derive(Debug, Clone, PartialEq, Eq)]
pub enum AuxVar {
    /// Entry with payload for type [`AuxVarType::Null`].
    Null,
    /// Entry with payload for type [`AuxVarType::Ignore`].
    Ignore,
    /// Entry with payload for type [`AuxVarType::ExecFd`].
    ExecFd(u64),
    /// Entry with payload for type [`AuxVarType::Phdr`].
    Phdr(u64),
    /// Entry with payload for type [`AuxVarType::Phent`].
    Phent(u64),
    /// Entry with payload for type [`AuxVarType::Phnum`].
    Phnum(u64),
    /// Entry with payload for type [`AuxVarType::Pagesz`].
    Pagesz(u64),
    /// Entry with payload for type [`AuxVarType::Base`].
    Base(u64),
    /// Entry with payload for type [`AuxVarType::Flags`].
    Flags(AuxVarFlags),
    /// Entry with payload for type [`AuxVarType::Entry`].
    Entry(u64),
    /// Entry with payload for type [`AuxVarType::NotElf`].
    NotElf(bool),
    /// Entry with payload for type [`AuxVarType::Uid`].
    Uid(u64),
    /// Entry with payload for type [`AuxVarType::EUid`].
    EUid(u64),
    /// Entry with payload for type [`AuxVarType::Gid`].
    Gid(u64),
    /// Entry with payload for type [`AuxVarType::EGid`].
    EGid(u64),
    /// Entry with payload for type [`AuxVarType::Platform`].
    Platform(Vec<u8>),
    /// Entry with payload for type [`AuxVarType::HwCap`].
    HwCap(u64),
    /// Entry with payload for type [`AuxVarType::Clktck`].
    Clktck(u64),
    /// Entry with payload for type [`AuxVarType::Secure`].
    Secure(bool),
    /// Entry with payload for type [`AuxVarType::BasePlatform`].
    BasePlatform(Vec<u8>),
    /// Entry with payload for type [`AuxVarType::Random`]: 16 random bytes.
    Random(Vec<u8>),
    /// Entry with payload for type [`AuxVarType::HwCap2`].
    HwCap2(u64),
    /// Entry with payload for type [`AuxVarType::ExecFn`].
    ExecFn(Vec<u8>),
    /// Entry with payload for type [`AuxVarType::Sysinfo`].
    Sysinfo(u64),
    /// Entry with payload for type [`AuxVarType::SysinfoEhdr`].
    SysinfoEhdr(u64),
    /// Entry with payload for type [`AuxVarType::L1iCacheSize`].
    L1iCacheSize(u64),
    /// Entry with payload for type [`AuxVarType::L1iCacheGeometry`].
    L1iCacheGeometry(u64),
    /// Entry with payload for type [`AuxVarType::L1dCacheSize`].
    L1dCacheSize(u64),
    /// Entry with payload for type [`AuxVarType::L1dCacheGeometry`].
    L1dCacheGeometry(u64),
    /// Entry with payload for type [`AuxVarType::L2CacheSize`].
    L2CacheSize(u64),
    /// Entry with payload for type [`AuxVarType::L2CacheGeometry`].
    L2CacheGeometry(u64),
    /// Entry with payload for type [`AuxVarType::L3CacheSize`].
    L3CacheSize(u64),
    /// Entry with payload for type [`AuxVarType::L3CacheGeometry`].
    L3CacheGeometry(u64),
    /// Entry with payload for type [`AuxVarType::MinSigStkSz`].
    MinSigStkSz(u64),
}

/// The key of an entry.
pub open spec fn spec_key(a: AuxVar) -> AuxVarType {
    match a {
        AuxVar::Null => AuxVarType::Null,
        AuxVar::Ignore => AuxVarType::Ignore,
        AuxVar::ExecFd(_) => AuxVarType::ExecFd,
        AuxVar::Phdr(_) => AuxVarType::Phdr,
        AuxVar::Phent(_) => AuxVarType::Phent,
        AuxVar::Phnum(_) => AuxVarType::Phnum,
        AuxVar::Pagesz(_) => AuxVarType::Pagesz,
        AuxVar::Base(_) => AuxVarType::Base,
        AuxVar::Flags(_) => AuxVarType::Flags,
        AuxVar::Entry(_) => AuxVarType::Entry,
        AuxVar::NotElf(_) => AuxVarType::NotElf,
        AuxVar::Uid(_) => AuxVarType::Uid,
        AuxVar::EUid(_) => AuxVarType::EUid,
        AuxVar::Gid(_) => AuxVarType::Gid,
        AuxVar::EGid(_) => AuxVarType::EGid,
        AuxVar::Platform(_) => AuxVarType::Platform,
        AuxVar::HwCap(_) => AuxVarType::HwCap,
        AuxVar::Clktck(_) => AuxVarType::Clktck,
        AuxVar::Secure(_) => AuxVarType::Secure,
        AuxVar::BasePlatform(_) => AuxVarType::BasePlatform,
        AuxVar::Random(_) => AuxVarType::Random,
        AuxVar::HwCap2(_) => AuxVarType::HwCap2,
        AuxVar::ExecFn(_) => AuxVarType::ExecFn,
        AuxVar::Sysinfo(_) => AuxVarType::Sysinfo,
        AuxVar::SysinfoEhdr(_) => AuxVarType::SysinfoEhdr,
        AuxVar::L1iCacheSize(_) => AuxVarType::L1iCacheSize,
        AuxVar::L1iCacheGeometry(_) => AuxVarType::L1iCacheGeometry,
        AuxVar::L1dCacheSize(_) => AuxVarType::L1dCacheSize,
        AuxVar::L1dCacheGeometry(_) => AuxVarType::L1dCacheGeometry,
        AuxVar::L2CacheSize(_) => AuxVarType::L2CacheSize,
        AuxVar::L2CacheGeometry(_) => AuxVarType::L2CacheGeometry,
        AuxVar::L3CacheSize(_) => AuxVarType::L3CacheSize,
        AuxVar::L3CacheGeometry(_) => AuxVarType::L3CacheGeometry,
        AuxVar::MinSigStkSz(_) => AuxVarType::MinSigStkSz,
    }
}

/// The immediate value word of an entry whose key does not reference the
/// data area.
pub open spec fn spec_imm(a: AuxVar) -> u64
    recommends
        !spec_in_data_area(spec_key(a)),
{
    match a {
        AuxVar::Null => 0,
        AuxVar::Ignore => 0,
        AuxVar::ExecFd(v) => v,
        AuxVar::Phdr(v) => v,
        AuxVar::Phent(v) => v,
        AuxVar::Phnum(v) => v,
        AuxVar::Pagesz(v) => v,
        AuxVar::Base(v) => v,
        AuxVar::Flags(f) => f.bits,
        AuxVar::Entry(v) => v,
        AuxVar::NotElf(b) => if b {
            1
        } else {
            0
        },
        AuxVar::Uid(v) => v,
        AuxVar::EUid(v) => v,
        AuxVar::Gid(v) => v,
        AuxVar::EGid(v) => v,
        AuxVar::HwCap(v) => v,
        AuxVar::Clktck(v) => v,
        AuxVar::Secure(b) => if b {
            1
        } else {
            0
        },
        AuxVar::HwCap2(v) => v,
        AuxVar::Sysinfo(v) => v,
        AuxVar::SysinfoEhdr(v) => v,
        AuxVar::L1iCacheSize(v) => v,
        AuxVar::L1iCacheGeometry(v) => v,
        AuxVar::L1dCacheSize(v) => v,
        AuxVar::L1dCacheGeometry(v) => v,
        AuxVar::L2CacheSize(v) => v,
        AuxVar::L2CacheGeometry(v) => v,
        AuxVar::L3CacheSize(v) => v,
        AuxVar::L3CacheGeometry(v) => v,
        AuxVar::MinSigStkSz(v) => v,
        AuxVar::Platform(_) => 0,
        AuxVar::BasePlatform(_) => 0,
        AuxVar::Random(_) => 0,
        AuxVar::ExecFn(_) => 0,
    }
}

/// The payload bytes of an entry whose key references the data area.
pub open spec fn spec_payload(a: AuxVar) -> Seq<u8>
    recommends
        spec_in_data_area(spec_key(a)),
{
    match a {
        AuxVar::Platform(v) => v@,
        AuxVar::BasePlatform(v) => v@,
        AuxVar::Random(v) => v@,
        AuxVar::ExecFn(v) => v@,
        _ => Seq::empty(),
    }
}

/// A well-formed entry as the builder stores it: string payloads are
/// normalized C-strings (NUL-terminated, no interior NUL), the random
/// payload is exactly 16 bytes, and a flag set carries only defined bits.
pub open spec fn spec_aux_wf(a: AuxVar) -> bool {
    match a {
        AuxVar::Platform(v) => spec_cstr_wf(v@),
        AuxVar::BasePlatform(v) => spec_cstr_wf(v@),
        AuxVar::ExecFn(v) => spec_cstr_wf(v@),
        AuxVar::Random(v) => v@.len() == 16,
        AuxVar::Flags(f) => spec_flags_wf(f),
        _ => true,
    }
}

/// A valid argument to the builder: like [`spec_aux_wf`], except that the
/// terminating NUL of a string payload may still be missing (the builder
/// appends it).
pub open spec fn spec_aux_arg_ok(a: AuxVar) -> bool {
    match a {
        AuxVar::Platform(v) => spec_at_most_terminating_null(v@),
        AuxVar::BasePlatform(v) => spec_at_most_terminating_null(v@),
        AuxVar::ExecFn(v) => spec_at_most_terminating_null(v@),
        AuxVar::Random(v) => v@.len() == 16,
        AuxVar::Flags(f) => spec_flags_wf(f),
        _ => true,
    }
}

/// The mathematical view of one auxiliary vector entry: its key, the
/// immediate value word (zero for data-area keys), and the payload bytes
/// (empty for immediate keys).
pub ghost struct AuxVarView {
    /// The entry's key.
    pub key: AuxVarType,
    /// The immediate value word; zero when the key references the data area.
    pub imm: u64,
    /// The payload bytes; empty when the key carries an immediate value.
    pub payload: Seq<u8>,
}

impl View for AuxVar {
    type V = AuxVarView;

    open spec fn view(&self) -> AuxVarView {
        AuxVarView {
            key: spec_key(*self),
            imm: if spec_in_data_area(spec_key(*self)) {
                0
            } else {
                spec_imm(*self)
            },
            payload: spec_payload(*self),
        }
    }
}

/// A well-formed entry view, as the builder stores it: a data-area entry
/// has immediate zero and a payload of the right shape (normalized C-string,
/// or exactly 16 random bytes); an immediate entry has an empty payload, and
/// booleans, flag sets and the end/ignore markers carry only their canonical
/// value words.
pub open spec fn spec_view_wf(v: AuxVarView) -> bool {
    if spec_in_data_area(v.key) {
        v.imm == 0 && (if crate::typ::spec_is_cstr(v.key) {
            spec_cstr_wf(v.payload)
        } else {
            v.payload.len() == 16
        })
    } else {
        v.payload.len() == 0 && (v.key == AuxVarType::Flags || v.key == AuxVarType::NotElf || v.key
            == AuxVarType::Secure ==> v.imm == 0 || v.imm == 1) && (v.key == AuxVarType::Null
            || v.key == AuxVarType::Ignore ==> v.imm == 0)
    }
}

/// A well-formed entry has a well-formed view.
pub proof fn lemma_aux_wf_view(a: AuxVar)
    requires
        spec_aux_wf(a),
    ensures
        spec_view_wf(a@),
{
}

/// A view with a terminating NUL byte guaranteed on a C-string payload; the
/// shape in which the builder stores an added entry.
pub open spec fn spec_view_normalize(v: AuxVarView) -> AuxVarView {
    if crate::typ::spec_is_cstr(v.key) {
        AuxVarView { key: v.key, imm: v.imm, payload: spec_with_null(v.payload) }
    } else {
        v
    }
}

impl AuxVar {
    /// Returns the [`AuxVarType`] this aux var corresponds to.
    pub fn key(&self) -> (r: AuxVarType)
        ensures
            r == spec_key(*self),
    {
        match self {
            AuxVar::Null => AuxVarType::Null,
            AuxVar::Ignore => AuxVarType::Ignore,
            AuxVar::ExecFd(_) => AuxVarType::ExecFd,
            AuxVar::Phdr(_) => AuxVarType::Phdr,
            AuxVar::Phent(_) => AuxVarType::Phent,
            AuxVar::Phnum(_) => AuxVarType::Phnum,
            AuxVar::Pagesz(_) => AuxVarType::Pagesz,
            AuxVar::Base(_) => AuxVarType::Base,
            AuxVar::Flags(_) => AuxVarType::Flags,
            AuxVar::Entry(_) => AuxVarType::Entry,
            AuxVar::NotElf(_) => AuxVarType::NotElf,
            AuxVar::Uid(_) => AuxVarType::Uid,
            AuxVar::EUid(_) => AuxVarType::EUid,
            AuxVar::Gid(_) => AuxVarType::Gid,
            AuxVar::EGid(_) => AuxVarType::EGid,
            AuxVar::Platform(_) => AuxVarType::Platform,
            AuxVar::HwCap(_) => AuxVarType::HwCap,
            AuxVar::Clktck(_) => AuxVarType::Clktck,
            AuxVar::Secure(_) => AuxVarType::Secure,
            AuxVar::BasePlatform(_) => AuxVarType::BasePlatform,
            AuxVar::Random(_) => AuxVarType::Random,
            AuxVar::HwCap2(_) => AuxVarType::HwCap2,
            AuxVar::ExecFn(_) => AuxVarType::ExecFn,
            AuxVar::Sysinfo(_) => AuxVarType::Sysinfo,
            AuxVar::SysinfoEhdr(_) => AuxVarType::SysinfoEhdr,
            AuxVar::L1iCacheSize(_) => AuxVarType::L1iCacheSize,
            AuxVar::L1iCacheGeometry(_) => AuxVarType::L1iCacheGeometry,
            AuxVar::L1dCacheSize(_) => AuxVarType::L1dCacheSize,
            AuxVar::L1dCacheGeometry(_) => AuxVarType::L1dCacheGeometry,
            AuxVar::L2CacheSize(_) => AuxVarType::L2CacheSize,
            AuxVar::L2CacheGeometry(_) => AuxVarType::L2CacheGeometry,
            AuxVar::L3CacheSize(_) => AuxVarType::L3CacheSize,
            AuxVar::L3CacheGeometry(_) => AuxVarType::L3CacheGeometry,
            AuxVar::MinSigStkSz(_) => AuxVarType::MinSigStkSz,
        }
    }

    /// Transforms any inner value into its serialized value word.
    ///
    /// This only works for variants whose value is an immediate, not a
    /// pointer into the data area.
    pub fn value_raw(&self) -> (r: u64)
        requires
            !spec_in_data_area(spec_key(*self)),
        ensures
            r == spec_imm(*self),
    {
        match self {
            AuxVar::Null => 0,
            AuxVar::Ignore => 0,
            AuxVar::ExecFd(v) => *v,
            AuxVar::Phdr(v) => *v,
            AuxVar::Phent(v) => *v,
            AuxVar::Phnum(v) => *v,
            AuxVar::Pagesz(v) => *v,
            AuxVar::Base(v) => *v,
            AuxVar::Flags(f) => f.bits,
            AuxVar::Entry(v) => *v,
            AuxVar::NotElf(b) => if *b {
                1
            } else {
                0
            },
            AuxVar::Uid(v) => *v,
            AuxVar::EUid(v) => *v,
            AuxVar::Gid(v) => *v,
            AuxVar::EGid(v) => *v,
            AuxVar::HwCap(v) => *v,
            AuxVar::Clktck(v) => *v,
            AuxVar::Secure(b) => if *b {
                1
            } else {
                0
            },
            AuxVar::HwCap2(v) => *v,
            AuxVar::Sysinfo(v) => *v,
            AuxVar::SysinfoEhdr(v) => *v,
            AuxVar::L1iCacheSize(v) => *v,
            AuxVar::L1iCacheGeometry(v) => *v,
            AuxVar::L1dCacheSize(v) => *v,
            AuxVar::L1dCacheGeometry(v) => *v,
            AuxVar::L2CacheSize(v) => *v,
            AuxVar::L2CacheGeometry(v) => *v,
            AuxVar::L3CacheSize(v) => *v,
            AuxVar::L3CacheGeometry(v) => *v,
            AuxVar::MinSigStkSz(v) => *v,
            AuxVar::Platform(_) => vstd::pervasive::unreached(),
            AuxVar::BasePlatform(_) => vstd::pervasive::unreached(),
            AuxVar::Random(_) => vstd::pervasive::unreached(),
            AuxVar::ExecFn(_) => vstd::pervasive::unreached(),
        }
    }

    /// Returns a value if the corresponding entry corresponds to a basic
    /// value/integer, and not a pointer, flags, or a boolean.
    pub fn value_integer(&self) -> (r: Option<u64>)
        ensures
            match *self {
                AuxVar::ExecFd(v) => r == Some(v),
                AuxVar::Phent(v) => r == Some(v),
                AuxVar::Phnum(v) => r == Some(v),
                AuxVar::Pagesz(v) => r == Some(v),
                AuxVar::Uid(v) => r == Some(v),
                AuxVar::EUid(v) => r == Some(v),
                AuxVar::Gid(v) => r == Some(v),
                AuxVar::EGid(v) => r == Some(v),
                AuxVar::HwCap(v) => r == Some(v),
                AuxVar::Clktck(v) => r == Some(v),
                AuxVar::HwCap2(v) => r == Some(v),
                AuxVar::L1iCacheSize(v) => r == Some(v),
                AuxVar::L1iCacheGeometry(v) => r == Some(v),
                AuxVar::L1dCacheSize(v) => r == Some(v),
                AuxVar::L1dCacheGeometry(v) => r == Some(v),
                AuxVar::L2CacheSize(v) => r == Some(v),
                AuxVar::L2CacheGeometry(v) => r == Some(v),
                AuxVar::L3CacheSize(v) => r == Some(v),
                AuxVar::L3CacheGeometry(v) => r == Some(v),
                AuxVar::MinSigStkSz(v) => r == Some(v),
                _ => r is None,
            },
    {
        match self {
            AuxVar::ExecFd(v) => Some(*v),
            AuxVar::Phent(v) => Some(*v),
            AuxVar::Phnum(v) => Some(*v),
            AuxVar::Pagesz(v) => Some(*v),
            AuxVar::Uid(v) => Some(*v),
            AuxVar::EUid(v) => Some(*v),
            AuxVar::Gid(v) => Some(*v),
            AuxVar::EGid(v) => Some(*v),
            AuxVar::HwCap(v) => Some(*v),
            AuxVar::Clktck(v) => Some(*v),
            AuxVar::HwCap2(v) => Some(*v),
            AuxVar::L1iCacheSize(v) => Some(*v),
            AuxVar::L1iCacheGeometry(v) => Some(*v),
            AuxVar::L1dCacheSize(v) => Some(*v),
            AuxVar::L1dCacheGeometry(v) => Some(*v),
            AuxVar::L2CacheSize(v) => Some(*v),
            AuxVar::L2CacheGeometry(v) => Some(*v),
            AuxVar::L3CacheSize(v) => Some(*v),
            AuxVar::L3CacheGeometry(v) => Some(*v),
            AuxVar::MinSigStkSz(v) => Some(*v),
            _ => None,
        }
    }

    /// Returns the [`AuxVarFlags`] if the corresponding entry is of type
    /// [`AuxVarType::Flags`].
    pub fn value_flags(&self) -> (r: Option<AuxVarFlags>)
        ensures
            match *self {
                AuxVar::Flags(f) => r == Some(f),
                _ => r is None,
            },
    {
        match self {
            AuxVar::Flags(f) => Some(*f),
            _ => None,
        }
    }

    /// Returns a value if the corresponding entry corresponds to a boolean,
    /// and not a pointer, flags, or a basic value/integer.
    pub fn value_boolean(&self) -> (r: Option<bool>)
        ensures
            match *self {
                AuxVar::NotElf(b) => r == Some(b),
                AuxVar::Secure(b) => r == Some(b),
                _ => r is None,
            },
    {
        match self {
            AuxVar::NotElf(b) => Some(*b),
            AuxVar::Secure(b) => Some(*b),
            _ => None,
        }
    }

    /// Returns a value if the corresponding entry carries an address that
    /// this crate never resolves (memory outside the stack layout).
    pub fn value_ptr(&self) -> (r: Option<u64>)
        ensures
            match *self {
                AuxVar::Phdr(v) => r == Some(v),
                AuxVar::Base(v) => r == Some(v),
                AuxVar::Entry(v) => r == Some(v),
                AuxVar::Sysinfo(v) => r == Some(v),
                AuxVar::SysinfoEhdr(v) => r == Some(v),
                _ => r is None,
            },
    {
        match self {
            AuxVar::Phdr(v) => Some(*v),
            AuxVar::Base(v) => Some(*v),
            AuxVar::Entry(v) => Some(*v),
            AuxVar::Sysinfo(v) => Some(*v),
            AuxVar::SysinfoEhdr(v) => Some(*v),
            _ => None,
        }
    }

    /// Returns the referenced fixed-size bytes for [`AuxVarType::Random`]
    /// entries.
    pub fn value_payload_bytes(&self) -> (r: Option<&Vec<u8>>)
        ensures
            match *self {
                AuxVar::Random(_) => r is Some && r->0@ == spec_payload(*self),
                _ => r is None,
            },
    {
        match self {
            AuxVar::Random(v) => Some(v),
            _ => None,
        }
    }

    /// Returns the referenced C-string payload for the string-carrying
    /// entries ([`AuxVarType::Platform`], [`AuxVarType::BasePlatform`],
    /// [`AuxVarType::ExecFn`]).
    pub fn value_payload_str(&self) -> (r: Option<&Vec<u8>>)
        ensures
            match *self {
                AuxVar::Platform(_) => r is Some && r->0@ == spec_payload(*self),
                AuxVar::BasePlatform(_) => r is Some && r->0@ == spec_payload(*self),
                AuxVar::ExecFn(_) => r is Some && r->0@ == spec_payload(*self),
                _ => r is None,
            },
    {
        match self {
            AuxVar::Platform(v) => Some(v),
            AuxVar::BasePlatform(v) => Some(v),
            AuxVar::ExecFn(v) => Some(v),
            _ => None,
        }
    }

    /// Borrows the data-area payload of an entry whose key references the
    /// data area.
    pub fn payload_ref(&self) -> (r: &Vec<u8>)
        requires
            spec_in_data_area(spec_key(*self)),
        ensures
            r@ == spec_payload(*self),
    {
        match self {
            AuxVar::Platform(v) => v,
            AuxVar::BasePlatform(v) => v,
            AuxVar::Random(v) => v,
            AuxVar::ExecFn(v) => v,
            _ => vstd::pervasive::unreached(),
        }
    }

    /// Consumes the entry and guarantees the terminating NUL byte on a
    /// C-string payload, leaving every other variant unchanged.
    pub fn into_normalized(self) -> (r: AuxVar)
        ensures
            r@ == spec_view_normalize(self@),
            spec_aux_arg_ok(self) ==> spec_aux_wf(r),
    {
        proof {
            if spec_aux_arg_ok(self) && crate::typ::spec_is_cstr(spec_key(self)) {
                lemma_with_null_wf(spec_payload(self));
            }
        }
        match self {
            AuxVar::Platform(v) => AuxVar::Platform(push_null_if_missing(v)),
            AuxVar::BasePlatform(v) => AuxVar::BasePlatform(push_null_if_missing(v)),
            AuxVar::ExecFn(v) => AuxVar::ExecFn(push_null_if_missing(v)),
            other => other,
        }
    }

    /// Builds the entry for an immediate-valued key from its raw value word,
    /// as read out of a serialized auxiliary vector.
    pub fn from_imm(t: AuxVarType, v: u64) -> (r: AuxVar)
        requires
            !spec_in_data_area(t),
        ensures
            spec_key(r) == t,
            spec_imm(r) == spec_canonical_imm(t, v),
            spec_payload(r) == Seq::<u8>::empty(),
            spec_aux_wf(r),
    {
        match t {
            AuxVarType::Null => AuxVar::Null,
            AuxVarType::Ignore => AuxVar::Ignore,
            AuxVarType::ExecFd => AuxVar::ExecFd(v),
            AuxVarType::Phdr => AuxVar::Phdr(v),
            AuxVarType::Phent => AuxVar::Phent(v),
            AuxVarType::Phnum => AuxVar::Phnum(v),
            AuxVarType::Pagesz => AuxVar::Pagesz(v),
            AuxVarType::Base => AuxVar::Base(v),
            AuxVarType::Flags => AuxVar::Flags(AuxVarFlags::from_bits_truncate(v)),
            AuxVarType::Entry => AuxVar::Entry(v),
            AuxVarType::NotElf => AuxVar::NotElf(v == 1),
            AuxVarType::Uid => AuxVar::Uid(v),
            AuxVarType::EUid => AuxVar::EUid(v),
            AuxVarType::Gid => AuxVar::Gid(v),
            AuxVarType::EGid => AuxVar::EGid(v),
            AuxVarType::HwCap => AuxVar::HwCap(v),
            AuxVarType::Clktck => AuxVar::Clktck(v),
            AuxVarType::Secure => AuxVar::Secure(v == 1),
            AuxVarType::HwCap2 => AuxVar::HwCap2(v),
            AuxVarType::Sysinfo => AuxVar::Sysinfo(v),
            AuxVarType::SysinfoEhdr => AuxVar::SysinfoEhdr(v),
            AuxVarType::L1iCacheSize => AuxVar::L1iCacheSize(v),
            AuxVarType::L1iCacheGeometry => AuxVar::L1iCacheGeometry(v),
            AuxVarType::L1dCacheSize => AuxVar::L1dCacheSize(v),
            AuxVarType::L1dCacheGeometry => AuxVar::L1dCacheGeometry(v),
            AuxVarType::L2CacheSize => AuxVar::L2CacheSize(v),
            AuxVarType::L2CacheGeometry => AuxVar::L2CacheGeometry(v),
            AuxVarType::L3CacheSize => AuxVar::L3CacheSize(v),
            AuxVarType::L3CacheGeometry => AuxVar::L3CacheGeometry(v),
            AuxVarType::MinSigStkSz => AuxVar::MinSigStkSz(v),
            AuxVarType::Platform => vstd::pervasive::unreached(),
            AuxVarType::BasePlatform => vstd::pervasive::unreached(),
            AuxVarType::Random => vstd::pervasive::unreached(),
            AuxVarType::ExecFn => vstd::pervasive::unreached(),
        }
    }

    /// Builds the entry for a data-area key from the payload bytes read out
    /// of the data area.
    pub fn from_data(t: AuxVarType, payload: Vec<u8>) -> (r: AuxVar)
        requires
            spec_in_data_area(t),
        ensures
            spec_key(r) == t,
            spec_payload(r) == payload@,
            spec_imm(r) == 0,
    {
        match t {
            AuxVarType::Platform => AuxVar::Platform(payload),
            AuxVarType::BasePlatform => AuxVar::BasePlatform(payload),
            AuxVarType::Random => AuxVar::Random(payload),
            _ => AuxVar::ExecFn(payload),
        }
    }
}

/// What parsing stores for an immediate-valued key whose raw value word is
/// `v`: booleans collapse to `v == 1`, a flag set keeps its defined bits,
/// every other key keeps `v` as is.
pub open spec fn spec_canonical_imm(t: AuxVarType, v: u64) -> u64 {
    if t == AuxVarType::Null || t == AuxVarType::Ignore {
        0
    } else if t == AuxVarType::NotElf || t == AuxVarType::Secure {
        if v == 1 {
            1
        } else {
            0
        }
    } else if t == AuxVarType::Flags {
        v & 1
    } else {
        v
    }
}

/// On a well-formed entry, re-reading the serialized value word yields the
/// entry's own immediate: serialization does not lose immediates.
pub proof fn lemma_canonical_imm_round_trip(a: AuxVar)
    requires
        spec_aux_wf(a),
        !spec_in_data_area(spec_key(a)),
    ensures
        spec_canonical_imm(spec_key(a), spec_imm(a)) == spec_imm(a),
{
    if spec_key(a) == AuxVarType::Flags {
        assert(spec_imm(a) == 0 || spec_imm(a) == 1);
        assert(0u64 & 1 == 0 && 1u64 & 1 == 1) by (bit_vector);
    }
}

/// Appends a terminating NUL byte unless one is already present.
pub(crate) fn push_null_if_missing(v: Vec<u8>) -> (r: Vec<u8>)
    ensures
        r@ == spec_with_null(v@),
{
    let ghost orig = v@;
    let mut v = v;
    let n = v.len();
    if n == 0 || v[n - 1] != 0 {
        v.push(0u8);
        assert(v@ =~= orig + seq![0u8]);
    }
    v
}

} // verus!
