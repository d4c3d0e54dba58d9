//! Parser for a serialized stack layout: walks the raw bytes back into
//! `argc`, pointer slots, auxiliary entries, and — given the base address
//! the stored pointers are relative to — the referenced payloads.

use vstd::prelude::*;
use crate::typ::AuxVarType;
use crate::typ::spec_is_valid_code;
use crate::typ::spec_type_of_code;
use crate::typ::spec_in_data_area;
use crate::typ::spec_is_cstr;
use crate::aux_var::AuxVar;
use crate::aux_var::AuxVarView;
use crate::aux_var::spec_canonical_imm;
use crate::serialized::AuxVarRaw;
use crate::util::spec_has_null;
use crate::util::spec_null_index;
use crate::words::word_at;
use crate::words::read_word;

verus! {

/// Why a layout buffer could not be parsed. Every case is a hard failure:
/// the buffer is corrupt, truncated, or read at the wrong offset, and
/// continuing would interpret arbitrary memory as structured data.
#[derive(Debug, Clone, Copy, PartialEq, Eq, Structural)]
pub enum StackParseError {
    /// The buffer ended before the expected sentinel.
    Truncated,
    /// An auxiliary vector key word holds a code outside the closed set.
    InvalidKey(u64),
    /// The auxiliary vector's end-marker key carries a non-zero value.
    BadEndMarker(u64),
    /// A stored pointer does not point into the buffer.
    BadPointer(u64),
    /// A referenced C-string runs past the end of the buffer without a
    /// terminating NUL byte.
    Unterminated(u64),
}

/// Whether a run of pointer slots starting at `start` reaches a zero slot
/// within the buffer.
pub open spec fn slots_terminated(b: Seq<u8>, start: int) -> bool
    decreases b.len() - start,
{
    if start < 0 || start + 8 > b.len() {
        false
    } else if word_at(b, start) == 0 {
        true
    } else {
        slots_terminated(b, start + 8)
    }
}

/// The number of non-zero pointer slots from `start` up to the zero slot.
pub open spec fn count_slots(b: Seq<u8>, start: int) -> int
    decreases b.len() - start,
{
    if start < 0 || start + 8 > b.len() {
        0
    } else if word_at(b, start) == 0 {
        0
    } else {
        1 + count_slots(b, start + 8)
    }
}

/// Whether an auxiliary vector region starting at `start` is well formed:
/// every entry up to the end marker carries a known key code, and the end
/// marker itself carries value zero, all within the buffer.
pub open spec fn auxv_region_wf(b: Seq<u8>, start: int) -> bool
    decreases b.len() - start,
{
    if start < 0 || start + 16 > b.len() {
        false
    } else if word_at(b, start) == 0 {
        word_at(b, start + 8) == 0
    } else {
        spec_is_valid_code(word_at(b, start)) && auxv_region_wf(b, start + 16)
    }
}

/// The number of auxiliary entries from `start` up to the end-marker key.
pub open spec fn auxv_count(b: Seq<u8>, start: int) -> int
    decreases b.len() - start,
{
    if start < 0 || start + 16 > b.len() {
        0
    } else if word_at(b, start) == 0 {
        0
    } else {
        1 + auxv_count(b, start + 16)
    }
}

/// Wraps a slice of bytes representing a serialized stack layout, allowing
/// its content to be parsed.
///
/// The slice may cover more bytes than the structure itself: parsing
/// discovers the actual extent at run time from the sentinels, since no
/// region length is stored anywhere in the format.
///
/// Pointer-only iteration ([`Self::argv_raw_iter`], [`Self::envv_raw_iter`],
/// [`Self::auxv_raw_iter`]) never resolves a stored pointer and is safe for
/// a buffer built for a *different* address space. The resolving iterators
/// ([`Self::argv_iter`], [`Self::envv_iter`], [`Self::auxv_iter`]) take the
/// base address that the stored pointers are relative to and read the
/// referenced payloads out of the buffer itself; they fail cleanly when a
/// pointer does not point into the buffer.
#[derive(Debug, Clone, Copy)]
pub struct StackLayoutRef<'a> {
    /// The underlying bytes; may extend past the structure's end.
    pub bytes: &'a [u8],
    /// An externally known argument count, when `bytes` starts directly at
    /// the argv slots rather than at the `argc` word.
    pub argc: Option<usize>,
}

impl<'a> StackLayoutRef<'a> {
    /// Offset of the argv pointer slots: zero when the caller supplied
    /// `argc` externally, one word otherwise.
    pub open spec fn argv_start(self) -> int {
        if self.argc is Some {
            0
        } else {
            8
        }
    }

    /// The argument count: the externally supplied one, or the buffer's
    /// first word.
    pub open spec fn spec_argc(self) -> int {
        if self.argc is Some {
            self.argc->0 as int
        } else {
            word_at(self.bytes@, 0) as int
        }
    }

    /// Offset of the envv pointer slots: past the argv slots and their
    /// terminating null slot. Trusts the argument count, as the format
    /// prescribes.
    pub open spec fn envv_start(self) -> int {
        self.argv_start() + 8 * self.spec_argc() + 8
    }

    /// Offset of the auxiliary vector entries: past the envv slots and
    /// their terminating null slot, found by scanning for that null slot.
    pub open spec fn auxv_start(self) -> int {
        self.envv_start() + 8 * count_slots(self.bytes@, self.envv_start()) + 8
    }

    /// Creates a new view into the stack layout.
    ///
    /// `argc` determines whether `bytes` starts with the argument count
    /// word (`None`) or directly at the argv slots (`Some`).
    pub fn new(bytes: &'a [u8], argc: Option<usize>) -> (r: StackLayoutRef<'a>)
        ensures
            r.bytes@ == bytes@,
            r.argc == argc,
    {
        StackLayoutRef { bytes, argc }
    }

    /// Returns the number of arguments: the externally supplied count, or
    /// the buffer's first word.
    pub fn argc(&self) -> (r: usize)
        requires
            self.argc is None ==> self.bytes@.len() >= 8 && word_at(self.bytes@, 0)
                <= usize::MAX,
        ensures
            r == self.spec_argc(),
    {
        match self.argc {
            Some(n) => n,
            None => {
                let w = read_word(self.bytes, 0);
                w as usize
            },
        }
    }

    /// Returns the number of environment variables by scanning the envv
    /// slots for their terminating null slot.
    pub fn envc(&self) -> (r: usize)
        requires
            self.argc is None ==> self.bytes@.len() >= 8 && word_at(self.bytes@, 0)
                <= usize::MAX,
            self.envv_start() <= usize::MAX,
            slots_terminated(self.bytes@, self.envv_start()),
        ensures
            r == count_slots(self.bytes@, self.envv_start()),
    {
        let start = self.envv_start_exec();
        count_slots_exec(self.bytes, start)
    }

    /// Returns the number of auxiliary vector entries by scanning for the
    /// end-marker key.
    pub fn auxvc(&self) -> (r: usize)
        requires
            self.argc is None ==> self.bytes@.len() >= 8 && word_at(self.bytes@, 0)
                <= usize::MAX,
            self.envv_start() <= usize::MAX,
            slots_terminated(self.bytes@, self.envv_start()),
            auxv_region_wf(self.bytes@, self.auxv_start()),
        ensures
            r == auxv_count(self.bytes@, self.auxv_start()),
    {
        let start = self.auxv_start_exec();
        let ghost b = self.bytes@;
        let blen = self.bytes.len();
        let mut pos = start;
        let mut k: usize = 0;
        while read_word(self.bytes, pos) != 0
            invariant
                b == self.bytes@,
                blen == b.len(),
                auxv_region_wf(b, pos as int),
                pos == start + 16 * k,
                auxv_count(b, start as int) == k + auxv_count(b, pos as int),
            decreases b.len() - pos,
        {
            pos = pos + 16;
            k = k + 1;
        }
        k
    }

    /// The exec computation of [`Self::envv_start`].
    fn envv_start_exec(&self) -> (r: usize)
        requires
            self.argc is None ==> self.bytes@.len() >= 8 && word_at(self.bytes@, 0)
                <= usize::MAX,
            self.envv_start() <= usize::MAX,
        ensures
            r == self.envv_start(),
    {
        let argv_start: usize = match self.argc {
            Some(_) => 0,
            None => 8,
        };
        let n = self.argc();
        argv_start + 8 * n + 8
    }

    /// The exec computation of [`Self::auxv_start`].
    fn auxv_start_exec(&self) -> (r: usize)
        requires
            self.argc is None ==> self.bytes@.len() >= 8 && word_at(self.bytes@, 0)
                <= usize::MAX,
            self.envv_start() <= usize::MAX,
            slots_terminated(self.bytes@, self.envv_start()),
        ensures
            r == self.auxv_start(),
    {
        let start = self.envv_start_exec();
        let n = count_slots_exec(self.bytes, start);
        let blen = self.bytes.len();
        proof {
            lemma_count_slots_bounded(self.bytes@, start as int);
            assert(start + 8 * n + 8 <= blen);
        }
        start + 8 * n + 8
    }
}

/// Counts the pointer slots before the terminating null slot.
fn count_slots_exec(bytes: &[u8], start: usize) -> (r: usize)
    requires
        slots_terminated(bytes@, start as int),
    ensures
        r == count_slots(bytes@, start as int),
{
    let blen = bytes.len();
    let mut pos = start;
    let mut k: usize = 0;
    while read_word(bytes, pos) != 0
        invariant
            blen == bytes@.len(),
            slots_terminated(bytes@, pos as int),
            pos == start + 8 * k,
            count_slots(bytes@, start as int) == k + count_slots(bytes@, pos as int),
        decreases bytes@.len() - pos,
    {
        pos = pos + 8;
        k = k + 1;
    }
    k
}

impl<'a> StackLayoutRef<'a> {
    /// Returns an iterator over the raw argv pointer slots. It never
    /// resolves a pointer and is therefore safe for a buffer built for a
    /// foreign address space.
    pub fn argv_raw_iter(&self) -> (r: NullTermArrIter<'a>)
        ensures
            r.bytes@ == self.bytes@,
            r.pos == self.argv_start(),
    {
        let start: usize = match self.argc {
            Some(_) => 0,
            None => 8,
        };
        NullTermArrIter { bytes: self.bytes, pos: start }
    }

    /// Returns an iterator over the raw envv pointer slots. It never
    /// resolves a pointer and is therefore safe for a buffer built for a
    /// foreign address space.
    pub fn envv_raw_iter(&self) -> (r: NullTermArrIter<'a>)
        requires
            self.argc is None ==> self.bytes@.len() >= 8 && word_at(self.bytes@, 0)
                <= usize::MAX,
            self.envv_start() <= usize::MAX,
        ensures
            r.bytes@ == self.bytes@,
            r.pos == self.envv_start(),
    {
        let start = self.envv_start_exec();
        NullTermArrIter { bytes: self.bytes, pos: start }
    }

    /// Returns an iterator over the raw auxiliary vector entries. It never
    /// resolves a value even when the key marks it as a pointer, and is
    /// therefore safe for a buffer built for a foreign address space.
    pub fn auxv_raw_iter(&self) -> (r: AuxVarRawIter<'a>)
        requires
            self.argc is None ==> self.bytes@.len() >= 8 && word_at(self.bytes@, 0)
                <= usize::MAX,
            self.envv_start() <= usize::MAX,
            slots_terminated(self.bytes@, self.envv_start()),
        ensures
            r.bytes@ == self.bytes@,
            r.pos == self.auxv_start(),
    {
        let start = self.auxv_start_exec();
        AuxVarRawIter { bytes: self.bytes, pos: start }
    }

    /// Returns a resolving iterator over the argument strings. `base` is
    /// the address, in the stored pointers' address space, at which the
    /// buffer's first byte lives; each pointer is resolved to the
    /// referenced NUL-terminated string inside the buffer.
    pub fn argv_iter(&self, base: u64) -> (r: CStrArrayIter<'a>)
        ensures
            r.bytes@ == self.bytes@,
            r.base == base,
            r.pos == self.argv_start(),
    {
        let start: usize = match self.argc {
            Some(_) => 0,
            None => 8,
        };
        CStrArrayIter { bytes: self.bytes, base, pos: start }
    }

    /// Returns a resolving iterator over the environment strings; `base`
    /// as in [`Self::argv_iter`].
    pub fn envv_iter(&self, base: u64) -> (r: CStrArrayIter<'a>)
        requires
            self.argc is None ==> self.bytes@.len() >= 8 && word_at(self.bytes@, 0)
                <= usize::MAX,
            self.envv_start() <= usize::MAX,
        ensures
            r.bytes@ == self.bytes@,
            r.base == base,
            r.pos == self.envv_start(),
    {
        let start = self.envv_start_exec();
        CStrArrayIter { bytes: self.bytes, base, pos: start }
    }

    /// Returns a resolving iterator over the auxiliary vector: each entry
    /// whose key references the data area is resolved to a rich
    /// [`AuxVar`] holding the payload read out of the buffer; `base` as in
    /// [`Self::argv_iter`].
    pub fn auxv_iter(&self, base: u64) -> (r: AuxVarIter<'a>)
        requires
            self.argc is None ==> self.bytes@.len() >= 8 && word_at(self.bytes@, 0)
                <= usize::MAX,
            self.envv_start() <= usize::MAX,
            slots_terminated(self.bytes@, self.envv_start()),
        ensures
            r.bytes@ == self.bytes@,
            r.base == base,
            r.pos == self.auxv_start(),
    {
        let start = self.auxv_start_exec();
        AuxVarIter { bytes: self.bytes, base, pos: start }
    }
}

/// What one step of slot iteration yields at position `pos`: the slot's
/// word, `None` at the terminating null slot, or a truncation error when
/// the slot would run past the buffer.
pub open spec fn spec_slot_step(b: Seq<u8>, pos: int) -> Option<Result<u64, StackParseError>> {
    if pos + 8 > b.len() {
        Some(Err(StackParseError::Truncated))
    } else if word_at(b, pos) == 0 {
        None
    } else {
        Some(Ok(word_at(b, pos)))
    }
}

/// Iterator over the entries of a null-terminated array of pointer slots.
/// It yields the raw pointer words and never resolves them.
#[derive(Debug, Clone, Copy)]
pub struct NullTermArrIter<'a> {
    /// The whole layout buffer.
    pub bytes: &'a [u8],
    /// Byte offset of the next slot.
    pub pos: usize,
}

impl<'a> NullTermArrIter<'a> {
    /// Yields the next pointer word, `None` at the terminating null slot,
    /// or an error if the array runs past the buffer's end.
    pub fn next(&mut self) -> (r: Option<Result<u64, StackParseError>>)
        ensures
            final(self).bytes@ == old(self).bytes@,
            r == spec_slot_step(old(self).bytes@, old(self).pos as int),
            r matches Some(Ok(_)) ==> final(self).pos == old(self).pos + 8,
            !(r matches Some(Ok(_))) ==> final(self).pos == old(self).pos,
    {
        let n = self.bytes.len();
        if n < 8 || self.pos > n - 8 {
            return Some(Err(StackParseError::Truncated));
        }
        let w = read_word(self.bytes, self.pos);
        if w == 0 {
            None
        } else {
            self.pos = self.pos + 8;
            Some(Ok(w))
        }
    }
}

/// What one step of raw auxiliary iteration yields at position `pos`: the
/// raw entry, `None` at a proper end marker, or the hard failure that the
/// entry shows (truncation, an unknown key code, or an end marker carrying
/// a non-zero value).
pub open spec fn spec_aux_raw_step(b: Seq<u8>, pos: int) -> Option<
    Result<AuxVarRaw, StackParseError>,
> {
    if pos + 16 > b.len() {
        Some(Err(StackParseError::Truncated))
    } else {
        let k = word_at(b, pos);
        let v = word_at(b, pos + 8);
        if k == 0 {
            if v == 0 {
                None
            } else {
                Some(Err(StackParseError::BadEndMarker(v)))
            }
        } else if !spec_is_valid_code(k) {
            Some(Err(StackParseError::InvalidKey(k)))
        } else {
            Some(Ok(AuxVarRaw { key: k, value: v }))
        }
    }
}

/// Iterator over the auxiliary vector's raw `(key, value)` entries. It
/// never resolves a value, even when the key marks it as a pointer.
#[derive(Debug, Clone, Copy)]
pub struct AuxVarRawIter<'a> {
    /// The whole layout buffer.
    pub bytes: &'a [u8],
    /// Byte offset of the next entry.
    pub pos: usize,
}

impl<'a> AuxVarRawIter<'a> {
    /// Yields the next raw entry, `None` at a proper end marker (key zero,
    /// value zero), or the hard failure the entry shows: truncation, a key
    /// code outside the closed set, or an end marker whose value is not
    /// zero.
    pub fn next(&mut self) -> (r: Option<Result<AuxVarRaw, StackParseError>>)
        ensures
            final(self).bytes@ == old(self).bytes@,
            r == spec_aux_raw_step(old(self).bytes@, old(self).pos as int),
            r matches Some(Ok(_)) ==> final(self).pos == old(self).pos + 16,
            !(r matches Some(Ok(_))) ==> final(self).pos == old(self).pos,
    {
        let n = self.bytes.len();
        if n < 16 || self.pos > n - 16 {
            return Some(Err(StackParseError::Truncated));
        }
        let k = read_word(self.bytes, self.pos);
        let v = read_word(self.bytes, self.pos + 8);
        if k == 0 {
            if v == 0 {
                None
            } else {
                Some(Err(StackParseError::BadEndMarker(v)))
            }
        } else {
            match AuxVarType::try_from_val(k) {
                Ok(_) => {
                    self.pos = self.pos + 16;
                    Some(Ok(AuxVarRaw::new(k, v)))
                },
                Err(_) => Some(Err(StackParseError::InvalidKey(k))),
            }
        }
    }
}

/// Resolving a stored pointer to the NUL-terminated string it references
/// inside the buffer: the pointer must point into the buffer (relative to
/// `base`), and a NUL byte must follow. The result includes the
/// terminating NUL byte.
pub open spec fn spec_resolve_cstr(b: Seq<u8>, base: int, ptr: u64) -> Result<
    Seq<u8>,
    StackParseError,
> {
    let idx = ptr - base;
    if ptr < base || idx >= b.len() {
        Err(StackParseError::BadPointer(ptr))
    } else if !spec_has_null(b, idx) {
        Err(StackParseError::Unterminated(ptr))
    } else {
        Ok(b.subrange(idx, spec_null_index(b, idx) + 1))
    }
}

/// What one step of resolving string iteration yields at slot `pos`.
pub open spec fn spec_cstr_step(b: Seq<u8>, base: int, pos: int) -> Option<
    Result<Seq<u8>, StackParseError>,
> {
    if pos + 8 > b.len() {
        Some(Err(StackParseError::Truncated))
    } else {
        let w = word_at(b, pos);
        if w == 0 {
            None
        } else {
            Some(spec_resolve_cstr(b, base, w))
        }
    }
}

/// Iterator over the NUL-terminated strings referenced by a
/// null-terminated array of pointer slots, resolved inside the buffer
/// relative to `base`.
#[derive(Debug, Clone, Copy)]
pub struct CStrArrayIter<'a> {
    /// The whole layout buffer.
    pub bytes: &'a [u8],
    /// The address, in the stored pointers' address space, of the buffer's
    /// first byte.
    pub base: u64,
    /// Byte offset of the next slot.
    pub pos: usize,
}

impl<'a> CStrArrayIter<'a> {
    /// Yields the next referenced string (the terminating NUL byte
    /// included), `None` at the terminating null slot, or the hard failure
    /// the slot shows: truncation, a pointer outside the buffer, or a
    /// string that never ends.
    pub fn next(&mut self) -> (r: Option<Result<&'a [u8], StackParseError>>)
        ensures
            final(self).bytes@ == old(self).bytes@,
            final(self).base == old(self).base,
            ({
                let step = spec_cstr_step(
                    old(self).bytes@,
                    old(self).base as int,
                    old(self).pos as int,
                );
                match step {
                    None => r is None && final(self).pos == old(self).pos,
                    Some(s) => match s {
                        Ok(pl) => (r matches Some(Ok(sl)) && sl@ == pl) && final(self).pos == old(self).pos + 8,
                        Err(e) => (r matches Some(Err(e2)) && e2 == e) && final(self).pos == old(self).pos,
                    },
                }
            }),
    {
        let n = self.bytes.len();
        if n < 8 || self.pos > n - 8 {
            return Some(Err(StackParseError::Truncated));
        }
        let w = read_word(self.bytes, self.pos);
        if w == 0 {
            return None;
        }
        if w < self.base {
            return Some(Err(StackParseError::BadPointer(w)));
        }
        let off = w - self.base;
        if off >= n as u64 {
            return Some(Err(StackParseError::BadPointer(w)));
        }
        let idx = off as usize;
        match crate::util::find_null_from(self.bytes, idx) {
            None => Some(Err(StackParseError::Unterminated(w))),
            Some(ni) => {
                let s = &self.bytes[idx..ni + 1];
                self.pos = self.pos + 8;
                Some(Ok(s))
            },
        }
    }
}

/// Resolving one auxiliary entry `(key code k, value word v)` into its
/// rich view: immediates are taken as they stand (canonicalized), a
/// data-area value is resolved inside the buffer relative to `base` — a
/// NUL-terminated string for the C-string keys, exactly 16 bytes for the
/// random-bytes key.
pub open spec fn spec_resolve_aux(b: Seq<u8>, base: int, k: u64, v: u64) -> Result<
    AuxVarView,
    StackParseError,
>
    recommends
        spec_is_valid_code(k),
{
    let t = spec_type_of_code(k);
    if !spec_in_data_area(t) {
        Ok(AuxVarView { key: t, imm: spec_canonical_imm(t, v), payload: Seq::empty() })
    } else {
        let idx = v - base;
        if v < base || idx >= b.len() {
            Err(StackParseError::BadPointer(v))
        } else if spec_is_cstr(t) {
            if !spec_has_null(b, idx) {
                Err(StackParseError::Unterminated(v))
            } else {
                Ok(
                    AuxVarView {
                        key: t,
                        imm: 0,
                        payload: b.subrange(idx, spec_null_index(b, idx) + 1),
                    },
                )
            }
        } else {
            if idx + 16 > b.len() {
                Err(StackParseError::Truncated)
            } else {
                Ok(AuxVarView { key: t, imm: 0, payload: b.subrange(idx, idx + 16) })
            }
        }
    }
}

/// What one step of resolving auxiliary iteration yields at entry `pos`.
pub open spec fn spec_aux_step(b: Seq<u8>, base: int, pos: int) -> Option<
    Result<AuxVarView, StackParseError>,
> {
    if pos + 16 > b.len() {
        Some(Err(StackParseError::Truncated))
    } else {
        let k = word_at(b, pos);
        let v = word_at(b, pos + 8);
        if k == 0 {
            if v == 0 {
                None
            } else {
                Some(Err(StackParseError::BadEndMarker(v)))
            }
        } else if !spec_is_valid_code(k) {
            Some(Err(StackParseError::InvalidKey(k)))
        } else {
            Some(spec_resolve_aux(b, base, k, v))
        }
    }
}

/// Iterator over the auxiliary vector's rich entries: each data-area value
/// is resolved to the referenced payload inside the buffer, relative to
/// `base`.
#[derive(Debug, Clone, Copy)]
pub struct AuxVarIter<'a> {
    /// The whole layout buffer.
    pub bytes: &'a [u8],
    /// The address, in the stored pointers' address space, of the buffer's
    /// first byte.
    pub base: u64,
    /// Byte offset of the next entry.
    pub pos: usize,
}

impl<'a> AuxVarIter<'a> {
    /// Yields the next entry as a rich [`AuxVar`], `None` at a proper end
    /// marker, or the hard failure the entry shows.
    pub fn next(&mut self) -> (r: Option<Result<AuxVar, StackParseError>>)
        ensures
            final(self).bytes@ == old(self).bytes@,
            final(self).base == old(self).base,
            ({
                let step = spec_aux_step(
                    old(self).bytes@,
                    old(self).base as int,
                    old(self).pos as int,
                );
                match step {
                    None => r is None && final(self).pos == old(self).pos,
                    Some(s) => match s {
                        Ok(av) => (r matches Some(Ok(a)) && a@ == av) && final(self).pos == old(self).pos + 16,
                        Err(e) => (r matches Some(Err(e2)) && e2 == e) && final(self).pos == old(self).pos,
                    },
                }
            }),
    {
        let n = self.bytes.len();
        if n < 16 || self.pos > n - 16 {
            return Some(Err(StackParseError::Truncated));
        }
        let k = read_word(self.bytes, self.pos);
        let v = read_word(self.bytes, self.pos + 8);
        if k == 0 {
            if v == 0 {
                return None;
            }
            return Some(Err(StackParseError::BadEndMarker(v)));
        }
        let t = match AuxVarType::try_from_val(k) {
            Ok(t) => t,
            Err(_) => {
                return Some(Err(StackParseError::InvalidKey(k)));
            },
        };
        if !t.value_in_data_area() {
            let a = AuxVar::from_imm(t, v);
            self.pos = self.pos + 16;
            return Some(Ok(a));
        }
        if v < self.base {
            return Some(Err(StackParseError::BadPointer(v)));
        }
        let off = v - self.base;
        if off >= n as u64 {
            return Some(Err(StackParseError::BadPointer(v)));
        }
        let idx = off as usize;
        if t.value_is_cstr() {
            match crate::util::find_null_from(self.bytes, idx) {
                None => Some(Err(StackParseError::Unterminated(v))),
                Some(ni) => {
                    let payload = crate::words::copy_range(self.bytes, idx, ni + 1);
                    let a = AuxVar::from_data(t, payload);
                    self.pos = self.pos + 16;
                    Some(Ok(a))
                },
            }
        } else {
            if idx > n - 16 {
                return Some(Err(StackParseError::Truncated));
            }
            let payload = crate::words::copy_range(self.bytes, idx, idx + 16);
            let a = AuxVar::from_data(t, payload);
            self.pos = self.pos + 16;
            Some(Ok(a))
        }
    }
}

/// A terminated run of slots ends within the buffer: its count and the
/// terminating null slot stay in bounds.
pub proof fn lemma_count_slots_bounded(b: Seq<u8>, start: int)
    requires
        slots_terminated(b, start),
    ensures
        0 <= count_slots(b, start),
        start + 8 * count_slots(b, start) + 8 <= b.len(),
    decreases b.len() - start,
{
    if word_at(b, start) != 0 {
        lemma_count_slots_bounded(b, start + 8);
    }
}

} // verus!
