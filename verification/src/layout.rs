//! The mathematical model of the serialized stack layout: the logical
//! content, the byte offset of every region, and the exact byte sequence
//! that serialization produces for a given target base address.
//!
//! The regions stand in this order, low to high:
//! `argc`, argv pointer slots (null-terminated), envv pointer slots
//! (null-terminated), auxv entries (terminated by the end marker), padding
//! to a 16-byte boundary, the auxv data area, padding to a 16-byte boundary,
//! the argv data area, the envv data area, the dedicated filename slot (the
//! payload of an `ExecFn` entry, placed at the very end of the structure
//! rather than in the generic auxv data area, mirroring the reference
//! kernel's placement), and the final sentinel word.

use vstd::prelude::*;
use crate::typ::AuxVarType;
use crate::typ::spec_val;
use crate::typ::spec_key_lt;
use crate::typ::spec_in_data_area;
use crate::aux_var::AuxVarView;
use crate::aux_var::spec_view_wf;
use crate::cstr_util::spec_cstr_wf;
use crate::words::le_bytes;

verus! {

/// The logical content of a stack layout: the argument strings, the
/// environment strings, and the auxiliary vector entries (the end marker
/// excluded; it is implicit and always serialized last).
pub ghost struct LayoutContent {
    /// Argument strings, each a normalized C-string, in argv order.
    pub args: Seq<Seq<u8>>,
    /// Environment strings, each a normalized C-string, in envv order.
    pub envs: Seq<Seq<u8>>,
    /// Auxiliary vector entries, strictly ordered by the builder's key
    /// order, without the end marker.
    pub auxs: Seq<AuxVarView>,
}

/// Well-formed content: every string is a normalized C-string, and the
/// auxiliary entries are strictly ordered (hence unique) by the builder's
/// key order, well formed, and without an explicit end marker.
pub open spec fn content_wf(c: LayoutContent) -> bool {
    &&& forall|i: int| 0 <= i < c.args.len() ==> spec_cstr_wf(#[trigger] c.args[i])
    &&& forall|i: int| 0 <= i < c.envs.len() ==> spec_cstr_wf(#[trigger] c.envs[i])
    &&& forall|i: int, j: int|
        0 <= i < j < c.auxs.len() ==> spec_key_lt(
            (#[trigger] c.auxs[i]).key,
            (#[trigger] c.auxs[j]).key,
        )
    &&& forall|i: int| 0 <= i < c.auxs.len() ==> (#[trigger] c.auxs[i]).key != AuxVarType::Null
    &&& forall|i: int| 0 <= i < c.auxs.len() ==> spec_view_wf(#[trigger] c.auxs[i])
}

/// The number of payload bytes an entry contributes to the generic auxv
/// data area: data-area entries except the specially placed `ExecFn`.
pub open spec fn dlen(v: AuxVarView) -> int {
    if spec_in_data_area(v.key) && v.key != AuxVarType::ExecFn {
        v.payload.len() as int
    } else {
        0
    }
}

/// Total byte length of the first `k` strings.
pub open spec fn prefix_len(strs: Seq<Seq<u8>>, k: int) -> int
    decreases k,
{
    if k <= 0 {
        0
    } else {
        prefix_len(strs, k - 1) + strs[k - 1].len()
    }
}

/// Bytes the first `k` entries contribute to the auxv data area.
pub open spec fn dlen_prefix(auxs: Seq<AuxVarView>, k: int) -> int
    decreases k,
{
    if k <= 0 {
        0
    } else {
        dlen_prefix(auxs, k - 1) + dlen(auxs[k - 1])
    }
}

/// Bytes the first `k` entries contribute to the filename slot: the
/// `ExecFn` payload, if one stands among them.
pub open spec fn fname_prefix(auxs: Seq<AuxVarView>, k: int) -> Seq<u8>
    decreases k,
{
    if k <= 0 {
        Seq::empty()
    } else {
        fname_prefix(auxs, k - 1) + (if auxs[k - 1].key == AuxVarType::ExecFn {
            auxs[k - 1].payload
        } else {
            Seq::empty()
        })
    }
}

/// Rounds `x` up to the next multiple of 16.
pub open spec fn round16(x: int) -> int {
    if x % 16 == 0 {
        x
    } else {
        x + 16 - x % 16
    }
}

/// Offset of the argv pointer slots: only `argc` stands before them.
pub open spec fn off_argv_keys(c: LayoutContent) -> int {
    8
}

/// Offset of the envv pointer slots.
pub open spec fn off_envv_keys(c: LayoutContent) -> int {
    off_argv_keys(c) + 8 * (c.args.len() + 1)
}

/// Offset of the auxv entry array.
pub open spec fn off_auxv_keys(c: LayoutContent) -> int {
    off_envv_keys(c) + 8 * (c.envs.len() + 1)
}

/// Offset of the auxv data area: past the entries (end marker included),
/// rounded up to a 16-byte boundary.
pub open spec fn off_auxv_data(c: LayoutContent) -> int {
    round16(off_auxv_keys(c) + 16 * (c.auxs.len() + 1))
}

/// Offset of the argv data area: past the auxv data, rounded up to a
/// 16-byte boundary.
pub open spec fn off_argv_data(c: LayoutContent) -> int {
    round16(off_auxv_data(c) + dlen_prefix(c.auxs, c.auxs.len() as int))
}

/// Offset of the envv data area.
pub open spec fn off_envv_data(c: LayoutContent) -> int {
    off_argv_data(c) + prefix_len(c.args, c.args.len() as int)
}

/// Offset of the dedicated filename slot.
pub open spec fn off_filename(c: LayoutContent) -> int {
    off_envv_data(c) + prefix_len(c.envs, c.envs.len() as int)
}

/// Offset of the final sentinel word.
pub open spec fn off_final_null(c: LayoutContent) -> int {
    off_filename(c) + fname_prefix(c.auxs, c.auxs.len() as int).len()
}

/// Total size of the serialized layout.
pub open spec fn total_size(c: LayoutContent) -> int {
    off_final_null(c) + 8
}

/// The address stored in pointer slot `j` of a string array whose data area
/// begins at target address `data_addr`.
pub open spec fn slot_val(strs: Seq<Seq<u8>>, j: int, data_addr: int) -> int {
    data_addr + prefix_len(strs, j)
}

/// The pointer slots for the first `k` strings.
pub open spec fn slots_prefix(strs: Seq<Seq<u8>>, k: int, data_addr: int) -> Seq<u8>
    decreases k,
{
    if k <= 0 {
        Seq::empty()
    } else {
        slots_prefix(strs, k - 1, data_addr) + le_bytes(slot_val(strs, k - 1, data_addr) as u64)
    }
}

/// The concatenation of the first `k` strings: the data area they form.
pub open spec fn concat_prefix(strs: Seq<Seq<u8>>, k: int) -> Seq<u8>
    decreases k,
{
    if k <= 0 {
        Seq::empty()
    } else {
        concat_prefix(strs, k - 1) + strs[k - 1]
    }
}

/// The value word of auxv entry `j`: its immediate, or the target address
/// of its payload (inside the auxv data area, or the filename slot for
/// `ExecFn`).
pub open spec fn entry_val(c: LayoutContent, j: int, base: int) -> int {
    let v = c.auxs[j];
    if !spec_in_data_area(v.key) {
        v.imm as int
    } else if v.key == AuxVarType::ExecFn {
        base + off_filename(c)
    } else {
        base + off_auxv_data(c) + dlen_prefix(c.auxs, j)
    }
}

/// The serialized first `k` auxv entries.
pub open spec fn entries_prefix(c: LayoutContent, k: int, base: int) -> Seq<u8>
    decreases k,
{
    if k <= 0 {
        Seq::empty()
    } else {
        entries_prefix(c, k - 1, base) + le_bytes(spec_val(c.auxs[k - 1].key) as u64) + le_bytes(
            entry_val(c, k - 1, base) as u64,
        )
    }
}

/// The generic auxv data area: the payloads of the first `k` entries that
/// live there, in entry order.
pub open spec fn data_prefix(auxs: Seq<AuxVarView>, k: int) -> Seq<u8>
    decreases k,
{
    if k <= 0 {
        Seq::empty()
    } else {
        data_prefix(auxs, k - 1) + (if spec_in_data_area(auxs[k - 1].key) && auxs[k - 1].key
            != AuxVarType::ExecFn {
            auxs[k - 1].payload
        } else {
            Seq::empty()
        })
    }
}

/// A run of `n` zero bytes.
pub open spec fn zeros(n: int) -> Seq<u8> {
    Seq::new(n as nat, |i: int| 0u8)
}

/// The exact byte sequence of the layout for content `c`, with every
/// pointer expressed in the target address space that starts at `base`.
pub open spec fn layout(c: LayoutContent, base: int) -> Seq<u8> {
    le_bytes(c.args.len() as u64) + slots_prefix(
        c.args,
        c.args.len() as int,
        base + off_argv_data(c),
    ) + le_bytes(0) + slots_prefix(c.envs, c.envs.len() as int, base + off_envv_data(c))
        + le_bytes(0) + entries_prefix(c, c.auxs.len() as int, base) + le_bytes(0) + le_bytes(0)
        + zeros(off_auxv_data(c) - (off_auxv_keys(c) + 16 * (c.auxs.len() + 1))) + data_prefix(
        c.auxs,
        c.auxs.len() as int,
    ) + zeros(off_argv_data(c) - (off_auxv_data(c) + dlen_prefix(c.auxs, c.auxs.len() as int)))
        + concat_prefix(c.args, c.args.len() as int) + concat_prefix(c.envs, c.envs.len() as int)
        + fname_prefix(c.auxs, c.auxs.len() as int) + le_bytes(0)
}

/// Prefix sums of string lengths are non-negative.
pub proof fn lemma_prefix_len_nonneg(strs: Seq<Seq<u8>>, k: int)
    ensures
        0 <= prefix_len(strs, k),
    decreases k,
{
    if k > 0 {
        lemma_prefix_len_nonneg(strs, k - 1);
    }
}

/// Prefix sums of string lengths are non-negative and non-decreasing.
pub proof fn lemma_prefix_len_mono(strs: Seq<Seq<u8>>, j: int, k: int)
    requires
        0 <= j <= k,
    ensures
        0 <= prefix_len(strs, j) <= prefix_len(strs, k),
    decreases k - j,
{
    lemma_prefix_len_nonneg(strs, j);
    if j < k {
        lemma_prefix_len_mono(strs, j + 1, k);
    }
}

/// Prefix sums of data-area lengths are non-negative.
pub proof fn lemma_dlen_prefix_nonneg(auxs: Seq<AuxVarView>, k: int)
    ensures
        0 <= dlen_prefix(auxs, k),
    decreases k,
{
    if k > 0 {
        lemma_dlen_prefix_nonneg(auxs, k - 1);
    }
}

/// Prefix sums of data-area lengths are non-negative and non-decreasing.
pub proof fn lemma_dlen_prefix_mono(auxs: Seq<AuxVarView>, j: int, k: int)
    requires
        0 <= j <= k,
    ensures
        0 <= dlen_prefix(auxs, j) <= dlen_prefix(auxs, k),
    decreases k - j,
{
    lemma_dlen_prefix_nonneg(auxs, j);
    if j < k {
        lemma_dlen_prefix_mono(auxs, j + 1, k);
    }
}

/// The length of each region of the layout.
pub proof fn lemma_region_lens(c: LayoutContent, base: int)
    ensures
        slots_prefix(c.args, c.args.len() as int, base + off_argv_data(c)).len() == 8 * c.args.len(),
        slots_prefix(c.envs, c.envs.len() as int, base + off_envv_data(c)).len() == 8 * c.envs.len(),
        entries_prefix(c, c.auxs.len() as int, base).len() == 16 * c.auxs.len(),
        data_prefix(c.auxs, c.auxs.len() as int).len() == dlen_prefix(c.auxs, c.auxs.len() as int),
        concat_prefix(c.args, c.args.len() as int).len() == prefix_len(c.args, c.args.len() as int),
        concat_prefix(c.envs, c.envs.len() as int).len() == prefix_len(c.envs, c.envs.len() as int),
{
    lemma_slots_prefix_len(c.args, c.args.len() as int, base + off_argv_data(c));
    lemma_slots_prefix_len(c.envs, c.envs.len() as int, base + off_envv_data(c));
    lemma_entries_prefix_len(c, c.auxs.len() as int, base);
    lemma_data_prefix_len(c.auxs, c.auxs.len() as int);
    lemma_concat_prefix_len(c.args, c.args.len() as int);
    lemma_concat_prefix_len(c.envs, c.envs.len() as int);
}

/// `slots_prefix` holds eight bytes per slot.
pub proof fn lemma_slots_prefix_len(strs: Seq<Seq<u8>>, k: int, data_addr: int)
    requires
        0 <= k,
    ensures
        slots_prefix(strs, k, data_addr).len() == 8 * k,
    decreases k,
{
    if k > 0 {
        lemma_slots_prefix_len(strs, k - 1, data_addr);
    }
}

/// `entries_prefix` holds sixteen bytes per entry.
pub proof fn lemma_entries_prefix_len(c: LayoutContent, k: int, base: int)
    requires
        0 <= k,
    ensures
        entries_prefix(c, k, base).len() == 16 * k,
    decreases k,
{
    if k > 0 {
        lemma_entries_prefix_len(c, k - 1, base);
    }
}

/// `data_prefix` is as long as the data-area contribution of its entries.
pub proof fn lemma_data_prefix_len(auxs: Seq<AuxVarView>, k: int)
    requires
        0 <= k,
    ensures
        data_prefix(auxs, k).len() == dlen_prefix(auxs, k),
    decreases k,
{
    if k > 0 {
        lemma_data_prefix_len(auxs, k - 1);
    }
}

/// `concat_prefix` is as long as the strings it joins.
pub proof fn lemma_concat_prefix_len(strs: Seq<Seq<u8>>, k: int)
    requires
        0 <= k,
    ensures
        concat_prefix(strs, k).len() == prefix_len(strs, k),
    decreases k,
{
    if k > 0 {
        lemma_concat_prefix_len(strs, k - 1);
    }
}

/// The filename slot is empty or exactly one entry's payload.
pub proof fn lemma_fname_prefix_len(auxs: Seq<AuxVarView>, k: int)
    requires
        0 <= k,
    ensures
        fname_prefix(auxs, k).len() >= 0,
    decreases k,
{
}

/// The offsets are ordered: each region begins no earlier than the one
/// before it ends, and the layout is exactly `total_size` bytes long.
pub proof fn lemma_offsets_ordered(c: LayoutContent)
    ensures
        8 <= off_envv_keys(c) < off_auxv_keys(c) < off_auxv_keys(c) + 16 * (c.auxs.len() + 1)
            <= off_auxv_data(c),
        off_auxv_data(c) + dlen_prefix(c.auxs, c.auxs.len() as int) <= off_argv_data(c),
        off_argv_data(c) <= off_envv_data(c) <= off_filename(c) <= off_final_null(c),
        off_auxv_data(c) % 16 == 0,
        off_argv_data(c) % 16 == 0,
{
    lemma_prefix_len_mono(c.args, 0, c.args.len() as int);
    lemma_prefix_len_mono(c.envs, 0, c.envs.len() as int);
    lemma_dlen_prefix_mono(c.auxs, 0, c.auxs.len() as int);
    lemma_fname_prefix_len(c.auxs, c.auxs.len() as int);
}

/// Slot `j` of a run of `k` pointer slots holds the address of string `j`.
pub proof fn lemma_slots_prefix_index(strs: Seq<Seq<u8>>, k: int, j: int, data_addr: int)
    requires
        0 <= j < k,
    ensures
        slots_prefix(strs, k, data_addr).subrange(8 * j, 8 * j + 8) == le_bytes(
            slot_val(strs, j, data_addr) as u64,
        ),
    decreases k,
{
    lemma_slots_prefix_len(strs, k, data_addr);
    lemma_slots_prefix_len(strs, k - 1, data_addr);
    if j == k - 1 {
        assert(slots_prefix(strs, k, data_addr).subrange(8 * j, 8 * j + 8) =~= le_bytes(
            slot_val(strs, j, data_addr) as u64,
        ));
    } else {
        lemma_slots_prefix_index(strs, k - 1, j, data_addr);
        assert(slots_prefix(strs, k, data_addr).subrange(8 * j, 8 * j + 8) =~= slots_prefix(
            strs,
            k - 1,
            data_addr,
        ).subrange(8 * j, 8 * j + 8));
    }
}

/// Entry `j` of the serialized first `k` entries holds its key code and its
/// value word.
pub proof fn lemma_entries_prefix_index(c: LayoutContent, k: int, j: int, base: int)
    requires
        0 <= j < k,
    ensures
        entries_prefix(c, k, base).subrange(16 * j, 16 * j + 8) == le_bytes(
            spec_val(c.auxs[j].key) as u64,
        ),
        entries_prefix(c, k, base).subrange(16 * j + 8, 16 * j + 16) == le_bytes(
            entry_val(c, j, base) as u64,
        ),
    decreases k,
{
    lemma_entries_prefix_len(c, k, base);
    lemma_entries_prefix_len(c, k - 1, base);
    if j == k - 1 {
        assert(entries_prefix(c, k, base).subrange(16 * j, 16 * j + 8) =~= le_bytes(
            spec_val(c.auxs[j].key) as u64,
        ));
        assert(entries_prefix(c, k, base).subrange(16 * j + 8, 16 * j + 16) =~= le_bytes(
            entry_val(c, j, base) as u64,
        ));
    } else {
        lemma_entries_prefix_index(c, k - 1, j, base);
        assert(entries_prefix(c, k, base).subrange(16 * j, 16 * j + 8) =~= entries_prefix(
            c,
            k - 1,
            base,
        ).subrange(16 * j, 16 * j + 8));
        assert(entries_prefix(c, k, base).subrange(16 * j + 8, 16 * j + 16) =~= entries_prefix(
            c,
            k - 1,
            base,
        ).subrange(16 * j + 8, 16 * j + 16));
    }
}

/// String `j` stands at its prefix-sum offset inside the joined data area.
pub proof fn lemma_concat_prefix_index(strs: Seq<Seq<u8>>, k: int, j: int)
    requires
        0 <= j < k,
    ensures
        concat_prefix(strs, k).subrange(
            prefix_len(strs, j),
            prefix_len(strs, j) + strs[j].len(),
        ) == strs[j],
    decreases k,
{
    lemma_concat_prefix_len(strs, k);
    lemma_concat_prefix_len(strs, k - 1);
    lemma_prefix_len_mono(strs, j, k - 1);
    lemma_prefix_len_mono(strs, 0, j);
    if j == k - 1 {
        assert(concat_prefix(strs, k).subrange(
            prefix_len(strs, j),
            prefix_len(strs, j) + strs[j].len(),
        ) =~= strs[j]);
    } else {
        lemma_concat_prefix_index(strs, k - 1, j);
        lemma_prefix_len_mono(strs, j + 1, k - 1);
        assert(concat_prefix(strs, k).subrange(
            prefix_len(strs, j),
            prefix_len(strs, j) + strs[j].len(),
        ) =~= concat_prefix(strs, k - 1).subrange(
            prefix_len(strs, j),
            prefix_len(strs, j) + strs[j].len(),
        ));
    }
}

/// The payload of data-area entry `j` stands at its prefix-sum offset
/// inside the auxv data area.
pub proof fn lemma_data_prefix_index(auxs: Seq<AuxVarView>, k: int, j: int)
    requires
        0 <= j < k,
        spec_in_data_area(auxs[j].key),
        auxs[j].key != AuxVarType::ExecFn,
    ensures
        data_prefix(auxs, k).subrange(
            dlen_prefix(auxs, j),
            dlen_prefix(auxs, j) + auxs[j].payload.len(),
        ) == auxs[j].payload,
    decreases k,
{
    lemma_data_prefix_len(auxs, k);
    lemma_data_prefix_len(auxs, k - 1);
    lemma_dlen_prefix_mono(auxs, j, k - 1);
    lemma_dlen_prefix_mono(auxs, 0, j);
    if j == k - 1 {
        assert(data_prefix(auxs, k).subrange(
            dlen_prefix(auxs, j),
            dlen_prefix(auxs, j) + auxs[j].payload.len(),
        ) =~= auxs[j].payload);
    } else {
        lemma_data_prefix_index(auxs, k - 1, j);
        lemma_dlen_prefix_mono(auxs, j + 1, k - 1);
        assert(data_prefix(auxs, k).subrange(
            dlen_prefix(auxs, j),
            dlen_prefix(auxs, j) + auxs[j].payload.len(),
        ) =~= data_prefix(auxs, k - 1).subrange(
            dlen_prefix(auxs, j),
            dlen_prefix(auxs, j) + auxs[j].payload.len(),
        ));
    }
}

/// When entry `e` is the only one keyed `ExecFn`, the filename slot holds
/// exactly its payload.
pub proof fn lemma_fname_unique(auxs: Seq<AuxVarView>, k: int, e: int)
    requires
        0 <= e < k,
        auxs[e].key == AuxVarType::ExecFn,
        forall|j: int| 0 <= j < k && j != e ==> (#[trigger] auxs[j]).key != AuxVarType::ExecFn,
    ensures
        fname_prefix(auxs, k) == auxs[e].payload,
    decreases k,
{
    if e == k - 1 {
        lemma_fname_none(auxs, k - 1);
        assert(fname_prefix(auxs, k) =~= auxs[e].payload);
    } else {
        lemma_fname_unique(auxs, k - 1, e);
        assert(fname_prefix(auxs, k) =~= auxs[e].payload);
    }
}

/// When no entry among the first `k` is keyed `ExecFn`, the filename slot
/// is empty.
pub proof fn lemma_fname_none(auxs: Seq<AuxVarView>, k: int)
    requires
        forall|j: int| 0 <= j < k ==> (#[trigger] auxs[j]).key != AuxVarType::ExecFn,
    ensures
        fname_prefix(auxs, k) == Seq::<u8>::empty(),
    decreases k,
{
    if k > 0 {
        lemma_fname_none(auxs, k - 1);
    }
    assert(fname_prefix(auxs, k) =~= Seq::<u8>::empty());
}

/// Every region size and offset is bounded by the total size.
pub proof fn lemma_total_bounds(c: LayoutContent)
    ensures
        8 + 8 * (c.args.len() + 1) <= total_size(c),
        8 * (c.envs.len() + 1) <= total_size(c),
        16 * (c.auxs.len() + 1) <= total_size(c),
        0 <= prefix_len(c.args, c.args.len() as int) <= total_size(c),
        0 <= prefix_len(c.envs, c.envs.len() as int) <= total_size(c),
        0 <= dlen_prefix(c.auxs, c.auxs.len() as int) <= total_size(c),
        0 <= fname_prefix(c.auxs, c.auxs.len() as int).len() <= total_size(c),
        8 <= off_envv_keys(c) <= off_auxv_keys(c) <= off_auxv_data(c) <= off_argv_data(c)
            <= off_envv_data(c) <= off_filename(c) <= off_final_null(c) < total_size(c),
        off_auxv_keys(c) + 16 * (c.auxs.len() + 1) <= off_auxv_data(c),
        off_auxv_data(c) + dlen_prefix(c.auxs, c.auxs.len() as int) <= off_argv_data(c),
{
    lemma_offsets_ordered(c);
    lemma_prefix_len_nonneg(c.args, c.args.len() as int);
    lemma_prefix_len_nonneg(c.envs, c.envs.len() as int);
    lemma_dlen_prefix_nonneg(c.auxs, c.auxs.len() as int);
}

/// The serialized layout is exactly `total_size(c)` bytes long.
pub proof fn lemma_layout_len(c: LayoutContent, base: int)
    ensures
        layout(c, base).len() == total_size(c),
{
    lemma_region_lens(c, base);
    lemma_offsets_ordered(c);
}

} // verus!
