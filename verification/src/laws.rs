//! The laws of the codec: what the serialized bytes hold at every word and
//! region, and that parsing a serialized layout yields back exactly the
//! content it was built from.

use vstd::prelude::*;
use crate::typ::AuxVarType;
use crate::typ::spec_val;
use crate::typ::spec_in_data_area;
use crate::typ::lemma_codes_injective;
use crate::layout::LayoutContent;
use crate::layout::content_wf;
use crate::layout::layout;
use crate::layout::total_size;
use crate::layout::off_envv_keys;
use crate::layout::off_auxv_keys;
use crate::layout::off_auxv_data;
use crate::layout::off_argv_data;
use crate::layout::off_envv_data;
use crate::layout::off_filename;
use crate::layout::off_final_null;
use crate::layout::prefix_len;
use crate::layout::dlen_prefix;
use crate::layout::entry_val;
use crate::layout::slot_val;
use crate::layout::slots_prefix;
use crate::layout::entries_prefix;
use crate::layout::concat_prefix;
use crate::layout::data_prefix;
use crate::layout::fname_prefix;
use crate::layout::lemma_region_lens;
use crate::layout::lemma_total_bounds;
use crate::layout::lemma_layout_len;
use crate::layout::lemma_prefix_len_mono;
use crate::layout::lemma_dlen_prefix_mono;
use crate::layout::lemma_slots_prefix_index;
use crate::layout::lemma_entries_prefix_index;
use crate::layout::lemma_concat_prefix_index;
use crate::layout::lemma_data_prefix_index;
use crate::words::le_bytes;
use crate::words::word_at;
use crate::words::lemma_word_value;

verus! {

/// Each region of the serialized layout, recovered as the subrange at its
/// computed offset.
#[verifier::rlimit(100)]
#[verifier::spinoff_prover]
pub proof fn lemma_layout_regions(c: LayoutContent, base: int)
    ensures
        ({
            let l = layout(c, base);
            let na = c.args.len() as int;
            let ne = c.envs.len() as int;
            let nx = c.auxs.len() as int;
            &&& l.len() == total_size(c)
            &&& l.subrange(0, 8) == le_bytes(c.args.len() as u64)
            &&& l.subrange(8, 8 + 8 * na) == slots_prefix(c.args, na, base + off_argv_data(c))
            &&& l.subrange(8 + 8 * na, 8 + 8 * na + 8) == le_bytes(0)
            &&& l.subrange(off_envv_keys(c), off_envv_keys(c) + 8 * ne) == slots_prefix(
                c.envs,
                ne,
                base + off_envv_data(c),
            )
            &&& l.subrange(off_envv_keys(c) + 8 * ne, off_envv_keys(c) + 8 * ne + 8) == le_bytes(0)
            &&& l.subrange(off_auxv_keys(c), off_auxv_keys(c) + 16 * nx) == entries_prefix(
                c,
                nx,
                base,
            )
            &&& l.subrange(off_auxv_keys(c) + 16 * nx, off_auxv_keys(c) + 16 * nx + 8) == le_bytes(
                0,
            )
            &&& l.subrange(off_auxv_keys(c) + 16 * nx + 8, off_auxv_keys(c) + 16 * nx + 16)
                == le_bytes(0)
            &&& l.subrange(
                off_auxv_data(c),
                off_auxv_data(c) + dlen_prefix(c.auxs, nx),
            ) == data_prefix(c.auxs, nx)
            &&& l.subrange(off_argv_data(c), off_argv_data(c) + prefix_len(c.args, na))
                == concat_prefix(c.args, na)
            &&& l.subrange(off_envv_data(c), off_envv_data(c) + prefix_len(c.envs, ne))
                == concat_prefix(c.envs, ne)
            &&& l.subrange(off_filename(c), off_final_null(c)) == fname_prefix(c.auxs, nx)
            &&& l.subrange(off_final_null(c), off_final_null(c) + 8) == le_bytes(0)
        }),
{
    let l = layout(c, base);
    let na = c.args.len() as int;
    let ne = c.envs.len() as int;
    let nx = c.auxs.len() as int;
    lemma_total_bounds(c);
    lemma_region_lens(c, base);
    lemma_layout_len(c, base);

    let r1 = le_bytes(c.args.len() as u64);
    let r2 = slots_prefix(c.args, na, base + off_argv_data(c));
    let r3 = le_bytes(0);
    let r4 = slots_prefix(c.envs, ne, base + off_envv_data(c));
    let r5 = le_bytes(0);
    let r6 = entries_prefix(c, nx, base);
    let r7 = le_bytes(0);
    let r8 = le_bytes(0);
    let r9 = crate::layout::zeros(off_auxv_data(c) - (off_auxv_keys(c) + 16 * (nx + 1)));
    let r10 = data_prefix(c.auxs, nx);
    let r11 = crate::layout::zeros(off_argv_data(c) - (off_auxv_data(c) + dlen_prefix(c.auxs, nx)));
    let r12 = concat_prefix(c.args, na);
    let r13 = concat_prefix(c.envs, ne);
    let r14 = fname_prefix(c.auxs, nx);
    let r15 = le_bytes(0);

    let pre1 = r1;
    let pre2 = pre1 + r2;
    let pre3 = pre2 + r3;
    let pre4 = pre3 + r4;
    let pre5 = pre4 + r5;
    let pre6 = pre5 + r6;
    let pre7 = pre6 + r7;
    let pre8 = pre7 + r8;
    let pre9 = pre8 + r9;
    let pre10 = pre9 + r10;
    let pre11 = pre10 + r11;
    let pre12 = pre11 + r12;
    let pre13 = pre12 + r13;
    let pre14 = pre13 + r14;
    let pre15 = pre14 + r15;
    assert(l == pre15);

    assert(pre2.len() == 8 + 8 * na);
    assert(pre3.len() == off_envv_keys(c));
    assert(pre4.len() == off_envv_keys(c) + 8 * ne);
    assert(pre5.len() == off_auxv_keys(c));
    assert(pre6.len() == off_auxv_keys(c) + 16 * nx);
    assert(pre7.len() == off_auxv_keys(c) + 16 * nx + 8);
    assert(pre8.len() == off_auxv_keys(c) + 16 * nx + 16);
    assert(pre9.len() == off_auxv_data(c));
    assert(pre10.len() == off_auxv_data(c) + dlen_prefix(c.auxs, nx));
    assert(pre11.len() == off_argv_data(c));
    assert(pre12.len() == off_envv_data(c));
    assert(pre13.len() == off_filename(c));
    assert(pre14.len() == off_final_null(c));

    // the final sentinel word
    crate::words::lemma_sub_add_right(pre14, r15);

    // each earlier region: narrow to the prefix it ends, then peel it off
    crate::words::lemma_sub_add_left(pre14, r15, pre13.len() as int, pre14.len() as int);
    crate::words::lemma_sub_add_right(pre13, r14);

    crate::words::lemma_sub_add_left(pre14, r15, pre12.len() as int, pre13.len() as int);
    crate::words::lemma_sub_add_left(pre13, r14, pre12.len() as int, pre13.len() as int);
    crate::words::lemma_sub_add_right(pre12, r13);

    crate::words::lemma_sub_add_left(pre14, r15, pre11.len() as int, pre12.len() as int);
    crate::words::lemma_sub_add_left(pre13, r14, pre11.len() as int, pre12.len() as int);
    crate::words::lemma_sub_add_left(pre12, r13, pre11.len() as int, pre12.len() as int);
    crate::words::lemma_sub_add_right(pre11, r12);

    crate::words::lemma_sub_add_left(pre14, r15, pre9.len() as int, pre10.len() as int);
    crate::words::lemma_sub_add_left(pre13, r14, pre9.len() as int, pre10.len() as int);
    crate::words::lemma_sub_add_left(pre12, r13, pre9.len() as int, pre10.len() as int);
    crate::words::lemma_sub_add_left(pre11, r12, pre9.len() as int, pre10.len() as int);
    crate::words::lemma_sub_add_left(pre10, r11, pre9.len() as int, pre10.len() as int);
    crate::words::lemma_sub_add_right(pre9, r10);

    crate::words::lemma_sub_add_left(pre14, r15, pre7.len() as int, pre8.len() as int);
    crate::words::lemma_sub_add_left(pre13, r14, pre7.len() as int, pre8.len() as int);
    crate::words::lemma_sub_add_left(pre12, r13, pre7.len() as int, pre8.len() as int);
    crate::words::lemma_sub_add_left(pre11, r12, pre7.len() as int, pre8.len() as int);
    crate::words::lemma_sub_add_left(pre10, r11, pre7.len() as int, pre8.len() as int);
    crate::words::lemma_sub_add_left(pre9, r10, pre7.len() as int, pre8.len() as int);
    crate::words::lemma_sub_add_left(pre8, r9, pre7.len() as int, pre8.len() as int);
    crate::words::lemma_sub_add_right(pre7, r8);

    crate::words::lemma_sub_add_left(pre14, r15, pre6.len() as int, pre7.len() as int);
    crate::words::lemma_sub_add_left(pre13, r14, pre6.len() as int, pre7.len() as int);
    crate::words::lemma_sub_add_left(pre12, r13, pre6.len() as int, pre7.len() as int);
    crate::words::lemma_sub_add_left(pre11, r12, pre6.len() as int, pre7.len() as int);
    crate::words::lemma_sub_add_left(pre10, r11, pre6.len() as int, pre7.len() as int);
    crate::words::lemma_sub_add_left(pre9, r10, pre6.len() as int, pre7.len() as int);
    crate::words::lemma_sub_add_left(pre8, r9, pre6.len() as int, pre7.len() as int);
    crate::words::lemma_sub_add_left(pre7, r8, pre6.len() as int, pre7.len() as int);
    crate::words::lemma_sub_add_right(pre6, r7);

    crate::words::lemma_sub_add_left(pre14, r15, pre5.len() as int, pre6.len() as int);
    crate::words::lemma_sub_add_left(pre13, r14, pre5.len() as int, pre6.len() as int);
    crate::words::lemma_sub_add_left(pre12, r13, pre5.len() as int, pre6.len() as int);
    crate::words::lemma_sub_add_left(pre11, r12, pre5.len() as int, pre6.len() as int);
    crate::words::lemma_sub_add_left(pre10, r11, pre5.len() as int, pre6.len() as int);
    crate::words::lemma_sub_add_left(pre9, r10, pre5.len() as int, pre6.len() as int);
    crate::words::lemma_sub_add_left(pre8, r9, pre5.len() as int, pre6.len() as int);
    crate::words::lemma_sub_add_left(pre7, r8, pre5.len() as int, pre6.len() as int);
    crate::words::lemma_sub_add_left(pre6, r7, pre5.len() as int, pre6.len() as int);
    crate::words::lemma_sub_add_right(pre5, r6);

    crate::words::lemma_sub_add_left(pre14, r15, pre4.len() as int, pre5.len() as int);
    crate::words::lemma_sub_add_left(pre13, r14, pre4.len() as int, pre5.len() as int);
    crate::words::lemma_sub_add_left(pre12, r13, pre4.len() as int, pre5.len() as int);
    crate::words::lemma_sub_add_left(pre11, r12, pre4.len() as int, pre5.len() as int);
    crate::words::lemma_sub_add_left(pre10, r11, pre4.len() as int, pre5.len() as int);
    crate::words::lemma_sub_add_left(pre9, r10, pre4.len() as int, pre5.len() as int);
    crate::words::lemma_sub_add_left(pre8, r9, pre4.len() as int, pre5.len() as int);
    crate::words::lemma_sub_add_left(pre7, r8, pre4.len() as int, pre5.len() as int);
    crate::words::lemma_sub_add_left(pre6, r7, pre4.len() as int, pre5.len() as int);
    crate::words::lemma_sub_add_left(pre5, r6, pre4.len() as int, pre5.len() as int);
    crate::words::lemma_sub_add_right(pre4, r5);

    crate::words::lemma_sub_add_left(pre14, r15, pre3.len() as int, pre4.len() as int);
    crate::words::lemma_sub_add_left(pre13, r14, pre3.len() as int, pre4.len() as int);
    crate::words::lemma_sub_add_left(pre12, r13, pre3.len() as int, pre4.len() as int);
    crate::words::lemma_sub_add_left(pre11, r12, pre3.len() as int, pre4.len() as int);
    crate::words::lemma_sub_add_left(pre10, r11, pre3.len() as int, pre4.len() as int);
    crate::words::lemma_sub_add_left(pre9, r10, pre3.len() as int, pre4.len() as int);
    crate::words::lemma_sub_add_left(pre8, r9, pre3.len() as int, pre4.len() as int);
    crate::words::lemma_sub_add_left(pre7, r8, pre3.len() as int, pre4.len() as int);
    crate::words::lemma_sub_add_left(pre6, r7, pre3.len() as int, pre4.len() as int);
    crate::words::lemma_sub_add_left(pre5, r6, pre3.len() as int, pre4.len() as int);
    crate::words::lemma_sub_add_left(pre4, r5, pre3.len() as int, pre4.len() as int);
    crate::words::lemma_sub_add_right(pre3, r4);

    crate::words::lemma_sub_add_left(pre14, r15, pre2.len() as int, pre3.len() as int);
    crate::words::lemma_sub_add_left(pre13, r14, pre2.len() as int, pre3.len() as int);
    crate::words::lemma_sub_add_left(pre12, r13, pre2.len() as int, pre3.len() as int);
    crate::words::lemma_sub_add_left(pre11, r12, pre2.len() as int, pre3.len() as int);
    crate::words::lemma_sub_add_left(pre10, r11, pre2.len() as int, pre3.len() as int);
    crate::words::lemma_sub_add_left(pre9, r10, pre2.len() as int, pre3.len() as int);
    crate::words::lemma_sub_add_left(pre8, r9, pre2.len() as int, pre3.len() as int);
    crate::words::lemma_sub_add_left(pre7, r8, pre2.len() as int, pre3.len() as int);
    crate::words::lemma_sub_add_left(pre6, r7, pre2.len() as int, pre3.len() as int);
    crate::words::lemma_sub_add_left(pre5, r6, pre2.len() as int, pre3.len() as int);
    crate::words::lemma_sub_add_left(pre4, r5, pre2.len() as int, pre3.len() as int);
    crate::words::lemma_sub_add_left(pre3, r4, pre2.len() as int, pre3.len() as int);
    crate::words::lemma_sub_add_right(pre2, r3);

    crate::words::lemma_sub_add_left(pre14, r15, pre1.len() as int, pre2.len() as int);
    crate::words::lemma_sub_add_left(pre13, r14, pre1.len() as int, pre2.len() as int);
    crate::words::lemma_sub_add_left(pre12, r13, pre1.len() as int, pre2.len() as int);
    crate::words::lemma_sub_add_left(pre11, r12, pre1.len() as int, pre2.len() as int);
    crate::words::lemma_sub_add_left(pre10, r11, pre1.len() as int, pre2.len() as int);
    crate::words::lemma_sub_add_left(pre9, r10, pre1.len() as int, pre2.len() as int);
    crate::words::lemma_sub_add_left(pre8, r9, pre1.len() as int, pre2.len() as int);
    crate::words::lemma_sub_add_left(pre7, r8, pre1.len() as int, pre2.len() as int);
    crate::words::lemma_sub_add_left(pre6, r7, pre1.len() as int, pre2.len() as int);
    crate::words::lemma_sub_add_left(pre5, r6, pre1.len() as int, pre2.len() as int);
    crate::words::lemma_sub_add_left(pre4, r5, pre1.len() as int, pre2.len() as int);
    crate::words::lemma_sub_add_left(pre3, r4, pre1.len() as int, pre2.len() as int);
    crate::words::lemma_sub_add_left(pre2, r3, pre1.len() as int, pre2.len() as int);
    crate::words::lemma_sub_add_right(pre1, r2);

    crate::words::lemma_sub_add_left(pre14, r15, 0, pre1.len() as int);
    crate::words::lemma_sub_add_left(pre13, r14, 0, pre1.len() as int);
    crate::words::lemma_sub_add_left(pre12, r13, 0, pre1.len() as int);
    crate::words::lemma_sub_add_left(pre11, r12, 0, pre1.len() as int);
    crate::words::lemma_sub_add_left(pre10, r11, 0, pre1.len() as int);
    crate::words::lemma_sub_add_left(pre9, r10, 0, pre1.len() as int);
    crate::words::lemma_sub_add_left(pre8, r9, 0, pre1.len() as int);
    crate::words::lemma_sub_add_left(pre7, r8, 0, pre1.len() as int);
    crate::words::lemma_sub_add_left(pre6, r7, 0, pre1.len() as int);
    crate::words::lemma_sub_add_left(pre5, r6, 0, pre1.len() as int);
    crate::words::lemma_sub_add_left(pre4, r5, 0, pre1.len() as int);
    crate::words::lemma_sub_add_left(pre3, r4, 0, pre1.len() as int);
    crate::words::lemma_sub_add_left(pre2, r3, 0, pre1.len() as int);
    assert(pre2.subrange(0, pre1.len() as int) == pre1.subrange(0, pre1.len() as int)) by {
        crate::words::lemma_sub_add_left(pre1, r2, 0, pre1.len() as int);
    }
    assert(pre1.subrange(0, pre1.len() as int) =~= r1);
}

/// Every word and data region of the serialized layout, read back from the
/// bytes: `argc` at the front; each argv/envv slot holding the target
/// address of its string; each auxiliary entry holding its key code and its
/// value word; zero words terminating the three arrays — in particular the
/// auxiliary end marker's key *and value* are zero, whatever was inserted;
/// and every referenced payload standing at its computed offset.
#[verifier::rlimit(100)]
#[verifier::spinoff_prover]
pub proof fn lemma_layout_words(c: LayoutContent, base: int)
    requires
        total_size(c) <= usize::MAX,
        0 <= base,
        base + total_size(c) <= u64::MAX,
    ensures
        ({
            let l = layout(c, base);
            let na = c.args.len() as int;
            let ne = c.envs.len() as int;
            let nx = c.auxs.len() as int;
            &&& l.len() == total_size(c)
            &&& word_at(l, 0) == c.args.len()
            &&& forall|j: int|
                0 <= j < na ==> #[trigger] word_at(l, 8 + 8 * j) == base + off_argv_data(c)
                    + prefix_len(c.args, j)
            &&& word_at(l, 8 + 8 * na) == 0
            &&& forall|j: int|
                0 <= j < ne ==> #[trigger] word_at(l, off_envv_keys(c) + 8 * j) == base
                    + off_envv_data(c) + prefix_len(c.envs, j)
            &&& word_at(l, off_envv_keys(c) + 8 * ne) == 0
            &&& forall|e: int|
                0 <= e < nx ==> #[trigger] word_at(l, off_auxv_keys(c) + 16 * e) == spec_val(
                    c.auxs[e].key,
                )
            &&& forall|e: int|
                0 <= e < nx ==> #[trigger] word_at(l, off_auxv_keys(c) + 16 * e + 8) == entry_val(
                    c,
                    e,
                    base,
                )
            &&& word_at(l, off_auxv_keys(c) + 16 * nx) == 0
            &&& word_at(l, off_auxv_keys(c) + 16 * nx + 8) == 0
            &&& word_at(l, off_final_null(c)) == 0
        }),
{
    let l = layout(c, base);
    let na = c.args.len() as int;
    let ne = c.envs.len() as int;
    let nx = c.auxs.len() as int;
    lemma_total_bounds(c);
    lemma_region_lens(c, base);
    lemma_layout_regions(c, base);
    lemma_prefix_len_mono(c.args, 0, na);
    lemma_prefix_len_mono(c.envs, 0, ne);
    lemma_dlen_prefix_mono(c.auxs, 0, nx);

    let argv_a = base + off_argv_data(c);
    let envv_a = base + off_envv_data(c);
    let r_slots_a = slots_prefix(c.args, na, argv_a);
    let r_slots_e = slots_prefix(c.envs, ne, envv_a);
    let r_entries = entries_prefix(c, nx, base);

    lemma_word_value(l, 0, c.args.len() as u64);
    lemma_word_value(l, 8 + 8 * na, 0);
    lemma_word_value(l, off_envv_keys(c) + 8 * ne, 0);
    lemma_word_value(l, off_auxv_keys(c) + 16 * nx, 0);
    lemma_word_value(l, off_auxv_keys(c) + 16 * nx + 8, 0);
    lemma_word_value(l, off_final_null(c), 0);

    assert forall|j: int| 0 <= j < na implies #[trigger] word_at(l, 8 + 8 * j) == base
        + off_argv_data(c) + prefix_len(c.args, j) by {
        lemma_slots_prefix_index(c.args, na, j, argv_a);
        lemma_prefix_len_mono(c.args, j, na);
        crate::words::lemma_sub_of_region(l, 8, 8 * na, r_slots_a, 8 * j, 8 * j + 8);
        lemma_word_value(l, 8 + 8 * j, slot_val(c.args, j, argv_a) as u64);
    }

    assert forall|j: int| 0 <= j < ne implies #[trigger] word_at(l, off_envv_keys(c) + 8 * j)
        == base + off_envv_data(c) + prefix_len(c.envs, j) by {
        lemma_slots_prefix_index(c.envs, ne, j, envv_a);
        lemma_prefix_len_mono(c.envs, j, ne);
        crate::words::lemma_sub_of_region(l, off_envv_keys(c), 8 * ne, r_slots_e, 8 * j, 8 * j + 8);
        lemma_word_value(l, off_envv_keys(c) + 8 * j, slot_val(c.envs, j, envv_a) as u64);
    }

    lemma_layout_entry_words(c, base);
}

/// The key word and value word of each serialized auxiliary entry.
#[verifier::rlimit(100)]
#[verifier::spinoff_prover]
proof fn lemma_layout_entry_words(c: LayoutContent, base: int)
    requires
        total_size(c) <= usize::MAX,
        0 <= base,
        base + total_size(c) <= u64::MAX,
    ensures
        ({
            let l = layout(c, base);
            let nx = c.auxs.len() as int;
            &&& forall|e: int|
                0 <= e < nx ==> #[trigger] word_at(l, off_auxv_keys(c) + 16 * e) == spec_val(
                    c.auxs[e].key,
                )
            &&& forall|e: int|
                0 <= e < nx ==> #[trigger] word_at(l, off_auxv_keys(c) + 16 * e + 8) == entry_val(
                    c,
                    e,
                    base,
                )
        }),
{
    let l = layout(c, base);
    let nx = c.auxs.len() as int;
    lemma_total_bounds(c);
    lemma_region_lens(c, base);
    lemma_layout_regions(c, base);
    let r_entries = entries_prefix(c, nx, base);
    assert forall|e: int| 0 <= e < nx implies #[trigger] word_at(l, off_auxv_keys(c) + 16 * e)
        == spec_val(c.auxs[e].key) by {
        lemma_entries_prefix_index(c, nx, e, base);
        crate::words::lemma_sub_of_region(l, off_auxv_keys(c), 16 * nx, r_entries, 16 * e, 16 * e + 8);
        assert(l.subrange(off_auxv_keys(c) + 16 * e, off_auxv_keys(c) + 16 * e + 8) == le_bytes(
            spec_val(c.auxs[e].key) as u64,
        ));
        lemma_word_value(l, off_auxv_keys(c) + 16 * e, spec_val(c.auxs[e].key) as u64);
    }
    assert forall|e: int| 0 <= e < nx implies #[trigger] word_at(l, off_auxv_keys(c) + 16 * e + 8)
        == entry_val(c, e, base) by {
        lemma_entries_prefix_index(c, nx, e, base);
        lemma_dlen_prefix_mono(c.auxs, 0, e);
        lemma_dlen_prefix_mono(c.auxs, e, nx);
        crate::words::lemma_sub_of_region(
            l,
            off_auxv_keys(c),
            16 * nx,
            r_entries,
            16 * e + 8,
            16 * e + 16,
        );
        assert(l.subrange(off_auxv_keys(c) + 16 * e + 8, off_auxv_keys(c) + 16 * e + 16)
            == le_bytes(entry_val(c, e, base) as u64));
        lemma_word_value(l, off_auxv_keys(c) + 16 * e + 8, entry_val(c, e, base) as u64);
    }
}

/// Every referenced payload of the serialized layout stands at its
/// computed offset: the argument and environment strings in their data
/// areas, the generic auxv payloads in theirs, and the filename payload in
/// its dedicated slot.
#[verifier::rlimit(100)]
#[verifier::spinoff_prover]
pub proof fn lemma_layout_data(c: LayoutContent, base: int)
    requires
        content_wf(c),
    ensures
        ({
            let l = layout(c, base);
            let na = c.args.len() as int;
            let ne = c.envs.len() as int;
            let nx = c.auxs.len() as int;
            &&& forall|j: int|
                0 <= j < na ==> #[trigger] l.subrange(
                    off_argv_data(c) + prefix_len(c.args, j),
                    off_argv_data(c) + prefix_len(c.args, j) + c.args[j].len(),
                ) == c.args[j]
            &&& forall|j: int|
                0 <= j < ne ==> #[trigger] l.subrange(
                    off_envv_data(c) + prefix_len(c.envs, j),
                    off_envv_data(c) + prefix_len(c.envs, j) + c.envs[j].len(),
                ) == c.envs[j]
            &&& forall|e: int|
                0 <= e < nx && spec_in_data_area(c.auxs[e].key) && c.auxs[e].key
                    != AuxVarType::ExecFn ==> #[trigger] l.subrange(
                    off_auxv_data(c) + dlen_prefix(c.auxs, e),
                    off_auxv_data(c) + dlen_prefix(c.auxs, e) + c.auxs[e].payload.len(),
                ) == c.auxs[e].payload
            &&& forall|e: int|
                0 <= e < nx && (#[trigger] c.auxs[e]).key == AuxVarType::ExecFn ==> l.subrange(
                    off_filename(c),
                    off_filename(c) + c.auxs[e].payload.len(),
                ) == c.auxs[e].payload
        }),
{
    let l = layout(c, base);
    let na = c.args.len() as int;
    let ne = c.envs.len() as int;
    let nx = c.auxs.len() as int;
    lemma_total_bounds(c);
    lemma_region_lens(c, base);
    lemma_layout_regions(c, base);

    let r_args = concat_prefix(c.args, na);
    let r_envs = concat_prefix(c.envs, ne);
    let r_data = data_prefix(c.auxs, nx);

    assert forall|j: int| 0 <= j < na implies #[trigger] l.subrange(
        off_argv_data(c) + prefix_len(c.args, j),
        off_argv_data(c) + prefix_len(c.args, j) + c.args[j].len(),
    ) == c.args[j] by {
        lemma_concat_prefix_index(c.args, na, j);
        lemma_prefix_len_mono(c.args, 0, j);
        lemma_prefix_len_mono(c.args, j + 1, na);
        crate::words::lemma_sub_of_region(
            l,
            off_argv_data(c),
            prefix_len(c.args, na),
            r_args,
            prefix_len(c.args, j),
            prefix_len(c.args, j) + c.args[j].len(),
        );
    }

    assert forall|j: int| 0 <= j < ne implies #[trigger] l.subrange(
        off_envv_data(c) + prefix_len(c.envs, j),
        off_envv_data(c) + prefix_len(c.envs, j) + c.envs[j].len(),
    ) == c.envs[j] by {
        lemma_concat_prefix_index(c.envs, ne, j);
        lemma_prefix_len_mono(c.envs, 0, j);
        lemma_prefix_len_mono(c.envs, j + 1, ne);
        crate::words::lemma_sub_of_region(
            l,
            off_envv_data(c),
            prefix_len(c.envs, ne),
            r_envs,
            prefix_len(c.envs, j),
            prefix_len(c.envs, j) + c.envs[j].len(),
        );
    }

    assert forall|e: int| 0 <= e < nx && spec_in_data_area(c.auxs[e].key) && c.auxs[e].key
        != AuxVarType::ExecFn implies #[trigger] l.subrange(
        off_auxv_data(c) + dlen_prefix(c.auxs, e),
        off_auxv_data(c) + dlen_prefix(c.auxs, e) + c.auxs[e].payload.len(),
    ) == c.auxs[e].payload by {
        lemma_data_prefix_index(c.auxs, nx, e);
        lemma_dlen_prefix_mono(c.auxs, 0, e);
        lemma_dlen_prefix_mono(c.auxs, e + 1, nx);
        crate::words::lemma_sub_of_region(
            l,
            off_auxv_data(c),
            dlen_prefix(c.auxs, nx),
            r_data,
            dlen_prefix(c.auxs, e),
            dlen_prefix(c.auxs, e) + c.auxs[e].payload.len(),
        );
    }

    assert forall|e: int| 0 <= e < nx && (#[trigger] c.auxs[e]).key == AuxVarType::ExecFn implies
        l.subrange(off_filename(c), off_filename(c) + c.auxs[e].payload.len())
        == c.auxs[e].payload by {
        lemma_codes_injective();
        assert forall|j: int| 0 <= j < nx && j != e implies (#[trigger] c.auxs[j]).key
            != AuxVarType::ExecFn by {
            crate::typ::lemma_key_lt_props();
        }
        crate::layout::lemma_fname_unique(c.auxs, nx, e);
        assert(l.subrange(off_filename(c), off_final_null(c)) == c.auxs[e].payload);
        assert(l.subrange(off_filename(c), off_filename(c) + c.auxs[e].payload.len())
            =~= l.subrange(off_filename(c), off_final_null(c)));
    }
}

/// **End-marker invariant.** Whatever sequence of entries was inserted —
/// an explicit end marker included or not, since the builder never stores
/// one — the serialized auxiliary vector's last entry is the end marker,
/// with key zero and value zero, and parsing stops exactly there.
pub proof fn lemma_end_marker(c: LayoutContent, base: int)
    requires
        content_wf(c),
        total_size(c) <= usize::MAX,
        0 <= base,
        base + total_size(c) <= u64::MAX,
    ensures
        ({
            let l = layout(c, base);
            let nx = c.auxs.len() as int;
            &&& word_at(l, off_auxv_keys(c) + 16 * nx) == 0
            &&& word_at(l, off_auxv_keys(c) + 16 * nx + 8) == 0
            &&& crate::parser::auxv_count(l, off_auxv_keys(c)) == nx
            &&& crate::parser::spec_aux_step(l, base, off_auxv_keys(c) + 16 * nx) is None
        }),
{
    lemma_layout_words(c, base);
    lemma_parse_round_trip(c, base);
}

/// **Foreign-address safety.** Serializing the same content for two
/// different target base addresses yields layouts whose raw iteration is
/// equally safe — the slot runs terminate and the auxiliary region is well
/// formed under either base — and whose stored pointers differ exactly by
/// the difference of the bases, while key codes and immediate values are
/// identical.
pub proof fn lemma_foreign_address(c: LayoutContent, base1: int, base2: int)
    requires
        content_wf(c),
        total_size(c) <= usize::MAX,
        0 <= base1,
        base1 + total_size(c) <= u64::MAX,
        0 <= base2,
        base2 + total_size(c) <= u64::MAX,
    ensures
        ({
            let l1 = layout(c, base1);
            let l2 = layout(c, base2);
            let na = c.args.len() as int;
            let ne = c.envs.len() as int;
            let nx = c.auxs.len() as int;
            &&& crate::parser::slots_terminated(l2, 8) && crate::parser::count_slots(l2, 8) == na
            &&& crate::parser::slots_terminated(l2, off_envv_keys(c))
                && crate::parser::count_slots(l2, off_envv_keys(c)) == ne
            &&& crate::parser::auxv_region_wf(l2, off_auxv_keys(c))
                && crate::parser::auxv_count(l2, off_auxv_keys(c)) == nx
            &&& forall|j: int|
                0 <= j < na ==> #[trigger] word_at(l2, 8 + 8 * j) == word_at(l1, 8 + 8 * j) + base2
                    - base1
            &&& forall|j: int|
                0 <= j < ne ==> #[trigger] word_at(l2, off_envv_keys(c) + 8 * j) == word_at(
                    l1,
                    off_envv_keys(c) + 8 * j,
                ) + base2 - base1
            &&& forall|e: int|
                0 <= e < nx ==> #[trigger] word_at(l2, off_auxv_keys(c) + 16 * e) == word_at(
                    l1,
                    off_auxv_keys(c) + 16 * e,
                )
            &&& forall|e: int|
                0 <= e < nx && spec_in_data_area(c.auxs[e].key) ==> #[trigger] word_at(
                    l2,
                    off_auxv_keys(c) + 16 * e + 8,
                ) == word_at(l1, off_auxv_keys(c) + 16 * e + 8) + base2 - base1
            &&& forall|e: int|
                0 <= e < nx && !spec_in_data_area(c.auxs[e].key) ==> #[trigger] word_at(
                    l2,
                    off_auxv_keys(c) + 16 * e + 8,
                ) == word_at(l1, off_auxv_keys(c) + 16 * e + 8)
        }),
{
    lemma_layout_words(c, base1);
    lemma_layout_words(c, base2);
    lemma_parse_round_trip(c, base2);
    lemma_total_bounds(c);
}

/// **Duplicate-key collapse.** Inserting two entries with the same key,
/// one after the other, leaves exactly what inserting only the later one
/// leaves: the earlier value is overwritten, never duplicated.
pub proof fn lemma_duplicate_key_collapse(
    s: Seq<crate::aux_var::AuxVarView>,
    v1: crate::aux_var::AuxVarView,
    v2: crate::aux_var::AuxVarView,
)
    requires
        v1.key == v2.key,
    ensures
        crate::builder::spec_insert(crate::builder::spec_insert(s, v1), v2)
            == crate::builder::spec_insert(s, v2),
    decreases s.len(),
{
    let i1 = crate::builder::spec_insert(s, v1);
    if s.len() == 0 {
        assert(crate::builder::spec_insert(i1, v2) =~= crate::builder::spec_insert(s, v2));
    } else if crate::typ::spec_key_lt(s[0].key, v1.key) {
        lemma_duplicate_key_collapse(s.drop_first(), v1, v2);
        assert(i1 == seq![s[0]] + crate::builder::spec_insert(s.drop_first(), v1));
        assert(i1[0] == s[0]);
        assert(i1.drop_first() =~= crate::builder::spec_insert(s.drop_first(), v1));
        assert(crate::builder::spec_insert(i1, v2) =~= seq![s[0]]
            + crate::builder::spec_insert(crate::builder::spec_insert(s.drop_first(), v1), v2));
        assert(crate::builder::spec_insert(s, v2) =~= seq![s[0]] + crate::builder::spec_insert(
            s.drop_first(),
            v2,
        ));
    } else if s[0].key == v1.key {
        assert(i1 == seq![v1] + s.drop_first());
        assert(i1[0] == v1);
        assert(!crate::typ::spec_key_lt(v1.key, v2.key));
        assert(i1.drop_first() =~= s.drop_first());
        assert(crate::builder::spec_insert(i1, v2) =~= seq![v2] + s.drop_first());
        assert(crate::builder::spec_insert(s, v2) =~= seq![v2] + s.drop_first());
    } else {
        assert(i1 == seq![v1] + s);
        assert(i1[0] == v1);
        assert(!crate::typ::spec_key_lt(v1.key, v2.key));
        assert(i1.drop_first() =~= s);
        assert(crate::builder::spec_insert(i1, v2) =~= seq![v2] + s);
        assert(crate::builder::spec_insert(s, v2) =~= seq![v2] + s);
    }
}

/// An inserted entry is present in the result.
pub proof fn lemma_insert_contains(s: Seq<crate::aux_var::AuxVarView>, v: crate::aux_var::AuxVarView)
    ensures
        exists|i: int|
            0 <= i < crate::builder::spec_insert(s, v).len() && crate::builder::spec_insert(
                s,
                v,
            )[i] == v,
    decreases s.len(),
{
    let r = crate::builder::spec_insert(s, v);
    if s.len() == 0 {
        assert(r[0] == v);
    } else if crate::typ::spec_key_lt(s[0].key, v.key) {
        lemma_insert_contains(s.drop_first(), v);
        let w = choose|i: int|
            0 <= i < crate::builder::spec_insert(s.drop_first(), v).len()
                && crate::builder::spec_insert(s.drop_first(), v)[i] == v;
        assert(r[w + 1] == v);
    } else {
        assert(r[0] == v);
    }
}

/// **Alignment.** The auxv data area and the argv data area each begin on
/// a 16-byte boundary, mirroring the kernel's own stack alignment.
pub proof fn lemma_data_area_alignment(c: LayoutContent)
    ensures
        off_auxv_data(c) % 16 == 0,
        off_argv_data(c) % 16 == 0,
{
    crate::layout::lemma_offsets_ordered(c);
}

/// **Size agreement.** The serialized byte sequence is exactly
/// `total_size` long: the offset of the final sentinel word plus one word,
/// the highest offset serialization touches.
pub proof fn lemma_size_agreement(c: LayoutContent, base: int)
    ensures
        layout(c, base).len() == total_size(c),
        total_size(c) == off_final_null(c) + 8,
{
    lemma_layout_len(c, base);
}

/// A run of `n` non-zero slot words followed by a zero word scans as
/// exactly `n` slots.
proof fn lemma_slots_scan(l: Seq<u8>, start: int, n: int)
    requires
        0 <= start,
        0 <= n,
        start + 8 * n + 8 <= l.len(),
        forall|j: int| 0 <= j < n ==> #[trigger] word_at(l, start + 8 * j) != 0,
        word_at(l, start + 8 * n) == 0,
    ensures
        crate::parser::slots_terminated(l, start),
        crate::parser::count_slots(l, start) == n,
    decreases n,
{
    if n == 0 {
        assert(word_at(l, start) == 0);
    } else {
        assert(word_at(l, start + 8 * 0) != 0);
        assert forall|j: int| 0 <= j < n - 1 implies #[trigger] word_at(l, (start + 8) + 8 * j)
            != 0 by {
            assert(word_at(l, start + 8 * (j + 1)) != 0);
            assert((start + 8) + 8 * j == start + 8 * (j + 1));
        }
        assert(word_at(l, (start + 8) + 8 * (n - 1)) == word_at(l, start + 8 * n));
        lemma_slots_scan(l, start + 8, n - 1);
    }
}

/// A run of `n` entries with non-zero, known key codes followed by a
/// zero/zero end marker scans as a well-formed region of exactly `n`
/// entries.
proof fn lemma_auxv_scan(l: Seq<u8>, start: int, n: int)
    requires
        0 <= start,
        0 <= n,
        start + 16 * n + 16 <= l.len(),
        forall|e: int|
            0 <= e < n ==> #[trigger] word_at(l, start + 16 * e) != 0
                && crate::typ::spec_is_valid_code(word_at(l, start + 16 * e)),
        word_at(l, start + 16 * n) == 0,
        word_at(l, start + 16 * n + 8) == 0,
    ensures
        crate::parser::auxv_region_wf(l, start),
        crate::parser::auxv_count(l, start) == n,
    decreases n,
{
    if n == 0 {
        assert(word_at(l, start) == 0);
    } else {
        assert(word_at(l, start + 16 * 0) != 0);
        assert forall|e: int| 0 <= e < n - 1 implies #[trigger] word_at(l, (start + 16) + 16 * e)
            != 0 && crate::typ::spec_is_valid_code(word_at(l, (start + 16) + 16 * e)) by {
            assert(word_at(l, start + 16 * (e + 1)) != 0);
            assert(crate::typ::spec_is_valid_code(word_at(l, start + 16 * (e + 1))));
            assert((start + 16) + 16 * e == start + 16 * (e + 1));
        }
        assert(word_at(l, (start + 16) + 16 * (n - 1)) == word_at(l, start + 16 * n));
        assert(word_at(l, (start + 16) + 16 * (n - 1) + 8) == word_at(l, start + 16 * n + 8));
        lemma_auxv_scan(l, start + 16, n - 1);
    }
}

/// A normalized C-string recovered as a subrange of the buffer is exactly
/// what a bounded NUL scan starting at its first byte yields.
proof fn lemma_resolve_string(l: Seq<u8>, idx: int, s: Seq<u8>)
    requires
        0 <= idx,
        idx + s.len() <= l.len(),
        s.len() >= 1,
        l.subrange(idx, idx + s.len()) == s,
        crate::cstr_util::spec_cstr_wf(s),
    ensures
        crate::util::spec_has_null(l, idx),
        crate::util::spec_null_index(l, idx) == idx + s.len() - 1,
        l.subrange(idx, crate::util::spec_null_index(l, idx) + 1) == s,
{
    let n = s.len() as int;
    assert forall|t: int| idx <= t < idx + n implies l[t] == s[t - idx] by {
        assert(s[t - idx] == l.subrange(idx, idx + n)[t - idx]);
    }
    assert(l[idx + n - 1] == 0);
    assert forall|t: int| idx <= t < idx + n - 1 implies l[t] != 0 by {
        assert(s[t - idx] != 0);
    }
    crate::util::lemma_null_index_step(l, idx, idx + n - 1);
}

/// On a well-formed immediate entry, re-reading the stored value word
/// yields the entry's own immediate back.
proof fn lemma_view_canonical(v: crate::aux_var::AuxVarView)
    requires
        crate::aux_var::spec_view_wf(v),
        !spec_in_data_area(v.key),
    ensures
        crate::aux_var::spec_canonical_imm(v.key, v.imm) == v.imm,
{
    if v.key == AuxVarType::Flags {
        assert(0u64 & 1 == 0 && 1u64 & 1 == 1) by (bit_vector);
    }
}

/// **Round trip.** Parsing a serialized layout yields back exactly the
/// content it was built from, when the parser is told the same base
/// address the builder serialized for: `argc` is the argument count; the
/// argv and envv slot runs terminate and count the strings; every
/// resolving string step yields the original string (terminating NUL
/// included); the auxiliary region is well formed, counts the entries, and
/// every resolving auxiliary step yields the original entry's view; and
/// iteration ends cleanly at the zero terminators — in particular the end
/// marker parses as a proper end of vector with value zero.
#[verifier::rlimit(100)]
#[verifier::spinoff_prover]
pub proof fn lemma_parse_round_trip(c: LayoutContent, base: int)
    requires
        content_wf(c),
        total_size(c) <= usize::MAX,
        0 <= base,
        base + total_size(c) <= u64::MAX,
    ensures
        ({
            let l = layout(c, base);
            let na = c.args.len() as int;
            let ne = c.envs.len() as int;
            let nx = c.auxs.len() as int;
            &&& l.len() == total_size(c)
            &&& word_at(l, 0) == c.args.len()
            &&& crate::parser::slots_terminated(l, 8)
            &&& crate::parser::count_slots(l, 8) == na
            &&& crate::parser::slots_terminated(l, off_envv_keys(c))
            &&& crate::parser::count_slots(l, off_envv_keys(c)) == ne
            &&& crate::parser::auxv_region_wf(l, off_auxv_keys(c))
            &&& crate::parser::auxv_count(l, off_auxv_keys(c)) == nx
            &&& forall|j: int|
                0 <= j < na ==> #[trigger] crate::parser::spec_cstr_step(l, base, 8 + 8 * j)
                    == Some(Ok::<Seq<u8>, crate::parser::StackParseError>(c.args[j]))
            &&& crate::parser::spec_cstr_step(l, base, 8 + 8 * na) is None
            &&& forall|j: int|
                0 <= j < ne ==> #[trigger] crate::parser::spec_cstr_step(
                    l,
                    base,
                    off_envv_keys(c) + 8 * j,
                ) == Some(Ok::<Seq<u8>, crate::parser::StackParseError>(c.envs[j]))
            &&& crate::parser::spec_cstr_step(l, base, off_envv_keys(c) + 8 * ne) is None
            &&& forall|e: int|
                0 <= e < nx ==> #[trigger] crate::parser::spec_aux_step(
                    l,
                    base,
                    off_auxv_keys(c) + 16 * e,
                ) == Some(Ok::<crate::aux_var::AuxVarView, crate::parser::StackParseError>(
                    c.auxs[e],
                ))
            &&& crate::parser::spec_aux_step(l, base, off_auxv_keys(c) + 16 * nx) is None
        }),
{
    lemma_total_bounds(c);
    lemma_layout_words(c, base);
    lemma_rt_counts(c, base);
    lemma_rt_argv(c, base);
    lemma_rt_envv(c, base);
    lemma_rt_aux(c, base);
}

/// The three arrays of the serialized layout terminate and count the
/// content.
#[verifier::rlimit(100)]
#[verifier::spinoff_prover]
proof fn lemma_rt_counts(c: LayoutContent, base: int)
    requires
        content_wf(c),
        total_size(c) <= usize::MAX,
        0 <= base,
        base + total_size(c) <= u64::MAX,
    ensures
        ({
            let l = layout(c, base);
            &&& crate::parser::slots_terminated(l, 8)
            &&& crate::parser::count_slots(l, 8) == c.args.len()
            &&& crate::parser::slots_terminated(l, off_envv_keys(c))
            &&& crate::parser::count_slots(l, off_envv_keys(c)) == c.envs.len()
            &&& crate::parser::auxv_region_wf(l, off_auxv_keys(c))
            &&& crate::parser::auxv_count(l, off_auxv_keys(c)) == c.auxs.len()
        }),
{
    let l = layout(c, base);
    let na = c.args.len() as int;
    let ne = c.envs.len() as int;
    let nx = c.auxs.len() as int;
    lemma_total_bounds(c);
    lemma_layout_words(c, base);
    lemma_codes_injective();
    assert forall|j: int| 0 <= j < na implies #[trigger] word_at(l, 8 + 8 * j) != 0 by {
        lemma_prefix_len_mono(c.args, 0, j);
    }
    lemma_slots_scan(l, 8, na);
    assert forall|j: int| 0 <= j < ne implies #[trigger] word_at(l, off_envv_keys(c) + 8 * j)
        != 0 by {
        lemma_prefix_len_mono(c.envs, 0, j);
    }
    lemma_slots_scan(l, off_envv_keys(c), ne);
    assert forall|e: int| 0 <= e < nx implies #[trigger] word_at(l, off_auxv_keys(c) + 16 * e) != 0
        && crate::typ::spec_is_valid_code(word_at(l, off_auxv_keys(c) + 16 * e)) by {
        let t = c.auxs[e].key;
        assert(word_at(l, off_auxv_keys(c) + 16 * e) == spec_val(t));
        assert(spec_val(AuxVarType::Null) == 0);
        assert(t != AuxVarType::Null);
        assert(spec_val(t) != 0);
    }
    lemma_auxv_scan(l, off_auxv_keys(c), nx);
}

/// Every argv slot of the serialized layout resolves to its original
/// string, and the slot run ends at the null slot.
#[verifier::rlimit(100)]
#[verifier::spinoff_prover]
proof fn lemma_rt_argv(c: LayoutContent, base: int)
    requires
        content_wf(c),
        total_size(c) <= usize::MAX,
        0 <= base,
        base + total_size(c) <= u64::MAX,
    ensures
        ({
            let l = layout(c, base);
            let na = c.args.len() as int;
            &&& forall|j: int|
                0 <= j < na ==> #[trigger] crate::parser::spec_cstr_step(l, base, 8 + 8 * j)
                    == Some(Ok::<Seq<u8>, crate::parser::StackParseError>(c.args[j]))
            &&& crate::parser::spec_cstr_step(l, base, 8 + 8 * na) is None
        }),
{
    let l = layout(c, base);
    let na = c.args.len() as int;
    lemma_total_bounds(c);
    lemma_layout_words(c, base);
    lemma_layout_data(c, base);
    lemma_prefix_len_mono(c.args, 0, na);
    assert forall|j: int| 0 <= j < na implies #[trigger] crate::parser::spec_cstr_step(
        l,
        base,
        8 + 8 * j,
    ) == Some(Ok::<Seq<u8>, crate::parser::StackParseError>(c.args[j])) by {
        lemma_prefix_len_mono(c.args, 0, j);
        lemma_prefix_len_mono(c.args, j + 1, na);
        let w = word_at(l, 8 + 8 * j);
        let idx = off_argv_data(c) + prefix_len(c.args, j);
        assert(w == base + idx);
        lemma_resolve_string(l, idx, c.args[j]);
    }
}

/// Every envv slot of the serialized layout resolves to its original
/// string, and the slot run ends at the null slot.
#[verifier::rlimit(100)]
#[verifier::spinoff_prover]
proof fn lemma_rt_envv(c: LayoutContent, base: int)
    requires
        content_wf(c),
        total_size(c) <= usize::MAX,
        0 <= base,
        base + total_size(c) <= u64::MAX,
    ensures
        ({
            let l = layout(c, base);
            let ne = c.envs.len() as int;
            &&& forall|j: int|
                0 <= j < ne ==> #[trigger] crate::parser::spec_cstr_step(
                    l,
                    base,
                    off_envv_keys(c) + 8 * j,
                ) == Some(Ok::<Seq<u8>, crate::parser::StackParseError>(c.envs[j]))
            &&& crate::parser::spec_cstr_step(l, base, off_envv_keys(c) + 8 * ne) is None
        }),
{
    let l = layout(c, base);
    let ne = c.envs.len() as int;
    lemma_total_bounds(c);
    lemma_layout_words(c, base);
    lemma_layout_data(c, base);
    lemma_prefix_len_mono(c.envs, 0, ne);
    assert forall|j: int| 0 <= j < ne implies #[trigger] crate::parser::spec_cstr_step(
        l,
        base,
        off_envv_keys(c) + 8 * j,
    ) == Some(Ok::<Seq<u8>, crate::parser::StackParseError>(c.envs[j])) by {
        lemma_prefix_len_mono(c.envs, 0, j);
        lemma_prefix_len_mono(c.envs, j + 1, ne);
        let w = word_at(l, off_envv_keys(c) + 8 * j);
        let idx = off_envv_data(c) + prefix_len(c.envs, j);
        assert(w == base + idx);
        lemma_resolve_string(l, idx, c.envs[j]);
    }
}

/// Every auxiliary entry of the serialized layout resolves to its original
/// view, and the entry run ends at the end marker.
#[verifier::rlimit(100)]
#[verifier::spinoff_prover]
proof fn lemma_rt_aux(c: LayoutContent, base: int)
    requires
        content_wf(c),
        total_size(c) <= usize::MAX,
        0 <= base,
        base + total_size(c) <= u64::MAX,
    ensures
        ({
            let l = layout(c, base);
            let nx = c.auxs.len() as int;
            &&& forall|e: int|
                0 <= e < nx ==> #[trigger] crate::parser::spec_aux_step(
                    l,
                    base,
                    off_auxv_keys(c) + 16 * e,
                ) == Some(Ok::<crate::aux_var::AuxVarView, crate::parser::StackParseError>(
                    c.auxs[e],
                ))
            &&& crate::parser::spec_aux_step(l, base, off_auxv_keys(c) + 16 * nx) is None
        }),
{
    let l = layout(c, base);
    let nx = c.auxs.len() as int;
    lemma_total_bounds(c);
    lemma_layout_words(c, base);
    lemma_layout_data(c, base);
    lemma_dlen_prefix_mono(c.auxs, 0, nx);
    lemma_codes_injective();
    assert forall|e: int| 0 <= e < nx implies #[trigger] crate::parser::spec_aux_step(
        l,
        base,
        off_auxv_keys(c) + 16 * e,
    ) == Some(Ok::<crate::aux_var::AuxVarView, crate::parser::StackParseError>(c.auxs[e])) by {
        let v = c.auxs[e];
        let kw = word_at(l, off_auxv_keys(c) + 16 * e);
        let vw = word_at(l, off_auxv_keys(c) + 16 * e + 8);
        assert(kw == spec_val(v.key));
        assert(vw == entry_val(c, e, base));
        assert(spec_val(AuxVarType::Null) == 0 && v.key != AuxVarType::Null);
        assert(kw != 0);
        assert(crate::typ::spec_is_valid_code(kw));
        assert(crate::typ::spec_type_of_code(kw) == v.key);
        if !spec_in_data_area(v.key) {
            lemma_view_canonical(v);
            assert(v.payload.len() == 0);
            assert(v.payload =~= Seq::<u8>::empty());
        } else if v.key == AuxVarType::ExecFn {
            let idx = off_filename(c);
            assert(vw == base + idx);
            assert(crate::cstr_util::spec_cstr_wf(v.payload));
            assert forall|j: int| 0 <= j < nx && j != e implies (#[trigger] c.auxs[j]).key
                != AuxVarType::ExecFn by {
                crate::typ::lemma_key_lt_props();
            }
            crate::layout::lemma_fname_unique(c.auxs, nx, e);
            assert(off_final_null(c) == idx + v.payload.len());
            lemma_resolve_string(l, idx, v.payload);
        } else if crate::typ::spec_is_cstr(v.key) {
            lemma_dlen_prefix_mono(c.auxs, 0, e);
            lemma_dlen_prefix_mono(c.auxs, e + 1, nx);
            let idx = off_auxv_data(c) + dlen_prefix(c.auxs, e);
            assert(vw == base + idx);
            lemma_resolve_string(l, idx, v.payload);
        } else {
            lemma_dlen_prefix_mono(c.auxs, 0, e);
            lemma_dlen_prefix_mono(c.auxs, e + 1, nx);
            let idx = off_auxv_data(c) + dlen_prefix(c.auxs, e);
            assert(vw == base + idx);
            assert(v.payload.len() == 16);
            assert(l.subrange(idx, idx + 16) == v.payload);
        }
    }
}

} // verus!
