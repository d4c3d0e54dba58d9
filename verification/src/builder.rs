//! Builder for the initial Linux stack layout described by
//! [`crate::layout`]: it accumulates arguments, environment variables and
//! auxiliary vector entries, computes every region offset, and serializes
//! the whole structure in one pass for a caller-chosen target address space.

use vstd::prelude::*;
use crate::typ::AuxVarType;
use crate::typ::spec_key_lt;
use crate::typ::lemma_key_lt_props;
use crate::aux_var::AuxVar;
use crate::aux_var::AuxVarView;
use crate::aux_var::spec_key;
use crate::aux_var::spec_aux_arg_ok;
use crate::aux_var::spec_view_normalize;
use crate::aux_var::spec_view_wf;
use crate::aux_var::lemma_aux_wf_view;
use crate::cstr_util::spec_at_most_terminating_null;
use crate::cstr_util::spec_with_null;
use crate::cstr_util::lemma_with_null_wf;
use crate::layout::LayoutContent;
use crate::layout::content_wf;
use crate::layout::off_argv_keys;
use crate::layout::off_envv_keys;
use crate::layout::off_auxv_keys;
use crate::layout::off_auxv_data;
use crate::layout::off_argv_data;
use crate::layout::off_envv_data;
use crate::layout::off_filename;
use crate::layout::off_final_null;
use crate::layout::round16;
use crate::layout::prefix_len;
use crate::layout::dlen_prefix;
use crate::layout::fname_prefix;
use crate::layout::lemma_total_bounds;
use crate::layout::lemma_prefix_len_mono;
use crate::layout::lemma_dlen_prefix_mono;

verus! {

/// Whether an environment string has the `key=value` shape: a non-empty key
/// before the first `=` byte.
pub open spec fn spec_env_syntax_ok(b: Seq<u8>) -> bool {
    &&& b.len() > 0
    &&& b[0] != 61
    &&& exists|i: int| 0 <= i < b.len() && b[i] == 61
}

/// Inserts an entry into a key-ordered run of entries: entries whose key
/// sorts before the new key stay put, an entry with the same key is
/// replaced (last write wins), and the new entry otherwise takes its sorted
/// position.
pub open spec fn spec_insert(s: Seq<AuxVarView>, v: AuxVarView) -> Seq<AuxVarView>
    decreases s.len(),
{
    if s.len() == 0 {
        seq![v]
    } else if spec_key_lt(s[0].key, v.key) {
        seq![s[0]] + spec_insert(s.drop_first(), v)
    } else if s[0].key == v.key {
        seq![v] + s.drop_first()
    } else {
        seq![v] + s
    }
}

/// Builder to create a stack layout. Content is added with
/// [`Self::add_argv`], [`Self::add_envv`] and [`Self::add_auxv`]; the byte
/// size of the resulting structure is [`Self::total_size`], and
/// [`Self::serialize_into_buf`] writes it.
#[derive(Debug, Clone)]
pub struct StackLayoutBuilder {
    /// The argument strings, normalized to C-strings, in argv order.
    pub argv: Vec<Vec<u8>>,
    /// The environment strings, normalized to C-strings, in envv order.
    pub envv: Vec<Vec<u8>>,
    /// The auxiliary vector entries, strictly ordered by the builder's key
    /// order, without the implicit end marker.
    pub auxv: Vec<AuxVar>,
}

impl View for StackLayoutBuilder {
    type V = LayoutContent;

    open spec fn view(&self) -> LayoutContent {
        LayoutContent {
            args: self.argv@.map_values(|s: Vec<u8>| s@),
            envs: self.envv@.map_values(|s: Vec<u8>| s@),
            auxs: self.auxv@.map_values(|a: AuxVar| a@),
        }
    }
}

impl StackLayoutBuilder {
    /// Whether the builder's content is well formed; established by
    /// [`Self::new`] and preserved by every `add` call.
    pub open spec fn wf(self) -> bool {
        content_wf(self@)
    }

    /// Creates a new, empty builder.
    pub fn new() -> (r: StackLayoutBuilder)
        ensures
            r.wf(),
            r@.args.len() == 0,
            r@.envs.len() == 0,
            r@.auxs.len() == 0,
    {
        let r = StackLayoutBuilder { argv: Vec::new(), envv: Vec::new(), auxv: Vec::new() };
        proof {
            assert(r@.args =~= Seq::<Seq<u8>>::empty());
            assert(r@.envs =~= Seq::<Seq<u8>>::empty());
            assert(r@.auxs =~= Seq::<AuxVarView>::empty());
        }
        r
    }

    /// Adds an argument to the builder.
    ///
    /// Adding a terminating NUL byte is not necessary; one is appended when
    /// missing. Interim NUL bytes are prohibited.
    pub fn add_argv(self, arg: Vec<u8>) -> (r: StackLayoutBuilder)
        requires
            self.wf(),
            spec_at_most_terminating_null(arg@),
        ensures
            r.wf(),
            r@.args == self@.args.push(spec_with_null(arg@)),
            r@.envs == self@.envs,
            r@.auxs == self@.auxs,
    {
        proof {
            lemma_with_null_wf(arg@);
        }
        let ghost argseq = arg@;
        let mut b = self;
        let arg = crate::aux_var::push_null_if_missing(arg);
        b.argv.push(arg);
        proof {
            assert(b@.args =~= self@.args.push(spec_with_null(argseq)));
            assert forall|i: int| 0 <= i < b@.args.len() implies crate::cstr_util::spec_cstr_wf(
                #[trigger] b@.args[i],
            ) by {
                if i < self@.args.len() {
                    assert(b@.args[i] == self@.args[i]);
                } else {
                    assert(b@.args[i] == spec_with_null(argseq));
                }
            }
            assert forall|i: int| 0 <= i < b@.envs.len() implies crate::cstr_util::spec_cstr_wf(
                #[trigger] b@.envs[i],
            ) by {
                assert(b@.envs[i] == self@.envs[i]);
            }
        }
        b
    }

    /// Adds an environment variable to the builder.
    ///
    /// The value must follow the `key=value` syntax, where `value` may be
    /// empty. Adding a terminating NUL byte is not necessary; one is
    /// appended when missing. Interim NUL bytes are prohibited.
    pub fn add_envv(self, env: Vec<u8>) -> (r: StackLayoutBuilder)
        requires
            self.wf(),
            spec_at_most_terminating_null(env@),
            spec_env_syntax_ok(env@),
        ensures
            r.wf(),
            r@.envs == self@.envs.push(spec_with_null(env@)),
            r@.args == self@.args,
            r@.auxs == self@.auxs,
    {
        proof {
            lemma_with_null_wf(env@);
        }
        let ghost envseq = env@;
        let mut b = self;
        let env = crate::aux_var::push_null_if_missing(env);
        b.envv.push(env);
        proof {
            assert(b@.envs =~= self@.envs.push(spec_with_null(envseq)));
            assert forall|i: int| 0 <= i < b@.envs.len() implies crate::cstr_util::spec_cstr_wf(
                #[trigger] b@.envs[i],
            ) by {
                if i < self@.envs.len() {
                    assert(b@.envs[i] == self@.envs[i]);
                } else {
                    assert(b@.envs[i] == spec_with_null(envseq));
                }
            }
            assert forall|i: int| 0 <= i < b@.args.len() implies crate::cstr_util::spec_cstr_wf(
                #[trigger] b@.args[i],
            ) by {
                assert(b@.args[i] == self@.args[i]);
            }
        }
        b
    }

    /// Adds an [`AuxVar`] to the builder.
    ///
    /// The entries form a set keyed by [`AuxVarType`]: re-adding an existing
    /// key replaces its value (last write wins). The end marker is implicit,
    /// always serialized last, and never stored: adding
    /// [`AuxVar::Null`] is accepted and changes nothing. A terminating NUL
    /// byte is appended to a C-string payload when missing.
    pub fn add_auxv(self, aux: AuxVar) -> (r: StackLayoutBuilder)
        requires
            self.wf(),
            spec_aux_arg_ok(aux),
        ensures
            r.wf(),
            r@.args == self@.args,
            r@.envs == self@.envs,
            spec_key(aux) == AuxVarType::Null ==> r@.auxs == self@.auxs,
            spec_key(aux) != AuxVarType::Null ==> r@.auxs == spec_insert(
                self@.auxs,
                spec_view_normalize(aux@),
            ),
    {
        if matches!(aux.key(), AuxVarType::Null) {
            return self;
        }
        let na = aux.into_normalized();
        let ghost nav = na@;
        let ghost s0 = self@.auxs;
        proof {
            assert(nav == spec_view_normalize(aux@));
            lemma_aux_wf_view(na);
            lemma_key_lt_props();
        }
        let k = na.key();
        let mut b = self;
        let mut idx: usize = 0;
        while idx < b.auxv.len() && b.auxv[idx].key().sorts_before(k)
            invariant
                idx <= b.auxv@.len(),
                b == self,
                nav.key == spec_key(na),
                k == nav.key,
                forall|j: int| 0 <= j < idx ==> spec_key_lt((#[trigger] b@.auxs[j]).key, nav.key),
            decreases b.auxv@.len() - idx,
        {
            proof {
                assert(b@.auxs[idx as int] == b.auxv@[idx as int]@);
            }
            idx = idx + 1;
        }
        proof {
            assert(idx < s0.len() ==> !spec_key_lt(s0[idx as int].key, nav.key));
        }
        let replace = idx < b.auxv.len() && b.auxv[idx].key() == k;
        if replace {
            b.auxv.set(idx, na);
            proof {
                assert(b@.auxs =~= s0.update(idx as int, nav));
            }
        } else {
            b.auxv.insert(idx, na);
            proof {
                assert(b@.auxs =~= s0.take(idx as int) + seq![nav] + s0.skip(idx as int));
            }
        }
        proof {
            lemma_insert_shape(s0, nav, idx as int);
            assert(b@.auxs == spec_insert(s0, nav));
            lemma_insert_wf_helper(s0, nav, idx as int, replace);
            assert(content_wf(b@)) by {
                assert(b@.args =~= self@.args);
                assert(b@.envs =~= self@.envs);
            }
        }
        b
    }
}

impl StackLayoutBuilder {
    /// Returns the number of bytes that all argv pointer slots occupy,
    /// including the terminating null slot.
    pub fn argv_keys_size(&self) -> (r: usize)
        requires
            crate::layout::total_size(self@) <= usize::MAX,
        ensures
            r == 8 * (self@.args.len() + 1),
    {
        proof {
            lemma_total_bounds(self@);
        }
        (self.argv.len() + 1) * 8
    }

    /// Returns the number of bytes that all envv pointer slots occupy,
    /// including the terminating null slot.
    pub fn envv_keys_size(&self) -> (r: usize)
        requires
            crate::layout::total_size(self@) <= usize::MAX,
        ensures
            r == 8 * (self@.envs.len() + 1),
    {
        proof {
            lemma_total_bounds(self@);
        }
        (self.envv.len() + 1) * 8
    }

    /// Returns the number of bytes that all auxv entries occupy, including
    /// the end marker; only the entries, not the referenced data.
    pub fn aux_keys_size(&self) -> (r: usize)
        requires
            crate::layout::total_size(self@) <= usize::MAX,
        ensures
            r == 16 * (self@.auxs.len() + 1),
    {
        proof {
            lemma_total_bounds(self@);
        }
        (self.auxv.len() + 1) * 16
    }

    /// Returns the byte size of the argv data area: the sum of the stored
    /// argument strings' lengths, terminating NUL bytes included.
    pub fn argv_data_area_size(&self) -> (r: usize)
        requires
            crate::layout::total_size(self@) <= usize::MAX,
        ensures
            r == prefix_len(self@.args, self@.args.len() as int),
    {
        proof {
            lemma_total_bounds(self@);
        }
        sum_str_lens(&self.argv, Ghost(self@.args))
    }

    /// Returns the byte size of the envv data area: the sum of the stored
    /// environment strings' lengths, terminating NUL bytes included.
    pub fn envv_data_area_size(&self) -> (r: usize)
        requires
            crate::layout::total_size(self@) <= usize::MAX,
        ensures
            r == prefix_len(self@.envs, self@.envs.len() as int),
    {
        proof {
            lemma_total_bounds(self@);
        }
        sum_str_lens(&self.envv, Ghost(self@.envs))
    }

    /// Returns the byte size of the generic auxv data area: the payloads of
    /// all data-area entries except the specially placed filename.
    pub fn aux_data_area_size(&self) -> (r: usize)
        requires
            crate::layout::total_size(self@) <= usize::MAX,
        ensures
            r == dlen_prefix(self@.auxs, self@.auxs.len() as int),
    {
        proof {
            lemma_total_bounds(self@);
        }
        let ghost auxs = self@.auxs;
        let n = self.auxv.len();
        let mut acc: usize = 0;
        let mut i: usize = 0;
        while i < n
            invariant
                i <= n,
                n == self.auxv@.len(),
                auxs == self@.auxs,
                crate::layout::total_size(self@) <= usize::MAX,
                acc == dlen_prefix(auxs, i as int),
            decreases n - i,
        {
            proof {
                assert(auxs[i as int] == self.auxv@[i as int]@);
                lemma_dlen_prefix_mono(auxs, i + 1, auxs.len() as int);
                lemma_total_bounds(self@);
            }
            let t = self.auxv[i].key();
            if t.value_in_data_area() && !matches!(t, AuxVarType::ExecFn) {
                acc = acc + self.auxv[i].payload_ref().len();
            }
            i = i + 1;
        }
        acc
    }

    /// Returns the byte size of the dedicated filename slot: the stored
    /// `ExecFn` payload's length, or zero when no such entry was added.
    pub fn filename_data_size(&self) -> (r: usize)
        requires
            crate::layout::total_size(self@) <= usize::MAX,
        ensures
            r == fname_prefix(self@.auxs, self@.auxs.len() as int).len(),
    {
        proof {
            lemma_total_bounds(self@);
        }
        let ghost auxs = self@.auxs;
        let n = self.auxv.len();
        let mut acc: usize = 0;
        let mut i: usize = 0;
        while i < n
            invariant
                i <= n,
                n == self.auxv@.len(),
                auxs == self@.auxs,
                crate::layout::total_size(self@) <= usize::MAX,
                acc == fname_prefix(auxs, i as int).len(),
            decreases n - i,
        {
            proof {
                assert(auxs[i as int] == self.auxv@[i as int]@);
                lemma_fname_len_bounded(auxs, i + 1, auxs.len() as int);
                lemma_total_bounds(self@);
            }
            let t = self.auxv[i].key();
            if matches!(t, AuxVarType::ExecFn) {
                acc = acc + self.auxv[i].payload_ref().len();
            }
            i = i + 1;
        }
        acc
    }

    /// Returns the total offset from the structure's start to the argv
    /// pointer slots; only `argc` stands before them.
    pub fn offset_to_argv_key_area(&self) -> (r: usize)
        ensures
            r == off_argv_keys(self@),
    {
        8
    }

    /// Returns the total offset from the structure's start to the envv
    /// pointer slots.
    pub fn offset_to_envv_key_area(&self) -> (r: usize)
        requires
            crate::layout::total_size(self@) <= usize::MAX,
        ensures
            r == off_envv_keys(self@),
    {
        proof {
            lemma_total_bounds(self@);
        }
        8 + self.argv_keys_size()
    }

    /// Returns the total offset from the structure's start to the auxv
    /// entry array.
    pub fn offset_to_aux_key_area(&self) -> (r: usize)
        requires
            crate::layout::total_size(self@) <= usize::MAX,
        ensures
            r == off_auxv_keys(self@),
    {
        proof {
            lemma_total_bounds(self@);
        }
        self.offset_to_envv_key_area() + self.envv_keys_size()
    }

    /// Returns the total offset from the structure's start to the auxv data
    /// area, rounded up to the next 16-byte boundary as the kernel's own
    /// stack setup does.
    pub fn offset_to_aux_data_area(&self) -> (r: usize)
        requires
            crate::layout::total_size(self@) <= usize::MAX,
        ensures
            r == off_auxv_data(self@),
    {
        proof {
            lemma_total_bounds(self@);
        }
        align16(self.offset_to_aux_key_area() + self.aux_keys_size())
    }

    /// Returns the total offset from the structure's start to the argv data
    /// area, rounded up to the next 16-byte boundary.
    pub fn offset_to_argv_data_area(&self) -> (r: usize)
        requires
            crate::layout::total_size(self@) <= usize::MAX,
        ensures
            r == off_argv_data(self@),
    {
        proof {
            lemma_total_bounds(self@);
        }
        align16(self.offset_to_aux_data_area() + self.aux_data_area_size())
    }

    /// Returns the total offset from the structure's start to the envv data
    /// area.
    pub fn offset_to_env_data_area(&self) -> (r: usize)
        requires
            crate::layout::total_size(self@) <= usize::MAX,
        ensures
            r == off_envv_data(self@),
    {
        proof {
            lemma_total_bounds(self@);
        }
        self.offset_to_argv_data_area() + self.argv_data_area_size()
    }

    /// Returns the total offset from the structure's start to the dedicated
    /// filename slot.
    pub fn offset_to_filename_data_area(&self) -> (r: usize)
        requires
            crate::layout::total_size(self@) <= usize::MAX,
        ensures
            r == off_filename(self@),
    {
        proof {
            lemma_total_bounds(self@);
        }
        self.offset_to_env_data_area() + self.envv_data_area_size()
    }

    /// Returns the total offset from the structure's start to the final
    /// sentinel word.
    pub fn offset_to_final_null(&self) -> (r: usize)
        requires
            crate::layout::total_size(self@) <= usize::MAX,
        ensures
            r == off_final_null(self@),
    {
        proof {
            lemma_total_bounds(self@);
        }
        self.offset_to_filename_data_area() + self.filename_data_size()
    }

    /// Returns the number of bytes the serialized structure occupies,
    /// including the final sentinel word.
    pub fn total_size(&self) -> (r: usize)
        requires
            crate::layout::total_size(self@) <= usize::MAX,
        ensures
            r == crate::layout::total_size(self@),
    {
        proof {
            lemma_total_bounds(self@);
        }
        self.offset_to_final_null() + 8
    }
}

impl StackLayoutBuilder {
    /// Serializes the data structure into the provided buffer, in one pass.
    ///
    /// Every pointer stored in the structure is expressed in the *target*
    /// address space: it equals `base` plus the offset of the referenced
    /// byte, so the buffer can be copied to address `base` in another
    /// process and parsed there. Pass the address the buffer itself will
    /// live at to make the structure parsable in place.
    ///
    /// The buffer must be at least [`Self::total_size`] bytes long; bytes
    /// past [`Self::total_size`] are left untouched.
    pub fn serialize_into_buf(&self, buf: &mut Vec<u8>, base: u64)
        requires
            self.wf(),
            crate::layout::total_size(self@) <= usize::MAX,
            base + crate::layout::total_size(self@) <= u64::MAX,
            old(buf)@.len() >= crate::layout::total_size(self@),
        ensures
            final(buf)@.len() == old(buf)@.len(),
            final(buf)@.subrange(0, crate::layout::total_size(self@) as int) == crate::layout::layout(
                self@,
                base as int,
            ),
            final(buf)@.skip(crate::layout::total_size(self@) as int) == old(buf)@.skip(
                crate::layout::total_size(self@) as int,
            ),
    {
        let ghost c = self@;
        proof {
            lemma_total_bounds(c);
            crate::layout::lemma_layout_len(c, base as int);
        }
        let out = self.serialize_to_vec(base);
        crate::words::write_prefix(buf, &out);
    }

    /// Serializes the data structure into a fresh byte vector of exactly
    /// [`Self::total_size`] bytes, with every pointer expressed in the
    /// target address space that starts at `base`.
    pub fn serialize_to_vec(&self, base: u64) -> (out: Vec<u8>)
        requires
            self.wf(),
            crate::layout::total_size(self@) <= usize::MAX,
            base + crate::layout::total_size(self@) <= u64::MAX,
        ensures
            out@ == crate::layout::layout(self@, base as int),
            out@.len() == crate::layout::total_size(self@),
    {
        let ghost c = self@;
        proof {
            lemma_total_bounds(c);
            crate::layout::lemma_layout_len(c, base as int);
        }
        let mut out: Vec<u8> = Vec::new();

        // argc
        crate::words::append_word(&mut out, self.argv.len() as u64);
        let ghost pre1 = crate::words::le_bytes(c.args.len() as u64);
        assert(out@ == pre1);

        // argv pointer slots, pointing into the argv data area
        let off_argv_data_e = self.offset_to_argv_data_area();
        let ghost argv_a = base as int + off_argv_data(c);
        let mut addr: u64 = base + off_argv_data_e as u64;
        let na = self.argv.len();
        let mut i: usize = 0;
        while i < na
            invariant
                i <= na,
                na == self.argv@.len(),
                c == self@,
                crate::layout::total_size(c) <= usize::MAX,
                base + crate::layout::total_size(c) <= u64::MAX,
                argv_a == base as int + off_argv_data(c),
                pre1 == crate::words::le_bytes(c.args.len() as u64),
                addr == argv_a + prefix_len(c.args, i as int),
                out@ == pre1 + crate::layout::slots_prefix(c.args, i as int, argv_a),
            decreases na - i,
        {
            proof {
                assert(c.args[i as int] == self.argv@[i as int]@);
                lemma_prefix_len_mono(c.args, i + 1, c.args.len() as int);
                lemma_total_bounds(c);
            }
            crate::words::append_word(&mut out, addr);
            addr = addr + self.argv[i].len() as u64;
            i = i + 1;
        }
        crate::words::append_word(&mut out, 0);
        let ghost pre2 = pre1 + crate::layout::slots_prefix(c.args, c.args.len() as int, argv_a)
            + crate::words::le_bytes(0);
        assert(out@ == pre2);

        // envv pointer slots, pointing into the envv data area
        let off_envv_data_e = self.offset_to_env_data_area();
        let ghost envv_a = base as int + off_envv_data(c);
        let mut addr: u64 = base + off_envv_data_e as u64;
        let ne = self.envv.len();
        let mut i: usize = 0;
        while i < ne
            invariant
                i <= ne,
                ne == self.envv@.len(),
                c == self@,
                crate::layout::total_size(c) <= usize::MAX,
                base + crate::layout::total_size(c) <= u64::MAX,
                envv_a == base as int + off_envv_data(c),
                pre2 == pre1 + crate::layout::slots_prefix(c.args, c.args.len() as int, argv_a)
                    + crate::words::le_bytes(0),
                addr == envv_a + prefix_len(c.envs, i as int),
                out@ == pre2 + crate::layout::slots_prefix(c.envs, i as int, envv_a),
            decreases ne - i,
        {
            proof {
                assert(c.envs[i as int] == self.envv@[i as int]@);
                lemma_prefix_len_mono(c.envs, i + 1, c.envs.len() as int);
                lemma_total_bounds(c);
            }
            crate::words::append_word(&mut out, addr);
            addr = addr + self.envv[i].len() as u64;
            i = i + 1;
        }
        crate::words::append_word(&mut out, 0);
        let ghost pre3 = pre2 + crate::layout::slots_prefix(c.envs, c.envs.len() as int, envv_a)
            + crate::words::le_bytes(0);
        assert(out@ == pre3);

        // auxv entries: key word, then immediate or translated pointer
        let off_auxv_data_e = self.offset_to_aux_data_area();
        let off_filename_e = self.offset_to_filename_data_area();
        let mut daddr: u64 = base + off_auxv_data_e as u64;
        let naux = self.auxv.len();
        let mut e: usize = 0;
        while e < naux
            invariant
                e <= naux,
                naux == self.auxv@.len(),
                c == self@,
                self.wf(),
                crate::layout::total_size(c) <= usize::MAX,
                base + crate::layout::total_size(c) <= u64::MAX,
                off_filename_e == off_filename(c),
                pre3 == pre2 + crate::layout::slots_prefix(c.envs, c.envs.len() as int, envv_a)
                    + crate::words::le_bytes(0),
                daddr == base as int + off_auxv_data(c) + dlen_prefix(c.auxs, e as int),
                out@ == pre3 + crate::layout::entries_prefix(c, e as int, base as int),
            decreases naux - e,
        {
            proof {
                assert(c.auxs[e as int] == self.auxv@[e as int]@);
                lemma_dlen_prefix_mono(c.auxs, e + 1, c.auxs.len() as int);
                lemma_total_bounds(c);
            }
            let t = self.auxv[e].key();
            crate::words::append_word(&mut out, t.val() as u64);
            if !t.value_in_data_area() {
                let v = self.auxv[e].value_raw();
                crate::words::append_word(&mut out, v);
            } else if matches!(t, AuxVarType::ExecFn) {
                crate::words::append_word(&mut out, base + off_filename_e as u64);
            } else {
                crate::words::append_word(&mut out, daddr);
                daddr = daddr + self.auxv[e].payload_ref().len() as u64;
            }
            e = e + 1;
            assert(out@ == pre3 + crate::layout::entries_prefix(c, e as int, base as int));
        }
        crate::words::append_word(&mut out, 0);
        crate::words::append_word(&mut out, 0);
        let ghost pre4 = pre3 + crate::layout::entries_prefix(c, c.auxs.len() as int, base as int)
            + crate::words::le_bytes(0) + crate::words::le_bytes(0);
        assert(out@ == pre4);

        // padding to the 16-byte boundary before the auxv data area
        let pad1 = off_auxv_data_e - (self.offset_to_aux_key_area() + self.aux_keys_size());
        crate::words::append_zeros(&mut out, pad1);
        let ghost pre5 = pre4 + crate::layout::zeros(
            off_auxv_data(c) - (off_auxv_keys(c) + 16 * (c.auxs.len() + 1)),
        );
        assert(out@ == pre5);

        // the auxv data area: payloads of data entries, filename excepted
        let mut e: usize = 0;
        while e < naux
            invariant
                e <= naux,
                naux == self.auxv@.len(),
                c == self@,
                pre5 == pre4 + crate::layout::zeros(
                    off_auxv_data(c) - (off_auxv_keys(c) + 16 * (c.auxs.len() + 1)),
                ),
                out@ == pre5 + crate::layout::data_prefix(c.auxs, e as int),
            decreases naux - e,
        {
            proof {
                assert(c.auxs[e as int] == self.auxv@[e as int]@);
            }
            let t = self.auxv[e].key();
            if t.value_in_data_area() && !matches!(t, AuxVarType::ExecFn) {
                crate::words::append_bytes(&mut out, self.auxv[e].payload_ref());
            } else {
                assert(out@ =~= pre5 + crate::layout::data_prefix(c.auxs, e as int)
                    + Seq::<u8>::empty());
            }
            e = e + 1;
            assert(out@ == pre5 + crate::layout::data_prefix(c.auxs, e as int));
        }
        let ghost pre6 = pre5 + crate::layout::data_prefix(c.auxs, c.auxs.len() as int);
        assert(out@ == pre6);

        // padding to the 16-byte boundary before the argv data area
        let pad2 = off_argv_data_e - (off_auxv_data_e + self.aux_data_area_size());
        crate::words::append_zeros(&mut out, pad2);
        let ghost pre7 = pre6 + crate::layout::zeros(
            off_argv_data(c) - (off_auxv_data(c) + dlen_prefix(c.auxs, c.auxs.len() as int)),
        );
        assert(out@ == pre7);

        // the argv data area: the argument strings
        let mut i: usize = 0;
        while i < na
            invariant
                i <= na,
                na == self.argv@.len(),
                c == self@,
                pre7 == pre6 + crate::layout::zeros(
                    off_argv_data(c) - (off_auxv_data(c) + dlen_prefix(
                        c.auxs,
                        c.auxs.len() as int,
                    )),
                ),
                out@ == pre7 + crate::layout::concat_prefix(c.args, i as int),
            decreases na - i,
        {
            proof {
                assert(c.args[i as int] == self.argv@[i as int]@);
            }
            crate::words::append_bytes(&mut out, &self.argv[i]);
            i = i + 1;
        }
        let ghost pre8 = pre7 + crate::layout::concat_prefix(c.args, c.args.len() as int);
        assert(out@ == pre8);

        // the envv data area: the environment strings
        let mut i: usize = 0;
        while i < ne
            invariant
                i <= ne,
                ne == self.envv@.len(),
                c == self@,
                pre8 == pre7 + crate::layout::concat_prefix(c.args, c.args.len() as int),
                out@ == pre8 + crate::layout::concat_prefix(c.envs, i as int),
            decreases ne - i,
        {
            proof {
                assert(c.envs[i as int] == self.envv@[i as int]@);
            }
            crate::words::append_bytes(&mut out, &self.envv[i]);
            i = i + 1;
        }
        let ghost pre9 = pre8 + crate::layout::concat_prefix(c.envs, c.envs.len() as int);
        assert(out@ == pre9);

        // the dedicated filename slot: the ExecFn payload, when present
        let mut e: usize = 0;
        while e < naux
            invariant
                e <= naux,
                naux == self.auxv@.len(),
                c == self@,
                pre9 == pre8 + crate::layout::concat_prefix(c.envs, c.envs.len() as int),
                out@ == pre9 + fname_prefix(c.auxs, e as int),
            decreases naux - e,
        {
            proof {
                assert(c.auxs[e as int] == self.auxv@[e as int]@);
            }
            let t = self.auxv[e].key();
            if matches!(t, AuxVarType::ExecFn) {
                crate::words::append_bytes(&mut out, self.auxv[e].payload_ref());
            } else {
                assert(out@ =~= pre9 + fname_prefix(c.auxs, e as int) + Seq::<u8>::empty());
            }
            e = e + 1;
            assert(out@ == pre9 + fname_prefix(c.auxs, e as int));
        }
        assert(out@ == pre9 + fname_prefix(c.auxs, c.auxs.len() as int));

        // the final sentinel word
        crate::words::append_word(&mut out, 0);
        assert(out@ == crate::layout::layout(c, base as int));
        out
    }
}

/// Sums the lengths of the stored strings.
fn sum_str_lens(v: &Vec<Vec<u8>>, strs: Ghost<Seq<Seq<u8>>>) -> (r: usize)
    requires
        strs@ == v@.map_values(|s: Vec<u8>| s@),
        prefix_len(strs@, strs@.len() as int) <= usize::MAX,
    ensures
        r == prefix_len(strs@, strs@.len() as int),
{
    let n = v.len();
    let mut acc: usize = 0;
    let mut i: usize = 0;
    while i < n
        invariant
            i <= n,
            n == v@.len(),
            strs@ == v@.map_values(|s: Vec<u8>| s@),
            prefix_len(strs@, strs@.len() as int) <= usize::MAX,
            acc == prefix_len(strs@, i as int),
        decreases n - i,
    {
        proof {
            assert(strs@[i as int] == v@[i as int]@);
            lemma_prefix_len_mono(strs@, i + 1, strs@.len() as int);
        }
        acc = acc + v[i].len();
        i = i + 1;
    }
    acc
}

/// The filename slot's length over a prefix never shrinks and never exceeds
/// the full slot's length.
proof fn lemma_fname_len_bounded(auxs: Seq<AuxVarView>, j: int, k: int)
    requires
        0 <= j <= k,
    ensures
        fname_prefix(auxs, j).len() <= fname_prefix(auxs, k).len(),
    decreases k - j,
{
    if j < k {
        lemma_fname_len_bounded(auxs, j + 1, k);
    }
}

/// Rounds up to the next multiple of 16.
fn align16(x: usize) -> (r: usize)
    requires
        round16(x as int) <= usize::MAX,
    ensures
        r == round16(x as int),
{
    let m = x % 16;
    if m == 0 {
        x
    } else {
        x + (16 - m)
    }
}

/// The positional form of [`spec_insert`]: when `idx` is the first position
/// whose key does not sort before `v.key`, inserting lands exactly there,
/// replacing the entry when the keys coincide.
proof fn lemma_insert_shape(s: Seq<AuxVarView>, v: AuxVarView, idx: int)
    requires
        0 <= idx <= s.len(),
        forall|j: int| 0 <= j < idx ==> spec_key_lt((#[trigger] s[j]).key, v.key),
        idx < s.len() ==> !spec_key_lt(s[idx].key, v.key),
    ensures
        (idx < s.len() && s[idx].key == v.key) ==> spec_insert(s, v) == s.update(idx, v),
        !(idx < s.len() && s[idx].key == v.key) ==> spec_insert(s, v) == s.take(idx) + seq![v]
            + s.skip(idx),
    decreases idx,
{
    if idx == 0 {
        if s.len() == 0 {
            assert(spec_insert(s, v) =~= s.take(0) + seq![v] + s.skip(0));
        } else if s[0].key == v.key {
            assert(spec_insert(s, v) =~= s.update(0, v));
        } else {
            assert(spec_insert(s, v) =~= s.take(0) + seq![v] + s.skip(0));
        }
    } else {
        let d = s.drop_first();
        assert forall|j: int| 0 <= j < idx - 1 implies spec_key_lt(
            (#[trigger] d[j]).key,
            v.key,
        ) by {
            assert(d[j] == s[j + 1]);
        }
        lemma_insert_shape(d, v, idx - 1);
        if idx < s.len() && s[idx].key == v.key {
            assert(spec_insert(s, v) =~= s.update(idx, v));
        } else {
            assert(spec_insert(s, v) =~= s.take(idx) + seq![v] + s.skip(idx));
        }
    }
}

/// Inserting a well-formed non-marker entry at its sorted position keeps
/// the entry run strictly ordered, marker-free and well formed.
proof fn lemma_insert_wf_helper(s: Seq<AuxVarView>, v: AuxVarView, idx: int, replace: bool)
    requires
        0 <= idx <= s.len(),
        forall|i: int, j: int|
            0 <= i < j < s.len() ==> spec_key_lt((#[trigger] s[i]).key, (#[trigger] s[j]).key),
        forall|i: int| 0 <= i < s.len() ==> (#[trigger] s[i]).key != AuxVarType::Null,
        forall|i: int| 0 <= i < s.len() ==> spec_view_wf(#[trigger] s[i]),
        forall|j: int| 0 <= j < idx ==> spec_key_lt((#[trigger] s[j]).key, v.key),
        idx < s.len() ==> !spec_key_lt(s[idx].key, v.key),
        replace <==> (idx < s.len() && s[idx].key == v.key),
        v.key != AuxVarType::Null,
        spec_view_wf(v),
    ensures
        ({
            let r = spec_insert(s, v);
            &&& forall|i: int, j: int|
                0 <= i < j < r.len() ==> spec_key_lt((#[trigger] r[i]).key, (#[trigger] r[j]).key)
            &&& forall|i: int| 0 <= i < r.len() ==> (#[trigger] r[i]).key != AuxVarType::Null
            &&& forall|i: int| 0 <= i < r.len() ==> spec_view_wf(#[trigger] r[i])
        }),
{
    lemma_key_lt_props();
    lemma_insert_shape(s, v, idx);
    let r = spec_insert(s, v);
    if replace {
        assert(r == s.update(idx, v));
        assert forall|i: int, j: int| 0 <= i < j < r.len() implies spec_key_lt(
            (#[trigger] r[i]).key,
            (#[trigger] r[j]).key,
        ) by {
            if i != idx && j != idx {
                assert(r[i] == s[i] && r[j] == s[j]);
            } else if j == idx {
                assert(r[i] == s[i]);
                assert(spec_key_lt(s[i].key, v.key));
            } else {
                assert(r[j] == s[j]);
                assert(spec_key_lt(s[idx].key, s[j].key));
            }
        }
    } else {
        assert(r == s.take(idx) + seq![v] + s.skip(idx));
        assert(idx < s.len() ==> spec_key_lt(v.key, s[idx].key));
        assert forall|i: int, j: int| 0 <= i < j < r.len() implies spec_key_lt(
            (#[trigger] r[i]).key,
            (#[trigger] r[j]).key,
        ) by {
            assert(r.len() == s.len() + 1);
            assert(forall|t: int| 0 <= t < idx ==> r[t] == s[t]);
            assert(r[idx] == v);
            assert(forall|t: int| idx < t < r.len() ==> r[t] == s[t - 1]);
            if i < idx && j < idx {
            } else if j == idx {
                assert(spec_key_lt(s[i].key, v.key));
            } else if i == idx {
                assert(spec_key_lt(v.key, s[idx].key));
                if j > idx + 1 {
                    assert(spec_key_lt(s[idx].key, s[j - 1].key));
                }
            } else if i < idx {
                assert(spec_key_lt(s[i].key, s[j - 1].key));
            } else {
                assert(spec_key_lt(s[i - 1].key, s[j - 1].key));
            }
        }
        assert forall|i: int| 0 <= i < r.len() implies (#[trigger] r[i]).key != AuxVarType::Null
            && spec_view_wf(r[i]) by {
            if i < idx {
                assert(r[i] == s[i]);
            } else if i == idx {
                assert(r[i] == v);
            } else {
                assert(r[i] == s[i - 1]);
            }
        }
    }
}

} // verus!
