//! Tests for the builder: offsets, serialization, and round trips through
//! the parser.

use linux_libc_auxv::AuxVar;
use linux_libc_auxv::AuxVarType;
use linux_libc_auxv::StackLayoutBuilder;
use linux_libc_auxv::StackLayoutRef;

fn read_word(bytes: &[u8], off: usize) -> u64 {
    let mut w: u64 = 0;
    for k in 0..8 {
        w |= (bytes[off + k] as u64) << (8 * k);
    }
    w
}

fn collect_ptrs(layout: &StackLayoutRef, which: &str) -> Vec<u64> {
    let mut it = match which {
        "argv" => layout.argv_raw_iter(),
        _ => layout.envv_raw_iter(),
    };
    let mut out = Vec::new();
    while let Some(r) = it.next() {
        out.push(r.expect("raw pointer iteration failed"));
    }
    out
}

fn collect_strings(layout: &StackLayoutRef, base: u64, which: &str) -> Vec<Vec<u8>> {
    let mut it = match which {
        "argv" => layout.argv_iter(base),
        _ => layout.envv_iter(base),
    };
    let mut out = Vec::new();
    while let Some(r) = it.next() {
        out.push(r.expect("string iteration failed").to_vec());
    }
    out
}

fn collect_aux(layout: &StackLayoutRef, base: u64) -> Vec<AuxVar> {
    let mut it = layout.auxv_iter(base);
    let mut out = Vec::new();
    while let Some(r) = it.next() {
        out.push(r.expect("aux iteration failed"));
    }
    out
}

#[test]
fn test_builder() {
    let builder = StackLayoutBuilder::new()
        .add_argv(b"first arg".to_vec())
        .add_argv(b"second arg".to_vec())
        .add_envv(b"var1=foo".to_vec())
        .add_envv(b"var2=bar".to_vec())
        .add_auxv(AuxVar::EGid(11337))
        .add_auxv(AuxVar::Gid(21337))
        .add_auxv(AuxVar::Random(vec![
            0, 1, 2, 3, 4, 5, 6, 7, 8, 9, 10, 11, 12, 13, 14, 15,
        ]))
        .add_auxv(AuxVar::Uid(31337))
        .add_auxv(AuxVar::ExecFn(b"ExecFn as &CStr".to_vec()))
        .add_auxv(AuxVar::Platform(b"Platform as &str".to_vec()))
        .add_auxv(AuxVar::BasePlatform(b"Base Platform as &str".to_vec()));
    let buf = builder.serialize_to_vec(0);

    // now parse the layout
    let layout = StackLayoutRef::new(&buf, None);

    assert_eq!(layout.argc(), 2);

    // argv
    {
        assert_eq!(collect_ptrs(&layout, "argv").len(), 2);
        let args = collect_strings(&layout, 0, "argv");
        assert_eq!(args, vec![b"first arg\0".to_vec(), b"second arg\0".to_vec()]);
    }

    // envv
    {
        assert_eq!(layout.envc(), 2);
        let envs = collect_strings(&layout, 0, "envv");
        assert_eq!(envs, vec![b"var1=foo\0".to_vec(), b"var2=bar\0".to_vec()]);
    }

    // auxv
    {
        assert_eq!(layout.auxvc(), 7);
    }

    // now test the strings match
    let aux = collect_aux(&layout, 0);
    let get_str = |key: AuxVarType| -> String {
        let entry = aux.iter().find(|e| e.key() == key).unwrap();
        let payload = entry.value_payload_str().unwrap();
        // strip the terminating NUL byte
        String::from_utf8(payload[..payload.len() - 1].to_vec()).unwrap()
    };
    assert_eq!(get_str(AuxVarType::ExecFn), "ExecFn as &CStr");
    assert_eq!(get_str(AuxVarType::BasePlatform), "Base Platform as &str");
}

#[test]
fn test_round_trip_all_content() {
    let builder = StackLayoutBuilder::new()
        .add_argv(b"zero".to_vec())
        .add_argv(b"one".to_vec())
        .add_argv(b"two".to_vec())
        .add_envv(b"ENVVAR1=1".to_vec())
        .add_envv(b"ENVVAR2=2".to_vec())
        .add_auxv(AuxVar::Clktck(100))
        .add_auxv(AuxVar::Pagesz(4096))
        .add_auxv(AuxVar::Secure(false))
        .add_auxv(AuxVar::NotElf(true))
        .add_auxv(AuxVar::Flags(linux_libc_auxv::AuxVarFlags::preserve_argv0()))
        .add_auxv(AuxVar::Entry(0x4010c0))
        .add_auxv(AuxVar::Random(vec![9u8; 16]))
        .add_auxv(AuxVar::Platform(b"x86_64".to_vec()))
        .add_auxv(AuxVar::ExecFn(b"./stackdump".to_vec()));
    let base: u64 = 0x7fff_6c84_2e90;
    let buf = builder.serialize_to_vec(base);
    assert_eq!(buf.len(), builder.total_size());

    let layout = StackLayoutRef::new(&buf, None);
    assert_eq!(layout.argc(), 3);
    assert_eq!(layout.envc(), 2);
    assert_eq!(layout.auxvc(), 9);

    let args = collect_strings(&layout, base, "argv");
    assert_eq!(args, vec![b"zero\0".to_vec(), b"one\0".to_vec(), b"two\0".to_vec()]);
    let envs = collect_strings(&layout, base, "envv");
    assert_eq!(envs, vec![b"ENVVAR1=1\0".to_vec(), b"ENVVAR2=2\0".to_vec()]);

    let aux = collect_aux(&layout, base);
    assert_eq!(aux.len(), 9);
    assert_eq!(aux[0], AuxVar::Pagesz(4096));
    assert_eq!(aux[1], AuxVar::Flags(linux_libc_auxv::AuxVarFlags::preserve_argv0()));
    assert_eq!(aux[2], AuxVar::Entry(0x4010c0));
    assert_eq!(aux[3], AuxVar::NotElf(true));
    assert_eq!(aux[4], AuxVar::Platform(b"x86_64\0".to_vec()));
    assert_eq!(aux[5], AuxVar::Clktck(100));
    assert_eq!(aux[6], AuxVar::Secure(false));
    assert_eq!(aux[7], AuxVar::Random(vec![9u8; 16]));
    assert_eq!(aux[8], AuxVar::ExecFn(b"./stackdump\0".to_vec()));
}

/// The concrete scenario: arguments `["./a\0", "b"]`, environment
/// `["K=V"]`, one clock-tick entry, serialized for target address 0x1000.
#[test]
fn test_scenario_offsets_and_words() {
    let builder = StackLayoutBuilder::new()
        .add_argv(b"./a\0".to_vec())
        .add_argv(b"b".to_vec())
        .add_envv(b"K=V".to_vec())
        .add_auxv(AuxVar::Clktck(100));

    // region sizes, exactly as the size calculator defines them
    assert_eq!(builder.offset_to_argv_key_area(), 8);
    assert_eq!(builder.argv_keys_size(), 24);
    assert_eq!(builder.offset_to_envv_key_area(), 32);
    assert_eq!(builder.envv_keys_size(), 16);
    assert_eq!(builder.offset_to_aux_key_area(), 48);
    assert_eq!(builder.aux_keys_size(), 32);
    assert_eq!(builder.offset_to_aux_data_area(), 80);
    assert_eq!(builder.aux_data_area_size(), 0);
    assert_eq!(builder.offset_to_argv_data_area(), 80);
    assert_eq!(builder.argv_data_area_size(), 6);
    assert_eq!(builder.offset_to_env_data_area(), 86);
    assert_eq!(builder.envv_data_area_size(), 4);
    assert_eq!(builder.offset_to_filename_data_area(), 90);
    assert_eq!(builder.filename_data_size(), 0);
    assert_eq!(builder.offset_to_final_null(), 90);
    assert_eq!(builder.total_size(), 98);

    // the data areas begin on 16-byte boundaries
    assert_eq!(builder.offset_to_aux_data_area() % 16, 0);
    assert_eq!(builder.offset_to_argv_data_area() % 16, 0);

    let buf = builder.serialize_to_vec(0x1000);
    assert_eq!(buf.len(), 98);

    // argc
    assert_eq!(read_word(&buf, 0), 2);
    // argv pointers into the argv data area, in the target address space
    assert_eq!(read_word(&buf, 8), 0x1000 + 80);
    assert_eq!(read_word(&buf, 16), 0x1000 + 84);
    assert_eq!(read_word(&buf, 24), 0);
    // envv pointer and terminator
    assert_eq!(read_word(&buf, 32), 0x1000 + 86);
    assert_eq!(read_word(&buf, 40), 0);
    // the clock-tick entry, then the end marker (key 0, value 0)
    assert_eq!(read_word(&buf, 48), 17);
    assert_eq!(read_word(&buf, 56), 100);
    assert_eq!(read_word(&buf, 64), 0);
    assert_eq!(read_word(&buf, 72), 0);
    // argv data: "./a\0" then "b" with the appended NUL
    assert_eq!(&buf[80..86], b"./a\0b\0");
    // envv data
    assert_eq!(&buf[86..90], b"K=V\0");
    // final sentinel
    assert_eq!(read_word(&buf, 90), 0);
}

/// A string payload entry serializes its bytes into the auxv data area,
/// with the entry's value pointing at them in the target address space and
/// a trailing NUL appended when the caller's string lacked one.
#[test]
fn test_scenario_string_payload() {
    let base: u64 = 0x8000;
    let builder = StackLayoutBuilder::new().add_auxv(AuxVar::Platform(b"x86_64".to_vec()));
    let buf = builder.serialize_to_vec(base);

    let aux_data = builder.offset_to_aux_data_area();
    let aux_keys = builder.offset_to_aux_key_area();
    assert_eq!(read_word(&buf, aux_keys), 15);
    assert_eq!(read_word(&buf, aux_keys + 8), base + aux_data as u64);
    assert_eq!(&buf[aux_data..aux_data + 7], b"x86_64\0");
}

/// The end marker is the last auxv entry whatever was inserted, an
/// explicit end marker included.
#[test]
fn test_end_marker_always_last() {
    let builder = StackLayoutBuilder::new()
        .add_auxv(AuxVar::Null)
        .add_auxv(AuxVar::Clktck(0x1337))
        .add_auxv(AuxVar::Platform(b"x86_64".to_vec()))
        .add_auxv(AuxVar::Null);
    let buf = builder.serialize_to_vec(0);
    let layout = StackLayoutRef::new(&buf, None);
    assert_eq!(layout.auxvc(), 2);

    let aux_keys = builder.offset_to_aux_key_area();
    // two entries, then the end marker with key and value zero
    assert_eq!(read_word(&buf, aux_keys + 32), 0);
    assert_eq!(read_word(&buf, aux_keys + 40), 0);
}

/// Inserting two entries with the same key keeps exactly one, holding the
/// later value.
#[test]
fn test_duplicate_key_collapse() {
    let builder = StackLayoutBuilder::new()
        .add_auxv(AuxVar::Clktck(1))
        .add_auxv(AuxVar::Uid(7))
        .add_auxv(AuxVar::Clktck(2));
    let buf = builder.serialize_to_vec(0);
    let layout = StackLayoutRef::new(&buf, None);
    assert_eq!(layout.auxvc(), 2);
    let aux = collect_aux(&layout, 0);
    assert_eq!(aux, vec![AuxVar::Uid(7), AuxVar::Clktck(2)]);
}

/// Serializing for a foreign address space keeps raw iteration safe and
/// offsets every stored pointer by the difference of the bases.
#[test]
fn test_foreign_address_offsets() {
    let builder = StackLayoutBuilder::new()
        .add_argv(b"a".to_vec())
        .add_argv(b"bb".to_vec())
        .add_envv(b"K=V".to_vec())
        .add_auxv(AuxVar::Clktck(100))
        .add_auxv(AuxVar::Platform(b"x86_64".to_vec()));
    let near = builder.serialize_to_vec(0x1000);
    let far = builder.serialize_to_vec(0x5000);
    let delta = 0x4000;

    let l_near = StackLayoutRef::new(&near, None);
    let l_far = StackLayoutRef::new(&far, None);

    // raw iteration completes without resolving anything
    let p_near = collect_ptrs(&l_near, "argv");
    let p_far = collect_ptrs(&l_far, "argv");
    assert_eq!(p_near.len(), 2);
    assert_eq!(p_far.len(), 2);
    for (a, b) in p_near.iter().zip(p_far.iter()) {
        assert_eq!(a + delta, *b);
    }
    let e_near = collect_ptrs(&l_near, "envv");
    let e_far = collect_ptrs(&l_far, "envv");
    for (a, b) in e_near.iter().zip(e_far.iter()) {
        assert_eq!(a + delta, *b);
    }

    // raw auxv iteration: keys and immediates agree; data pointers shift
    let mut it_near = l_near.auxv_raw_iter();
    let mut it_far = l_far.auxv_raw_iter();
    loop {
        match (it_near.next(), it_far.next()) {
            (None, None) => break,
            (Some(Ok(a)), Some(Ok(b))) => {
                assert_eq!(a.key_raw(), b.key_raw());
                if a.key().unwrap().value_in_data_area() {
                    assert_eq!(a.value() + delta, b.value());
                } else {
                    assert_eq!(a.value(), b.value());
                }
            },
            other => panic!("iteration mismatch: {:?}", other),
        }
    }
}

#[test]
fn test_empty_builder() {
    let builder = StackLayoutBuilder::new();
    // argc word, two null slots, the end marker, padding to the 16-byte
    // boundary, the final sentinel
    assert_eq!(builder.offset_to_aux_data_area(), 48);
    assert_eq!(builder.total_size(), 56);
    let buf = builder.serialize_to_vec(0x1000);
    let layout = StackLayoutRef::new(&buf, None);
    assert_eq!(layout.argc(), 0);
    assert_eq!(layout.envc(), 0);
    assert_eq!(layout.auxvc(), 0);
    assert!(buf.iter().all(|&b| b == 0));
}

#[test]
fn test_serialize_into_buf_leaves_tail() {
    let builder = StackLayoutBuilder::new().add_argv(b"x".to_vec());
    let total = builder.total_size();
    let mut buf = vec![0xaau8; total + 10];
    builder.serialize_into_buf(&mut buf, 0x1000);
    assert_eq!(&buf[..total], builder.serialize_to_vec(0x1000).as_slice());
    assert_eq!(&buf[total..], &[0xaau8; 10]);
}
