//! Tests for the auxiliary-variable model: key codes, classification,
//! ordering, flags, and the raw entry pair.

use linux_libc_auxv::AuxVar;
use linux_libc_auxv::AuxVarFlags;
use linux_libc_auxv::AuxVarRaw;
use linux_libc_auxv::AuxVarType;

/// Sorts keys with the builder's comparison (end marker last) by insertion
/// into a vector, dropping duplicates.
fn sorted_key_set(keys: &[AuxVarType]) -> Vec<AuxVarType> {
    let mut out: Vec<AuxVarType> = Vec::new();
    for &k in keys {
        let mut i = 0;
        while i < out.len() && out[i].sorts_before(k) {
            i += 1;
        }
        if i < out.len() && out[i] == k {
            out[i] = k;
        } else {
            out.insert(i, k);
        }
    }
    out
}

#[test]
fn test_variants_are_sorted() {
    // The canonical listing ascends strictly by ABI code.
    let variants = AuxVarType::variants();
    assert_eq!(variants.len(), 34);
    for pair in variants.windows(2) {
        assert!(pair[0].val() < pair[1].val());
    }
}

/// Tests that the Null entry always comes last in an ordered collection.
/// This enables us to easily write all AT-VARs at once but keep the
/// terminating null entry at the end.
#[test]
fn test_aux_var_key_order() {
    let set = sorted_key_set(&[
        AuxVarType::ExecFn,
        AuxVarType::Platform,
        AuxVarType::Null,
        AuxVarType::Clktck,
        AuxVarType::ExecFn,
    ]);
    assert_eq!(set.last(), Some(&AuxVarType::Null));
    assert_eq!(set.len(), 4);
}

/// Tests that the Null entry always comes last in an ordered collection of
/// full entries, whose order is their key's order.
#[test]
fn test_aux_var_order() {
    let entries = vec![
        AuxVar::ExecFn(b"./executable".to_vec()),
        AuxVar::Platform(b"x86_64".to_vec()),
        AuxVar::Null,
        AuxVar::Clktck(0x1337),
        AuxVar::ExecFn(b"./executable".to_vec()),
    ];
    let keys: Vec<AuxVarType> = entries.iter().map(|e| e.key()).collect();
    let set = sorted_key_set(&keys);
    assert_eq!(*set.last().unwrap(), AuxVarType::Null);
}

#[test]
fn aux_vars_test_serialized_aux_entry_size() {
    assert_eq!(std::mem::size_of::<AuxVarRaw>(), 16);
}

#[test]
fn serialized_test_serialized_aux_entry_size() {
    assert_eq!(std::mem::size_of::<AuxVarRaw>(), 16);
    // On the 64-bit targets this crate serializes for, an entry is two
    // machine words.
    assert_eq!(std::mem::size_of::<AuxVarRaw>(), 2 * std::mem::size_of::<u64>());
}

#[test]
fn test_aux_var_raw_accessors() {
    let raw = AuxVarRaw::new(17, 100);
    assert_eq!(raw.key(), Ok(AuxVarType::Clktck));
    assert_eq!(raw.key_raw(), 17);
    assert_eq!(raw.value(), 100);

    let bad = AuxVarRaw::new(99, 0);
    assert_eq!(bad.key(), Err(linux_libc_auxv::ParseAuxVarTypeError(99)));
}

#[test]
fn test_try_from_val_round_trip() {
    for t in AuxVarType::variants() {
        assert_eq!(AuxVarType::try_from_val(t.val() as u64), Ok(t));
    }
    for bad in [18u64, 22, 27, 30, 34, 39, 48, 50, 52, 1000] {
        assert_eq!(
            AuxVarType::try_from_val(bad),
            Err(linux_libc_auxv::ParseAuxVarTypeError(bad))
        );
    }
}

#[test]
fn test_value_classification() {
    assert!(AuxVarType::Platform.value_in_data_area());
    assert!(AuxVarType::BasePlatform.value_in_data_area());
    assert!(AuxVarType::Random.value_in_data_area());
    assert!(AuxVarType::ExecFn.value_in_data_area());
    assert!(!AuxVarType::Clktck.value_in_data_area());
    assert!(!AuxVarType::Null.value_in_data_area());

    assert!(AuxVarType::Platform.value_is_cstr());
    assert!(!AuxVarType::Random.value_is_cstr());

    assert_eq!(AuxVarType::Random.data_area_val_size_hint(), Some(16));
    assert_eq!(AuxVarType::Platform.data_area_val_size_hint(), None);
}

#[test]
fn test_aux_var_accessors() {
    assert_eq!(AuxVar::Uid(1000).key(), AuxVarType::Uid);
    assert_eq!(AuxVar::Uid(1000).value_integer(), Some(1000));
    assert_eq!(AuxVar::Uid(1000).value_raw(), 1000);
    assert_eq!(AuxVar::Uid(1000).value_boolean(), None);

    assert_eq!(AuxVar::Secure(true).value_boolean(), Some(true));
    assert_eq!(AuxVar::Secure(true).value_raw(), 1);
    assert_eq!(AuxVar::NotElf(false).value_raw(), 0);

    assert_eq!(AuxVar::Entry(0x4010c0).value_ptr(), Some(0x4010c0));
    assert_eq!(AuxVar::Entry(0x4010c0).value_integer(), None);

    let f = AuxVarFlags::preserve_argv0();
    assert_eq!(AuxVar::Flags(f).value_flags(), Some(f));
    assert_eq!(AuxVar::Flags(f).value_raw(), 1);

    let plat = AuxVar::Platform(b"x86_64\0".to_vec());
    assert_eq!(plat.value_payload_str().map(|v| v.as_slice()), Some(&b"x86_64\0"[..]));
    assert_eq!(plat.value_payload_bytes(), None);

    let rand = AuxVar::Random(vec![7u8; 16]);
    assert_eq!(rand.value_payload_bytes().map(|v| v.len()), Some(16));
    assert_eq!(rand.value_payload_str(), None);
}

#[test]
fn test_flags() {
    assert_eq!(AuxVarFlags::empty().bits(), 0);
    assert_eq!(AuxVarFlags::preserve_argv0().bits(), 1);
    assert!(AuxVarFlags::preserve_argv0().preserves_argv0());
    assert!(!AuxVarFlags::empty().preserves_argv0());
    assert_eq!(AuxVarFlags::from_bits_truncate(0xfe).bits(), 0);
    assert_eq!(AuxVarFlags::from_bits_truncate(0xff).bits(), 1);
}
