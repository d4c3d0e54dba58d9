//! Tests for the parser: a stack layout captured from a real Linux
//! process at startup, and the hard-failure paths on malformed buffers.

use linux_libc_auxv::AuxVarType;
use linux_libc_auxv::StackLayoutRef;
use linux_libc_auxv::StackParseError;

/// Extracted from a Linux application (x86-64) during startup.
fn real_layout() -> Vec<u8> {
    vec![
        4, 0, 0, 0, 0, 0, 0, 0, 190, 252, 185, 93, 255, 127, 0, 0, 237, 252, 185, 93,
        255, 127, 0, 0, 243, 252, 185, 93, 255, 127, 0, 0, 250, 252, 185, 93, 255, 127, 0, 0,
        0, 0, 0, 0, 0, 0, 0, 0, 0, 253, 185, 93, 255, 127, 0, 0, 109, 253, 185, 93,
        255, 127, 0, 0, 191, 253, 185, 93, 255, 127, 0, 0, 224, 253, 185, 93, 255, 127, 0, 0,
        22, 254, 185, 93, 255, 127, 0, 0, 88, 254, 185, 93, 255, 127, 0, 0, 144, 254, 185, 93,
        255, 127, 0, 0, 70, 0, 186, 93, 255, 127, 0, 0, 133, 0, 186, 93, 255, 127, 0, 0,
        155, 0, 186, 93, 255, 127, 0, 0, 179, 0, 186, 93, 255, 127, 0, 0, 210, 0, 186, 93,
        255, 127, 0, 0, 237, 0, 186, 93, 255, 127, 0, 0, 46, 1, 186, 93, 255, 127, 0, 0,
        76, 1, 186, 93, 255, 127, 0, 0, 100, 1, 186, 93, 255, 127, 0, 0, 126, 1, 186, 93,
        255, 127, 0, 0, 152, 1, 186, 93, 255, 127, 0, 0, 178, 1, 186, 93, 255, 127, 0, 0,
        201, 1, 186, 93, 255, 127, 0, 0, 24, 2, 186, 93, 255, 127, 0, 0, 78, 2, 186, 93,
        255, 127, 0, 0, 100, 2, 186, 93, 255, 127, 0, 0, 122, 2, 186, 93, 255, 127, 0, 0,
        133, 2, 186, 93, 255, 127, 0, 0, 179, 2, 186, 93, 255, 127, 0, 0, 192, 2, 186, 93,
        255, 127, 0, 0, 134, 15, 186, 93, 255, 127, 0, 0, 226, 15, 186, 93, 255, 127, 0, 0,
        243, 15, 186, 93, 255, 127, 0, 0, 8, 16, 186, 93, 255, 127, 0, 0, 216, 16, 186, 93,
        255, 127, 0, 0, 119, 18, 186, 93, 255, 127, 0, 0, 215, 18, 186, 93, 255, 127, 0, 0,
        251, 18, 186, 93, 255, 127, 0, 0, 110, 29, 186, 93, 255, 127, 0, 0, 134, 29, 186, 93,
        255, 127, 0, 0, 167, 29, 186, 93, 255, 127, 0, 0, 190, 29, 186, 93, 255, 127, 0, 0,
        33, 31, 186, 93, 255, 127, 0, 0, 244, 33, 186, 93, 255, 127, 0, 0, 8, 34, 186, 93,
        255, 127, 0, 0, 189, 35, 186, 93, 255, 127, 0, 0, 236, 35, 186, 93, 255, 127, 0, 0,
        81, 36, 186, 93, 255, 127, 0, 0, 181, 36, 186, 93, 255, 127, 0, 0, 37, 37, 186, 93,
        255, 127, 0, 0, 60, 37, 186, 93, 255, 127, 0, 0, 77, 37, 186, 93, 255, 127, 0, 0,
        100, 37, 186, 93, 255, 127, 0, 0, 130, 37, 186, 93, 255, 127, 0, 0, 157, 37, 186, 93,
        255, 127, 0, 0, 181, 37, 186, 93, 255, 127, 0, 0, 201, 37, 186, 93, 255, 127, 0, 0,
        224, 37, 186, 93, 255, 127, 0, 0, 245, 37, 186, 93, 255, 127, 0, 0, 14, 38, 186, 93,
        255, 127, 0, 0, 34, 38, 186, 93, 255, 127, 0, 0, 194, 39, 186, 93, 255, 127, 0, 0,
        227, 39, 186, 93, 255, 127, 0, 0, 43, 40, 186, 93, 255, 127, 0, 0, 14, 41, 186, 93,
        255, 127, 0, 0, 78, 41, 186, 93, 255, 127, 0, 0, 190, 41, 186, 93, 255, 127, 0, 0,
        207, 41, 186, 93, 255, 127, 0, 0, 239, 41, 186, 93, 255, 127, 0, 0, 108, 49, 186, 93,
        255, 127, 0, 0, 124, 49, 186, 93, 255, 127, 0, 0, 12, 50, 186, 93, 255, 127, 0, 0,
        63, 50, 186, 93, 255, 127, 0, 0, 81, 50, 186, 93, 255, 127, 0, 0, 188, 50, 186, 93,
        255, 127, 0, 0, 231, 50, 186, 93, 255, 127, 0, 0, 140, 51, 186, 93, 255, 127, 0, 0,
        193, 51, 186, 93, 255, 127, 0, 0, 253, 51, 186, 93, 255, 127, 0, 0, 133, 52, 186, 93,
        255, 127, 0, 0, 56, 53, 186, 93, 255, 127, 0, 0, 117, 53, 186, 93, 255, 127, 0, 0,
        200, 53, 186, 93, 255, 127, 0, 0, 242, 53, 186, 93, 255, 127, 0, 0, 253, 53, 186, 93,
        255, 127, 0, 0, 210, 56, 186, 93, 255, 127, 0, 0, 220, 56, 186, 93, 255, 127, 0, 0,
        3, 57, 186, 93, 255, 127, 0, 0, 60, 58, 186, 93, 255, 127, 0, 0, 165, 58, 186, 93,
        255, 127, 0, 0, 187, 58, 186, 93, 255, 127, 0, 0, 222, 58, 186, 93, 255, 127, 0, 0,
        15, 59, 186, 93, 255, 127, 0, 0, 38, 59, 186, 93, 255, 127, 0, 0, 120, 59, 186, 93,
        255, 127, 0, 0, 157, 59, 186, 93, 255, 127, 0, 0, 165, 59, 186, 93, 255, 127, 0, 0,
        10, 60, 186, 93, 255, 127, 0, 0, 51, 60, 186, 93, 255, 127, 0, 0, 83, 60, 186, 93,
        255, 127, 0, 0, 130, 60, 186, 93, 255, 127, 0, 0, 152, 60, 186, 93, 255, 127, 0, 0,
        172, 60, 186, 93, 255, 127, 0, 0, 209, 60, 186, 93, 255, 127, 0, 0, 223, 61, 186, 93,
        255, 127, 0, 0, 20, 62, 186, 93, 255, 127, 0, 0, 47, 62, 186, 93, 255, 127, 0, 0,
        67, 62, 186, 93, 255, 127, 0, 0, 81, 62, 186, 93, 255, 127, 0, 0, 99, 62, 186, 93,
        255, 127, 0, 0, 112, 62, 186, 93, 255, 127, 0, 0, 138, 62, 186, 93, 255, 127, 0, 0,
        192, 62, 186, 93, 255, 127, 0, 0, 237, 64, 186, 93, 255, 127, 0, 0, 43, 66, 186, 93,
        255, 127, 0, 0, 69, 66, 186, 93, 255, 127, 0, 0, 29, 76, 186, 93, 255, 127, 0, 0,
        52, 76, 186, 93, 255, 127, 0, 0, 83, 76, 186, 93, 255, 127, 0, 0, 106, 76, 186, 93,
        255, 127, 0, 0, 132, 76, 186, 93, 255, 127, 0, 0, 157, 76, 186, 93, 255, 127, 0, 0,
        193, 76, 186, 93, 255, 127, 0, 0, 237, 76, 186, 93, 255, 127, 0, 0, 30, 77, 186, 93,
        255, 127, 0, 0, 76, 77, 186, 93, 255, 127, 0, 0, 109, 77, 186, 93, 255, 127, 0, 0,
        159, 77, 186, 93, 255, 127, 0, 0, 180, 77, 186, 93, 255, 127, 0, 0, 220, 77, 186, 93,
        255, 127, 0, 0, 43, 78, 186, 93, 255, 127, 0, 0, 60, 78, 186, 93, 255, 127, 0, 0,
        81, 78, 186, 93, 255, 127, 0, 0, 115, 78, 186, 93, 255, 127, 0, 0, 211, 78, 186, 93,
        255, 127, 0, 0, 236, 78, 186, 93, 255, 127, 0, 0, 18, 79, 186, 93, 255, 127, 0, 0,
        53, 79, 186, 93, 255, 127, 0, 0, 95, 79, 186, 93, 255, 127, 0, 0, 116, 79, 186, 93,
        255, 127, 0, 0, 141, 79, 186, 93, 255, 127, 0, 0, 170, 79, 186, 93, 255, 127, 0, 0,
        0, 0, 0, 0, 0, 0, 0, 0, 33, 0, 0, 0, 0, 0, 0, 0, 0, 208, 160, 43,
        202, 127, 0, 0, 51, 0, 0, 0, 0, 0, 0, 0, 48, 14, 0, 0, 0, 0, 0, 0,
        16, 0, 0, 0, 0, 0, 0, 0, 255, 251, 235, 191, 0, 0, 0, 0, 6, 0, 0, 0,
        0, 0, 0, 0, 0, 16, 0, 0, 0, 0, 0, 0, 17, 0, 0, 0, 0, 0, 0, 0,
        100, 0, 0, 0, 0, 0, 0, 0, 3, 0, 0, 0, 0, 0, 0, 0, 64, 144, 123, 202,
        20, 86, 0, 0, 4, 0, 0, 0, 0, 0, 0, 0, 56, 0, 0, 0, 0, 0, 0, 0,
        5, 0, 0, 0, 0, 0, 0, 0, 14, 0, 0, 0, 0, 0, 0, 0, 7, 0, 0, 0,
        0, 0, 0, 0, 0, 240, 160, 43, 202, 127, 0, 0, 8, 0, 0, 0, 0, 0, 0, 0,
        0, 0, 0, 0, 0, 0, 0, 0, 9, 0, 0, 0, 0, 0, 0, 0, 64, 25, 124, 202,
        20, 86, 0, 0, 11, 0, 0, 0, 0, 0, 0, 0, 232, 3, 0, 0, 0, 0, 0, 0,
        12, 0, 0, 0, 0, 0, 0, 0, 232, 3, 0, 0, 0, 0, 0, 0, 13, 0, 0, 0,
        0, 0, 0, 0, 100, 0, 0, 0, 0, 0, 0, 0, 14, 0, 0, 0, 0, 0, 0, 0,
        100, 0, 0, 0, 0, 0, 0, 0, 23, 0, 0, 0, 0, 0, 0, 0, 0, 0, 0, 0,
        0, 0, 0, 0, 25, 0, 0, 0, 0, 0, 0, 0, 153, 240, 185, 93, 255, 127, 0, 0,
        26, 0, 0, 0, 0, 0, 0, 0, 2, 0, 0, 0, 0, 0, 0, 0, 31, 0, 0, 0,
        0, 0, 0, 0, 201, 79, 186, 93, 255, 127, 0, 0, 15, 0, 0, 0, 0, 0, 0, 0,
        169, 240, 185, 93, 255, 127, 0, 0, 27, 0, 0, 0, 0, 0, 0, 0, 28, 0, 0, 0,
        0, 0, 0, 0, 28, 0, 0, 0, 0, 0, 0, 0, 32, 0, 0, 0, 0, 0, 0, 0,
        0, 0, 0, 0, 0, 0, 0, 0, 0, 0, 0, 0, 0, 0, 0, 0, 0, 0, 0, 0,
        0, 0, 0, 0, 0, 253, 120, 161, 11, 82, 13, 91, 238, 102, 222, 133, 171, 66, 146, 247,
        165, 120, 56, 54, 95, 54, 52, 0, 0, 0, 0, 0, 0, 0, 0, 0, 0, 0, 0, 0,
        0, 0, 0, 0, 0, 0, 0, 0, 0, 0, 0, 0,
    ]
}

fn word(bytes: &mut Vec<u8>, w: u64) {
    bytes.extend_from_slice(&w.to_le_bytes());
}

#[test]
fn test_parse_real_data() {
    let data = real_layout();
    let layout = StackLayoutRef::new(&data, None);

    assert_eq!(layout.argc(), 4);

    // argv
    {
        let mut it = layout.argv_raw_iter();
        let mut n = 0;
        while let Some(r) = it.next() {
            r.unwrap();
            n += 1;
        }
        assert_eq!(n, 4);
    }

    // envv
    {
        let mut it = layout.envv_raw_iter();
        let mut n = 0;
        while let Some(r) = it.next() {
            r.unwrap();
            n += 1;
        }
        assert_eq!(n, 139);
        assert_eq!(layout.envc(), 139);
    }

    // auxv: 20 entries carry known key codes; the two rseq entries a newer
    // kernel appends carry codes outside the closed set and surface as a
    // hard failure rather than being silently treated as data.
    {
        let mut it = layout.auxv_raw_iter();
        let mut n = 0;
        loop {
            match it.next() {
                Some(Ok(_)) => n += 1,
                Some(Err(e)) => {
                    assert_eq!(e, StackParseError::InvalidKey(27));
                    break;
                },
                None => panic!("expected the unknown-key failure first"),
            }
        }
        assert_eq!(n, 20);
    }
}

/// A buffer whose auxv end marker has a non-zero value must fail to parse,
/// not be silently treated as valid data.
#[test]
fn test_bad_end_marker_fails() {
    let mut buf = Vec::new();
    word(&mut buf, 0); // argc
    word(&mut buf, 0); // argv terminator
    word(&mut buf, 0); // envv terminator
    word(&mut buf, 0); // end marker key ...
    word(&mut buf, 5); // ... with a non-zero value: corrupt

    let layout = StackLayoutRef::new(&buf, None);
    let mut raw = layout.auxv_raw_iter();
    assert_eq!(raw.next(), Some(Err(StackParseError::BadEndMarker(5))));

    let mut rich = layout.auxv_iter(0);
    match rich.next() {
        Some(Err(StackParseError::BadEndMarker(5))) => {},
        other => panic!("expected the bad end marker to fail, got {:?}", other),
    }
}

#[test]
fn test_good_end_marker_terminates() {
    let mut buf = Vec::new();
    word(&mut buf, 0);
    word(&mut buf, 0);
    word(&mut buf, 0);
    word(&mut buf, 17); // one clock-tick entry
    word(&mut buf, 100);
    word(&mut buf, 0); // proper end marker
    word(&mut buf, 0);

    let layout = StackLayoutRef::new(&buf, None);
    assert_eq!(layout.auxvc(), 1);
    let mut it = layout.auxv_iter(0);
    let first = it.next().unwrap().unwrap();
    assert_eq!(first.key(), AuxVarType::Clktck);
    assert_eq!(first.value_integer(), Some(100));
    assert!(it.next().is_none());
}

#[test]
fn test_truncated_buffer_fails() {
    let mut buf = Vec::new();
    word(&mut buf, 1); // argc = 1, but nothing follows
    let layout = StackLayoutRef::new(&buf, None);
    let mut it = layout.argv_raw_iter();
    assert_eq!(it.next(), Some(Err(StackParseError::Truncated)));
}

#[test]
fn test_bad_pointer_fails() {
    let mut buf = Vec::new();
    word(&mut buf, 0); // argc
    word(&mut buf, 0); // argv terminator
    word(&mut buf, 0); // envv terminator
    word(&mut buf, 15); // Platform entry ...
    word(&mut buf, 0x10); // ... pointing below the base address
    word(&mut buf, 0);
    word(&mut buf, 0);

    let layout = StackLayoutRef::new(&buf, None);
    let mut it = layout.auxv_iter(0x1000);
    match it.next() {
        Some(Err(StackParseError::BadPointer(0x10))) => {},
        other => panic!("expected a bad-pointer failure, got {:?}", other),
    }
}

#[test]
fn test_unterminated_string_fails() {
    let mut buf = Vec::new();
    word(&mut buf, 1); // argc
    word(&mut buf, 40); // argv[0] points at the last byte (base 0)
    word(&mut buf, 0); // argv terminator
    word(&mut buf, 0); // envv terminator
    word(&mut buf, 0); // end marker
    buf.push(b'x'); // a string that never ends

    let layout = StackLayoutRef::new(&buf, None);
    let mut it = layout.argv_iter(0);
    match it.next() {
        Some(Err(StackParseError::Unterminated(40))) => {},
        other => panic!("expected an unterminated-string failure, got {:?}", other),
    }
}

/// The variant that takes an externally known argument count: the buffer
/// starts directly at the argv slots.
#[test]
fn test_external_argc() {
    let mut buf = Vec::new();
    word(&mut buf, 0); // argv terminator
    word(&mut buf, 0); // envv terminator
    word(&mut buf, 0); // end marker
    word(&mut buf, 0);

    let layout = StackLayoutRef::new(&buf, Some(0));
    assert_eq!(layout.argc(), 0);
    assert_eq!(layout.envc(), 0);
    assert_eq!(layout.auxvc(), 0);
}
