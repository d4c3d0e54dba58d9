//! Tests for the NUL-scanning and C-string utility functions.

use linux_libc_auxv::cstr_util::c_str_null_terminated;
use linux_libc_auxv::cstr_util::cstr_contains_at_most_terminating_null_byte;
use linux_libc_auxv::cstr_util::cstr_len_with_nullbyte;
use linux_libc_auxv::util::count_bytes_until_null;
use linux_libc_auxv::util::find_null_from;
use linux_libc_auxv::util::get_null_index;

#[test]
fn test_count_bytes_until_null() {
    assert_eq!(get_null_index(b"hello\0world"), Some(5));
    assert_eq!(count_bytes_until_null(b"hello\0world"), Some(5));

    assert_eq!(get_null_index(b"hello\0b\0"), Some(5));
    assert_eq!(count_bytes_until_null(b"hello\0b\0"), Some(5));

    assert_eq!(get_null_index(b"\0\0"), Some(0));
    assert_eq!(count_bytes_until_null(b"\0\0"), Some(0));

    assert_eq!(get_null_index(b"1\0\0"), Some(1));
    assert_eq!(count_bytes_until_null(b"1\0\0"), Some(1));

    assert_eq!(get_null_index(b""), None);
    assert_eq!(count_bytes_until_null(b""), None);

    assert_eq!(get_null_index(b"abc"), None);
    assert_eq!(count_bytes_until_null(b"abc"), None);
}

#[test]
fn test_find_null_from() {
    assert_eq!(find_null_from(b"a\0b\0", 0), Some(1));
    assert_eq!(find_null_from(b"a\0b\0", 2), Some(3));
    assert_eq!(find_null_from(b"abc", 1), None);
}

#[test]
fn test_c_str_null_terminated() {
    assert!(!c_str_null_terminated(b"foobar"));
    assert!(!c_str_null_terminated(b""));
    assert!(c_str_null_terminated(b"\0"));
    assert!(c_str_null_terminated(b"hallo\0"));
}

#[test]
fn test_cstr_contains_at_most_terminating_null_byte() {
    assert!(cstr_contains_at_most_terminating_null_byte(b"foobar"));
    assert!(cstr_contains_at_most_terminating_null_byte(b"foobar\0"));
    assert!(cstr_contains_at_most_terminating_null_byte(b"\0"));
    assert!(cstr_contains_at_most_terminating_null_byte(b"foobar\0"));
    assert!(!cstr_contains_at_most_terminating_null_byte(b"\0\0"));
    assert!(!cstr_contains_at_most_terminating_null_byte(b"foo\0bar\0"));
}

#[test]
fn test_cstr_len_with_nullbyte() {
    assert_eq!(cstr_len_with_nullbyte(b"foo"), 4);
    assert_eq!(cstr_len_with_nullbyte(b"foo\0"), 4);
    assert_eq!(cstr_len_with_nullbyte(b""), 1);
    assert_eq!(cstr_len_with_nullbyte(b"\0"), 1);
}
