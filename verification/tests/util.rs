use nova_core::cstring::{string_from_bytes, CString};
use nova_core::error::Error;
use nova_core::util::{str_from_null_terminated, wait_on, WaitStep};

#[test]
fn wait_returns_the_value() {
    assert!(matches!(wait_on(10, Some(7u8), 5), WaitStep::Done(Ok(7))));
    // The value counts, however late it is.
    assert!(matches!(wait_on(10, Some(7u8), 11), WaitStep::Done(Ok(7))));
}

#[test]
fn wait_times_out_after_the_timeout() {
    assert!(matches!(wait_on::<u8>(10, None, 10), WaitStep::Again));
    assert!(matches!(wait_on::<u8>(10, None, 11), WaitStep::Done(Err(Error::ETIMEDOUT))));
    assert!(matches!(wait_on::<u8>(-1, None, 0), WaitStep::Done(Err(Error::ETIMEDOUT))));
}

#[test]
fn string_ends_at_the_first_null() {
    assert_eq!(str_from_null_terminated(b"abc\0def\0"), "abc");
    assert_eq!(str_from_null_terminated(b"\0"), "");
    assert_eq!(str_from_null_terminated("gr\u{fc}n\0".as_bytes()), "gr\u{fc}n");
}

#[test]
fn bad_strings_are_invalid() {
    assert_eq!(str_from_null_terminated(b"abc"), "invalid");
    assert_eq!(str_from_null_terminated(b""), "invalid");
    assert_eq!(str_from_null_terminated(b"a\xff\0"), "invalid");
    // What follows the null byte is not looked at.
    assert_eq!(str_from_null_terminated(b"a\0\xff"), "a");
}

#[test]
fn strings_from_bytes() {
    assert_eq!(string_from_bytes(b"abc").unwrap().to_bytes(), b"abc");
    assert!(matches!(string_from_bytes(b"a\xffc"), Err(Error::EINVAL)));
    assert!(matches!(string_from_bytes(b"a\0c"), Err(Error::ENOMEM)));
}

#[test]
fn c_strings_hold_no_null() {
    assert_eq!(CString::try_from_str("ab").unwrap().buf, b"ab\0");
    assert!(matches!(CString::try_from_str("a\0"), Err(Error::EINVAL)));
}
