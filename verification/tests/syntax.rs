//! The RFC 6749 Appendix A character-class checks.

use oauth2::syntax::{str_is_digit_alpha_under, str_is_digits, str_is_name, str_is_nqchar,
    str_is_nqschar, str_is_unicodecharnocrlf, str_is_vschar};

#[test]
fn test_str_is_digits() {
    assert!(str_is_digits("100984"));
    assert!(!str_is_digits("100.984"));
    assert!(!str_is_digits("100_984"));
    assert!(!str_is_digits("deadbeef"));
}

#[test]
fn test_str_is_name() {
    assert!(str_is_name(""));
    assert!(str_is_name("_abc123_ABC"));
    assert!(str_is_name("_abc.123_ABC"));
    assert!(!str_is_name("abc,123_ABC"));
    assert!(!str_is_name("abc 123_ABC"));
}

#[test]
fn test_str_is_digit_alpha_under() {
    assert!(str_is_digit_alpha_under(""));
    assert!(str_is_digit_alpha_under("_abc123_ABC"));
    assert!(!str_is_digit_alpha_under("_abc.123_ABC"));
    assert!(!str_is_digit_alpha_under("abc 123_ABC"));
}

#[test]
fn test_str_is_vschar() {
    assert!(str_is_vschar(""));
    assert!(str_is_vschar(" !\"\\~lj"));
    assert!(!str_is_vschar("\u{0009}"));
}

#[test]
fn test_is_nqchar() {
    assert!(str_is_nqchar(""));
    assert!(str_is_nqchar(
        "!#$%&'()*+,-./0123456789:;<=>?@ABCDEFGHIJKLMNOPQRSTUVWXYZ[]^_`abcdefghijklmnopqrstuvwxyz{|}~"
    ));

    assert!(!str_is_nqchar("\u{0000}"));
    assert!(!str_is_nqchar("\u{0001}"));
    assert!(!str_is_nqchar("\u{0002}"));
    assert!(!str_is_nqchar("\u{0003}"));
    assert!(!str_is_nqchar("\u{0004}"));
    assert!(!str_is_nqchar("\u{0005}"));
    assert!(!str_is_nqchar("\u{0006}"));
    assert!(!str_is_nqchar("\u{0007}"));
    assert!(!str_is_nqchar("\u{0008}"));
    assert!(!str_is_nqchar("\u{0009}"));
    assert!(!str_is_nqchar("\u{000A}"));
    assert!(!str_is_nqchar("\u{000B}"));
    assert!(!str_is_nqchar("\u{000C}"));
    assert!(!str_is_nqchar("\u{000D}"));
    assert!(!str_is_nqchar("\u{000E}"));
    assert!(!str_is_nqchar("\u{000F}"));
    assert!(!str_is_nqchar("\u{0010}"));
    assert!(!str_is_nqchar("\u{0011}"));
    assert!(!str_is_nqchar("\u{0012}"));
    assert!(!str_is_nqchar("\u{0013}"));
    assert!(!str_is_nqchar("\u{0014}"));
    assert!(!str_is_nqchar("\u{0015}"));
    assert!(!str_is_nqchar("\u{0016}"));
    assert!(!str_is_nqchar("\u{0017}"));
    assert!(!str_is_nqchar("\u{0018}"));
    assert!(!str_is_nqchar("\u{0019}"));
    assert!(!str_is_nqchar("\u{001A}"));
    assert!(!str_is_nqchar("\u{001B}"));
    assert!(!str_is_nqchar("\u{001C}"));
    assert!(!str_is_nqchar("\u{001D}"));
    assert!(!str_is_nqchar("\u{001E}"));
    assert!(!str_is_nqchar("\u{001F}"));
    assert!(!str_is_nqchar("\u{0020}"));
    assert!(!str_is_nqchar("\u{0022}"));
    assert!(!str_is_nqchar("\u{005C}"));
    assert!(!str_is_nqchar("\u{007F}"));
    assert!(!str_is_nqchar("\u{C800}"));
}

#[test]
fn test_str_str_is_nqschar() {
    assert!(str_is_nqschar(""));
    assert!(str_is_nqschar(
        " !#$%&'()*+,-./0123456789:;<=>?@ABCDEFGHIJKLMNOPQRSTUVWXYZ[]^_`abcdefghijklmnopqrstuvwxyz{|}~"
    ));

    assert!(!str_is_nqschar("\u{0000}"));
    assert!(!str_is_nqschar("\u{0001}"));
    assert!(!str_is_nqschar("\u{0002}"));
    assert!(!str_is_nqschar("\u{0003}"));
    assert!(!str_is_nqschar("\u{0004}"));
    assert!(!str_is_nqschar("\u{0005}"));
    assert!(!str_is_nqschar("\u{0006}"));
    assert!(!str_is_nqschar("\u{0007}"));
    assert!(!str_is_nqschar("\u{0008}"));
    assert!(!str_is_nqschar("\u{0009}"));
    assert!(!str_is_nqschar("\u{000A}"));
    assert!(!str_is_nqschar("\u{000B}"));
    assert!(!str_is_nqschar("\u{000C}"));
    assert!(!str_is_nqschar("\u{000D}"));
    assert!(!str_is_nqschar("\u{000E}"));
    assert!(!str_is_nqschar("\u{000F}"));
    assert!(!str_is_nqschar("\u{0010}"));
    assert!(!str_is_nqschar("\u{0011}"));
    assert!(!str_is_nqschar("\u{0012}"));
    assert!(!str_is_nqschar("\u{0013}"));
    assert!(!str_is_nqschar("\u{0014}"));
    assert!(!str_is_nqschar("\u{0015}"));
    assert!(!str_is_nqschar("\u{0016}"));
    assert!(!str_is_nqschar("\u{0017}"));
    assert!(!str_is_nqschar("\u{0018}"));
    assert!(!str_is_nqschar("\u{0019}"));
    assert!(!str_is_nqschar("\u{001A}"));
    assert!(!str_is_nqschar("\u{001B}"));
    assert!(!str_is_nqschar("\u{001C}"));
    assert!(!str_is_nqschar("\u{001D}"));
    assert!(!str_is_nqschar("\u{001E}"));
    assert!(!str_is_nqschar("\u{001F}"));
    assert!(!str_is_nqschar("\u{0022}"));
    assert!(!str_is_nqschar("\u{005C}"));
    assert!(!str_is_nqschar("\u{007F}"));
    assert!(!str_is_nqschar("\u{C800}"));
}

#[test]
fn test_str_is_unicodecharnocrlf() {
    assert!(str_is_unicodecharnocrlf(""));
    assert!(str_is_unicodecharnocrlf("Hello My 2nd Son"));
    assert!(str_is_unicodecharnocrlf("\u{C800}\u{10FFFC}\u{E005}94"));
    assert!(!str_is_unicodecharnocrlf("Hello My\n 2nd Son"));
    assert!(!str_is_unicodecharnocrlf("Hello My\u{007F} 2nd Son"));
    assert!(!str_is_unicodecharnocrlf("\u{0001}"));
    assert!(!str_is_unicodecharnocrlf("\u{0019}"));
}
