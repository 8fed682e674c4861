use achvgames_com::utils::connection::Cursor;
use achvgames_com::utils::page::Cursor as PageCursor;

#[test]
fn from_i64_writes_base64_of_decimal_text() {
    assert_eq!(Cursor::from_i64(42).0, "NDI");
    assert_eq!(Cursor::from_i64(-1).0, "LTE");
    assert_eq!(Cursor::from_i64(0).0, "MA");
}

#[test]
fn from_u32_writes_base64_of_decimal_text() {
    assert_eq!(PageCursor::from_u32(42).0, "NDI");
    assert_eq!(PageCursor::from_u32(0).0, "MA");
    assert_eq!(PageCursor::from_u32(1234567).0, "MTIzNDU2Nw");
}

#[test]
fn i64_cursor_roundtrip() {
    for v in [0i64, 1, -1, 9, 10, 570, 4_000_000, i64::MAX, i64::MIN, i64::MIN + 1] {
        assert_eq!(Cursor::from_i64(v).try_into_i64(), Some(v));
    }
}

#[test]
fn u32_cursor_roundtrip() {
    for v in [0u32, 1, 9, 10, 99, 100, 730, u32::MAX] {
        assert_eq!(PageCursor::from_u32(v).try_into_u32(), Some(v));
    }
}

#[test]
fn cursor_reads_signs_as_parse_does() {
    // "+7" and "-7"
    assert_eq!(Cursor("Kzc".to_string()).try_into_i64(), Some(7));
    assert_eq!(Cursor("LTc".to_string()).try_into_i64(), Some(-7));
    assert_eq!(PageCursor("Kzc".to_string()).try_into_u32(), Some(7));
    assert_eq!(PageCursor("LTc".to_string()).try_into_u32(), None);
    // "+" alone and "-" alone
    assert_eq!(Cursor("Kw".to_string()).try_into_i64(), None);
    assert_eq!(Cursor("LQ".to_string()).try_into_i64(), None);
}

#[test]
fn cursor_rejects_what_is_not_a_number() {
    // not base64
    assert_eq!(Cursor("!!".to_string()).try_into_i64(), None);
    assert_eq!(PageCursor("!!".to_string()).try_into_u32(), None);
    // padded base64 is refused by the unpadded engine
    assert_eq!(Cursor("NDI=".to_string()).try_into_i64(), None);
    // empty text decodes to no digits
    assert_eq!(Cursor(String::new()).try_into_i64(), None);
    // "abc"
    assert_eq!(Cursor("YWJj".to_string()).try_into_i64(), None);
    // "4294967296" is one past u32::MAX
    assert_eq!(PageCursor("NDI5NDk2NzI5Ng".to_string()).try_into_u32(), None);
    assert_eq!(Cursor("NDI5NDk2NzI5Ng".to_string()).try_into_i64(), Some(4294967296));
    // "9223372036854775808" is one past i64::MAX
    assert_eq!(Cursor("OTIyMzM3MjAzNjg1NDc3NTgwOA".to_string()).try_into_i64(), None);
}

#[test]
fn leading_zeros_are_read() {
    // "007"
    assert_eq!(Cursor("MDA3".to_string()).try_into_i64(), Some(7));
    assert_eq!(PageCursor("MDA3".to_string()).try_into_u32(), Some(7));
}
