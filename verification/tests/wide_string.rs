use tavoo::wide_string::WideString;

#[test]
fn test_wide_string() {
    let ws = WideString::from_str("");
    assert_eq!(ws.as_slice(), &[0]);
    assert_eq!(ws.to_string(), "");

    let ws = WideString::from_str("hoge");
    assert_eq!(
        ws.as_slice(),
        &['h' as u16, 'o' as u16, 'g' as u16, 'e' as u16, 0]
    );
    assert_eq!(ws.to_string(), "hoge");
}

#[test]
fn wide_string_surrogate_pairs() {
    let ws = WideString::from_str("a\u{1F600}\u{3042}");
    assert_eq!(ws.as_slice(), &[0x61, 0xD83D, 0xDE00, 0x3042, 0]);
    assert_eq!(ws.to_string(), "a\u{1F600}\u{3042}");
    let expected: Vec<u16> = "a\u{1F600}\u{3042}".encode_utf16().chain([0]).collect();
    assert_eq!(ws.as_slice(), &expected[..]);
}

#[test]
fn wide_string_stops_at_nul() {
    let ws = WideString::from_str("ab\0cd");
    assert_eq!(ws.as_slice(), &[0x61, 0x62, 0, 0x63, 0x64, 0]);
    assert_eq!(ws.to_string(), "ab");
}
