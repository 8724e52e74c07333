use caffeinate::util::wide;

#[test]
fn appends_a_terminator() {
    assert_eq!(wide("hi"), vec![b'h' as u16, b'i' as u16, 0]);
}

#[test]
fn an_empty_string_is_just_the_terminator() {
    assert_eq!(wide(""), vec![0]);
}

#[test]
fn keeps_non_ascii_intact() {
    assert_eq!(wide("\u{5EFA}"), vec![0x5EFA, 0]);
}

#[test]
fn drops_interior_nuls_rather_than_truncating() {
    // "a\0b" must not reach Win32 as "a".
    assert_eq!(wide("a\u{0}b"), vec![b'a' as u16, b'b' as u16, 0]);
}

#[test]
fn encodes_characters_above_the_basic_plane_as_pairs() {
    assert_eq!(wide("\u{10437}\u{0}"), vec![0xD801, 0xDC37, 0]);
    assert_eq!(wide("\u{10FFFF}"), vec![0xDBFF, 0xDFFF, 0]);
}
