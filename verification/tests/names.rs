use coretun::name::NAME_CAPACITY;
use coretun::ErrorName;
use coretun::Name;

fn padded(front: &[u8]) -> [u8; 24] {
    let mut bytes = [0u8; 24];
    bytes[..front.len()].copy_from_slice(front);
    bytes
}

#[test]
fn capacity_is_twenty_four_bytes() {
    assert_eq!(NAME_CAPACITY, 24);
}

#[test]
fn short_name_is_stored_with_zero_padding() {
    let name = Name::from_text("tun0");
    assert_eq!(name.bytes, padded(b"tun0"));
    assert_eq!(name.logical_len(), 4);
    assert_eq!(name.text(), Some(String::from("tun0")));
}

#[test]
fn empty_name_reads_back_empty() {
    let name = Name::from_text("");
    assert_eq!(name.bytes, [0u8; 24]);
    assert_eq!(name.logical_len(), 0);
    assert_eq!(name.text(), Some(String::new()));
}

#[test]
fn name_of_exactly_the_capacity_is_kept_whole() {
    let text = "abcdefghijklmnopqrstuvwx";
    assert_eq!(text.len(), 24);
    let name = Name::from_text(text);
    assert_eq!(name.bytes, padded(text.as_bytes()));
    assert_eq!(name.logical_len(), 24);
    assert_eq!(name.text(), Some(String::from(text)));
}

#[test]
fn multibyte_name_round_trips() {
    let text = "t\u{fc}n\u{20ac}\u{1f600}";
    assert_eq!(text.len(), 11);
    let name = Name::from_text(text);
    assert_eq!(name.logical_len(), 11);
    assert_eq!(name.text(), Some(String::from(text)));
}

#[test]
fn long_ascii_name_is_cut_at_the_capacity() {
    let text = "abcdefghijklmnopqrstuvwxyz";
    let name = Name::from_text(text);
    assert_eq!(name.bytes, padded(b"abcdefghijklmnopqrstuvwx"));
    assert_eq!(name.text(), Some(String::from("abcdefghijklmnopqrstuvwx")));
}

#[test]
fn long_name_is_cut_before_a_character_that_does_not_fit() {
    // 23 bytes, then a character of 3 bytes that would end at byte 26.
    let text = "abcdefghijklmnopqrstuvw\u{20ac}xyz";
    let name = Name::from_text(text);
    assert_eq!(name.bytes, padded(b"abcdefghijklmnopqrstuvw"));
    assert_eq!(name.logical_len(), 23);
    assert_eq!(name.text(), Some(String::from("abcdefghijklmnopqrstuvw")));
}

#[test]
fn long_name_keeps_a_character_that_ends_at_the_capacity() {
    // 20 bytes, then a character of 4 bytes that ends at byte 24.
    let text = "abcdefghijklmnopqrst\u{1f600}uv";
    let name = Name::from_text(text);
    assert_eq!(name.logical_len(), 24);
    assert_eq!(name.text(), Some(String::from("abcdefghijklmnopqrst\u{1f600}")));
}

#[test]
fn truncation_gives_the_same_bytes_every_time() {
    let text = "abcdefghijklmnopqrstuv\u{fc}\u{fc}\u{fc}";
    let first = Name::from_text(text);
    let second = Name::from_text(text);
    assert_eq!(first, second);
    assert_eq!(first.text(), Some(String::from("abcdefghijklmnopqrstuv\u{fc}")));
}

#[test]
fn trailing_nul_is_read_as_padding() {
    let name = Name::from_text("ab\0");
    assert_eq!(name.logical_len(), 2);
    assert_eq!(name.text(), Some(String::from("ab")));
}

#[test]
fn inner_nul_belongs_to_the_name() {
    let name = Name::from_text("a\0b");
    assert_eq!(name.logical_len(), 3);
    assert_eq!(name.text(), Some(String::from("a\0b")));
}

#[test]
fn logical_length_ends_at_the_last_byte_that_is_not_zero() {
    let mut bytes = [0u8; 24];
    bytes[0] = b'x';
    bytes[9] = b'y';
    let name = Name { bytes };
    assert_eq!(name.logical_len(), 10);
    assert_eq!(name.text(), Some(String::from("x\0\0\0\0\0\0\0\0y")));
}

#[test]
fn bytes_that_are_not_text_are_not_decoded() {
    let name = Name { bytes: padded(&[b't', b'u', b'n', 0xff]) };
    assert_eq!(name.logical_len(), 4);
    assert_eq!(name.text(), None);
}

#[test]
fn character_cut_short_is_not_text() {
    // The first two bytes of a character of three bytes.
    let name = Name { bytes: padded(&[b'a', 0xe2, 0x82]) };
    assert_eq!(name.text(), None);
}

#[test]
fn name_errors_render_one_line_each() {
    assert_eq!(ErrorName::KernelName.describe(), "kernel name - invalid UTF-8 sequence");
    assert_eq!(ErrorName::CustomName.describe(), "custom name - invalid UTF-8 sequence");
}

#[test]
fn encodings_outside_utf8_are_not_text() {
    // A surrogate, an overlong NUL, a leading byte past the range, and a
    // value above the last code point.
    assert_eq!(Name { bytes: padded(&[0xed, 0xa0, 0x80]) }.text(), None);
    assert_eq!(Name { bytes: padded(&[0xc0, 0x80]) }.text(), None);
    assert_eq!(Name { bytes: padded(&[0xf5, 0x80, 0x80, 0x80]) }.text(), None);
    assert_eq!(Name { bytes: padded(&[0xf4, 0x90, 0x80, 0x80]) }.text(), None);
    assert_eq!(Name { bytes: padded(&[0x80]) }.text(), None);
}

#[test]
fn last_code_point_is_text() {
    let name = Name { bytes: padded(&[0xf4, 0x8f, 0xbf, 0xbf]) };
    assert_eq!(name.text(), Some(String::from("\u{10ffff}")));
}

#[test]
fn full_buffer_without_padding_is_read_whole() {
    let name = Name { bytes: [b'z'; 24] };
    assert_eq!(name.logical_len(), 24);
    assert_eq!(name.text(), Some(String::from("zzzzzzzzzzzzzzzzzzzzzzzz")));
}
