use maarch64_android::bytes;
use maarch64_android::text;

#[test]
fn words_round_trip_through_bytes() {
    for v in [0u64, 1, 0xff, 0x100, 0x7f05_0000, 0xdead_beef_cafe_babe, u64::MAX] {
        let b = bytes::encode_word(v);
        assert_eq!(b.len(), 8);
        assert_eq!(bytes::read_u64(&b, 0), v);
    }
    assert_eq!(
        bytes::encode_word(0x0102_0304_0506_0708),
        vec![8, 7, 6, 5, 4, 3, 2, 1]
    );
}

#[test]
fn numbers_are_read_in_their_byte_order() {
    let d = [0x12, 0x34, 0x56, 0x78, 0x9a];
    assert_eq!(bytes::read_u16(&d, 1), 0x5634);
    assert_eq!(bytes::read_u32(&d, 1), 0x9a78_5634);
    assert_eq!(bytes::read_u32_be(&d, 0), 0x1234_5678);
}

#[test]
fn searching_in_text() {
    assert!(text::contains("com/app/MainActivity", "app/Main"));
    assert!(text::contains("abc", ""));
    assert!(!text::contains("abc", "abcd"));
    assert!(text::starts_with("lib/arm64-v8a/x.so", "lib/arm64-v8a/"));
    assert!(!text::starts_with("lib", "lib/"));
    assert!(text::ends_with("LMainActivity;", "Activity;"));
    assert!(!text::ends_with("Activity;x", "Activity;"));
    assert!(text::same_text("caf\u{e9}", "caf\u{e9}"));
    assert!(!text::same_text("cafe", "caf\u{e9}"));
}

#[test]
fn file_names_and_class_paths() {
    assert_eq!(text::file_name_of("lib/arm64-v8a/libmain.so"), "libmain.so");
    assert_eq!(text::file_name_of("libmain.so"), "libmain.so");
    assert_eq!(text::file_name_of("dir/"), "");
    assert_eq!(text::replace_dots("com.app.Main"), "com/app/Main");
}

#[test]
fn hexadecimal_as_in_messages() {
    assert_eq!(text::hex(0), "0x0");
    assert_eq!(text::hex(0x7f20_0080), "0x7f200080");
    assert_eq!(text::hex(u64::MAX), "0xffffffffffffffff");
    assert_eq!(text::hex(0xab), format!("{:#x}", 0xab));
}

#[test]
fn appending_and_absent_text() {
    let mut s = String::from("a");
    text::append(&mut s, "b\u{1f600}c");
    assert_eq!(s, "ab\u{1f600}c");
    assert_eq!(text::or_empty(&None), "");
    assert_eq!(text::or_empty(&Some(String::from("x"))), "x");
    assert_eq!(text::chars_of("a\u{e9}"), vec!['a', '\u{e9}']);
}
