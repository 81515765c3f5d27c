use maarch64_android::elf::{
    exports_jni_onload, find_jni_onload_in_elf, find_jni_onload_libs, find_resolved_onload,
    has_onload, jni_onload_entry, jni_onload_place, name_passes, onload_address, LibraryFile,
    ObjectImage, OnLoadError, Place, Symbol,
};
use maarch64_android::load_order::{load_order, load_priority};

fn put(out: &mut Vec<u8>, v: u64, size: usize) {
    out.extend_from_slice(&v.to_le_bytes()[..size]);
}

/// A 64-bit ELF library with one segment at `base` and these symbols.
fn elf(base: u64, symbols: &[(&str, u64)]) -> Vec<u8> {
    elf_with(base, symbols, 2)
}

/// A 64-bit ELF library whose symbols stand in a section of this kind.
fn elf_with(base: u64, symbols: &[(&str, u64)], kind: u64) -> Vec<u8> {
    let mut names = vec![0u8];
    let mut table = vec![0u8; 24];
    for (name, address) in symbols {
        put(&mut table, names.len() as u64, 4);
        put(&mut table, 0x12, 1);
        put(&mut table, 0, 1);
        put(&mut table, 1, 2);
        put(&mut table, *address, 8);
        put(&mut table, 0, 8);
        names.extend_from_slice(name.as_bytes());
        names.push(0);
    }
    let table_off = 64 + 56;
    let names_off = table_off + table.len();
    let sections_off = names_off + names.len();
    let mut d = vec![0x7f, b'E', b'L', b'F', 2, 1, 1, 0, 0, 0, 0, 0, 0, 0, 0, 0];
    put(&mut d, 3, 2);
    put(&mut d, 183, 2);
    put(&mut d, 1, 4);
    put(&mut d, 0, 8);
    put(&mut d, 64, 8);
    put(&mut d, sections_off as u64, 8);
    put(&mut d, 0, 4);
    for v in [64, 56, 1, 64, 3, 2] {
        put(&mut d, v, 2);
    }
    put(&mut d, 1, 4);
    put(&mut d, 5, 4);
    for v in [0, base, base, 0x100, 0x100, 0x1000] {
        put(&mut d, v, 8);
    }
    d.extend_from_slice(&table);
    d.extend_from_slice(&names);
    d.extend_from_slice(&[0; 64]);
    let sections = [
        (kind, table_off, table.len(), 2u64, 24u64),
        (3, names_off, names.len(), 0, 0),
    ];
    for (kind, off, size, link, entry) in sections {
        put(&mut d, 0, 4);
        put(&mut d, kind, 4);
        put(&mut d, 0, 8);
        put(&mut d, 0, 8);
        put(&mut d, off as u64, 8);
        put(&mut d, size as u64, 8);
        put(&mut d, link, 4);
        put(&mut d, 1, 4);
        put(&mut d, 1, 8);
        put(&mut d, entry, 8);
    }
    d
}

fn symbol(name: &str, index: usize) -> Symbol {
    Symbol { name: Some(name.to_string()), index }
}

/// A 64-bit PE file with this image base, one section, and a symbol of this value.
fn pe(base: u64, section: u32, value: u32, section_number: u16, class: u8) -> Vec<u8> {
    let mut d = vec![0u8; 0x40];
    d[0] = b'M';
    d[1] = b'Z';
    d[0x3c] = 0x40;
    d.extend_from_slice(b"PE\0\0");
    put(&mut d, 0xaa64, 2);
    put(&mut d, 1, 2);
    put(&mut d, 0, 4);
    let symbols_off = 0x40 + 24 + 112 + 40;
    put(&mut d, symbols_off, 4);
    put(&mut d, 2, 4);
    put(&mut d, 112, 2);
    put(&mut d, 0x2000, 2);
    let optional = d.len();
    d.resize(optional + 112, 0);
    d[optional] = 0x0b;
    d[optional + 1] = 0x02;
    d[optional + 24..optional + 32].copy_from_slice(&base.to_le_bytes());
    let header = d.len();
    d.resize(header + 40, 0);
    d[header + 12..header + 16].copy_from_slice(&section.to_le_bytes());
    for (name, value, number, class) in [(4u64, 7u32, 0u16, 2u8), (10, value, section_number, class)] {
        put(&mut d, name << 32, 8);
        put(&mut d, value as u64, 4);
        put(&mut d, number as u64, 2);
        put(&mut d, 0, 2);
        d.push(class);
        d.push(0);
    }
    let names = b"other\0JNI_OnLoad\0";
    put(&mut d, names.len() as u64 + 4, 4);
    d.extend_from_slice(names);
    d
}

#[test]
fn onload_of_an_elf_library() {
    let d = elf(0, &[("other", 0x10), ("JNI_OnLoad", 0x1234)]);
    assert!(exports_jni_onload(&d));
    assert!(matches!(find_jni_onload_in_elf(&d), Ok(0x40_1234)));
    let d = elf(0x10000, &[("JNI_OnLoad", 0x11234)]);
    assert!(matches!(find_jni_onload_in_elf(&d), Ok(0x11234)));
}

#[test]
fn libraries_without_onload() {
    let d = elf(0, &[("JNI_OnUnload", 0x10)]);
    assert!(!exports_jni_onload(&d));
    assert!(matches!(find_jni_onload_in_elf(&d), Err(OnLoadError::NotFound)));
    assert!(!exports_jni_onload(b"no library"));
    match find_jni_onload_in_elf(b"no library") {
        Err(OnLoadError::Malformed(message)) => {
            assert!(message.starts_with("ELF parse error: "));
            assert!(message.len() > "ELF parse error: ".len());
        }
        _ => panic!("no library"),
    }
}

#[test]
fn onload_among_the_dynamic_symbols() {
    let d = elf_with(0, &[("other", 0x10), ("JNI_OnLoad", 0x1234), ("JNI_OnLoad", 1)], 11);
    assert!(exports_jni_onload(&d));
    assert!(matches!(find_jni_onload_in_elf(&d), Ok(0x40_1234)));
    let d = elf_with(0, &[("JNI_OnLoad", u64::MAX - 1)], 11);
    assert!(matches!(find_jni_onload_in_elf(&d), Err(OnLoadError::PastEnd)));
}

#[test]
fn dynamic_symbols_come_first() {
    let image = ObjectImage {
        first_segment: Some(0x1000),
        dynamic_symbols: vec![
            Symbol { name: None, index: 1 },
            symbol("JNI_OnLoad", 2),
            symbol("JNI_OnLoad", 3),
        ],
        symbols: vec![symbol("JNI_OnLoad", 4)],
    };
    assert_eq!(jni_onload_place(&image), Some(Place::Dynamic(1)));
    assert!(has_onload(&image));
    let image = ObjectImage {
        first_segment: None,
        dynamic_symbols: vec![symbol("x", 1)],
        symbols: vec![symbol("x", 1), symbol("JNI_OnLoad", 4), symbol("JNI_OnLoad", 5)],
    };
    assert_eq!(jni_onload_place(&image), Some(Place::Plain(1)));
    assert!(has_onload(&image));
    let none = ObjectImage { first_segment: None, dynamic_symbols: vec![], symbols: vec![] };
    assert_eq!(jni_onload_place(&none), None);
    assert!(!has_onload(&none));
}

#[test]
fn symbols_are_moved_by_the_bias() {
    assert!(matches!(jni_onload_entry(None, 5), Ok(0x40_0005)));
    assert!(matches!(jni_onload_entry(Some(0), 5), Ok(0x40_0005)));
    assert!(matches!(jni_onload_entry(Some(1), 5), Ok(5)));
    assert!(matches!(jni_onload_entry(Some(0), u64::MAX), Err(OnLoadError::PastEnd)));
}

#[test]
fn onload_of_a_pe_file() {
    let d = pe(0x10_0000, 0x2000, 0x34, 1, 2);
    assert!(exports_jni_onload(&d));
    assert!(matches!(find_jni_onload_in_elf(&d), Ok(0x10_2034)));
    // The image base is near the end, but the address is not past it.
    let d = pe(u64::MAX - 0x2034, 0x2000, 0x34, 1, 2);
    assert!(matches!(find_jni_onload_in_elf(&d), Ok(u64::MAX)));
    let d = pe(u64::MAX - 0x2034, 0x2000, 0x35, 1, 2);
    assert!(exports_jni_onload(&d));
    assert!(matches!(find_jni_onload_in_elf(&d), Err(OnLoadError::PastEnd)));
    // Symbols without a section, or of another class, have no address.
    for d in [pe(u64::MAX, 1, 1, 0, 2), pe(u64::MAX, 1, 1, 2, 2), pe(u64::MAX, 1, 1, 0xffff, 2),
        pe(u64::MAX, 1, 1, 1, 103)]
    {
        assert!(matches!(find_jni_onload_in_elf(&d), Ok(0) | Ok(0x40_0000)));
    }
    let file = LibraryFile { name: "libpe.so".to_string(), content: Some(pe(u64::MAX, 1, 1, 1, 2)) };
    assert_eq!(find_jni_onload_libs(&vec![file], None), vec![0]);
}

#[test]
fn onload_among_resolved_symbols() {
    let thunks = vec![(1u64, "malloc".to_string()), (2, "JNI_OnLoad".to_string()), (3, "JNI_OnLoad".to_string())];
    assert_eq!(find_resolved_onload(&thunks), Some(2));
    assert_eq!(find_resolved_onload(&thunks[..1].to_vec()), None);
    assert_eq!(find_resolved_onload(&Vec::new()), None);
}

#[test]
fn resolved_symbols_come_before_the_file() {
    assert!(matches!(onload_address(Some(1), Ok(2)), Ok(1)));
    assert!(matches!(onload_address(Some(1), Err(OnLoadError::PastEnd)), Ok(1)));
    assert!(matches!(onload_address(None, Ok(2)), Ok(2)));
    assert!(matches!(onload_address(None, Err(OnLoadError::NotFound)), Err(OnLoadError::NotFound)));
    assert!(matches!(onload_address(None, Err(OnLoadError::PastEnd)), Err(OnLoadError::PastEnd)));
}

#[test]
fn libraries_that_export_onload() {
    let with = elf(0, &[("JNI_OnLoad", 1)]);
    let without = elf(0, &[("main", 1)]);
    let file = |name: &str, content: Option<&Vec<u8>>| LibraryFile {
        name: name.to_string(),
        content: content.cloned(),
    };
    let files = vec![
        file("libmain.so", Some(&with)),
        file("libutil.so", Some(&without)),
        file("libgone.so", None),
        file("libgame.so", Some(&with)),
    ];
    assert_eq!(find_jni_onload_libs(&files, None), vec![0, 3]);
    assert_eq!(find_jni_onload_libs(&files, Some("game")), vec![3]);
    assert_eq!(find_jni_onload_libs(&files, Some("util")), Vec::<usize>::new());
    assert!(name_passes("libmain.so", Some("main")));
    assert!(!name_passes("libmain.so", Some("game")));
    assert!(name_passes("libmain.so", None));
}

#[test]
fn libraries_are_loaded_by_priority() {
    let names: Vec<String> = [
        "libapp.so",
        "libboost_filesystem.so",
        "libutil.so",
        "libc++_shared.so",
        "libboost_system.so",
        "libc++_shared.so",
    ]
    .iter()
    .map(|s| s.to_string())
    .collect();
    assert_eq!(load_order(&names), vec![3, 5, 4, 1, 0, 2]);
    assert_eq!(load_order(&Vec::new()), Vec::<usize>::new());
    assert_eq!(load_priority("libboost_system.so"), 1);
    assert_eq!(load_priority("libx.so"), 999);
}
