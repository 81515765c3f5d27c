use maarch64_android::archive::bundle::{
    extract_classes_dex, extract_file, extract_manifest, read_manifest,
};
use maarch64_android::archive::natives::{
    extract_all_native_sos, list_has, names_arm64_library, names_package, Extraction, Need,
};
use maarch64_android::archive::select::{
    arch_directory, extract_apk_native_so, is_64bit, select_library, SelectError, Selection,
};
use std::io::{Cursor, Write};
use zip::write::SimpleFileOptions;
use zip::{CompressionMethod, ZipWriter};

fn zip_with(files: &[(&str, &[u8])], method: CompressionMethod) -> Vec<u8> {
    let mut w = ZipWriter::new(Cursor::new(Vec::new()));
    let options = SimpleFileOptions::default().compression_method(method);
    for (name, content) in files {
        w.start_file(*name, options).expect("a file is begun");
        w.write_all(content).expect("its content is written");
    }
    w.finish().expect("the archive is finished").into_inner()
}

fn zip_of(files: &[(&str, &[u8])]) -> Vec<u8> {
    zip_with(files, CompressionMethod::Deflated)
}

/// An archive in which the content of the file with this marker cannot be read.
fn damaged(files: &[(&str, &[u8])], marker: &[u8]) -> Vec<u8> {
    let mut z = zip_with(files, CompressionMethod::Stored);
    let at = z.windows(marker.len()).position(|w| w == marker).expect("the marker");
    z[at] ^= 0x55;
    z
}

fn names(e: &Extraction) -> Vec<&str> {
    e.files.iter().map(|f| f.name.as_str()).collect()
}

fn strings(list: &[&str]) -> Vec<String> {
    list.iter().map(|s| s.to_string()).collect()
}

#[test]
fn files_come_from_the_base_package_first() {
    let base = zip_of(&[("classes.dex", b"inner")]);
    let z = zip_of(&[("base.apk", &base), ("classes.dex", b"outer"), ("other", b"direct")]);
    assert_eq!(extract_classes_dex(z.clone()), Some(b"inner".to_vec()));
    assert_eq!(extract_file(z.clone(), "other"), Some(b"direct".to_vec()));
    assert_eq!(extract_file(z, "missing"), None);
}

#[test]
fn files_come_from_the_archive_itself() {
    let z = zip_of(&[("classes.dex", b"outer")]);
    assert_eq!(extract_classes_dex(z), Some(b"outer".to_vec()));
    let z = zip_of(&[("base.apk", b"no archive"), ("classes.dex", b"outer")]);
    assert_eq!(extract_classes_dex(z), Some(b"outer".to_vec()));
    assert_eq!(extract_classes_dex(b"no archive".to_vec()), None);
    assert_eq!(extract_classes_dex(Vec::new()), None);
}

#[test]
fn files_that_cannot_be_read_are_none() {
    let z = damaged(&[("classes.dex", b"MARKED")], b"MARKED");
    assert_eq!(extract_classes_dex(z), None);
}

#[test]
fn a_package_without_manifest_says_nothing() {
    let info = extract_manifest(zip_of(&[("x", b"y")])).expect("nothing to read");
    assert_eq!(info.package_name, None);
    assert_eq!(info.application_class, None);
    assert_eq!(info.main_activity, None);
    assert!(read_manifest(&None).is_some());
}

#[test]
fn a_manifest_is_read_from_its_package() {
    let strings: [&[u8]; 3] = [b"manifest", b"package", b"org.app"];
    let mut d: Vec<u8> = vec![3, 0, 8, 0, 0, 0, 0, 0];
    let mut data = Vec::new();
    let mut offsets = Vec::new();
    for s in strings {
        offsets.push(data.len() as u32);
        data.push(s.len() as u8);
        data.push(s.len() as u8);
        data.extend_from_slice(s);
        data.push(0);
    }
    let size = 40 + data.len() as u32;
    d.extend_from_slice(&[1, 0, 28, 0]);
    for v in [size, 3, 0, 1 << 8, 40, 0] {
        d.extend_from_slice(&u32::to_le_bytes(v));
    }
    for o in offsets {
        d.extend_from_slice(&o.to_le_bytes());
    }
    d.extend_from_slice(&data);
    d.extend_from_slice(&[2, 1, 16, 0]);
    for v in [56u32, 1, 0, 0, 0, 0x0014_0014, 1, 0, 0, 1, 2, 0, 0] {
        d.extend_from_slice(&v.to_le_bytes());
    }
    let info = extract_manifest(zip_of(&[("AndroidManifest.xml", &d)])).expect("it can be read");
    assert_eq!(info.package_name.as_deref(), Some("org.app"));
    let base = zip_of(&[("AndroidManifest.xml", &d)]);
    let info = extract_manifest(zip_of(&[("base.apk", &base)])).expect("it can be read");
    assert_eq!(info.package_name.as_deref(), Some("org.app"));
}

#[test]
fn a_manifest_whose_strings_end_too_late_is_refused() {
    let mut d: Vec<u8> = vec![3, 0, 8, 0, 0, 0, 0, 0, 1, 0, 28, 0];
    for v in [34u32, 1, 0, 1 << 8, 32, 0, 0] {
        d.extend_from_slice(&v.to_le_bytes());
    }
    d.extend_from_slice(&[0x80, 0x80]);
    assert!(read_manifest(&Some(d.clone())).is_none());
    assert!(extract_manifest(zip_of(&[("AndroidManifest.xml", &d)])).is_none());
}

#[test]
fn entry_names() {
    assert!(names_arm64_library("lib/arm64-v8a/liba.so"));
    assert!(!names_arm64_library("lib/x86_64/liba.so"));
    assert!(!names_arm64_library("lib/arm64-v8a/readme.txt"));
    assert!(names_package("split.apk"));
    assert!(names_package("bundle.apks"));
    assert!(!names_package("app.apk.txt"));
    assert!(list_has(&strings(&["a", "b"]), "b"));
    assert!(!list_has(&strings(&["a", "b"]), "c"));
}

#[test]
fn all_libraries_of_a_bundle() {
    let split = zip_of(&[
        ("lib/arm64-v8a/libb.so", b"b"),
        ("lib/arm64-v8a/liba.so", b"again"),
        ("lib/armeabi/libold.so", b"old"),
    ]);
    let z = zip_of(&[
        ("lib/arm64-v8a/liba.so", b"a"),
        ("lib/arm64-v8a/sub/liba.so", b"twice"),
        ("assets/x.so", b"x"),
        ("config.arm64.apk", &split),
        ("broken.apks", b"no archive"),
    ]);
    let e = extract_all_native_sos(z.clone(), &Vec::new());
    assert!(e.complete);
    assert_eq!(names(&e), vec!["liba.so", "libb.so"]);
    assert_eq!(e.files[0].content.as_deref(), Some(&b"a"[..]));
    assert_eq!(e.files[1].content.as_deref(), Some(&b"b"[..]));
    let cached = extract_all_native_sos(z, &strings(&["libb.so", "unrelated.so"]));
    assert!(cached.complete);
    assert_eq!(names(&cached), vec!["liba.so", "libb.so"]);
    assert_eq!(cached.files[0].content.as_deref(), Some(&b"a"[..]));
    assert_eq!(cached.files[1].content, None);
}

#[test]
fn an_unreadable_library_stops_the_extraction() {
    let z = damaged(
        &[
            ("lib/arm64-v8a/liba.so", b"a"),
            ("lib/arm64-v8a/libb.so", b"MARKED"),
            ("lib/arm64-v8a/libc.so", b"c"),
        ],
        b"MARKED",
    );
    let e = extract_all_native_sos(z.clone(), &Vec::new());
    assert!(!e.complete);
    assert_eq!(names(&e), vec!["liba.so"]);
    let e = extract_all_native_sos(z, &strings(&["libb.so"]));
    assert!(e.complete);
    assert_eq!(names(&e), vec!["liba.so", "libb.so", "libc.so"]);
    let e = extract_all_native_sos(b"no archive".to_vec(), &Vec::new());
    assert!(!e.complete);
    assert!(e.files.is_empty());
}

#[test]
fn what_an_extraction_needs() {
    let mut e = Extraction::new();
    let on_disk = strings(&["libb.so"]);
    assert_eq!(e.need("lib/arm64-v8a/liba.so", &on_disk), Need::Content);
    assert_eq!(e.need("lib/arm64-v8a/libb.so", &on_disk), Need::Name);
    assert_eq!(e.need("lib/arm64-v8a/notes.txt", &on_disk), Need::Nothing);
    e.add_library("lib/arm64-v8a/liba.so", Some(vec![1]));
    assert_eq!(e.need("lib/arm64-v8a/deep/liba.so", &on_disk), Need::Nothing);
    assert_eq!(names(&e), vec!["liba.so"]);
}

#[test]
fn architectures_by_priority() {
    let directories: Vec<&str> = (0..5).map(arch_directory).collect();
    assert_eq!(
        directories,
        vec!["lib/arm64-v8a/", "lib/x86_64/", "lib/armeabi-v7a/", "lib/armeabi/", "lib/"]
    );
    let wide: Vec<bool> = (0..5).map(is_64bit).collect();
    assert_eq!(wide, vec![true, true, false, false, false]);
}

#[test]
fn selection_among_names() {
    let some = |list: &[&str]| -> Vec<Option<String>> {
        list.iter().map(|s| Some(s.to_string())).collect()
    };
    let mut list = some(&["lib/x86_64/a.so", "readme", "lib/arm64-v8a/b.so", "lib/arm64-v8a/c.so"]);
    assert_eq!(select_library(&list), Selection::Found { arch: 0, index: 2 });
    list.push(None);
    assert_eq!(select_library(&list), Selection::Found { arch: 0, index: 2 });
    list.insert(0, None);
    assert_eq!(select_library(&list), Selection::Broken);
    let list = some(&["lib/mips/a.so", "lib/armeabi/b.so"]);
    assert_eq!(select_library(&list), Selection::Found { arch: 3, index: 1 });
    let mut list = some(&["lib/x86_64/a.so"]);
    list.push(None);
    assert_eq!(select_library(&list), Selection::Broken);
    assert_eq!(select_library(&some(&["lib/readme", "a.so"])), Selection::Nothing);
    assert_eq!(select_library(&Vec::new()), Selection::Nothing);
}

#[test]
fn the_library_to_run() {
    let z = zip_of(&[("lib/armeabi/libold.so", b"old"), ("lib/x86_64/libnew.so", b"new")]);
    let library = extract_apk_native_so(z).expect("a library");
    assert_eq!(library.package, None);
    assert_eq!(library.arch, 1);
    assert_eq!(library.entry, "lib/x86_64/libnew.so");
    assert_eq!(library.file_name, "libnew.so");
    assert_eq!(library.content, b"new");
}

#[test]
fn the_library_to_run_in_a_nested_package() {
    let empty = zip_of(&[("readme", b"")]);
    let split = zip_of(&[("lib/arm64-v8a/libmain.so", b"main")]);
    let z = zip_of(&[("x.apk", b"no archive"), ("y.apk", &empty), ("z.apk", &split)]);
    let library = extract_apk_native_so(z).expect("a library");
    assert_eq!(library.package.as_deref(), Some("z.apk"));
    assert_eq!(library.arch, 0);
    assert_eq!(library.content, b"main");
}

#[test]
fn packages_without_a_library_to_run() {
    let e = extract_apk_native_so(zip_of(&[("readme", b"")])).expect_err("no library");
    assert_eq!(e, SelectError::NoLibrary);
    let e = extract_apk_native_so(b"no archive".to_vec()).expect_err("no archive");
    assert_eq!(e, SelectError::NotAnArchive);
    let z = damaged(&[("lib/arm64-v8a/liba.so", b"MARKED")], b"MARKED");
    let e = extract_apk_native_so(z).expect_err("a damaged library");
    assert_eq!(e, SelectError::Unreadable);
    let z = damaged(&[("nested.apk", b"MARKED")], b"MARKED");
    let e = extract_apk_native_so(z).expect_err("a damaged package");
    assert_eq!(e, SelectError::Unreadable);
}
