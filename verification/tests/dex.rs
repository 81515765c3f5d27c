use maarch64_android::dex::classes;
use maarch64_android::dex::classes::{collect_classes, defines_main_activity};
use maarch64_android::dex::manifest;
use maarch64_android::dex::{parse_dex, reader_will_return, DexInfo, ManifestInfo};

fn put_u16(out: &mut Vec<u8>, v: u16) {
    out.extend_from_slice(&v.to_le_bytes());
}

fn put_u32(out: &mut Vec<u8>, v: u32) {
    out.extend_from_slice(&v.to_le_bytes());
}

fn set_u32(out: &mut [u8], at: usize, v: u32) {
    out[at..at + 4].copy_from_slice(&v.to_le_bytes());
}

fn adler32(data: &[u8]) -> u32 {
    let mut a: u32 = 1;
    let mut b: u32 = 0;
    for x in data {
        a = (a + *x as u32) % 65521;
        b = (b + a) % 65521;
    }
    (b << 16) | a
}

/// A DEX file that defines classes with these descriptors, and one more whose type is missing.
fn dex_file(descriptors: &[&str]) -> Vec<u8> {
    let n = descriptors.len();
    let strings_off = 0x70;
    let types_off = strings_off + 4 * n;
    let classes_off = types_off + 4 * n;
    let data_off = classes_off + 32 * (n + 1);
    let mut d = vec![0u8; data_off];
    d[0..8].copy_from_slice(b"dex\n035\0");
    d[40..44].copy_from_slice(&[0x78, 0x56, 0x34, 0x12]);
    for (i, s) in descriptors.iter().enumerate() {
        let at = d.len() as u32;
        set_u32(&mut d, strings_off + 4 * i, at);
        set_u32(&mut d, types_off + 4 * i, i as u32);
        d.push(s.len() as u8);
        d.extend_from_slice(s.as_bytes());
        d.push(0);
    }
    for i in 0..n + 1 {
        let at = classes_off + 32 * i;
        set_u32(&mut d, at, if i < n { i as u32 } else { 1000 });
        set_u32(&mut d, at + 4, 1);
        set_u32(&mut d, at + 8, 0xffff_ffff);
        set_u32(&mut d, at + 16, 0xffff_ffff);
    }
    let map_off = d.len() as u32;
    put_u32(&mut d, 0);
    let size = d.len() as u32;
    set_u32(&mut d, 32, size);
    set_u32(&mut d, 36, 0x70);
    set_u32(&mut d, 52, map_off);
    set_u32(&mut d, 56, n as u32);
    set_u32(&mut d, 60, strings_off as u32);
    set_u32(&mut d, 64, n as u32);
    set_u32(&mut d, 68, types_off as u32);
    set_u32(&mut d, 96, n as u32 + 1);
    set_u32(&mut d, 100, classes_off as u32);
    set_u32(&mut d, 104, size - data_off as u32);
    set_u32(&mut d, 108, data_off as u32);
    let sum = adler32(&d[12..]);
    set_u32(&mut d, 8, sum);
    d
}

#[test]
fn classes_of_a_dex_file() {
    let d = dex_file(&["Lapp/Helper;", "Lapp/MainActivity;", "Lapp/SyncService;"]);
    assert!(reader_will_return(&d));
    let info = parse_dex(&d).expect("a valid file");
    assert_eq!(info.class_count, 3);
    assert_eq!(info.classes, vec!["Lapp/Helper;", "Lapp/MainActivity;", "Lapp/SyncService;"]);
    assert_eq!(info.activities, vec!["Lapp/MainActivity;"]);
    assert_eq!(info.services, vec!["Lapp/SyncService;"]);
    assert!(defines_main_activity(&info, "app.MainActivity"));
    assert!(!defines_main_activity(&info, "app.Other"));
}

#[test]
fn what_is_no_dex_file_is_an_error() {
    let e = parse_dex(b"not a dex file").expect_err("too short");
    assert!(e.message.starts_with("DEX parse error: "));
    assert!(e.message.len() > "DEX parse error: ".len());
    let mut d = dex_file(&["LA;"]);
    d[20] ^= 1;
    let e = parse_dex(&d).expect_err("a wrong checksum");
    assert!(e.message.starts_with("DEX parse error: "));
}

#[test]
fn classes_are_sorted_by_descriptor() {
    let list: Vec<Option<String>> = ["La/FooActivity;", "La/activity/Bar;", "La/ActivityService;",
        "La/FooService;", "La/service/Baz;", "La/activityservice;", "La/Plain;"]
        .iter()
        .map(|s| Some(s.to_string()))
        .chain([None])
        .collect();
    let info: DexInfo = collect_classes(&list);
    assert_eq!(info.class_count, 7);
    assert_eq!(info.activities, vec!["La/FooActivity;", "La/activity/Bar;", "La/activityservice;"]);
    assert_eq!(info.services, vec!["La/ActivityService;", "La/FooService;", "La/service/Baz;"]);
    let none: DexInfo = classes::collect_classes(&Vec::new());
    assert_eq!(none.class_count, 0);
}

/// The file with its checksum set right.
fn sealed(mut d: Vec<u8>) -> Vec<u8> {
    let sum = adler32(&d[12..]);
    set_u32(&mut d, 8, sum);
    d
}

#[test]
fn headers_beyond_32_bits() {
    let mut d = dex_file(&["LA;"]);
    set_u32(&mut d, 104, u32::MAX);
    assert!(!reader_will_return(&d));
    let mut d = dex_file(&["LA;"]);
    d[40..44].copy_from_slice(&[0x12, 0x34, 0x56, 0x78]);
    d[104..112].copy_from_slice(&[0, 0, 0, 1, 0xff, 0xff, 0xff, 0xff]);
    assert!(!reader_will_return(&d));
    let mut d = dex_file(&["LA;"]);
    set_u32(&mut d, 64, 0);
    assert!(!reader_will_return(&sealed(d)));
    let mut d = dex_file(&["LA;"]);
    set_u32(&mut d, 68, 0xffff_fffd);
    set_u32(&mut d, 64, 2);
    assert!(!reader_will_return(&sealed(d)));
}

#[test]
fn files_that_are_given_up_at_once() {
    for d in [Vec::new(), vec![0; 44], vec![0; 200]] {
        assert!(reader_will_return(&d));
        assert!(parse_dex(&d).is_err());
    }
    // No types, but a wrong checksum.
    let mut d = dex_file(&["LA;"]);
    set_u32(&mut d, 64, 0);
    assert!(reader_will_return(&d));
    assert!(parse_dex(&d).is_err());
    // The map is not in the data section.
    let mut d = dex_file(&["LA;"]);
    set_u32(&mut d, 52, 0x70);
    let d = sealed(d);
    assert!(reader_will_return(&d));
    assert!(parse_dex(&d).is_err());
    // The map lists an unknown kind of section.
    let mut d = dex_file(&["LA;"]);
    let map = d.len() - 4;
    set_u32(&mut d, map, 1);
    d.extend_from_slice(&[9, 0, 0, 0, 0, 0, 0, 0, 0, 0, 0, 0]);
    let d = sealed(d);
    assert!(reader_will_return(&d));
    assert!(parse_dex(&d).is_err());
    // The map announces more than the file has.
    let mut d = dex_file(&["LA;"]);
    set_u32(&mut d, map, 100_000);
    let d = sealed(d);
    assert!(reader_will_return(&d));
    assert!(parse_dex(&d).is_err());
    let mut d = dex_file(&["LA;"]);
    set_u32(&mut d, map, u32::MAX);
    assert!(reader_will_return(&sealed(d)));
}

#[test]
fn class_tables_past_the_end() {
    let mut d = dex_file(&["LA;"]);
    set_u32(&mut d, 100, u32::MAX);
    set_u32(&mut d, 64, 0);
    let d = sealed(d);
    assert!(reader_will_return(&d));
    assert_eq!(parse_dex(&d).expect("no class").class_count, 0);
    // More classes than the file has.
    let mut d = dex_file(&["LA;"]);
    let end = d.len() as u32;
    set_u32(&mut d, 96, 100_000);
    set_u32(&mut d, 100, end);
    let at = d.len();
    d.extend_from_slice(&[0; 32]);
    set_u32(&mut d, at + 8, 0xffff_ffff);
    set_u32(&mut d, at + 16, 0xffff_ffff);
    let mut d = sealed(d);
    assert!(reader_will_return(&d));
    assert_eq!(parse_dex(&d).expect("one class").classes, vec!["LA;"]);
    set_u32(&mut d, 96, u32::MAX);
    assert!(reader_will_return(&sealed(d)));
}

fn uleb(mut v: u64) -> Vec<u8> {
    let mut out = Vec::new();
    while v >= 0x80 {
        out.push(v as u8 | 0x80);
        v >>= 7;
    }
    out.push(v as u8);
    out
}

/// Where the data section of a `Package` begins.
const DATA: u32 = 0x1000;

/// The parts of a DEX file with one class.
struct Package {
    big_endian: bool,
    strings: Vec<Vec<u8>>,
    types: Vec<u32>,
    protos: Vec<[u32; 3]>,
    fields: Vec<(u16, u16, u32)>,
    methods: Vec<(u16, u16, u32)>,
    handles: Vec<[u16; 4]>,
    /// Index, flags, super class, interfaces, source file, annotations, data, static values.
    class: [u32; 8],
    data: Vec<u8>,
}

impl Package {
    fn new(big_endian: bool) -> Package {
        let strings = ["LA;", "I", "name", "V", "LB;", "value"];
        Package {
            big_endian,
            strings: strings.iter().map(|s| s.as_bytes().to_vec()).collect(),
            types: vec![0, 1, 3, 4],
            protos: vec![[3, 2, 0]],
            fields: vec![(0, 1, 2), (0, 1, 5)],
            methods: vec![(0, 0, 2), (0, 0, 5)],
            handles: vec![[4, 0, 1, 0]],
            class: [0, 1, 0xffff_ffff, 0, 0xffff_ffff, 0, 0, 0],
            data: vec![0; 4],
        }
    }

    fn half(&self, v: u16) -> Vec<u8> {
        if self.big_endian { v.to_be_bytes().to_vec() } else { v.to_le_bytes().to_vec() }
    }

    fn word(&self, v: u32) -> Vec<u8> {
        if self.big_endian { v.to_be_bytes().to_vec() } else { v.to_le_bytes().to_vec() }
    }

    fn words(&self, list: &[u32]) -> Vec<u8> {
        list.iter().flat_map(|v| self.word(*v)).collect()
    }

    /// Puts bytes into the data section and returns their offset.
    fn put(&mut self, bytes: &[u8]) -> u32 {
        while self.data.len() % 4 != 0 {
            self.data.push(0);
        }
        let at = DATA + self.data.len() as u32;
        self.data.extend_from_slice(bytes);
        at
    }

    fn static_values(&mut self, bytes: &[u8]) {
        self.class[7] = self.put(bytes);
    }

    /// The data of a class with these members: index difference, flags, and offset of code.
    fn members(&mut self, fields: &[(u64, u64)], methods: &[(u64, u64, u64)]) {
        let mut out = uleb(fields.len() as u64);
        out.extend(uleb(0));
        out.extend(uleb(methods.len() as u64));
        out.extend(uleb(0));
        for (skip, flags) in fields {
            out.extend(uleb(*skip));
            out.extend(uleb(*flags));
        }
        for (skip, flags, code) in methods {
            out.extend(uleb(*skip));
            out.extend(uleb(*flags));
            out.extend(uleb(*code));
        }
        self.class[6] = self.put(&out);
    }

    /// Code with these instructions, protected ranges, and bytes behind those.
    fn code(&mut self, debug: u32, instructions: u32, handler_offsets: &[u16], rest: &[u8]) -> u64 {
        let mut out = Vec::new();
        for v in [1, 1, 0, handler_offsets.len() as u16] {
            out.extend(self.half(v));
        }
        out.extend(self.words(&[debug, instructions]));
        out.extend(vec![0; 2 * (instructions as usize)]);
        if instructions % 2 != 0 && !handler_offsets.is_empty() {
            out.extend([0, 0]);
        }
        for off in handler_offsets {
            out.extend(self.word(0));
            out.extend(self.half(1));
            out.extend(self.half(*off));
        }
        out.extend_from_slice(rest);
        self.put(&out) as u64
    }

    fn bytes(mut self) -> Vec<u8> {
        let mut handles = Vec::new();
        for h in self.handles.clone() {
            for v in h {
                handles.extend(self.half(v));
            }
        }
        let handle_count = self.handles.len() as u32;
        let handles_off = self.put(&handles);
        let mut offsets = Vec::new();
        for s in self.strings.clone() {
            let mut text = uleb(s.len() as u64);
            text.extend_from_slice(&s);
            text.push(0);
            offsets.push(self.put(&text));
        }
        let mut map = self.words(&[1]);
        map.extend(self.half(8));
        map.extend(self.half(0));
        map.extend(self.words(&[handle_count, handles_off]));
        let map_off = self.put(&map);

        let mut d = vec![0u8; 0x70];
        d[0..8].copy_from_slice(b"dex\n035\0");
        let mut header = vec![(40, 0x1234_5678), (52, map_off)];
        header.extend([(104, self.data.len() as u32), (108, DATA)]);
        header.extend([(56, self.strings.len() as u32), (60, d.len() as u32)]);
        d.extend(self.words(&offsets));
        header.extend([(64, self.types.len() as u32), (68, d.len() as u32)]);
        d.extend(self.words(&self.types));
        header.extend([(72, self.protos.len() as u32), (76, d.len() as u32)]);
        for p in &self.protos {
            d.extend(self.words(p));
        }
        header.extend([(80, self.fields.len() as u32), (84, d.len() as u32)]);
        for (class, kind, name) in &self.fields {
            d.extend(self.half(*class));
            d.extend(self.half(*kind));
            d.extend(self.word(*name));
        }
        header.extend([(88, self.methods.len() as u32), (92, d.len() as u32)]);
        for (class, proto, name) in &self.methods {
            d.extend(self.half(*class));
            d.extend(self.half(*proto));
            d.extend(self.word(*name));
        }
        header.extend([(96, 1), (100, d.len() as u32)]);
        d.extend(self.words(&self.class));
        for (at, v) in header {
            let word = self.word(v);
            d[at..at + 4].copy_from_slice(&word);
        }
        d.resize(DATA as usize, 0);
        d.extend_from_slice(&self.data);
        let sum = self.word(adler32(&d[12..]));
        d[8..12].copy_from_slice(&sum);
        d
    }
}

/// The reader comes back from the file with so many classes.
fn gives(package: Package, count: usize) {
    let d = package.bytes();
    assert!(reader_will_return(&d));
    let info = parse_dex(&d).expect("a file");
    assert_eq!(info.class_count, count);
    assert!(info.classes.iter().all(|c| c == "LA;"));
}

/// The reader comes back from the file, given memory for the lists that it announces.
fn comes_back(package: Package) {
    assert!(reader_will_return(&package.bytes()));
}

/// The reader does not come back from the file.
fn breaks(package: Package) {
    assert!(!reader_will_return(&package.bytes()));
}

/// A class whose fields have these initial values.
fn with_values(bytes: &[u8]) -> Package {
    let mut p = Package::new(false);
    p.static_values(bytes);
    p
}

/// A class with values, annotations, fields, methods, code and interfaces.
fn everything(big_endian: bool) -> Package {
    let mut p = Package::new(big_endian);
    p.static_values(&[
        18, // as many values
        0x00, 1, // byte
        0x22, 1, 2, // short
        0x23, 1, 2, // char
        0x64, 1, 2, 3, 4, // int
        0xe6, 1, 2, 3, 4, 5, 6, 7, 8, // long
        0x10, 1, // float
        0x51, 1, 2, 3, // double
        0x15, 0, // prototype
        0x16, 0, // method handle
        0x37, 2, 0, // string
        0x18, 3, // type
        0x19, 1, // field
        0x1a, 1, // method
        0x1b, 0, // enum
        0x1c, 2, 0x1e, 0x1c, 1, 0x3f, // array
        0x1d, 3, 1, 5, 0x17, 2, // annotation
        0x1e, // null
        0x3f, // truth value
    ]);
    let item = p.put(&[2, 3, 1, 5, 0x17, 2]);
    let set = p.words(&[1, item]);
    let set = p.put(&set);
    let list = p.words(&[2, set, 0]);
    let list = p.put(&list);
    let directory = p.words(&[set, 1, 1, 1, 0, set, 0, set, 0, list]);
    p.class[5] = p.put(&directory);
    let mut types = p.word(2);
    types.extend(p.half(1));
    types.extend(p.half(3));
    let types = p.put(&types);
    p.protos[0][2] = types;
    p.class[3] = types;
    // Line 5, two parameters: the string "name", and none.
    let mut debug = vec![5, 2, 1];
    debug.extend(uleb(0xffff_fffe));
    let debug = p.put(&debug);
    // Two handlers: one of one type, and one of one type and for all others.
    let code = p.code(debug, 3, &[1, 4], &[2, 1, 3, 7, 0x7f, 3, 7, 9]);
    p.members(&[(0, 9), (1, 0x10)], &[(0, 0x1_0001, code), (1, 1, 0)]);
    p
}

#[test]
fn a_class_with_everything() {
    gives(everything(false), 1);
    gives(everything(true), 1);
}

#[test]
fn the_reader_comes_back_from_altered_files() {
    let mut returned = 0;
    let mut all = 0;
    for big_endian in [false, true] {
        let package = everything(big_endian);
        let members = package.class[6] as usize;
        let values = package.class[7] as usize;
        // The initial values, the numbers of members, and the tables of types, fields and methods.
        let types = 0x70 + 4 * package.strings.len();
        let protos = types + 4 * package.types.len();
        let fields = protos + 12 * package.protos.len();
        let end = fields + 8 * package.fields.len() + 8 * package.methods.len();
        let coded = (values..values + 56).chain(members..members + 8);
        let places: Vec<usize> = coded.chain(types..protos).chain(fields..end).collect();
        let original = package.bytes();
        for i in places {
            for b in 0..=255 {
                let mut d = original.clone();
                d[i] = b;
                let sum = adler32(&d[12..]);
                let sum = if big_endian { sum.to_be_bytes() } else { sum.to_le_bytes() };
                d[8..12].copy_from_slice(&sum);
                all += 1;
                if reader_will_return(&d) {
                    returned += 1;
                    assert!(parse_dex(&d).expect("a file").class_count <= 1);
                }
            }
        }
    }
    assert!(returned > 0 && returned < all);
}

#[test]
fn values_wider_than_their_kind() {
    breaks(with_values(&[1, 0x20, 0, 0]));
    let mut d = dex_file(&["LA;"]);
    let off = d.len() as u32;
    let data_off = u32::from_le_bytes([d[108], d[109], d[110], d[111]]);
    d.extend_from_slice(&[1, 0x20, 0, 0]);
    let size = d.len() as u32;
    set_u32(&mut d, 32, size);
    set_u32(&mut d, 104, size - data_off);
    let class = u32::from_le_bytes([d[100], d[101], d[102], d[103]]) as usize;
    set_u32(&mut d, class + 28, off);
    assert!(!reader_will_return(&sealed(d)));
    for header in [0x42, 0x43, 0x84, 0x90, 0x95, 0x96, 0x97, 0x98, 0x99, 0x9a, 0x9b] {
        breaks(with_values(&[1, header, 0, 0, 0, 0, 0, 0, 0, 0]));
        gives(with_values(&[1, header - 0x20, 0, 0, 0, 0, 0, 0, 0, 0]), 1);
    }
    for header in [0x3c, 0x3d, 0x3e, 0x5f] {
        breaks(with_values(&[1, header, 0, 0]));
    }
}

#[test]
fn values_that_are_given_up() {
    gives(with_values(&[1, 0x01, 0]), 0);
    gives(with_values(&[1, 0x05, 0]), 0);
    gives(with_values(&[1, 0x14, 0]), 0);
    gives(with_values(&[1, 0x17, 6]), 0);
    gives(with_values(&[1, 0x18, 4]), 0);
    gives(with_values(&[1, 0x19, 2]), 0);
    gives(with_values(&[1, 0x1a, 2]), 0);
    gives(with_values(&[1, 0x15, 1]), 0);
    gives(with_values(&[1, 0x16, 1]), 0);
    // What comes behind a value that is given up is not read.
    gives(with_values(&[2, 0x01, 0x20]), 0);
    let mut p = Package::new(false);
    p.class[7] = 0x80;
    gives(p, 0);
    let mut p = Package::new(false);
    p.class[0] = 9;
    p.static_values(&[1, 0x20, 0, 0]);
    gives(p, 0);
}

#[test]
fn values_in_values() {
    let nested = |depth: usize| {
        let mut out = vec![1u8];
        for _ in 0..depth {
            out.extend([0x1c, 1]);
        }
        out.push(0x1e);
        out
    };
    gives(with_values(&nested(256)), 1);
    breaks(with_values(&nested(257)));
    let annotated = |depth: usize| {
        let mut out = vec![1u8];
        for _ in 0..depth {
            out.extend([0x1d, 3, 1, 2]);
        }
        out.push(0x1e);
        out
    };
    gives(with_values(&annotated(256)), 1);
    breaks(with_values(&annotated(257)));
    // Lists that announce more than the file has, and more than a list can hold.
    let many = |n: u64| {
        let mut out = uleb(n);
        out.push(0x1e);
        with_values(&out)
    };
    let inner = |n: u64| {
        let mut out = vec![1, 0x1c];
        out.extend(uleb(n));
        with_values(&out)
    };
    let elements = |n: u64| {
        let mut out = vec![1, 0x1d, 3];
        out.extend(uleb(n));
        with_values(&out)
    };
    gives(many(100_000), 0);
    gives(inner(100_000), 0);
    gives(elements(100_000), 0);
    comes_back(many(1 << 40));
    breaks(many(1 << 58));
    breaks(inner(1 << 58));
    breaks(elements(1 << 58));
}

#[test]
fn tables_that_are_empty() {
    let mut p = with_values(&[1, 0x19, 0]);
    p.fields.clear();
    breaks(p);
    let mut p = with_values(&[1, 0x1a, 0]);
    p.methods.clear();
    breaks(p);
    let mut p = with_values(&[1, 0x15, 0]);
    p.protos.clear();
    breaks(p);
    let mut p = with_values(&[1, 0x16, 0]);
    p.handles.clear();
    breaks(p);
    let mut p = with_values(&[1, 0x16, 0]);
    p.handles[0][0] = 9;
    gives(p, 0);
    let mut p = Package::new(false);
    p.types.clear();
    breaks(p);
    let mut p = Package::new(false);
    p.class[0] = 0x4000_0000;
    breaks(p);
}

#[test]
fn annotations_of_a_class() {
    let directory = |own: &[u8]| {
        let mut p = Package::new(false);
        let item = p.put(own);
        let set = p.words(&[1, item]);
        let set = p.put(&set);
        let directory = p.words(&[set, 0, 0, 0]);
        p.class[5] = p.put(&directory);
        p
    };
    gives(directory(&[0, 3, 0]), 1);
    gives(directory(&[1, 3, 1, 2, 0x1e]), 1);
    gives(directory(&[3, 3, 0]), 0);
    gives(directory(&[0, 9, 0]), 0);
    gives(directory(&[0, 3, 1, 9, 0x1e]), 0);
    breaks(directory(&[0, 3, 1, 2, 0x20, 0, 0]));
    // Lists that announce more than the file has.
    let fields = |n: u32| {
        let mut p = Package::new(false);
        let directory = p.words(&[0, n, 0, 0]);
        p.class[5] = p.put(&directory);
        p
    };
    gives(fields(100_000), 0);
    comes_back(fields(u32::MAX));
    let set = |n: u32| {
        let mut p = Package::new(false);
        let set = p.words(&[n]);
        let set = p.put(&set);
        let directory = p.words(&[set, 0, 0, 0]);
        p.class[5] = p.put(&directory);
        p
    };
    gives(set(100_000), 0);
    comes_back(set(u32::MAX));
    let mut p = Package::new(false);
    let directory = p.words(&[0, 0, 0, 1, 0, 0]);
    p.class[5] = p.put(&directory);
    gives(p, 0);
}

#[test]
fn members_of_a_class() {
    let fields = |list: &[(u64, u64)]| {
        let mut p = Package::new(false);
        p.members(list, &[]);
        p
    };
    gives(fields(&[(0, 0x50df), (1, 0)]), 1);
    gives(fields(&[(0, 0x20)]), 0);
    gives(fields(&[(2, 0)]), 0);
    breaks(fields(&[(u64::MAX, 0)]));
    breaks(fields(&[(1, 0), (u64::MAX, 0)]));
    let methods = |list: &[(u64, u64, u64)]| {
        let mut p = Package::new(false);
        p.members(&[], list);
        p
    };
    gives(methods(&[(0, 0x3_1dff, 0), (1, 0, 0)]), 1);
    gives(methods(&[(0, 0x200, 0)]), 0);
    gives(methods(&[(0, 0, 0x80)]), 0);
    gives(methods(&[(0, 0, 0x1_0000_0000 + DATA as u64)]), 0);
    // More members than the data has, and more than a list can hold.
    let announced = |n: u64| {
        let mut p = Package::new(false);
        let mut out = uleb(n);
        out.extend([0, 0, 0]);
        p.class[6] = p.put(&out);
        p
    };
    gives(announced(100_000), 0);
    breaks(announced(1 << 59));
    let mut p = Package::new(false);
    p.protos[0][2] = 0x80;
    p.members(&[], &[(0, 0, 0)]);
    gives(p, 0);
}

#[test]
fn code_of_a_method() {
    let method = |debug: Option<&[u8]>, instructions: u32, offsets: &[u16], rest: &[u8]| {
        let mut p = Package::new(false);
        let debug = debug.map_or(0, |b| p.put(b));
        let code = p.code(debug, instructions, offsets, rest);
        p.members(&[], &[(0, 0, code)]);
        p
    };
    gives(method(None, 2, &[], &[]), 1);
    gives(method(Some(&[1, 0]), 1, &[], &[]), 1);
    gives(method(Some(&[1, 1, 9]), 1, &[], &[]), 0);
    let mut debug = vec![1, 1];
    debug.extend(uleb(u64::MAX));
    breaks(method(Some(&debug), 1, &[], &[]));
    let names = |n: u64| {
        let mut out = vec![1];
        out.extend(uleb(n));
        out
    };
    gives(method(Some(&names(100_000)), 1, &[], &[]), 0);
    breaks(method(Some(&names(1 << 60)), 1, &[], &[]));
    // One handler, for all types.
    gives(method(None, 2, &[1], &[1, 0, 5]), 1);
    gives(method(None, 2, &[2], &[1, 0, 5]), 0);
    gives(method(None, 2, &[1], &[1, 1, 9, 5]), 0);
    breaks(method(None, 2, &[1], &[1, 0x80, 0x80, 0x80, 0x80, 0x80, 0x80, 0x80, 0x80, 0x80, 0x7f]));
    gives(method(None, 2, &[1], &[1, 0x80, 0x80, 0x20]), 0);
    breaks(method(None, 2, &[1], &[1, 0x80, 0x80, 0x80, 0x80, 0x80, 0x80, 0x80, 0x80, 0x08]));
    gives(method(None, 2, &[1], &uleb(100_000)), 0);
    breaks(method(None, 2, &[1], &uleb(1 << 58)));
}

#[test]
fn strings_in_modified_utf8() {
    let named = |name: &[u8]| {
        let mut p = with_values(&[1, 0x17, 6]);
        p.strings.push(name.to_vec());
        p
    };
    gives(named("gr\u{fc}n \u{20ac} \u{1f600}".as_bytes()), 1);
    gives(named(&[0xc0, 0x80]), 1);
    gives(named(&[0xed, 0xa0, 0xbd, 0xed, 0xb8, 0x80]), 1);
    gives(named(&[0xed, 0xa0, 0xbd]), 0);
    gives(named(&[0xed, 0xb0, 0x80]), 0);
    gives(named(&[0xc1, 0x80]), 0);
    gives(named(&[0xe0, 0x80, 0x80]), 0);
    gives(named(&[0x80]), 0);
    gives(named(&[0xc0, 0x80, 0xf0, 0x9f, 0x98, 0x80]), 0);
}

/// A string pool chunk.
fn pool(strings: &[&str], utf8: bool) -> Vec<u8> {
    let mut data = Vec::new();
    let mut offsets = Vec::new();
    for s in strings {
        offsets.push(data.len() as u32);
        if utf8 {
            data.push(s.chars().count() as u8);
            data.push(s.len() as u8);
            data.extend_from_slice(s.as_bytes());
            data.push(0);
        } else {
            let units: Vec<u16> = s.encode_utf16().collect();
            put_u16(&mut data, units.len() as u16);
            for u in units {
                put_u16(&mut data, u);
            }
            put_u16(&mut data, 0);
        }
    }
    while data.len() % 4 != 0 {
        data.push(0);
    }
    let start = 28 + 4 * strings.len();
    let mut out = Vec::new();
    put_u16(&mut out, 0x0001);
    put_u16(&mut out, 28);
    put_u32(&mut out, (start + data.len()) as u32);
    put_u32(&mut out, strings.len() as u32);
    put_u32(&mut out, 0);
    put_u32(&mut out, if utf8 { 1 << 8 } else { 0 });
    put_u32(&mut out, start as u32);
    put_u32(&mut out, 0);
    for o in offsets {
        put_u32(&mut out, o);
    }
    out.extend_from_slice(&data);
    out
}

/// A chunk that begins an element with attributes, given by indices into the pool.
fn element(name: u32, attributes: &[(u32, u32)]) -> Vec<u8> {
    let mut out = Vec::new();
    put_u16(&mut out, 0x0102);
    put_u16(&mut out, 16);
    put_u32(&mut out, (36 + 20 * attributes.len()) as u32);
    put_u32(&mut out, 1);
    put_u32(&mut out, 0xffff_ffff);
    put_u32(&mut out, 0xffff_ffff);
    put_u32(&mut out, name);
    put_u16(&mut out, 20);
    put_u16(&mut out, 20);
    put_u16(&mut out, attributes.len() as u16);
    put_u16(&mut out, 0);
    put_u32(&mut out, 0);
    for (n, v) in attributes {
        put_u32(&mut out, 0xffff_ffff);
        put_u32(&mut out, *n);
        put_u32(&mut out, *v);
        put_u32(&mut out, 0);
        put_u32(&mut out, 0);
    }
    out
}

fn document(chunks: &[Vec<u8>]) -> Vec<u8> {
    let mut out = Vec::new();
    put_u16(&mut out, 0x0003);
    put_u16(&mut out, 8);
    put_u32(&mut out, 8 + chunks.iter().map(|c| c.len() as u32).sum::<u32>());
    for c in chunks {
        out.extend_from_slice(c);
    }
    out
}

const NAMES: [&str; 9] = [
    "manifest", "package", "application", "name", "activity", "org.app", ".App", ".First", ".Second",
];

fn sample(utf8: bool) -> Vec<u8> {
    document(&[
        pool(&NAMES, utf8),
        element(0, &[(1, 5)]),
        element(2, &[(3, 6)]),
        element(4, &[(1, 5), (3, 7)]),
        element(4, &[(3, 8)]),
    ])
}

#[test]
fn manifest_names_package_application_and_first_activity() {
    for utf8 in [true, false] {
        let d = sample(utf8);
        assert!(ManifestInfo::can_parse(&d));
        let info = ManifestInfo::parse(&d);
        assert_eq!(info.package_name.as_deref(), Some("org.app"));
        assert_eq!(info.application_class.as_deref(), Some(".App"));
        assert_eq!(info.main_activity.as_deref(), Some(".First"));
    }
}

#[test]
fn later_packages_and_applications_replace_earlier_ones() {
    let d = document(&[
        pool(&NAMES, true),
        element(0, &[(1, 5), (1, 6)]),
        element(2, &[(3, 6)]),
        element(2, &[(3, 8)]),
    ]);
    let info = ManifestInfo::parse(&d);
    assert_eq!(info.package_name.as_deref(), Some(".App"));
    assert_eq!(info.application_class.as_deref(), Some(".Second"));
    assert_eq!(info.main_activity, None);
}

#[test]
fn manifests_without_content_name_nothing() {
    for d in [Vec::new(), vec![0u8; 7], vec![0u8; 64], document(&[])] {
        assert!(ManifestInfo::can_parse(&d));
        let info = ManifestInfo::parse(&d);
        assert_eq!(info.package_name, None);
        assert_eq!(info.application_class, None);
        assert_eq!(info.main_activity, None);
    }
}

#[test]
fn missing_strings_are_empty() {
    let d = document(&[pool(&NAMES, true), element(0, &[(1, 99)])]);
    assert_eq!(ManifestInfo::parse(&d).package_name.as_deref(), Some(""));
}

#[test]
fn attributes_beyond_the_end_are_left_out() {
    let full = document(&[pool(&NAMES, true), element(0, &[(1, 5), (1, 6)])]);
    let cut = &full[..full.len() - 1];
    assert_eq!(ManifestInfo::parse(cut).package_name.as_deref(), Some("org.app"));
}

#[test]
fn strings_beyond_the_end_cannot_be_parsed() {
    let mut d = document(&[pool(&["a"], true)]);
    assert!(ManifestInfo::can_parse(&d));
    d.truncate(42);
    d[40] = 0x80;
    d[41] = 0x80;
    assert!(!ManifestInfo::can_parse(&d));
}

#[test]
fn string_pool_in_both_encodings() {
    let words = ["plain", "", "caf\u{e9}", "\u{1f600}"];
    let d = document(&[pool(&words, true)]);
    assert_eq!(manifest::parse_axml_string_pool(&d), words);
    let d = document(&[pool(&words, false)]);
    assert_eq!(manifest::parse_axml_string_pool(&d), words);
    assert_eq!(manifest::normalize_class_name(".App"), ".App");
}

#[test]
fn broken_encodings_are_replaced() {
    let mut d = document(&[pool(&["abc"], true)]);
    d[42] = 0xff;
    assert_eq!(manifest::parse_axml_string_pool(&d), vec!["\u{fffd}bc"]);
    assert_eq!(manifest::parse_utf8_string(&d, 40), "\u{fffd}bc");
    let mut d = document(&[pool(&["ab"], false)]);
    d[42] = 0x00;
    d[43] = 0xd8;
    assert_eq!(manifest::parse_axml_string_pool(&d), vec!["\u{fffd}b"]);
    assert_eq!(manifest::parse_utf16_string(&d, 40), "\u{fffd}b");
}

#[test]
fn utf16_strings_are_read_back() {
    let text = "a\u{1f600}\u{20ac}\u{10ffff}";
    let units: Vec<u16> = text.encode_utf16().collect();
    let mut d = vec![7u8; 5];
    put_u16(&mut d, units.len() as u16);
    for u in &units {
        put_u16(&mut d, *u);
    }
    let end = d.len();
    d.extend_from_slice(&[0xff; 3]);
    assert_eq!(manifest::parse_utf16_string(&d, 5), text);
    for cut in 0..end {
        assert_eq!(manifest::parse_utf16_string(&d[..cut], 5), "");
    }
    assert_eq!(manifest::parse_utf16_string(&d[..end], 5), text);
    // Halves of pairs that stand alone, or in the wrong order, are replaced one by one.
    let mut d = Vec::new();
    put_u16(&mut d, 6);
    for u in [0xdc00, 0xd800, 0x61, 0xd83d, 0xd83d, 0xde00] {
        put_u16(&mut d, u);
    }
    assert_eq!(manifest::parse_utf16_string(&d, 0), "\u{fffd}\u{fffd}a\u{fffd}\u{1f600}");
}
