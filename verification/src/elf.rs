//! Native libraries: which of them export `JNI_OnLoad`, and where.
use crate::bytes;
use crate::text;
use object::{Object, ObjectSegment, ObjectSymbol};
use vstd::prelude::*;

verus! {

/// What a library is moved by where it is linked to address zero.
pub const LOAD_BIAS: u64 = 0x400000;

/// A symbol of a library: its name, where that can be read, and its place in the table.
#[derive(Debug)]
pub struct Symbol {
    pub name: Option<String>,
    pub index: usize,
}

/// What is read of a library.
#[derive(Debug)]
pub struct ObjectImage {
    /// The address of the first segment, where there is one.
    pub first_segment: Option<u64>,
    pub dynamic_symbols: Vec<Symbol>,
    pub symbols: Vec<Symbol>,
}

/// Why there is no `JNI_OnLoad` to call.
#[derive(Debug)]
pub enum OnLoadError {
    /// The library cannot be parsed, with the reason.
    Malformed(String),
    /// No symbol has the name.
    NotFound,
    /// The address lies behind the end of the address space.
    PastEnd,
}

/// What `object::File::parse` and the segments and symbols of its result make of a file:
/// the address of the first segment, then the dynamic symbols and the symbols, each with
/// its name, where that can be read, and its index; or else the text of the error.
pub uninterp spec fn object_image(
    data: Seq<u8>,
) -> Result<
    (Option<u64>, Seq<(Option<Seq<char>>, usize)>, Seq<(Option<Seq<char>>, usize)>),
    Seq<char>,
>;

/// The `object::ObjectSymbol::address` of the symbol at this position among the
/// `object::Object::dynamic_symbols` of a file.
pub uninterp spec fn dynamic_address(data: Seq<u8>, position: int) -> u64;

/// The `object::ObjectSymbol::address` of the symbol at this position among the
/// `object::Object::symbols` of a file.
pub uninterp spec fn symbol_address(data: Seq<u8>, position: int) -> u64;

/// The names and indices of symbols.
pub open spec fn symbol_list(list: Seq<Symbol>) -> Seq<(Option<Seq<char>>, usize)> {
    list.map_values(|s: Symbol| (text::optional_text(s.name), s.index))
}

/// The bytes begin with the headers of a 64-bit PE file.
pub open spec fn is_pe64(d: Seq<u8>) -> bool {
    &&& d.len() >= 0x40
    &&& d[0] == 0x4d && d[1] == 0x5a
    &&& bytes::le_u32(d, 0x3c) + 56 <= d.len()
    &&& bytes::le_u16(d, bytes::le_u32(d, 0x3c) + 24) == 0x20b
}

/// A symbol of a PE file of this storage class has an address.
pub open spec fn has_address(class: u8) -> bool {
    class == 2 || class == 3 || class == 6 || class == 105
}

/// Where the header of the section with this number stands in a PE file whose headers stand at
/// `nt`.
pub open spec fn section_header(d: Seq<u8>, nt: int, number: int) -> int {
    nt + 24 + bytes::le_u16(d, nt + 20) + 40 * (number - 1)
}

/// The address of the symbol whose entry stands at `p` in a PE file whose headers stand at `nt`:
/// its value, counted from its section, which is counted from the image base.
pub open spec fn pe_address(d: Seq<u8>, nt: int, p: int) -> int {
    let number = bytes::le_u16(d, p + 12);
    let section = section_header(d, nt, number);
    if p + 18 <= d.len() && has_address(d[p + 16]) && 1 <= number < 0xfeff && number
        <= bytes::le_u16(d, nt + 6) && section + 40 <= d.len() {
        bytes::le_u64(d, nt + 48) + bytes::le_u32(d, section + 12) + bytes::le_u32(d, p + 8)
    } else {
        0
    }
}

/// The address of the symbol with this index lies within the address space. Only in a 64-bit PE
/// file may it not.
pub open spec fn address_in_range(d: Seq<u8>, index: int) -> bool {
    let nt = bytes::le_u32(d, 0x3c);
    is_pe64(d) ==> pe_address(d, nt, bytes::le_u32(d, nt + 12) + 18 * index) <= u64::MAX
}

/// Calls `object::File::parse`, takes the address of the first of its `segments`, and the
/// name and index of each of its `dynamic_symbols` and `symbols`. All of it depends on the
/// bytes alone.
#[verifier::external_body]
fn read_object(data: &[u8]) -> (r: Result<ObjectImage, String>)
    ensures
        match r {
            Ok(image) => object_image(data@) == Ok::<
                (Option<u64>, Seq<(Option<Seq<char>>, usize)>, Seq<(Option<Seq<char>>, usize)>),
                Seq<char>,
            >(
                (
                    image.first_segment,
                    symbol_list(image.dynamic_symbols@),
                    symbol_list(image.symbols@),
                ),
            ),
            Err(e) => object_image(data@) == Err::<
                (Option<u64>, Seq<(Option<Seq<char>>, usize)>, Seq<(Option<Seq<char>>, usize)>),
                Seq<char>,
            >(e@),
        },
{
    let file = object::File::parse(data).map_err(|e| e.to_string())?;
    let first_segment = file.segments().next().map(|s| s.address());
    let dynamic_symbols = file.dynamic_symbols().map(
        |s| Symbol { name: s.name().ok().map(|n| n.to_string()), index: s.index().0 },
    ).collect();
    let symbols = file.symbols().map(
        |s| Symbol { name: s.name().ok().map(|n| n.to_string()), index: s.index().0 },
    ).collect();
    Ok(ObjectImage { first_segment, dynamic_symbols, symbols })
}

/// Calls `object::File::parse` and takes the `address` of one of its `dynamic_symbols`, which
/// depends on the bytes and the position alone.
#[verifier::external_body]
fn read_dynamic_address(data: &[u8], position: usize) -> (r: Option<u64>)
    requires
        object_image(data@) matches Ok(image) && position < image.1.len(),
    ensures
        r == Some(dynamic_address(data@, position as int)),
{
    let file = object::File::parse(data).ok()?;
    let symbol = file.dynamic_symbols().nth(position);
    symbol.map(|s| s.address())
}

/// Calls `object::File::parse` and takes the `address` of one of its `symbols`, which depends on
/// the bytes and the position alone. In a PE file the address is a sum, and where it leaves 64
/// bits the call panics.
#[verifier::external_body]
fn read_symbol_address(data: &[u8], position: usize) -> (r: Option<u64>)
    requires
        object_image(data@) matches Ok(image) && position < image.2.len() && address_in_range(
            data@,
            image.2[position as int].1 as int,
        ),
    ensures
        r == Some(symbol_address(data@, position as int)),
{
    let file = object::File::parse(data).ok()?;
    let symbol = file.symbols().nth(position);
    symbol.map(|s| s.address())
}

/// Does the address of the symbol with this index lie within the address space?
fn address_fits(data: &[u8], index: usize) -> (r: bool)
    ensures
        r == address_in_range(data@, index as int),
{
    let len: usize = data.len();
    if len < 0x40 || data[0] != 0x4d || data[1] != 0x5a {
        return true;
    }
    let nt: u128 = bytes::read_u32(data, 0x3c) as u128;
    if nt + 56 > len as u128 || bytes::read_u16(data, nt as usize + 24) != 0x20b {
        return true;
    }
    let at: usize = nt as usize;
    let p: u128 = bytes::read_u32(data, at + 12) as u128 + 18 * index as u128;
    if p + 18 > len as u128 {
        return true;
    }
    let entry: usize = p as usize;
    let class: u8 = data[entry + 16];
    let number: u16 = bytes::read_u16(data, entry + 12);
    if class != 2 && class != 3 && class != 6 && class != 105 {
        return true;
    }
    if number == 0 || number >= 0xfeff || number > bytes::read_u16(data, at + 6) {
        return true;
    }
    let section: u128 = nt + 24 + bytes::read_u16(data, at + 20) as u128 + 40 * (number as u128
        - 1);
    if section + 40 > len as u128 {
        return true;
    }
    let address: u128 = bytes::read_u64(data, at + 48) as u128 + bytes::read_u32(
        data,
        section as usize + 12,
    ) as u128 + bytes::read_u32(data, entry + 8) as u128;
    address <= u64::MAX as u128
}

/// Symbol `i` is `JNI_OnLoad`.
pub open spec fn is_onload(symbols: Seq<(Option<Seq<char>>, usize)>, i: int) -> bool {
    0 <= i < symbols.len() && symbols[i].0 == Some("JNI_OnLoad"@)
}

/// The symbol that is taken for `JNI_OnLoad`: the first of the name.
pub open spec fn is_first_onload(symbols: Seq<(Option<Seq<char>>, usize)>, i: int) -> bool {
    is_onload(symbols, i) && forall|j: int| 0 <= j < i ==> !#[trigger] is_onload(symbols, j)
}

/// One of the symbols is `JNI_OnLoad`.
pub open spec fn any_onload(symbols: Seq<(Option<Seq<char>>, usize)>) -> bool {
    exists|i: int| #[trigger] is_onload(symbols, i)
}

/// What the addresses of a library are moved by: a library that is linked to address zero, or
/// has no segment, is loaded at the bias.
pub open spec fn load_bias(first_segment: Option<u64>) -> u64 {
    match first_segment {
        Some(a) if a != 0 => 0,
        _ => LOAD_BIAS,
    }
}

/// Where a symbol with this address is called: its moved address, if that lies within the
/// address space.
pub open spec fn enters(
    first_segment: Option<u64>,
    address: u64,
    r: Result<u64, OnLoadError>,
) -> bool {
    let at = address + load_bias(first_segment);
    if at <= u64::MAX {
        r == Ok::<u64, OnLoadError>(at as u64)
    } else {
        r == Err::<u64, OnLoadError>(OnLoadError::PastEnd)
    }
}

/// Which symbol of a library is taken for `JNI_OnLoad`.
#[derive(Debug, Clone, Copy, PartialEq, Eq, Structural)]
pub enum Place {
    /// The dynamic symbol at this position.
    Dynamic(usize),
    /// The other symbol at this position.
    Plain(usize),
}

/// The first dynamic symbol of the name is taken or, where there is none, the first other one.
pub open spec fn takes(
    dynamic_symbols: Seq<(Option<Seq<char>>, usize)>,
    symbols: Seq<(Option<Seq<char>>, usize)>,
    place: Option<Place>,
) -> bool {
    match place {
        Some(Place::Dynamic(i)) => is_first_onload(dynamic_symbols, i as int),
        Some(Place::Plain(i)) => !any_onload(dynamic_symbols) && is_first_onload(
            symbols,
            i as int,
        ),
        None => !any_onload(dynamic_symbols) && !any_onload(symbols),
    }
}

/// The outcome of a search for `JNI_OnLoad` in a file: where the symbol is called that is taken.
pub open spec fn finds_onload(
    data: Seq<u8>,
    first_segment: Option<u64>,
    dynamic_symbols: Seq<(Option<Seq<char>>, usize)>,
    symbols: Seq<(Option<Seq<char>>, usize)>,
    r: Result<u64, OnLoadError>,
) -> bool {
    exists|place: Option<Place>|
        #![trigger takes(dynamic_symbols, symbols, place)]
        takes(dynamic_symbols, symbols, place) && match place {
            Some(Place::Dynamic(i)) => enters(first_segment, dynamic_address(data, i as int), r),
            Some(Place::Plain(i)) => if address_in_range(data, symbols[i as int].1 as int) {
                enters(first_segment, symbol_address(data, i as int), r)
            } else {
                r == Err::<u64, OnLoadError>(OnLoadError::PastEnd)
            },
            None => r == Err::<u64, OnLoadError>(OnLoadError::NotFound),
        }
}

/// The index of the first symbol of the name.
fn find_onload(symbols: &Vec<Symbol>) -> (r: Option<usize>)
    ensures
        match r {
            Some(i) => is_first_onload(symbol_list(symbols@), i as int),
            None => forall|i: int| !#[trigger] is_onload(symbol_list(symbols@), i),
        },
{
    let mut i: usize = 0;
    while i < symbols.len()
        invariant
            i <= symbols.len(),
            forall|j: int| 0 <= j < i ==> !#[trigger] is_onload(symbol_list(symbols@), j),
        decreases symbols.len() - i,
    {
        if let Some(name) = &symbols[i].name {
            if text::same_text(name.as_str(), "JNI_OnLoad") {
                return Some(i);
            }
        }
        i = i + 1;
    }
    None
}

/// Where a symbol with this address is called.
pub fn jni_onload_entry(first_segment: Option<u64>, address: u64) -> (r: Result<u64, OnLoadError>)
    ensures
        enters(first_segment, address, r),
{
    let bias: u64 = match first_segment {
        Some(a) => if a == 0 {
            LOAD_BIAS
        } else {
            0
        },
        None => LOAD_BIAS,
    };
    match address.checked_add(bias) {
        Some(at) => Ok(at),
        None => Err(OnLoadError::PastEnd),
    }
}

/// Which symbol of a library is taken for `JNI_OnLoad`?
pub fn jni_onload_place(image: &ObjectImage) -> (r: Option<Place>)
    ensures
        takes(symbol_list(image.dynamic_symbols@), symbol_list(image.symbols@), r),
{
    match find_onload(&image.dynamic_symbols) {
        Some(i) => Some(Place::Dynamic(i)),
        None => match find_onload(&image.symbols) {
            Some(i) => Some(Place::Plain(i)),
            None => None,
        },
    }
}

/// Find `JNI_OnLoad` entry point in an ELF .so file's symbol table.
pub fn find_jni_onload_in_elf(data: &[u8]) -> (r: Result<u64, OnLoadError>)
    ensures
        match object_image(data@) {
            Ok(image) => finds_onload(data@, image.0, image.1, image.2, r),
            Err(reason) => r matches Err(OnLoadError::Malformed(message)) && message@
                == "ELF parse error: "@ + reason,
        },
{
    match read_object(data) {
        Ok(image) => {
            let place = jni_onload_place(&image);
            assert(takes(symbol_list(image.dynamic_symbols@), symbol_list(image.symbols@), place));
            match place {
                None => Err(OnLoadError::NotFound),
                Some(Place::Dynamic(i)) => match read_dynamic_address(data, i) {
                    Some(address) => jni_onload_entry(image.first_segment, address),
                    None => Err(OnLoadError::NotFound),
                },
                Some(Place::Plain(i)) => if !address_fits(data, image.symbols[i].index) {
                    Err(OnLoadError::PastEnd)
                } else {
                    match read_symbol_address(data, i) {
                        Some(address) => jni_onload_entry(image.first_segment, address),
                        None => Err(OnLoadError::NotFound),
                    }
                },
            }
        },
        Err(reason) => {
            let mut message = "ELF parse error: ".to_owned();
            text::append(&mut message, reason.as_str());
            Err(OnLoadError::Malformed(message))
        },
    }
}

/// The file is a library with a symbol `JNI_OnLoad`.
pub open spec fn exports_onload(data: Seq<u8>) -> bool {
    match object_image(data) {
        Ok(image) => any_onload(image.1) || any_onload(image.2),
        Err(_) => false,
    }
}

/// Has the library a symbol `JNI_OnLoad`?
pub fn has_onload(image: &ObjectImage) -> (r: bool)
    ensures
        r == (any_onload(symbol_list(image.dynamic_symbols@)) || any_onload(
            symbol_list(image.symbols@),
        )),
{
    find_onload(&image.dynamic_symbols).is_some() || find_onload(&image.symbols).is_some()
}

/// Is the file a library that exports `JNI_OnLoad`?
pub fn exports_jni_onload(data: &[u8]) -> (r: bool)
    ensures
        r == exports_onload(data@),
{
    match read_object(data) {
        Ok(image) => has_onload(&image),
        Err(_) => false,
    }
}

/// The address at which the loader put `JNI_OnLoad`: that of the first symbol of the name
/// among those that it resolved.
pub open spec fn resolved_onload(thunks: Seq<(u64, Seq<char>)>) -> Option<u64>
    decreases thunks.len(),
{
    if thunks.len() == 0 {
        None
    } else {
        match resolved_onload(thunks.drop_last()) {
            Some(a) => Some(a),
            None => if thunks.last().1 == "JNI_OnLoad"@ {
                Some(thunks.last().0)
            } else {
                None
            },
        }
    }
}

/// The addresses and names of resolved symbols.
pub open spec fn thunk_list(thunks: Seq<(u64, String)>) -> Seq<(u64, Seq<char>)> {
    thunks.map_values(|t: (u64, String)| (t.0, t.1@))
}

/// Looks for `JNI_OnLoad` among the symbols that the loader resolved.
pub fn find_resolved_onload(thunks: &Vec<(u64, String)>) -> (r: Option<u64>)
    ensures
        r == resolved_onload(thunk_list(thunks@)),
{
    let ghost all = thunk_list(thunks@);
    let mut i: usize = 0;
    assert(all.take(0) =~= Seq::empty());
    while i < thunks.len()
        invariant
            i <= thunks.len(),
            all == thunk_list(thunks@),
            resolved_onload(all.take(i as int)) is None,
        decreases thunks.len() - i,
    {
        assert(all.take(i + 1).drop_last() =~= all.take(i as int));
        if text::same_text(thunks[i].1.as_str(), "JNI_OnLoad") {
            proof {
                resolved_stays(all, i + 1);
            }
            return Some(thunks[i].0);
        }
        i = i + 1;
    }
    assert(all.take(i as int) =~= all);
    None
}

proof fn resolved_stays(thunks: Seq<(u64, Seq<char>)>, i: int)
    requires
        0 <= i <= thunks.len(),
        resolved_onload(thunks.take(i)) is Some,
    ensures
        resolved_onload(thunks) == resolved_onload(thunks.take(i)),
    decreases thunks.len(),
{
    if i == thunks.len() {
        assert(thunks.take(i) =~= thunks);
    } else {
        assert(thunks.drop_last().take(i) =~= thunks.take(i));
        resolved_stays(thunks.drop_last(), i);
    }
}

/// Which `JNI_OnLoad` is called: the one that the loader resolved or, where there is none, the one
/// that is found in the file.
pub fn onload_address(resolved: Option<u64>, in_file: Result<u64, OnLoadError>) -> (r: Result<
    u64,
    OnLoadError,
>)
    ensures
        r == (match resolved {
            Some(a) => Ok(a),
            None => in_file,
        }),
{
    match resolved {
        Some(a) => Ok(a),
        None => in_file,
    }
}

/// A library file: its name, and its content where it can be read.
#[derive(Debug)]
pub struct LibraryFile {
    pub name: String,
    pub content: Option<Vec<u8>>,
}

/// The name of a file is one that was asked for: it has the filter in it.
pub open spec fn passes(name: Seq<char>, filter: Option<Seq<char>>) -> bool {
    match filter {
        Some(part) => text::has_substring(name, part),
        None => true,
    }
}

/// The text of an optional string slice.
pub open spec fn optional_str(s: Option<&str>) -> Option<Seq<char>> {
    match s {
        Some(t) => Some(t@),
        None => None,
    }
}

/// Is the name of a file one that was asked for?
pub fn name_passes(name: &str, filter: Option<&str>) -> (r: bool)
    ensures
        r == passes(name@, optional_str(filter)),
{
    match filter {
        Some(part) => text::contains(name, part),
        None => true,
    }
}

/// The file was asked for, can be read and is a library that exports `JNI_OnLoad`.
pub open spec fn is_jni_library(file: LibraryFile, filter: Option<Seq<char>>) -> bool {
    passes(file.name@, filter) && match file.content {
        Some(content) => exports_onload(content@),
        None => false,
    }
}

/// The indices of the files that are JNI libraries, in order.
pub open spec fn jni_libraries(files: Seq<LibraryFile>, filter: Option<Seq<char>>) -> Seq<int>
    decreases files.len(),
{
    if files.len() == 0 {
        Seq::empty()
    } else {
        let before = jni_libraries(files.drop_last(), filter);
        if is_jni_library(files.last(), filter) {
            before.push(files.len() - 1)
        } else {
            before
        }
    }
}

/// The numbers of a list of indices.
pub open spec fn indices(list: Seq<usize>) -> Seq<int> {
    list.map_values(|i: usize| i as int)
}

/// Returns which .so files export `JNI_OnLoad`.
pub fn find_jni_onload_libs(files: &Vec<LibraryFile>, filter: Option<&str>) -> (r: Vec<usize>)
    ensures
        indices(r@) == jni_libraries(files@, optional_str(filter)),
{
    let ghost wanted = optional_str(filter);
    let mut found: Vec<usize> = Vec::new();
    let mut i: usize = 0;
    assert(files@.take(0) =~= Seq::empty());
    while i < files.len()
        invariant
            i <= files.len(),
            wanted == optional_str(filter),
            indices(found@) =~= jni_libraries(files@.take(i as int), wanted),
        decreases files.len() - i,
    {
        assert(files@.take(i + 1).drop_last() =~= files@.take(i as int));
        if name_passes(files[i].name.as_str(), filter) {
            if let Some(content) = &files[i].content {
                if exports_jni_onload(content.as_slice()) {
                    found.push(i);
                }
            }
        }
        i = i + 1;
    }
    assert(files@.take(i as int) =~= files@);
    found
}

/// `JNI_OnLoad` is found in exactly those libraries that export it, and a search has one outcome.
pub proof fn law_exported_onload_is_found(
    data: Seq<u8>,
    first_segment: Option<u64>,
    dynamic_symbols: Seq<(Option<Seq<char>>, usize)>,
    symbols: Seq<(Option<Seq<char>>, usize)>,
    r: Result<u64, OnLoadError>,
    other: Result<u64, OnLoadError>,
)
    requires
        finds_onload(data, first_segment, dynamic_symbols, symbols, r),
        finds_onload(data, first_segment, dynamic_symbols, symbols, other),
    ensures
        any_onload(dynamic_symbols) || any_onload(symbols) <==> !(r matches Err(
            OnLoadError::NotFound,
        )),
        !(r matches Err(OnLoadError::Malformed(_))),
        r == other,
{
    assert forall|i: usize, j: usize| #[trigger]
        is_first_onload(dynamic_symbols, i as int) && #[trigger] is_first_onload(
            dynamic_symbols,
            j as int,
        ) implies i == j by {
        first_onload_is_unique(dynamic_symbols, i as int, j as int);
    }
    assert forall|i: usize, j: usize| #[trigger]
        is_first_onload(symbols, i as int) && #[trigger] is_first_onload(
            symbols,
            j as int,
        ) implies i == j by {
        first_onload_is_unique(symbols, i as int, j as int);
    }
}

/// The first of two symbols that might both be taken is the same one.
proof fn first_onload_is_unique(symbols: Seq<(Option<Seq<char>>, usize)>, i: int, j: int)
    requires
        is_first_onload(symbols, i),
        is_first_onload(symbols, j),
    ensures
        i == j,
{
    if i < j {
        assert(!is_onload(symbols, i));
    } else if j < i {
        assert(!is_onload(symbols, j));
    }
}

/// Of a list of files, exactly those are found that were asked for and are JNI libraries.
pub proof fn law_all_jni_libraries_are_found(
    files: Seq<LibraryFile>,
    filter: Option<Seq<char>>,
    i: int,
)
    ensures
        jni_libraries(files, filter).contains(i) <==> 0 <= i < files.len() && is_jni_library(
            files[i],
            filter,
        ),
    decreases files.len(),
{
    if files.len() > 0 {
        let short = files.drop_last();
        law_all_jni_libraries_are_found(short, filter, i);
        let before = jni_libraries(short, filter);
        let all = jni_libraries(files, filter);
        if before.contains(i) {
            let k = choose|k: int| 0 <= k < before.len() && before[k] == i;
            assert(all[k] == i);
        }
        if all.contains(i) {
            let k = choose|k: int| 0 <= k < all.len() && all[k] == i;
            assert(k < before.len() ==> before[k] == i);
        }
        if is_jni_library(files.last(), filter) {
            assert(all[before.len() as int] == files.len() - 1);
        }
    }
}

/// A library that is linked to address zero, or has no segment, is entered 0x40_0000 behind the
/// address of the symbol, and any other one at that very address; where that is no address, it
/// is not entered.
pub proof fn law_onload_is_entered_at_the_bias(
    first_segment: Option<u64>,
    address: u64,
    r: Result<u64, OnLoadError>,
)
    requires
        enters(first_segment, address, r),
    ensures
        first_segment is None || first_segment == Some(0u64) ==> (if address + 0x40_0000
            <= u64::MAX {
            r matches Ok(at) && at == address + 0x40_0000
        } else {
            r matches Err(OnLoadError::PastEnd)
        }),
        (first_segment matches Some(a) && a != 0) ==> (r matches Ok(at) && at == address),
{
}

/// Two symbols of one library are entered as far apart as their addresses are.
pub proof fn law_entries_keep_their_distance(
    first_segment: Option<u64>,
    one: u64,
    two: u64,
    r: Result<u64, OnLoadError>,
    s: Result<u64, OnLoadError>,
)
    requires
        enters(first_segment, one, r),
        enters(first_segment, two, s),
    ensures
        r matches Ok(x) ==> (s matches Ok(y) ==> y - x == two - one),
{
}

/// The symbol that is entered is the first dynamic symbol with the name `JNI_OnLoad` or, where no
/// dynamic symbol has it, the first other symbol that has.
pub proof fn law_first_onload_is_taken(
    data: Seq<u8>,
    first_segment: Option<u64>,
    dynamic_symbols: Seq<(Option<Seq<char>>, usize)>,
    symbols: Seq<(Option<Seq<char>>, usize)>,
    i: usize,
    r: Result<u64, OnLoadError>,
)
    requires
        finds_onload(data, first_segment, dynamic_symbols, symbols, r),
    ensures
        i < dynamic_symbols.len() && dynamic_symbols[i as int].0 == Some("JNI_OnLoad"@) && (forall|
            j: int,
        |
            0 <= j < i ==> (#[trigger] dynamic_symbols[j]).0 != Some("JNI_OnLoad"@)) ==> enters(
            first_segment,
            dynamic_address(data, i as int),
            r,
        ),
        i < symbols.len() && symbols[i as int].0 == Some("JNI_OnLoad"@) && (forall|j: int|
            0 <= j < i ==> (#[trigger] symbols[j]).0 != Some("JNI_OnLoad"@)) && (forall|j: int|
            0 <= j < dynamic_symbols.len() ==> (#[trigger] dynamic_symbols[j]).0 != Some(
                "JNI_OnLoad"@,
            )) && address_in_range(data, symbols[i as int].1 as int) ==> enters(
            first_segment,
            symbol_address(data, i as int),
            r,
        ),
        (forall|j: int|
            0 <= j < dynamic_symbols.len() ==> (#[trigger] dynamic_symbols[j]).0 != Some(
                "JNI_OnLoad"@,
            )) && (forall|j: int|
            0 <= j < symbols.len() ==> (#[trigger] symbols[j]).0 != Some("JNI_OnLoad"@))
            ==> r matches Err(OnLoadError::NotFound),
{
    let place = choose|place: Option<Place>|
        #![trigger takes(dynamic_symbols, symbols, place)]
        takes(dynamic_symbols, symbols, place) && match place {
            Some(Place::Dynamic(i)) => enters(first_segment, dynamic_address(data, i as int), r),
            Some(Place::Plain(i)) => if address_in_range(data, symbols[i as int].1 as int) {
                enters(first_segment, symbol_address(data, i as int), r)
            } else {
                r == Err::<u64, OnLoadError>(OnLoadError::PastEnd)
            },
            None => r == Err::<u64, OnLoadError>(OnLoadError::NotFound),
        };
    assert(takes(dynamic_symbols, symbols, place));
    let n = i as int;
    if 0 <= n < dynamic_symbols.len() && dynamic_symbols[n].0 == Some("JNI_OnLoad"@) && (forall|
        j: int,
    |
        0 <= j < n ==> (#[trigger] dynamic_symbols[j]).0 != Some("JNI_OnLoad"@)) {
        assert(is_onload(dynamic_symbols, n));
        assert(is_first_onload(dynamic_symbols, n));
        if let Some(Place::Dynamic(k)) = place {
            first_onload_is_unique(dynamic_symbols, n, k as int);
        }
    }
    if 0 <= n < symbols.len() && symbols[n].0 == Some("JNI_OnLoad"@) && (forall|j: int|
        0 <= j < n ==> (#[trigger] symbols[j]).0 != Some("JNI_OnLoad"@)) {
        assert(is_onload(symbols, n));
        assert(is_first_onload(symbols, n));
        if let Some(Place::Plain(k)) = place {
            first_onload_is_unique(symbols, n, k as int);
        }
    }
}

/// Only the addresses of a 64-bit PE file can leave the address space: a file that is shorter than
/// its headers or does not begin with `MZ` has none that does.
pub proof fn law_only_pe_addresses_leave_the_address_space(d: Seq<u8>, index: int)
    ensures
        d.len() < 64 || d[0] != 0x4d || d[1] != 0x5a ==> address_in_range(d, index),
        d.len() >= 64 && bytes::le_u16(d, bytes::le_u32(d, 60) + 24) != 0x20b ==> address_in_range(
            d,
            index,
        ),
{
}

/// A library exports `JNI_OnLoad` exactly where one of its symbols, dynamic or not, has that name.
pub proof fn law_export_is_a_symbol_of_the_name(data: Seq<u8>, i: int)
    ensures
        exports_onload(data) ==> (object_image(data) matches Ok(image) && exists|j: int|
            0 <= j < image.1.len() + image.2.len() && #[trigger] (image.1 + image.2)[j].0 == Some(
                "JNI_OnLoad"@,
            )),
        (object_image(data) matches Ok(image) && 0 <= i < image.1.len() + image.2.len() && (image.1
            + image.2)[i].0 == Some("JNI_OnLoad"@)) ==> exports_onload(data),
{
    if let Ok(image) = object_image(data) {
        let all = image.1 + image.2;
        if any_onload(image.1) {
            let j = choose|j: int| #[trigger] is_onload(image.1, j);
            assert(all[j].0 == Some("JNI_OnLoad"@));
        } else if any_onload(image.2) {
            let j = choose|j: int| #[trigger] is_onload(image.2, j);
            assert(all[image.1.len() + j].0 == Some("JNI_OnLoad"@));
        }
        if 0 <= i < all.len() && all[i].0 == Some("JNI_OnLoad"@) {
            if i < image.1.len() {
                assert(is_onload(image.1, i));
            } else {
                assert(is_onload(image.2, i - image.1.len()));
            }
        }
    }
}

/// The files that are found come in the order of the list, each once.
pub proof fn law_jni_libraries_come_in_order(files: Seq<LibraryFile>, filter: Option<Seq<char>>)
    ensures
        ({
            let found = jni_libraries(files, filter);
            &&& forall|j: int, k: int|
                0 <= j < k < found.len() ==> #[trigger] found[j] < #[trigger] found[k]
            &&& forall|j: int| 0 <= j < found.len() ==> 0 <= #[trigger] found[j] < files.len()
        }),
    decreases files.len(),
{
    if files.len() > 0 {
        law_jni_libraries_come_in_order(files.drop_last(), filter);
        let before = jni_libraries(files.drop_last(), filter);
        let found = jni_libraries(files, filter);
        assert forall|j: int, k: int| 0 <= j < k < found.len() implies #[trigger] found[j]
            < #[trigger] found[k] by {
            assert(found[j] == before[j]);
            if k < before.len() {
                assert(found[k] == before[k]);
            }
        }
        assert forall|j: int| 0 <= j < found.len() implies 0 <= #[trigger] found[j]
            < files.len() by {
            if j < before.len() {
                assert(found[j] == before[j]);
            }
        }
    }
}

/// A file is found exactly where it can be read, exports `JNI_OnLoad` and has the filter, where
/// there is one, somewhere in its name.
pub proof fn law_filter_is_part_of_the_name(
    files: Seq<LibraryFile>,
    filter: Option<Seq<char>>,
    i: int,
    at: int,
)
    requires
        0 <= i < files.len(),
    ensures
        ({
            let exports = files[i].content matches Some(content) && exports_onload(content@);
            let name = files[i].name@;
            let found = jni_libraries(files, filter).contains(i);
            &&& filter is None ==> found == exports
            &&& found ==> exports
            &&& filter matches Some(part) ==> (found ==> exists|k: int|
                0 <= k <= name.len() - part.len() && #[trigger] name.subrange(k, k + part.len())
                    == part)
            &&& filter matches Some(part) ==> (exports && 0 <= at <= name.len() - part.len()
                && name.subrange(at, at + part.len()) == part ==> found)
        }),
{
    law_all_jni_libraries_are_found(files, filter, i);
    let name = files[i].name@;
    if let Some(part) = filter {
        if text::has_substring(name, part) {
            let k = choose|k: int| #[trigger] text::occurs_at(name, part, k);
            assert(name.subrange(k, k + part.len()) == part);
        }
        if 0 <= at <= name.len() - part.len() && name.subrange(at, at + part.len()) == part {
            assert(text::occurs_at(name, part, at));
        }
    }
}

/// Of the symbols that the loader resolved, the first with the name `JNI_OnLoad` is taken; where
/// none has the name, none is.
pub proof fn law_first_resolved_onload_is_taken(
    before: Seq<(u64, Seq<char>)>,
    address: u64,
    after: Seq<(u64, Seq<char>)>,
)
    requires
        forall|i: int| 0 <= i < before.len() ==> (#[trigger] before[i]).1 != "JNI_OnLoad"@,
    ensures
        resolved_onload(before) is None,
        resolved_onload(before + seq![(address, "JNI_OnLoad"@)] + after) == Some(address),
    decreases before.len(),
{
    if before.len() > 0 {
        law_first_resolved_onload_is_taken(before.drop_last(), address, after);
    }
    let head = before.push((address, "JNI_OnLoad"@));
    let all = before + seq![(address, "JNI_OnLoad"@)] + after;
    assert(head.drop_last() == before);
    assert(all.take(head.len() as int) == head);
    resolved_stays(all, head.len() as int);
}

/// In a 64-bit PE file the address of a symbol is the sum of the image base, the start of its
/// section and its value, for a symbol in a section and of a class that has addresses. It is
/// within the address space exactly where that sum is.
pub proof fn law_pe_addresses_are_sums(d: Seq<u8>, index: int, nt: int, p: int, section: int)
    requires
        0 <= index,
        d.len() >= 64 && d[0] == 0x4d && d[1] == 0x5a,
        nt == bytes::le_u32(d, 60),
        nt + 56 <= d.len(),
        bytes::le_u16(d, nt + 24) == 0x20b,
        p == bytes::le_u32(d, nt + 12) + 18 * index,
        section == nt + 24 + bytes::le_u16(d, nt + 20) + 40 * (bytes::le_u16(d, p + 12) - 1),
    ensures
        p + 18 > d.len() ==> address_in_range(d, index),
        !(d[p + 16] == 2 || d[p + 16] == 3 || d[p + 16] == 6 || d[p + 16] == 105)
            ==> address_in_range(d, index),
        bytes::le_u16(d, p + 12) == 0 || bytes::le_u16(d, p + 12) >= 0xfeff || bytes::le_u16(
            d,
            p + 12,
        ) > bytes::le_u16(d, nt + 6) || section + 40 > d.len() ==> address_in_range(d, index),
        p + 18 <= d.len() && (d[p + 16] == 2 || d[p + 16] == 3 || d[p + 16] == 6 || d[p + 16] == 105)
            && 1 <= bytes::le_u16(d, p + 12) < 0xfeff && bytes::le_u16(d, p + 12) <= bytes::le_u16(
            d,
            nt + 6,
        ) && section + 40 <= d.len() ==> (address_in_range(d, index) <==> bytes::le_u64(d, nt + 48)
            + bytes::le_u32(d, section + 12) + bytes::le_u32(d, p + 8) <= u64::MAX),
{
}

/// Lists of symbols and of indices are taken for what they hold, place by place.
pub proof fn law_lists_show_what_they_hold(
    symbols: Seq<Symbol>,
    thunks: Seq<(u64, String)>,
    list: Seq<usize>,
    i: int,
)
    ensures
        symbol_list(symbols).len() == symbols.len(),
        0 <= i < symbols.len() ==> symbol_list(symbols)[i].1 == symbols[i].index,
        0 <= i < symbols.len() && symbols[i].name is None ==> symbol_list(symbols)[i].0 is None,
        0 <= i < symbols.len() ==> (symbols[i].name matches Some(n) ==> symbol_list(symbols)[i].0
            == Some(n@)),
        thunk_list(thunks).len() == thunks.len(),
        0 <= i < thunks.len() ==> thunk_list(thunks)[i] == (thunks[i].0, thunks[i].1@),
        indices(list).len() == list.len(),
        0 <= i < list.len() ==> indices(list)[i] == list[i],
{
}

/// A symbol is called 0x40_0000 behind its address where the first segment of its library is at
/// zero or missing, and else at its address.
pub proof fn law_entry_is_the_moved_address(
    first_segment: Option<u64>,
    address: u64,
    r: Result<u64, OnLoadError>,
)
    requires
        call_ensures(jni_onload_entry, (first_segment, address), r),
    ensures
        (first_segment is None || first_segment == Some(0u64)) && address + 0x40_0000 <= u64::MAX ==> (
        r matches Ok(at) && at == address + 0x40_0000),
        (first_segment is None || first_segment == Some(0u64)) && address + 0x40_0000 > u64::MAX ==> (
        r matches Err(OnLoadError::PastEnd)),
        (first_segment matches Some(a) && a != 0) ==> (r matches Ok(at) && at == address),
{
}

/// The `JNI_OnLoad` that the loader resolved is called, and only where it resolved none the one
/// that is found in the file.
pub proof fn law_resolved_onload_comes_first(
    resolved: Option<u64>,
    in_file: Result<u64, OnLoadError>,
    r: Result<u64, OnLoadError>,
)
    requires
        call_ensures(onload_address, (resolved, in_file), r),
    ensures
        resolved matches Some(a) ==> (r matches Ok(at) && at == a),
        resolved is None ==> r == in_file,
{
}

/// A file that cannot be parsed is refused with the reason, and never another one.
pub proof fn law_unparsable_files_are_refused(data: &[u8], r: Result<u64, OnLoadError>)
    requires
        call_ensures(find_jni_onload_in_elf, (data,), r),
    ensures
        (object_image(data@) matches Err(reason)) ==> (r matches Err(OnLoadError::Malformed(message))
            && message@ == "ELF parse error: "@ + object_image(data@)->Err_0),
        object_image(data@) is Ok ==> !(r matches Err(OnLoadError::Malformed(_))),
{
}

/// Of the symbols that the loader resolved, the address of the first with the name `JNI_OnLoad` is
/// given.
pub proof fn law_first_resolved_onload_is_given(thunks: &Vec<(u64, String)>, r: Option<u64>, i: int)
    requires
        call_ensures(find_resolved_onload, (thunks,), r),
        0 <= i < thunks@.len(),
        thunks@[i].1@ == "JNI_OnLoad"@,
        forall|j: int| 0 <= j < i ==> (#[trigger] thunks@[j]).1@ != "JNI_OnLoad"@,
    ensures
        r == Some(thunks@[i].0),
{
    let all = thunk_list(thunks@);
    let before = all.take(i);
    let after = all.skip(i + 1);
    assert(all == before + seq![(thunks@[i].0, "JNI_OnLoad"@)] + after);
    assert forall|j: int| 0 <= j < before.len() implies (#[trigger] before[j]).1
        != "JNI_OnLoad"@ by {
        assert(before[j].1 == thunks@[j].1@);
    }
    law_first_resolved_onload_is_taken(before, thunks@[i].0, after);
}

} // verus!
