//! Which library and which files are taken out of a package, said of the entries of the archive
//! alone.
use crate::archive::bundle;
use crate::archive::extraction_laws;
use crate::archive::select;
use crate::archive::select::{LibraryModel, SelectError, Selection};
use crate::archive::zip_file;
use crate::bytes;
use crate::dex::manifest;
use crate::dex::ManifestInfo;
use crate::text;
use vstd::prelude::*;

verus! {

/// The name is that of a library of the architecture: arm64-v8a, x86_64, armeabi-v7a, armeabi or
/// any, in the order in which they are preferred.
pub open spec fn is_built_for(name: Seq<char>, arch: int) -> bool {
    &&& ".so"@.is_suffix_of(name)
    &&& {
        ||| arch == 0 && "lib/arm64-v8a/"@.is_prefix_of(name)
        ||| arch == 1 && "lib/x86_64/"@.is_prefix_of(name)
        ||| arch == 2 && "lib/armeabi-v7a/"@.is_prefix_of(name)
        ||| arch == 3 && "lib/armeabi/"@.is_prefix_of(name)
        ||| arch == 4 && "lib/"@.is_prefix_of(name)
    }
}

/// Entry `i` can be opened and is a library of the architecture.
pub open spec fn offers(names: Seq<Option<Seq<char>>>, i: int, arch: int) -> bool {
    0 <= i < names.len() && (names[i] matches Some(name) && is_built_for(name, arch))
}

proof fn libraries_agree(names: Seq<Option<Seq<char>>>, arch: int, i: int)
    requires
        0 <= arch < 5,
    ensures
        select::is_library(names, arch, i) == offers(names, i, arch),
{
}

proof fn none_from(names: Seq<Option<Seq<char>>>, from: int)
    requires
        0 <= from <= 5,
        !select::has_broken(names),
        forall|arch: int, i: int| 0 <= arch < 5 ==> !#[trigger] offers(names, i, arch),
    ensures
        select::selection_from(names, from) == Selection::Nothing,
    decreases 5 - from,
{
    if from < 5 {
        assert forall|i: int| !#[trigger] select::is_first_library(names, from, i) by {
            libraries_agree(names, from, i);
            assert(!offers(names, i, from));
        }
        none_from(names, from + 1);
    }
}

proof fn found_from(names: Seq<Option<Seq<char>>>, from: int, arch: int, index: int)
    requires
        0 <= from <= arch < 5,
        names.len() <= usize::MAX,
        from < arch ==> !select::has_broken(names),
        offers(names, index, arch),
        forall|j: int| 0 <= j < index ==> (#[trigger] names[j]) is Some,
        forall|j: int| 0 <= j < index ==> !#[trigger] offers(names, j, arch),
        forall|a: int, j: int| 0 <= a < arch ==> !#[trigger] offers(names, j, a),
    ensures
        select::selection_from(names, from) == (Selection::Found {
            arch: arch as usize,
            index: index as usize,
        }),
    decreases arch - from,
{
    if from < arch {
        assert forall|i: int| !#[trigger] select::is_first_library(names, from, i) by {
            libraries_agree(names, from, i);
            assert(!offers(names, i, from));
        }
        found_from(names, from + 1, arch, index);
    } else {
        libraries_agree(names, arch, index);
        assert forall|j: int| 0 <= j < index implies !#[trigger] select::is_library(
            names,
            arch,
            j,
        ) by {
            libraries_agree(names, arch, j);
            assert(!offers(names, j, arch));
        }
        assert(select::is_first_library(names, arch, index));
        let k = choose|k: int| #[trigger] select::is_first_library(names, arch, k);
        assert(select::is_first_library(names, arch, k));
        assert(select::is_library(names, arch, k));
        if k < index {
            assert(!select::is_library(names, arch, k));
        } else if k > index {
            assert(!select::is_library(names, arch, index));
        }
    }
}

/// Among the entries of an archive the library is chosen whose architecture comes first in the
/// order arm64-v8a, x86_64, armeabi-v7a, armeabi, any other, and of that architecture the first.
/// An entry that cannot be opened ends the search where no ARM64 library comes before it. Nothing
/// is chosen where every entry can be opened and none is a library.
pub proof fn law_preferred_library_is_chosen(
    names: Seq<Option<Seq<char>>>,
    arch: int,
    index: int,
    broken: int,
)
    requires
        names.len() <= usize::MAX,
    ensures
        0 <= arch < 5 && offers(names, index, arch) && (forall|j: int|
            0 <= j < index ==> (#[trigger] names[j]) is Some) && (forall|j: int|
            0 <= j < index ==> !#[trigger] offers(names, j, arch)) && (forall|a: int, j: int|
            0 <= a < arch ==> !#[trigger] offers(names, j, a)) && (arch > 0 ==> forall|j: int|
            0 <= j < names.len() ==> (#[trigger] names[j]) is Some) ==> select::selection(names)
            == (Selection::Found { arch: arch as usize, index: index as usize }),
        0 <= broken < names.len() && names[broken] is None && (forall|j: int|
            0 <= j < broken ==> !#[trigger] offers(names, j, 0)) ==> select::selection(names)
            == Selection::Broken,
        (forall|j: int| 0 <= j < names.len() ==> (#[trigger] names[j]) is Some) && (forall|
            a: int,
            j: int,
        |
            0 <= a < 5 ==> !#[trigger] offers(names, j, a)) ==> select::selection(names)
            == Selection::Nothing,
{
    if 0 <= arch < 5 && offers(names, index, arch) && (forall|j: int|
        0 <= j < index ==> (#[trigger] names[j]) is Some) && (forall|j: int|
        0 <= j < index ==> !#[trigger] offers(names, j, arch)) && (forall|a: int, j: int|
        0 <= a < arch ==> !#[trigger] offers(names, j, a)) && (arch > 0 ==> forall|j: int|
        0 <= j < names.len() ==> (#[trigger] names[j]) is Some) {
        found_from(names, 0, arch, index);
    }
    if 0 <= broken < names.len() && names[broken] is None && (forall|j: int|
        0 <= j < broken ==> !#[trigger] offers(names, j, 0)) {
        assert forall|i: int| !#[trigger] select::is_first_library(names, 0, i) by {
            libraries_agree(names, 0, i);
            if select::is_first_library(names, 0, i) {
                if i < broken {
                    assert(!offers(names, i, 0));
                } else if i > broken {
                    assert(names[broken] is Some);
                }
            }
        }
    }
    if (forall|j: int| 0 <= j < names.len() ==> (#[trigger] names[j]) is Some) && (forall|
        a: int,
        j: int,
    |
        0 <= a < 5 ==> !#[trigger] offers(names, j, a)) {
        none_from(names, 0);
    }
}

/// Only the first two architectures have 64 bits.
pub proof fn law_two_architectures_have_64_bits(arch: int)
    ensures
        text::has_substring(select::arch_prefix(arch), "arm64"@) || text::has_substring(
            select::arch_prefix(arch),
            "x86_64"@,
        ) <==> arch == 0 || arch == 1,
{
    let s = select::arch_prefix(arch);
    reveal_strlit("arm64");
    reveal_strlit("x86_64");
    reveal_strlit("lib/arm64-v8a/");
    reveal_strlit("lib/x86_64/");
    reveal_strlit("lib/armeabi-v7a/");
    reveal_strlit("lib/armeabi/");
    reveal_strlit("lib/");
    if arch == 0 {
        assert(s.subrange(4, 9) == "arm64"@);
        assert(text::occurs_at(s, "arm64"@, 4));
    } else if arch == 1 {
        assert(s.subrange(4, 10) == "x86_64"@);
        assert(text::occurs_at(s, "x86_64"@, 4));
    } else {
        assert(forall|i: int| 0 <= i < s.len() ==> s[i] != '6');
        assert forall|i: int| !#[trigger] text::occurs_at(s, "arm64"@, i) by {
            if text::occurs_at(s, "arm64"@, i) {
                assert(s.subrange(i, i + 5)[3] == s[i + 3]);
            }
        }
        assert forall|i: int| !#[trigger] text::occurs_at(s, "x86_64"@, i) by {
            if text::occurs_at(s, "x86_64"@, i) {
                assert(s.subrange(i, i + 6)[2] == s[i + 2]);
            }
        }
    }
}

/// The entry is passed over in the search for a nested library: it can be opened, and it is no
/// package, or can be read and is no archive or one without a library.
pub open spec fn holds_no_library(entry: (Seq<char>, Option<Option<Seq<u8>>>)) -> bool {
    &&& entry.1 is Some
    &&& extraction_laws::ends_as_package(entry.0) ==> (entry.1 matches Some(Some(content)) && (
    zip_file::zip_entries(content) matches Some(nested) ==> select::selection(
        select::open_names(nested),
    ) is Nothing))
}

/// What comes of a choice among the entries of an archive: the chosen entry, where it can be read.
pub open spec fn comes_of(
    entries: Seq<(Seq<char>, Option<Option<Seq<u8>>>)>,
    package: Option<Seq<char>>,
    r: Result<LibraryModel, SelectError>,
) -> bool {
    match select::selection(select::open_names(entries)) {
        Selection::Found { arch, index } => match entries[index as int].1 {
            Some(Some(content)) => r matches Ok(library) && library.package == package
                && library.arch == arch && library.entry == entries[index as int].0
                && library.file_name == text::after_last_slash(entries[index as int].0)
                && library.content == content,
            _ => r == Err::<LibraryModel, SelectError>(SelectError::Unreadable),
        },
        Selection::Broken => r == Err::<LibraryModel, SelectError>(SelectError::Unreadable),
        Selection::Nothing => false,
    }
}

proof fn nested_search_goes_on(entries: Seq<(Seq<char>, Option<Option<Seq<u8>>>)>, from: int, to: int)
    requires
        0 <= from <= to <= entries.len(),
        forall|j: int| from <= j < to ==> holds_no_library(#[trigger] entries[j]),
    ensures
        select::picked_nested(entries, from) == select::picked_nested(entries, to),
    decreases to - from,
{
    if from < to {
        assert(holds_no_library(entries[from]));
        extraction_laws::law_names_tell_libraries_and_packages(entries[from].0, Seq::empty());
        nested_search_goes_on(entries, from + 1, to);
    }
}

/// The library of a package is one of the archive itself. Only where that has none it is one of
/// the first nested package that has, the packages before it being passed over. What cannot be
/// opened or read and is met before is an error, and so is the want of any library.
pub proof fn law_library_comes_from_the_package(
    data: Seq<u8>,
    entries: Seq<(Seq<char>, Option<Option<Seq<u8>>>)>,
    i: int,
    nested: Seq<(Seq<char>, Option<Option<Seq<u8>>>)>,
    content: Seq<u8>,
)
    requires
        zip_file::zip_entries(data) == Some(entries),
    ensures
        ({
            let own = select::selection(select::open_names(entries));
            let reached = own is Nothing && 0 <= i < entries.len() && forall|j: int|
                0 <= j < i ==> holds_no_library(#[trigger] entries[j]);
            let r = select::chosen(data);
            &&& !(own is Nothing) ==> comes_of(entries, None, r)
            &&& own is Nothing && (forall|j: int|
                0 <= j < entries.len() ==> holds_no_library(#[trigger] entries[j])) ==> r == Err::<
                LibraryModel,
                SelectError,
            >(SelectError::NoLibrary)
            &&& reached && entries[i].1 is None ==> r == Err::<LibraryModel, SelectError>(
                SelectError::Unreadable,
            )
            &&& reached && extraction_laws::ends_as_package(entries[i].0) && entries[i].1 == Some(
                None::<Seq<u8>>,
            ) ==> r == Err::<LibraryModel, SelectError>(SelectError::Unreadable)
            &&& reached && extraction_laws::ends_as_package(entries[i].0) && entries[i].1 == Some(
                Some(content),
            ) && zip_file::zip_entries(content) == Some(nested) && !(select::selection(
                select::open_names(nested),
            ) is Nothing) ==> comes_of(nested, Some(entries[i].0), r)
        }),
{
    if select::selection(select::open_names(entries)) is Nothing {
        if forall|j: int| 0 <= j < entries.len() ==> holds_no_library(#[trigger] entries[j]) {
            nested_search_goes_on(entries, 0, entries.len() as int);
        }
        if 0 <= i < entries.len() && forall|j: int|
            0 <= j < i ==> holds_no_library(#[trigger] entries[j]) {
            nested_search_goes_on(entries, 0, i);
            extraction_laws::law_names_tell_libraries_and_packages(entries[i].0, Seq::empty());
        }
    }
}

/// An entry has its name where it can be opened, and else none; bytes that are no archive have no
/// library.
pub proof fn law_only_open_entries_have_names(
    entries: Seq<(Seq<char>, Option<Option<Seq<u8>>>)>,
    i: int,
    data: Seq<u8>,
)
    ensures
        select::open_names(entries).len() == entries.len(),
        0 <= i < entries.len() && entries[i].1 is Some ==> select::open_names(entries)[i] == Some(
            entries[i].0,
        ),
        0 <= i < entries.len() && entries[i].1 is None ==> select::open_names(entries)[i] is None,
        zip_file::zip_entries(data) is None ==> select::chosen(data) == Err::<
            LibraryModel,
            SelectError,
        >(SelectError::NotAnArchive),
{
}

/// The content `r` is what can be read of the entry of this name, nothing where there is none.
pub open spec fn is_content_of(
    entries: Seq<(Seq<char>, Option<Option<Seq<u8>>>)>,
    name: Seq<char>,
    r: Option<Seq<u8>>,
) -> bool {
    &&& forall|i: int|
        0 <= i < entries.len() && (#[trigger] entries[i]).0 == name ==> (match entries[i].1 {
            Some(content) => r == content,
            None => r is None,
        })
    &&& (forall|i: int| 0 <= i < entries.len() ==> (#[trigger] entries[i]).0 != name) ==> r is None
}

proof fn named_content_is_read(
    entries: Seq<(Seq<char>, Option<Option<Seq<u8>>>)>,
    name: Seq<char>,
)
    requires
        zip_file::names_distinct(entries),
    ensures
        is_content_of(entries, name, zip_file::content_named(entries, name)),
{
    if exists|i: int| zip_file::is_named(entries, i, name) {
        let k = choose|i: int| zip_file::is_named(entries, i, name);
        assert forall|i: int| 0 <= i < entries.len() && (#[trigger] entries[i]).0 == name implies i
            == k by {
            assert(entries[k].0 == name);
        }
        assert(zip_file::is_named(entries, k, name));
    } else {
        assert forall|i: int| 0 <= i < entries.len() implies (#[trigger] entries[i]).0 != name by {
            assert(!zip_file::is_named(entries, i, name));
        }
    }
}

/// A file of a package is that of its `base.apk`, where this is an archive and the file can be read
/// there, and else that of the package itself. What is no archive has no files.
pub proof fn law_file_comes_from_the_base_package(
    data: Seq<u8>,
    entries: Seq<(Seq<char>, Option<Option<Seq<u8>>>)>,
    base: Option<Seq<u8>>,
    inner: Seq<(Seq<char>, Option<Option<Seq<u8>>>)>,
    name: Seq<char>,
    inside: Option<Seq<u8>>,
    beside: Option<Seq<u8>>,
)
    requires
        zip_file::zip_entries(data) == Some(entries),
        zip_file::names_distinct(entries),
        zip_file::names_distinct(inner),
        is_content_of(entries, "base.apk"@, base),
        is_content_of(inner, name, inside),
        is_content_of(entries, name, beside),
    ensures
        base is Some && zip_file::zip_entries(base->0) == Some(inner) && inside is Some
            ==> bundle::package_file(data, name) == inside,
        base is Some && zip_file::zip_entries(base->0) == Some(inner) && inside is None
            ==> bundle::package_file(data, name) == beside,
        base is None || zip_file::zip_entries(base->0) is None ==> bundle::package_file(data, name)
            == beside,
{
    named_content_is_read(entries, "base.apk"@);
    named_content_is_read(inner, name);
    named_content_is_read(entries, name);
    one_content(entries, "base.apk"@, base, zip_file::content_named(entries, "base.apk"@));
    one_content(inner, name, inside, zip_file::content_named(inner, name));
    one_content(entries, name, beside, zip_file::content_named(entries, name));
}

proof fn one_content(
    entries: Seq<(Seq<char>, Option<Option<Seq<u8>>>)>,
    name: Seq<char>,
    r: Option<Seq<u8>>,
    s: Option<Seq<u8>>,
)
    requires
        is_content_of(entries, name, r),
        is_content_of(entries, name, s),
    ensures
        r == s,
{
    if exists|i: int| 0 <= i < entries.len() && (#[trigger] entries[i]).0 == name {
        let i = choose|i: int| 0 <= i < entries.len() && (#[trigger] entries[i]).0 == name;
        assert(entries[i].0 == name);
    }
}

/// Bytes that are no archive have no file of any name.
pub proof fn law_no_archive_no_file(data: Seq<u8>, name: Seq<char>)
    requires
        zip_file::zip_entries(data) is None,
    ensures
        bundle::package_file(data, name) is None,
{
}

/// A chosen library shows what it holds.
pub proof fn law_library_shows_what_it_holds(library: select::NativeLibrary)
    ensures
        library@.arch == library.arch,
        library@.entry == library.entry@,
        library@.file_name == library.file_name@,
        library@.content == library.content@,
        library.package is None ==> library@.package is None,
        library.package matches Some(p) ==> library@.package == Some(p@),
{
}

/// The classes of a package are in its `classes.dex`, and its manifest in its
/// `AndroidManifest.xml`. A package without a manifest says nothing, and one whose manifest cannot
/// be read has no answer.
pub proof fn law_package_has_classes_and_a_manifest(
    data: Vec<u8>,
    classes: Option<Vec<u8>>,
    info: Option<ManifestInfo>,
)
    requires
        call_ensures(bundle::extract_classes_dex, (data,), classes),
        call_ensures(bundle::extract_manifest, (data,), info),
    ensures
        bytes::optional_bytes(classes) == bundle::package_file(data@, "classes.dex"@),
        bundle::package_file(data@, "AndroidManifest.xml"@) is None ==> (info matches Some(i)
            && i.main_activity is None && i.application_class is None && i.package_name is None),
        (bundle::package_file(data@, "AndroidManifest.xml"@) matches Some(b)
            && manifest::pool_in_bounds(b)) ==> (info matches Some(i) && i.describes(
            bundle::package_file(data@, "AndroidManifest.xml"@)->0,
        )),
        (bundle::package_file(data@, "AndroidManifest.xml"@) matches Some(b)
            && !manifest::pool_in_bounds(b)) ==> info is None,
{
}

/// The library that is run is the one that is chosen, with what it holds or the reason why there is
/// none.
pub proof fn law_chosen_library_is_extracted(
    data: Vec<u8>,
    r: Result<select::NativeLibrary, SelectError>,
    arch: usize,
    wide: bool,
)
    requires
        call_ensures(select::extract_apk_native_so, (data,), r),
        call_ensures(select::is_64bit, (arch,), wide),
    ensures
        r matches Ok(library) ==> select::chosen(data@) == Ok::<LibraryModel, SelectError>(library@),
        r matches Err(e) ==> select::chosen(data@) == Err::<LibraryModel, SelectError>(e),
        wide == (arch == 0 || arch == 1),
{
    law_two_architectures_have_64_bits(arch as int);
}

} // verus!
