//! The one native library of a package that is run, by the priority of its architecture.
use crate::archive::natives;
use crate::archive::natives::names_package;
use crate::archive::zip_file;
use crate::archive::zip_file::{entry_content, entry_count, entry_name, open_archive};
use crate::text;
use vstd::prelude::*;

verus! {

/// The number of architectures that are looked for.
pub const ARCH_COUNT: usize = 5;

/// Where the libraries of an architecture stand, the architecture that is preferred first.
pub open spec fn arch_prefix(arch: int) -> Seq<char> {
    if arch == 0 {
        "lib/arm64-v8a/"@
    } else if arch == 1 {
        "lib/x86_64/"@
    } else if arch == 2 {
        "lib/armeabi-v7a/"@
    } else if arch == 3 {
        "lib/armeabi/"@
    } else {
        "lib/"@
    }
}

/// Where the libraries of an architecture stand.
pub fn arch_directory(arch: usize) -> (r: &'static str)
    ensures
        r@ == arch_prefix(arch as int),
{
    if arch == 0 {
        "lib/arm64-v8a/"
    } else if arch == 1 {
        "lib/x86_64/"
    } else if arch == 2 {
        "lib/armeabi-v7a/"
    } else if arch == 3 {
        "lib/armeabi/"
    } else {
        "lib/"
    }
}

/// Has the architecture 64 bits?
pub fn is_64bit(arch: usize) -> (r: bool)
    ensures
        r == (text::has_substring(arch_prefix(arch as int), "arm64"@) || text::has_substring(
            arch_prefix(arch as int),
            "x86_64"@,
        )),
{
    let directory = arch_directory(arch);
    text::contains(directory, "arm64") || text::contains(directory, "x86_64")
}

/// Which library is chosen among the entries of an archive.
#[derive(Debug, Clone, Copy, PartialEq, Eq, Structural)]
pub enum Selection {
    /// The one at this index, of this architecture.
    Found { arch: usize, index: usize },
    /// The search met an entry that cannot be opened.
    Broken,
    /// There is none.
    Nothing,
}

/// Why there is no library to run.
#[derive(Debug, Clone, Copy, PartialEq, Eq, Structural)]
pub enum SelectError {
    /// The package is no archive.
    NotAnArchive,
    /// An entry that is needed cannot be opened or read.
    Unreadable,
    /// No native shared library in the archive or nested split APKs.
    NoLibrary,
}

/// Entry `i` is a library of the architecture. An entry without a name cannot be opened.
pub open spec fn is_library(names: Seq<Option<Seq<char>>>, arch: int, i: int) -> bool {
    0 <= i < names.len() && match names[i] {
        Some(name) => text::has_prefix(name, arch_prefix(arch)) && text::has_suffix(name, ".so"@),
        None => false,
    }
}

/// Entry `i` is the first library of the architecture, with no entry before it that cannot
/// be opened.
pub open spec fn is_first_library(names: Seq<Option<Seq<char>>>, arch: int, i: int) -> bool {
    &&& is_library(names, arch, i)
    &&& forall|j: int| 0 <= j < i ==> !#[trigger] is_library(names, arch, j)
    &&& forall|j: int| 0 <= j < i ==> (#[trigger] names[j]) is Some
}

/// Some entry cannot be opened.
pub open spec fn has_broken(names: Seq<Option<Seq<char>>>) -> bool {
    exists|i: int| 0 <= i < names.len() && (#[trigger] names[i]) is None
}

/// The choice among the architectures from `arch` on: of the first that has a library its
/// first one, unless an entry that cannot be opened comes before.
pub open spec fn selection_from(names: Seq<Option<Seq<char>>>, arch: int) -> Selection
    decreases ARCH_COUNT - arch,
{
    if arch >= ARCH_COUNT {
        Selection::Nothing
    } else if exists|i: int| #[trigger] is_first_library(names, arch, i) {
        Selection::Found {
            arch: arch as usize,
            index: (choose|i: int| #[trigger] is_first_library(names, arch, i)) as usize,
        }
    } else if has_broken(names) {
        Selection::Broken
    } else {
        selection_from(names, arch + 1)
    }
}

/// The choice among all architectures.
pub open spec fn selection(names: Seq<Option<Seq<char>>>) -> Selection {
    selection_from(names, 0)
}

/// Chooses a library among the names of the entries of an archive.
pub fn select_library(names: &Vec<Option<String>>) -> (r: Selection)
    ensures
        r == selection(text::optional_texts(names@)),
{
    let ghost all = text::optional_texts(names@);
    let mut arch: usize = 0;
    while arch < ARCH_COUNT
        invariant
            arch <= ARCH_COUNT,
            all == text::optional_texts(names@),
            selection(all) == selection_from(all, arch as int),
        decreases ARCH_COUNT - arch,
    {
        let directory = arch_directory(arch);
        let mut i: usize = 0;
        while i < names.len()
            invariant
                i <= names.len(),
                arch < ARCH_COUNT,
                directory@ == arch_prefix(arch as int),
                all == text::optional_texts(names@),
                selection(all) == selection_from(all, arch as int),
                forall|j: int| 0 <= j < i ==> !#[trigger] is_library(all, arch as int, j),
                forall|j: int| 0 <= j < i ==> (#[trigger] all[j]) is Some,
            decreases names.len() - i,
        {
            assert(all[i as int] == text::optional_text(names@[i as int]));
            match &names[i] {
                Some(name) => {
                    if text::starts_with(name.as_str(), directory) && text::ends_with(
                        name.as_str(),
                        ".so",
                    ) {
                        proof {
                            assert(is_first_library(all, arch as int, i as int));
                            let k = choose|k: int| #[trigger] is_first_library(all, arch as int, k);
                            assert(is_library(all, arch as int, k));
                            assert(k == i);
                        }
                        return Selection::Found { arch, index: i };
                    }
                },
                None => {
                    assert forall|k: int| !#[trigger] is_first_library(all, arch as int, k) by {
                        if is_first_library(all, arch as int, k) {
                            assert(is_library(all, arch as int, k));
                            assert(k > i);
                            assert(all[i as int] is Some);
                        }
                    }
                    assert(has_broken(all));
                    return Selection::Broken;
                },
            }
            i = i + 1;
        }
        assert forall|k: int| !#[trigger] is_first_library(all, arch as int, k) by {
            assert(!is_library(all, arch as int, k));
        }
        assert(!has_broken(all));
        arch = arch + 1;
    }
    Selection::Nothing
}

/// The names of entries; an entry that cannot be opened has none.
pub open spec fn open_names(
    entries: Seq<(Seq<char>, Option<Option<Seq<u8>>>)>,
) -> Seq<Option<Seq<char>>> {
    entries.map_values(
        |e: (Seq<char>, Option<Option<Seq<u8>>>)|
            if e.1 is Some {
                Some(e.0)
            } else {
                None
            },
    )
}

/// The names of the entries of an archive.
fn list_names(archive: &mut zip::ZipArchive<std::io::Cursor<Vec<u8>>>) -> (r: Vec<Option<String>>)
    ensures
        zip_file::archive_entries(*final(archive)) == zip_file::archive_entries(*old(archive)),
        text::optional_texts(r@) == open_names(zip_file::archive_entries(*old(archive))),
{
    let ghost entries = zip_file::archive_entries(*archive);
    let count: usize = entry_count(archive);
    let mut names: Vec<Option<String>> = Vec::new();
    let mut i: usize = 0;
    while i < count
        invariant
            i <= count,
            count == entries.len(),
            entries == zip_file::archive_entries(*archive),
            text::optional_texts(names@) =~= open_names(entries).take(i as int),
        decreases count - i,
    {
        let ghost before = names@;
        let name = entry_name(archive, i);
        let ghost told = text::optional_text(name);
        names.push(name);
        assert(text::optional_texts(names@) =~= text::optional_texts(before).push(told));
        i = i + 1;
    }
    assert(open_names(entries).take(i as int) =~= open_names(entries));
    names
}

/// What a `NativeLibrary` holds.
pub struct LibraryModel {
    pub package: Option<Seq<char>>,
    pub arch: usize,
    pub entry: Seq<char>,
    pub file_name: Seq<char>,
    pub content: Seq<u8>,
}

/// The library that is chosen.
#[derive(Debug)]
pub struct NativeLibrary {
    /// The nested package that holds it; `None` where it is in the archive itself.
    pub package: Option<String>,
    /// Its architecture, by priority.
    pub arch: usize,
    /// The name of its entry.
    pub entry: String,
    /// The name of the file that it is written to.
    pub file_name: String,
    pub content: Vec<u8>,
}

impl View for NativeLibrary {
    type V = LibraryModel;

    open spec fn view(&self) -> LibraryModel {
        LibraryModel {
            package: text::optional_text(self.package),
            arch: self.arch,
            entry: self.entry@,
            file_name: self.file_name@,
            content: self.content@,
        }
    }
}

/// The library that is chosen among the entries of an archive; `None` where it has none. Its file
/// is named as its entry is, without the directories.
pub open spec fn picked(
    entries: Seq<(Seq<char>, Option<Option<Seq<u8>>>)>,
    package: Option<Seq<char>>,
) -> Option<Result<LibraryModel, SelectError>> {
    match selection(open_names(entries)) {
        Selection::Found { arch, index } => match zip_file::readable(entries[index as int]) {
            Some(content) => Some(
                Ok(
                    LibraryModel {
                        package,
                        arch,
                        entry: entries[index as int].0,
                        file_name: text::after_last_slash(entries[index as int].0),
                        content,
                    },
                ),
            ),
            None => Some(Err(SelectError::Unreadable)),
        },
        Selection::Broken => Some(Err(SelectError::Unreadable)),
        Selection::Nothing => None,
    }
}

/// The library that is chosen in the nested packages of an archive, from entry `i` on. An
/// entry that is no archive is passed over.
pub open spec fn picked_nested(
    entries: Seq<(Seq<char>, Option<Option<Seq<u8>>>)>,
    i: int,
) -> Option<Result<LibraryModel, SelectError>>
    decreases entries.len() - i,
{
    if i >= entries.len() {
        None
    } else if entries[i].1 is None {
        Some(Err(SelectError::Unreadable))
    } else if !natives::is_package(entries[i].0) {
        picked_nested(entries, i + 1)
    } else {
        match zip_file::readable(entries[i]) {
            Some(content) => match zip_file::zip_entries(content) {
                Some(nested) => match picked(nested, Some(entries[i].0)) {
                    Some(r) => Some(r),
                    None => picked_nested(entries, i + 1),
                },
                None => picked_nested(entries, i + 1),
            },
            None => Some(Err(SelectError::Unreadable)),
        }
    }
}

/// The library of a package that is run.
pub open spec fn chosen(data: Seq<u8>) -> Result<LibraryModel, SelectError> {
    match zip_file::zip_entries(data) {
        Some(entries) => match picked(entries, None) {
            Some(r) => r,
            None => match picked_nested(entries, 0) {
                Some(r) => r,
                None => Err(SelectError::NoLibrary),
            },
        },
        None => Err(SelectError::NotAnArchive),
    }
}

/// The outcome of a choice.
pub open spec fn outcome(r: Result<NativeLibrary, SelectError>) -> Result<LibraryModel, SelectError> {
    match r {
        Ok(library) => Ok(library@),
        Err(e) => Err(e),
    }
}

/// Chooses a library in an archive.
fn pick(
    archive: &mut zip::ZipArchive<std::io::Cursor<Vec<u8>>>,
    package: Option<String>,
) -> (r: Option<Result<NativeLibrary, SelectError>>)
    ensures
        zip_file::archive_entries(*final(archive)) == zip_file::archive_entries(*old(archive)),
        match r {
            Some(x) => picked(
                zip_file::archive_entries(*old(archive)),
                text::optional_text(package),
            ) == Some(outcome(x)),
            None => picked(
                zip_file::archive_entries(*old(archive)),
                text::optional_text(package),
            ) is None,
        },
{
    let ghost entries = zip_file::archive_entries(*archive);
    let names = list_names(archive);
    let _count: usize = names.len();
    match select_library(&names) {
        Selection::Nothing => None,
        Selection::Broken => Some(Err(SelectError::Unreadable)),
        Selection::Found { arch, index } => {
            proof {
                found_is_library(text::optional_texts(names@), 0, arch, index);
                assert(open_names(entries)[index as int] == text::optional_texts(names@)[index as int]);
            }
            match entry_content(archive, index) {
                None => Some(Err(SelectError::Unreadable)),
                Some(content) => {
                    let entry = text::or_empty(&names[index]);
                    let file_name = text::file_name_of(entry.as_str());
                    Some(Ok(NativeLibrary { package, arch, entry, file_name, content }))
                },
            }
        },
    }
}

/// What is found is a library of the archive.
proof fn found_is_library(names: Seq<Option<Seq<char>>>, from: int, arch: usize, index: usize)
    requires
        0 <= from,
        names.len() <= usize::MAX,
        selection_from(names, from) == (Selection::Found { arch, index }),
    ensures
        is_first_library(names, arch as int, index as int),
        index < names.len(),
    decreases ARCH_COUNT - from,
{
    if from < ARCH_COUNT {
        if exists|i: int| #[trigger] is_first_library(names, from, i) {
            let i = choose|i: int| #[trigger] is_first_library(names, from, i);
            assert(is_first_library(names, from, i));
            assert(is_library(names, from, i));
        } else if !has_broken(names) {
            found_is_library(names, from + 1, arch, index);
        }
    }
}

/// Extract native so using arch priority.
pub fn extract_apk_native_so(data: Vec<u8>) -> (r: Result<NativeLibrary, SelectError>)
    ensures
        outcome(r) == chosen(data@),
{
    match open_archive(data) {
        None => Err(SelectError::NotAnArchive),
        Some(opened) => {
            let mut archive = opened;
            let ghost entries = zip_file::archive_entries(archive);
            if let Some(r) = pick(&mut archive, None) {
                return r;
            }
            let count: usize = entry_count(&archive);
            let mut i: usize = 0;
            while i < count
                invariant
                    i <= count,
                    count == entries.len(),
                    entries == zip_file::archive_entries(archive),
                    zip_file::zip_entries(data@) == Some(entries),
                    picked(entries, None) is None,
                    picked_nested(entries, 0) == picked_nested(entries, i as int),
                decreases count - i,
            {
                match entry_name(&mut archive, i) {
                    None => {
                        return Err(SelectError::Unreadable);
                    },
                    Some(name) => {
                        if names_package(name.as_str()) {
                            match entry_content(&mut archive, i) {
                                None => {
                                    return Err(SelectError::Unreadable);
                                },
                                Some(content) => {
                                    if let Some(nested) = open_archive(content) {
                                        let mut inner = nested;
                                        if let Some(r) = pick(&mut inner, Some(name)) {
                                            return r;
                                        }
                                    }
                                },
                            }
                        }
                    },
                }
                i = i + 1;
            }
            Err(SelectError::NoLibrary)
        },
    }
}

/// The library that is found is of the architecture with the highest priority that the
/// archive has one of, and no other of that architecture comes before it.
pub proof fn law_selection_follows_the_priorities(
    names: Seq<Option<Seq<char>>>,
    arch: usize,
    index: usize,
    other_arch: int,
    other: int,
)
    requires
        names.len() <= usize::MAX,
        selection(names) == (Selection::Found { arch, index }),
        0 <= other_arch < ARCH_COUNT,
        is_library(names, other_arch, other),
    ensures
        is_library(names, arch as int, index as int),
        arch <= other_arch,
        arch == other_arch ==> index <= other,
{
    found_is_library(names, 0, arch, index);
    found_comes_first(names, 0, arch, index, other_arch, other);
}

proof fn found_comes_first(
    names: Seq<Option<Seq<char>>>,
    from: int,
    arch: usize,
    index: usize,
    other_arch: int,
    other: int,
)
    requires
        names.len() <= usize::MAX,
        0 <= from <= other_arch < ARCH_COUNT,
        selection_from(names, from) == (Selection::Found { arch, index }),
        is_library(names, other_arch, other),
    ensures
        arch <= other_arch,
        arch == other_arch ==> index <= other,
    decreases ARCH_COUNT - from,
{
    found_is_library(names, from, arch, index);
    if !(exists|i: int| #[trigger] is_first_library(names, from, i)) {
        if from == other_arch {
            library_has_a_first(names, from, other);
        } else {
            found_comes_first(names, from + 1, arch, index, other_arch, other);
        }
    }
}

/// Where every entry can be opened and one is a library, there is a first one.
proof fn library_has_a_first(names: Seq<Option<Seq<char>>>, arch: int, i: int)
    requires
        !has_broken(names),
        is_library(names, arch, i),
    ensures
        exists|k: int| #[trigger] is_first_library(names, arch, k),
    decreases i,
{
    assert forall|j: int| 0 <= j < i implies (#[trigger] names[j]) is Some by {}
    if forall|j: int| 0 <= j < i ==> !#[trigger] is_library(names, arch, j) {
        assert(is_first_library(names, arch, i));
    } else {
        let j = choose|j: int| 0 <= j < i && #[trigger] is_library(names, arch, j);
        library_has_a_first(names, arch, j);
    }
}

/// Where every entry can be opened and there is a library, one is found.
pub proof fn law_selection_finds_a_library(names: Seq<Option<Seq<char>>>, arch: int, i: int)
    requires
        !has_broken(names),
        0 <= arch < ARCH_COUNT,
        is_library(names, arch, i),
    ensures
        selection(names) is Found,
{
    library_has_a_first(names, arch, i);
    some_architecture_is_found(names, 0, arch);
}

proof fn some_architecture_is_found(names: Seq<Option<Seq<char>>>, from: int, arch: int)
    requires
        !has_broken(names),
        0 <= from <= arch < ARCH_COUNT,
        exists|k: int| #[trigger] is_first_library(names, arch, k),
    ensures
        selection_from(names, from) is Found,
    decreases arch - from,
{
    if from < arch {
        some_architecture_is_found(names, from + 1, arch);
    }
}

} // verus!
