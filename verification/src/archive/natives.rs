//! The native libraries of an application package.
use crate::archive::zip_file;
use crate::archive::zip_file::{entry_content, entry_count, entry_name, open_archive};
use crate::bytes;
use crate::text;
use vstd::prelude::*;

verus! {

/// The entry is an ARM64 library.
pub open spec fn is_arm64_library(name: Seq<char>) -> bool {
    text::has_prefix(name, "lib/arm64-v8a/"@) && text::has_suffix(name, ".so"@)
}

/// The entry is a nested package.
pub open spec fn is_package(name: Seq<char>) -> bool {
    text::has_suffix(name, ".apk"@) || text::has_suffix(name, ".apks"@)
}

/// A library that is taken out of a package, or is on disk already.
#[derive(Debug)]
pub struct NativeFile {
    /// The name of the file, without directories.
    pub name: String,
    /// What to write to disk; `None` where the file is there already.
    pub content: Option<Vec<u8>>,
}

/// The libraries of a package, as far as they have been found.
#[derive(Debug)]
pub struct Extraction {
    pub files: Vec<NativeFile>,
    /// No entry was met that cannot be opened or read.
    pub complete: bool,
}

/// What an extraction needs of an entry.
#[derive(Debug, Clone, Copy, PartialEq, Eq, Structural)]
pub enum Need {
    /// Nothing: it is no library, or one of the same name has been found.
    Nothing,
    /// Its name: the file is on disk.
    Name,
    /// Its name and content.
    Content,
}

/// What an `Extraction` holds.
#[verifier::ext_equal]
pub struct ExtractionModel {
    pub files: Seq<(Seq<char>, Option<Seq<u8>>)>,
    pub complete: bool,
}

impl View for Extraction {
    type V = ExtractionModel;

    open spec fn view(&self) -> ExtractionModel {
        ExtractionModel {
            files: self.files@.map_values(
                |f: NativeFile| (f.name@, bytes::optional_bytes(f.content)),
            ),
            complete: self.complete,
        }
    }
}

/// A name occurs in a list of names.
pub open spec fn listed(names: Seq<Seq<char>>, name: Seq<char>) -> bool {
    exists|i: int| 0 <= i < names.len() && #[trigger] names[i] == name
}

impl ExtractionModel {
    /// An extraction that has found nothing yet.
    pub open spec fn empty(complete: bool) -> ExtractionModel {
        ExtractionModel { files: Seq::empty(), complete }
    }

    /// A file of this name has been found.
    pub open spec fn holds(self, name: Seq<char>) -> bool {
        exists|i: int| 0 <= i < self.files.len() && (#[trigger] self.files[i]).0 == name
    }

    /// What is needed of the entry `name`, where the files `existing` are on disk.
    pub open spec fn need(self, name: Seq<char>, existing: Seq<Seq<char>>) -> Need {
        let file = text::after_last_slash(name);
        if !is_arm64_library(name) || self.holds(file) {
            Need::Nothing
        } else if listed(existing, file) {
            Need::Name
        } else {
            Need::Content
        }
    }

    /// The extraction with the library of entry `name`.
    pub open spec fn with(self, name: Seq<char>, content: Option<Seq<u8>>) -> ExtractionModel {
        ExtractionModel { files: self.files.push((text::after_last_slash(name), content)), ..self }
    }

    /// The extraction stopped at an entry that cannot be opened or read.
    pub open spec fn stopped(self) -> ExtractionModel {
        ExtractionModel { complete: false, ..self }
    }

    /// The extraction after one more entry.
    pub open spec fn after_entry(
        self,
        entry: (Seq<char>, Option<Option<Seq<u8>>>),
        existing: Seq<Seq<char>>,
    ) -> ExtractionModel {
        if entry.1 is None {
            self.stopped()
        } else {
            match self.need(entry.0, existing) {
                Need::Nothing => self,
                Need::Name => self.with(entry.0, None),
                Need::Content => match zip_file::readable(entry) {
                    Some(content) => self.with(entry.0, Some(content)),
                    None => self.stopped(),
                },
            }
        }
    }

    /// The extraction after the entries of an archive, up to one that stops it.
    pub open spec fn after_entries(
        self,
        entries: Seq<(Seq<char>, Option<Option<Seq<u8>>>)>,
        existing: Seq<Seq<char>>,
    ) -> ExtractionModel
        decreases entries.len(),
    {
        if entries.len() == 0 {
            self
        } else {
            let before = self.after_entries(entries.drop_last(), existing);
            if before.complete {
                before.after_entry(entries.last(), existing)
            } else {
                before
            }
        }
    }

    /// The extraction after one more entry has been searched, where it is a nested package.
    /// An entry that is no archive is passed over.
    pub open spec fn after_package(
        self,
        entry: (Seq<char>, Option<Option<Seq<u8>>>),
        existing: Seq<Seq<char>>,
    ) -> ExtractionModel {
        if entry.1 is None {
            self.stopped()
        } else if !is_package(entry.0) {
            self
        } else {
            match zip_file::readable(entry) {
                Some(content) => match zip_file::zip_entries(content) {
                    Some(nested) => self.after_entries(nested, existing),
                    None => self,
                },
                None => self.stopped(),
            }
        }
    }

    /// The extraction after the nested packages of an archive.
    pub open spec fn after_packages(
        self,
        entries: Seq<(Seq<char>, Option<Option<Seq<u8>>>)>,
        existing: Seq<Seq<char>>,
    ) -> ExtractionModel
        decreases entries.len(),
    {
        if entries.len() == 0 {
            self
        } else {
            let before = self.after_packages(entries.drop_last(), existing);
            if before.complete {
                before.after_package(entries.last(), existing)
            } else {
                before
            }
        }
    }
}

/// All libraries of a package: those of the archive itself, then those of the packages that
/// are nested in it.
pub open spec fn extraction(data: Seq<u8>, existing: Seq<Seq<char>>) -> ExtractionModel {
    match zip_file::zip_entries(data) {
        Some(entries) => {
            let direct = ExtractionModel::empty(true).after_entries(entries, existing);
            if direct.complete {
                direct.after_packages(entries, existing)
            } else {
                direct
            }
        },
        None => ExtractionModel::empty(false),
    }
}

/// Is the entry an ARM64 library?
pub fn names_arm64_library(name: &str) -> (r: bool)
    ensures
        r == is_arm64_library(name@),
{
    text::starts_with(name, "lib/arm64-v8a/") && text::ends_with(name, ".so")
}

/// Is the entry a nested package?
pub fn names_package(name: &str) -> (r: bool)
    ensures
        r == is_package(name@),
{
    text::ends_with(name, ".apk") || text::ends_with(name, ".apks")
}

/// Does the name occur in the list?
pub fn list_has(names: &Vec<String>, name: &str) -> (r: bool)
    ensures
        r == listed(text::texts(names@), name@),
{
    let mut i: usize = 0;
    while i < names.len()
        invariant
            i <= names.len(),
            forall|k: int| 0 <= k < i ==> #[trigger] text::texts(names@)[k] != name@,
        decreases names.len() - i,
    {
        if text::same_text(names[i].as_str(), name) {
            assert(text::texts(names@)[i as int] == name@);
            return true;
        }
        i = i + 1;
    }
    false
}

impl Extraction {
    /// An extraction that has found nothing yet.
    pub fn new() -> (r: Self)
        ensures
            r@ == ExtractionModel::empty(true),
    {
        let r = Extraction { files: Vec::new(), complete: true };
        assert(r@ =~= ExtractionModel::empty(true));
        r
    }

    /// Has a file of this name been found?
    fn has_file(&self, name: &str) -> (r: bool)
        ensures
            r == self@.holds(name@),
    {
        let mut i: usize = 0;
        while i < self.files.len()
            invariant
                i <= self.files.len(),
                forall|k: int| 0 <= k < i ==> (#[trigger] self@.files[k]).0 != name@,
            decreases self.files.len() - i,
        {
            if text::same_text(self.files[i].name.as_str(), name) {
                assert(self@.files[i as int].0 == name@);
                return true;
            }
            i = i + 1;
        }
        false
    }

    /// What is needed of the entry `name`, where the files `existing` are on disk.
    pub fn need(&self, name: &str, existing: &Vec<String>) -> (r: Need)
        ensures
            r == self@.need(name@, text::texts(existing@)),
    {
        if !names_arm64_library(name) {
            return Need::Nothing;
        }
        let file = text::file_name_of(name);
        if self.has_file(file.as_str()) {
            Need::Nothing
        } else if list_has(existing, file.as_str()) {
            Need::Name
        } else {
            Need::Content
        }
    }

    /// Adds the library of entry `name`.
    pub fn add_library(&mut self, name: &str, content: Option<Vec<u8>>)
        ensures
            final(self)@ == old(self)@.with(name@, bytes::optional_bytes(content)),
    {
        let ghost stored = bytes::optional_bytes(content);
        self.files.push(NativeFile { name: text::file_name_of(name), content });
        assert(self@ =~= old(self)@.with(name@, stored));
    }

    /// Goes through the entries of an archive, up to one that stops the extraction.
    fn add_entries(
        &mut self,
        archive: &mut zip::ZipArchive<std::io::Cursor<Vec<u8>>>,
        existing: &Vec<String>,
    )
        requires
            old(self)@.complete,
        ensures
            zip_file::archive_entries(*final(archive)) == zip_file::archive_entries(*old(archive)),
            final(self)@ == old(self)@.after_entries(
                zip_file::archive_entries(*old(archive)),
                text::texts(existing@),
            ),
    {
        let ghost entries = zip_file::archive_entries(*archive);
        let ghost on_disk = text::texts(existing@);
        let count: usize = entry_count(archive);
        let mut i: usize = 0;
        assert(entries.take(0) =~= Seq::empty());
        while i < count && self.complete
            invariant
                i <= count,
                count == entries.len(),
                entries == zip_file::archive_entries(*archive),
                on_disk == text::texts(existing@),
                self@ == old(self)@.after_entries(entries.take(i as int), on_disk),
                self.complete || i == count || self@ == old(self)@.after_entries(entries, on_disk),
            decreases count - i,
        {
            let ghost before = self@;
            assert(entries.take(i + 1).drop_last() =~= entries.take(i as int));
            match entry_name(archive, i) {
                None => {
                    self.complete = false;
                    assert(self@ =~= before.stopped());
                },
                Some(name) => {
                    match self.need(name.as_str(), existing) {
                        Need::Nothing => {},
                        Need::Name => self.add_library(name.as_str(), None),
                        Need::Content => {
                            match entry_content(archive, i) {
                                Some(content) => self.add_library(name.as_str(), Some(content)),
                                None => {
                                    self.complete = false;
                                    assert(self@ =~= before.stopped());
                                },
                            }
                        },
                    }
                },
            }
            assert(self@ == old(self)@.after_entries(entries.take(i + 1), on_disk));
            proof {
                if !self.complete {
                    entries_after_stop(old(self)@, entries, on_disk, i + 1);
                }
            }
            i = i + 1;
        }
        assert(entries.take(entries.len() as int) =~= entries);
    }

    /// Goes through the nested packages of an archive, up to one that stops the extraction.
    fn add_packages(
        &mut self,
        archive: &mut zip::ZipArchive<std::io::Cursor<Vec<u8>>>,
        existing: &Vec<String>,
    )
        requires
            old(self)@.complete,
        ensures
            final(self)@ == old(self)@.after_packages(
                zip_file::archive_entries(*old(archive)),
                text::texts(existing@),
            ),
    {
        let ghost entries = zip_file::archive_entries(*archive);
        let ghost on_disk = text::texts(existing@);
        let count: usize = entry_count(archive);
        let mut i: usize = 0;
        assert(entries.take(0) =~= Seq::empty());
        while i < count && self.complete
            invariant
                i <= count,
                count == entries.len(),
                entries == zip_file::archive_entries(*archive),
                on_disk == text::texts(existing@),
                self@ == old(self)@.after_packages(entries.take(i as int), on_disk),
                self.complete || i == count || self@ == old(self)@.after_packages(entries, on_disk),
            decreases count - i,
        {
            let ghost before = self@;
            assert(entries.take(i + 1).drop_last() =~= entries.take(i as int));
            match entry_name(archive, i) {
                None => {
                    self.complete = false;
                    assert(self@ =~= before.stopped());
                },
                Some(name) => {
                    if names_package(name.as_str()) {
                        match entry_content(archive, i) {
                            Some(content) => {
                                if let Some(opened) = open_archive(content) {
                                    let mut nested = opened;
                                    self.add_entries(&mut nested, existing);
                                }
                            },
                            None => {
                                self.complete = false;
                                assert(self@ =~= before.stopped());
                            },
                        }
                    }
                },
            }
            assert(self@ == old(self)@.after_packages(entries.take(i + 1), on_disk));
            proof {
                if !self.complete {
                    packages_after_stop(old(self)@, entries, on_disk, i + 1);
                }
            }
            i = i + 1;
        }
        assert(entries.take(entries.len() as int) =~= entries);
    }
}

/// Extract ALL ARM64 .so files from the bundle. The files `existing` are on disk already:
/// they are still part of the result, without their content.
pub fn extract_all_native_sos(data: Vec<u8>, existing: &Vec<String>) -> (r: Extraction)
    ensures
        r@ == extraction(data@, text::texts(existing@)),
{
    let mut found = Extraction::new();
    match open_archive(data) {
        None => {
            found.complete = false;
            assert(found@ =~= ExtractionModel::empty(false));
        },
        Some(opened) => {
            let mut archive = opened;
            found.add_entries(&mut archive, existing);
            if found.complete {
                found.add_packages(&mut archive, existing);
            }
        },
    }
    found
}

/// Once an extraction has stopped, further entries change nothing.
proof fn entries_after_stop(
    start: ExtractionModel,
    entries: Seq<(Seq<char>, Option<Option<Seq<u8>>>)>,
    existing: Seq<Seq<char>>,
    i: int,
)
    requires
        0 <= i <= entries.len(),
        !start.after_entries(entries.take(i), existing).complete,
    ensures
        start.after_entries(entries, existing) == start.after_entries(entries.take(i), existing),
    decreases entries.len(),
{
    if i < entries.len() {
        assert(entries.drop_last().take(i) =~= entries.take(i));
        entries_after_stop(start, entries.drop_last(), existing, i);
    } else {
        assert(entries.take(i) =~= entries);
    }
}

/// Once an extraction has stopped, further packages change nothing.
proof fn packages_after_stop(
    start: ExtractionModel,
    entries: Seq<(Seq<char>, Option<Option<Seq<u8>>>)>,
    existing: Seq<Seq<char>>,
    i: int,
)
    requires
        0 <= i <= entries.len(),
        !start.after_packages(entries.take(i), existing).complete,
    ensures
        start.after_packages(entries, existing) == start.after_packages(entries.take(i), existing),
    decreases entries.len(),
{
    if i < entries.len() {
        assert(entries.drop_last().take(i) =~= entries.take(i));
        packages_after_stop(start, entries.drop_last(), existing, i);
    } else {
        assert(entries.take(i) =~= entries);
    }
}

/// What holds of an extraction at every step: no two files have the same name.
pub open spec fn files_distinct(e: ExtractionModel) -> bool {
    forall|i: int, j: int|
        0 <= i < j < e.files.len() ==> (#[trigger] e.files[i]).0 != (#[trigger] e.files[j]).0
}

/// Every file that is to be written is one that is not on disk, and the others are.
pub open spec fn content_iff_missing(e: ExtractionModel, existing: Seq<Seq<char>>) -> bool {
    forall|i: int|
        0 <= i < e.files.len() ==> ((#[trigger] e.files[i]).1 is None <==> listed(
            existing,
            e.files[i].0,
        ))
}

proof fn entries_keep_invariants(
    start: ExtractionModel,
    entries: Seq<(Seq<char>, Option<Option<Seq<u8>>>)>,
    existing: Seq<Seq<char>>,
)
    requires
        files_distinct(start),
        content_iff_missing(start, existing),
    ensures
        files_distinct(start.after_entries(entries, existing)),
        content_iff_missing(start.after_entries(entries, existing), existing),
    decreases entries.len(),
{
    if entries.len() > 0 {
        entries_keep_invariants(start, entries.drop_last(), existing);
        let before = start.after_entries(entries.drop_last(), existing);
        let after = before.after_entry(entries.last(), existing);
        assert forall|i: int, j: int| 0 <= i < j < after.files.len() implies (
        #[trigger] after.files[i]).0 != (#[trigger] after.files[j]).0 by {
            assert(after.files[i] == before.files[i]);
            if j < before.files.len() {
                assert(after.files[j] == before.files[j]);
            }
        }
        assert forall|i: int| 0 <= i < after.files.len() implies ((
        #[trigger] after.files[i]).1 is None <==> listed(existing, after.files[i].0)) by {
            if i < before.files.len() {
                assert(after.files[i] == before.files[i]);
            }
        }
    }
}

proof fn packages_keep_invariants(
    start: ExtractionModel,
    entries: Seq<(Seq<char>, Option<Option<Seq<u8>>>)>,
    existing: Seq<Seq<char>>,
)
    requires
        files_distinct(start),
        content_iff_missing(start, existing),
    ensures
        files_distinct(start.after_packages(entries, existing)),
        content_iff_missing(start.after_packages(entries, existing), existing),
    decreases entries.len(),
{
    if entries.len() > 0 {
        packages_keep_invariants(start, entries.drop_last(), existing);
        let before = start.after_packages(entries.drop_last(), existing);
        if let Some(content) = zip_file::readable(entries.last()) {
            if let Some(nested) = zip_file::zip_entries(content) {
                entries_keep_invariants(before, nested, existing);
            }
        }
    }
}

/// An extraction lists no file name twice, and gives the content of exactly those files that
/// are not on disk.
pub proof fn law_extraction_lists_each_file_once(data: Seq<u8>, existing: Seq<Seq<char>>)
    ensures
        files_distinct(extraction(data, existing)),
        content_iff_missing(extraction(data, existing), existing),
{
    if let Some(entries) = zip_file::zip_entries(data) {
        let start = ExtractionModel::empty(true);
        entries_keep_invariants(start, entries, existing);
        packages_keep_invariants(start.after_entries(entries, existing), entries, existing);
    }
}

/// Two extractions list the same file names and have both stopped or not.
pub open spec fn same_names(a: ExtractionModel, b: ExtractionModel) -> bool {
    &&& a.files.len() == b.files.len()
    &&& forall|i: int| 0 <= i < a.files.len() ==> (#[trigger] a.files[i]).0 == b.files[i].0
    &&& a.complete == b.complete
}

/// Every entry can be opened and read.
pub open spec fn all_readable(entries: Seq<(Seq<char>, Option<Option<Seq<u8>>>)>) -> bool {
    forall|i: int| 0 <= i < entries.len() ==> zip_file::readable(#[trigger] entries[i]) is Some
}

/// Every entry can be opened and read, also those of the nested packages.
pub open spec fn all_nested_readable(entries: Seq<(Seq<char>, Option<Option<Seq<u8>>>)>) -> bool {
    &&& all_readable(entries)
    &&& forall|i: int|
        0 <= i < entries.len() ==> match zip_file::zip_entries(
            zip_file::readable(#[trigger] entries[i])->0,
        ) {
            Some(nested) => all_readable(nested),
            None => true,
        }
}

proof fn entries_list_the_same(
    a: ExtractionModel,
    b: ExtractionModel,
    entries: Seq<(Seq<char>, Option<Option<Seq<u8>>>)>,
    x: Seq<Seq<char>>,
    y: Seq<Seq<char>>,
)
    requires
        same_names(a, b),
        a.complete,
        all_readable(entries),
    ensures
        same_names(a.after_entries(entries, x), b.after_entries(entries, y)),
        a.after_entries(entries, x).complete,
    decreases entries.len(),
{
    if entries.len() > 0 {
        let short = entries.drop_last();
        assert forall|i: int| 0 <= i < short.len() implies zip_file::readable(
            #[trigger] short[i],
        ) is Some by {
            assert(short[i] == entries[i]);
        }
        entries_list_the_same(a, b, short, x, y);
        let a1 = a.after_entries(short, x);
        let b1 = b.after_entries(short, y);
        let entry = entries[entries.len() - 1];
        assert(zip_file::readable(entry) is Some);
        let file = text::after_last_slash(entry.0);
        if a1.holds(file) {
            let i = choose|i: int| 0 <= i < a1.files.len() && (#[trigger] a1.files[i]).0 == file;
            assert(b1.files[i].0 == file);
        }
        if b1.holds(file) {
            let i = choose|i: int| 0 <= i < b1.files.len() && (#[trigger] b1.files[i]).0 == file;
            assert(a1.files[i].0 == file);
        }
        assert(a1.holds(file) == b1.holds(file));
    }
}

proof fn packages_list_the_same(
    a: ExtractionModel,
    b: ExtractionModel,
    entries: Seq<(Seq<char>, Option<Option<Seq<u8>>>)>,
    x: Seq<Seq<char>>,
    y: Seq<Seq<char>>,
)
    requires
        same_names(a, b),
        a.complete,
        all_nested_readable(entries),
    ensures
        same_names(a.after_packages(entries, x), b.after_packages(entries, y)),
        a.after_packages(entries, x).complete,
    decreases entries.len(),
{
    if entries.len() > 0 {
        let short = entries.drop_last();
        assert forall|i: int| 0 <= i < short.len() implies zip_file::readable(
            #[trigger] short[i],
        ) is Some && match zip_file::zip_entries(zip_file::readable(short[i])->0) {
            Some(nested) => all_readable(nested),
            None => true,
        } by {
            assert(short[i] == entries[i]);
        }
        packages_list_the_same(a, b, short, x, y);
        let a1 = a.after_packages(short, x);
        let b1 = b.after_packages(short, y);
        let entry = entries[entries.len() - 1];
        assert(zip_file::readable(entry) is Some);
        if let Some(nested) = zip_file::zip_entries(zip_file::readable(entry)->0) {
            entries_list_the_same(a1, b1, nested, x, y);
        }
    }
}

/// The bytes are an archive that can be read, also its nested packages.
pub open spec fn package_readable(data: Seq<u8>) -> bool {
    zip_file::zip_entries(data) matches Some(entries) && all_nested_readable(entries)
}

/// Which libraries a package has does not depend on what is on disk already, where the
/// package can be read.
pub proof fn law_files_on_disk_are_still_listed(
    data: Seq<u8>,
    x: Seq<Seq<char>>,
    y: Seq<Seq<char>>,
)
    ensures
        package_readable(data) ==> same_names(extraction(data, x), extraction(data, y)),
        package_readable(data) ==> extraction(data, x).complete,
{
    if let Some(entries) = zip_file::zip_entries(data) {
        if all_nested_readable(entries) {
            let start = ExtractionModel::empty(true);
            entries_list_the_same(start, start, entries, x, y);
            packages_list_the_same(
                start.after_entries(entries, x),
                start.after_entries(entries, y),
                entries,
                x,
                y,
            );
        }
    }
}

/// Files that have been found stay found.
proof fn files_stay(e: ExtractionModel, file: Seq<char>, name: Seq<char>, content: Option<Seq<u8>>)
    requires
        e.holds(file),
    ensures
        e.with(name, content).holds(file),
        e.stopped().holds(file),
{
    let i = choose|i: int| 0 <= i < e.files.len() && (#[trigger] e.files[i]).0 == file;
    assert(e.with(name, content).files[i].0 == file);
    assert(e.stopped().files[i].0 == file);
}

proof fn entries_keep_files(
    start: ExtractionModel,
    entries: Seq<(Seq<char>, Option<Option<Seq<u8>>>)>,
    existing: Seq<Seq<char>>,
    file: Seq<char>,
)
    requires
        start.holds(file),
    ensures
        start.after_entries(entries, existing).holds(file),
    decreases entries.len(),
{
    if entries.len() > 0 {
        entries_keep_files(start, entries.drop_last(), existing, file);
        let before = start.after_entries(entries.drop_last(), existing);
        let entry = entries.last();
        files_stay(before, file, entry.0, None);
        files_stay(before, file, entry.0, zip_file::readable(entry));
    }
}

proof fn packages_keep_files(
    start: ExtractionModel,
    entries: Seq<(Seq<char>, Option<Option<Seq<u8>>>)>,
    existing: Seq<Seq<char>>,
    file: Seq<char>,
)
    requires
        start.holds(file),
    ensures
        start.after_packages(entries, existing).holds(file),
    decreases entries.len(),
{
    if entries.len() > 0 {
        packages_keep_files(start, entries.drop_last(), existing, file);
        let before = start.after_packages(entries.drop_last(), existing);
        files_stay(before, file, file, None);
        if let Some(content) = zip_file::readable(entries.last()) {
            if let Some(nested) = zip_file::zip_entries(content) {
                entries_keep_files(before, nested, existing, file);
            }
        }
    }
}

proof fn entries_are_found(
    start: ExtractionModel,
    entries: Seq<(Seq<char>, Option<Option<Seq<u8>>>)>,
    existing: Seq<Seq<char>>,
    i: int,
)
    requires
        0 <= i < entries.len(),
        is_arm64_library(entries[i].0),
        start.after_entries(entries, existing).complete,
    ensures
        start.after_entries(entries, existing).holds(text::after_last_slash(entries[i].0)),
    decreases entries.len(),
{
    let file = text::after_last_slash(entries[i].0);
    let before = start.after_entries(entries.drop_last(), existing);
    let entry = entries.last();
    if i < entries.len() - 1 {
        entries_are_found(start, entries.drop_last(), existing, i);
        files_stay(before, file, entry.0, None);
        files_stay(before, file, entry.0, zip_file::readable(entry));
    } else {
        let after = before.after_entry(entry, existing);
        if !before.holds(file) {
            assert(after.files[before.files.len() as int].0 == file);
        }
    }
}

proof fn nested_entries_are_found(
    start: ExtractionModel,
    entries: Seq<(Seq<char>, Option<Option<Seq<u8>>>)>,
    existing: Seq<Seq<char>>,
    i: int,
    nested: Seq<(Seq<char>, Option<Option<Seq<u8>>>)>,
    k: int,
)
    requires
        0 <= i < entries.len(),
        is_package(entries[i].0),
        zip_file::readable(entries[i]) is Some,
        zip_file::zip_entries(zip_file::readable(entries[i])->0) == Some(nested),
        0 <= k < nested.len(),
        is_arm64_library(nested[k].0),
        start.after_packages(entries, existing).complete,
    ensures
        start.after_packages(entries, existing).holds(text::after_last_slash(nested[k].0)),
    decreases entries.len(),
{
    let file = text::after_last_slash(nested[k].0);
    let before = start.after_packages(entries.drop_last(), existing);
    if i < entries.len() - 1 {
        nested_entries_are_found(start, entries.drop_last(), existing, i, nested, k);
        files_stay(before, file, file, None);
        if let Some(content) = zip_file::readable(entries.last()) {
            if let Some(other) = zip_file::zip_entries(content) {
                entries_keep_files(before, other, existing, file);
            }
        }
    } else {
        entries_are_found(before, nested, existing, k);
    }
}

/// An extraction that was not stopped has found every ARM64 library of the archive.
pub proof fn law_extraction_finds_every_library(data: Seq<u8>, existing: Seq<Seq<char>>, i: int)
    ensures
        match zip_file::zip_entries(data) {
            Some(entries) => extraction(data, existing).complete && 0 <= i < entries.len()
                && is_arm64_library(entries[i].0) ==> extraction(data, existing).holds(
                text::after_last_slash(entries[i].0),
            ),
            None => true,
        },
{
    if let Some(entries) = zip_file::zip_entries(data) {
        if extraction(data, existing).complete && 0 <= i < entries.len() && is_arm64_library(
            entries[i].0,
        ) {
            let start = ExtractionModel::empty(true);
            let direct = start.after_entries(entries, existing);
            entries_are_found(start, entries, existing, i);
            packages_keep_files(
                direct,
                entries,
                existing,
                text::after_last_slash(entries[i].0),
            );
        }
    }
}

/// The entries of the nested package at entry `i`, where there is one.
pub open spec fn package_at(
    entries: Seq<(Seq<char>, Option<Option<Seq<u8>>>)>,
    i: int,
) -> Option<Seq<(Seq<char>, Option<Option<Seq<u8>>>)>> {
    if 0 <= i < entries.len() && is_package(entries[i].0) {
        match zip_file::readable(entries[i]) {
            Some(content) => zip_file::zip_entries(content),
            None => None,
        }
    } else {
        None
    }
}

/// An extraction that was not stopped has found every ARM64 library of the packages that are
/// nested in the archive.
pub proof fn law_extraction_finds_every_nested_library(
    data: Seq<u8>,
    existing: Seq<Seq<char>>,
    i: int,
    k: int,
)
    ensures
        match zip_file::zip_entries(data) {
            Some(entries) => match package_at(entries, i) {
                Some(nested) => extraction(data, existing).complete && 0 <= k < nested.len()
                    && is_arm64_library(nested[k].0) ==> extraction(data, existing).holds(
                    text::after_last_slash(nested[k].0),
                ),
                None => true,
            },
            None => true,
        },
{
    if let Some(entries) = zip_file::zip_entries(data) {
        if let Some(nested) = package_at(entries, i) {
            if extraction(data, existing).complete && 0 <= k < nested.len() && is_arm64_library(
                nested[k].0,
            ) {
                let start = ExtractionModel::empty(true);
                let direct = start.after_entries(entries, existing);
                nested_entries_are_found(direct, entries, existing, i, nested, k);
            }
        }
    }
}

} // verus!
