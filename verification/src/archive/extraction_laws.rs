//! Which files an extraction gives, said of the entries of the archive alone.
use crate::archive::natives;
use crate::archive::natives::ExtractionModel;
use crate::archive::zip_file;
use crate::text;
use vstd::prelude::*;

verus! {

/// The name is that of an ARM64 library: it stands under `lib/arm64-v8a/` and ends with `.so`.
pub open spec fn under_arm64(name: Seq<char>) -> bool {
    "lib/arm64-v8a/"@.is_prefix_of(name) && ".so"@.is_suffix_of(name)
}

/// The name is that of a package: it ends with `.apk` or `.apks`.
pub open spec fn ends_as_package(name: Seq<char>) -> bool {
    ".apk"@.is_suffix_of(name) || ".apks"@.is_suffix_of(name)
}

/// The entries inside an entry: those of the archive that it is, where it is a package.
pub open spec fn inside(
    entry: (Seq<char>, Option<Option<Seq<u8>>>),
) -> Seq<(Seq<char>, Option<Option<Seq<u8>>>)> {
    match entry.1 {
        Some(Some(content)) => if ends_as_package(entry.0) {
            match zip_file::zip_entries(content) {
                Some(nested) => nested,
                None => Seq::empty(),
            }
        } else {
            Seq::empty()
        },
        _ => Seq::empty(),
    }
}

/// The entries inside entries, one entry after the other.
pub open spec fn all_inside(entries: Seq<(Seq<char>, Option<Option<Seq<u8>>>)>) -> Seq<
    (Seq<char>, Option<Option<Seq<u8>>>),
>
    decreases entries.len(),
{
    if entries.len() == 0 {
        Seq::empty()
    } else {
        all_inside(entries.drop_last()) + inside(entries.last())
    }
}

/// The entries where libraries are looked for: those of the archive, then those inside them.
pub open spec fn searched(entries: Seq<(Seq<char>, Option<Option<Seq<u8>>>)>) -> Seq<
    (Seq<char>, Option<Option<Seq<u8>>>),
> {
    entries + all_inside(entries)
}

/// Entry `q` is the first library with its file name.
pub open spec fn is_first_library(
    all: Seq<(Seq<char>, Option<Option<Seq<u8>>>)>,
    q: int,
) -> bool {
    &&& 0 <= q < all.len()
    &&& under_arm64(all[q].0)
    &&& forall|r: int|
        0 <= r < q && under_arm64((#[trigger] all[r]).0) ==> text::after_last_slash(all[r].0)
            != text::after_last_slash(all[q].0)
}

/// The file is named after the entry, and has its content where it is not on disk already.
pub open spec fn is_file_of(
    file: (Seq<char>, Option<Seq<u8>>),
    entry: (Seq<char>, Option<Option<Seq<u8>>>),
    existing: Seq<Seq<char>>,
) -> bool {
    &&& file.0 == text::after_last_slash(entry.0)
    &&& if existing.contains(file.0) {
        file.1 is None
    } else {
        file.1 is Some && entry.1 == Some(file.1)
    }
}

/// The files are those of the entries at the places `places`, in this order, each the first
/// library with its file name.
pub open spec fn drawn_from(
    files: Seq<(Seq<char>, Option<Seq<u8>>)>,
    all: Seq<(Seq<char>, Option<Option<Seq<u8>>>)>,
    existing: Seq<Seq<char>>,
    places: Seq<int>,
) -> bool {
    &&& places.len() == files.len()
    &&& forall|k: int| 0 <= k < places.len() ==> is_first_library(all, #[trigger] places[k])
    &&& forall|k: int|
        0 <= k < places.len() ==> is_file_of(files[k], all[#[trigger] places[k]], existing)
    &&& forall|j: int, k: int|
        0 <= j < k < places.len() ==> #[trigger] places[j] < #[trigger] places[k]
}

/// There is a file for every library among the entries.
pub open spec fn all_held(
    files: Seq<(Seq<char>, Option<Seq<u8>>)>,
    all: Seq<(Seq<char>, Option<Option<Seq<u8>>>)>,
) -> bool {
    forall|q: int|
        0 <= q < all.len() && under_arm64((#[trigger] all[q]).0) ==> exists|k: int|
            0 <= k < files.len() && (#[trigger] files[k]).0 == text::after_last_slash(all[q].0)
}

/// Every entry can be opened, and of the libraries each that is the first with its file name and is
/// not on disk can be read.
pub open spec fn can_be_taken(
    all: Seq<(Seq<char>, Option<Option<Seq<u8>>>)>,
    existing: Seq<Seq<char>>,
) -> bool {
    forall|q: int|
        0 <= q < all.len() ==> (#[trigger] all[q]).1 is Some && (is_first_library(all, q)
            && !existing.contains(text::after_last_slash(all[q].0)) ==> all[q].1 matches Some(
            Some(_),
        ))
}

/// The extraction gives what is found in `all`; `fine` says whether nothing else stopped it.
pub open spec fn gives_files_of(
    e: ExtractionModel,
    all: Seq<(Seq<char>, Option<Option<Seq<u8>>>)>,
    existing: Seq<Seq<char>>,
    fine: bool,
) -> bool {
    &&& exists|places: Seq<int>| #[trigger] drawn_from(e.files, all, existing, places)
    &&& e.complete ==> all_held(e.files, all)
    &&& e.complete <==> fine && can_be_taken(all, existing)
}

/// A library is known by the beginning `lib/arm64-v8a/` and the end `.so` of its name, a package by
/// the end `.apk` or `.apks`, and a file that is on disk by its whole name.
pub proof fn law_names_tell_libraries_and_packages(name: Seq<char>, existing: Seq<Seq<char>>)
    ensures
        natives::is_arm64_library(name) == under_arm64(name),
        natives::is_package(name) == ends_as_package(name),
        natives::listed(existing, name) == existing.contains(name),
{
}

/// Places stay what they are where an entry is added.
proof fn first_stays(
    all: Seq<(Seq<char>, Option<Option<Seq<u8>>>)>,
    entry: (Seq<char>, Option<Option<Seq<u8>>>),
    q: int,
)
    requires
        0 <= q < all.len(),
    ensures
        is_first_library(all.push(entry), q) == is_first_library(all, q),
{
    let more = all.push(entry);
    assert forall|r: int| 0 <= r < all.len() implies more[r] == #[trigger] all[r] by {}
    if is_first_library(all, q) {
        assert forall|r: int| 0 <= r < q && under_arm64((#[trigger] more[r]).0) implies
            text::after_last_slash(more[r].0) != text::after_last_slash(more[q].0) by {
            assert(all[r] == more[r]);
        }
    }
    if is_first_library(more, q) {
        assert forall|r: int| 0 <= r < q && under_arm64((#[trigger] all[r]).0) implies
            text::after_last_slash(all[r].0) != text::after_last_slash(all[q].0) by {
            assert(all[r] == more[r]);
        }
    }
}

proof fn taken_with_one_more(
    all: Seq<(Seq<char>, Option<Option<Seq<u8>>>)>,
    entry: (Seq<char>, Option<Option<Seq<u8>>>),
    existing: Seq<Seq<char>>,
)
    ensures
        can_be_taken(all.push(entry), existing) <==> can_be_taken(all, existing)
            && entry.1 is Some && (is_first_library(all.push(entry), all.len() as int)
            && !existing.contains(text::after_last_slash(entry.0)) ==> entry.1 matches Some(
            Some(_),
        )),
{
    let more = all.push(entry);
    assert(more[all.len() as int] == entry);
    if can_be_taken(more, existing) {
        assert forall|q: int| 0 <= q < all.len() implies (#[trigger] all[q]).1 is Some && (
        is_first_library(all, q) && !existing.contains(text::after_last_slash(all[q].0))
            ==> all[q].1 matches Some(Some(_))) by {
            assert(more[q] == all[q]);
            first_stays(all, entry, q);
        }
    }
    if can_be_taken(all, existing) && entry.1 is Some && (is_first_library(
        more,
        all.len() as int,
    ) && !existing.contains(text::after_last_slash(entry.0)) ==> entry.1 matches Some(Some(_))) {
        assert forall|q: int| 0 <= q < more.len() implies (#[trigger] more[q]).1 is Some && (
        is_first_library(more, q) && !existing.contains(text::after_last_slash(more[q].0))
            ==> more[q].1 matches Some(Some(_))) by {
            if q < all.len() {
                assert(more[q] == all[q]);
                first_stays(all, entry, q);
            }
        }
    }
}

/// The same files are drawn where an entry is added that gives none.
proof fn drawn_with_one_more(
    files: Seq<(Seq<char>, Option<Seq<u8>>)>,
    all: Seq<(Seq<char>, Option<Option<Seq<u8>>>)>,
    entry: (Seq<char>, Option<Option<Seq<u8>>>),
    existing: Seq<Seq<char>>,
    places: Seq<int>,
)
    requires
        drawn_from(files, all, existing, places),
    ensures
        drawn_from(files, all.push(entry), existing, places),
{
    let more = all.push(entry);
    assert forall|k: int| 0 <= k < places.len() implies is_first_library(more, #[trigger] places[k])
        && is_file_of(files[k], more[places[k]], existing) by {
        assert(is_first_library(all, places[k]));
        assert(more[places[k]] == all[places[k]]);
        first_stays(all, entry, places[k]);
    }
}

/// One more entry, where the extraction goes on and where it has stopped.
proof fn one_more_entry(
    e: ExtractionModel,
    all: Seq<(Seq<char>, Option<Option<Seq<u8>>>)>,
    entry: (Seq<char>, Option<Option<Seq<u8>>>),
    existing: Seq<Seq<char>>,
    fine: bool,
)
    requires
        gives_files_of(e, all, existing, fine),
    ensures
        gives_files_of(
            if e.complete {
                e.after_entry(entry, existing)
            } else {
                e
            },
            all.push(entry),
            existing,
            fine,
        ),
{
    let more = all.push(entry);
    let last = all.len() as int;
    let file = text::after_last_slash(entry.0);
    let after = if e.complete {
        e.after_entry(entry, existing)
    } else {
        e
    };
    let places = choose|places: Seq<int>| #[trigger] drawn_from(e.files, all, existing, places);
    law_names_tell_libraries_and_packages(entry.0, existing);
    law_names_tell_libraries_and_packages(file, existing);
    taken_with_one_more(all, entry, existing);
    drawn_with_one_more(e.files, all, entry, existing, places);
    assert(more[last] == entry);
    if e.complete {
        let held = e.holds(file);
        if under_arm64(entry.0) {
            assert(held ==> !is_first_library(more, last)) by {
                if held {
                    let k = choose|k: int| 0 <= k < e.files.len() && (#[trigger] e.files[k]).0
                        == file;
                    assert(is_first_library(all, places[k]));
                    assert(is_file_of(e.files[k], all[places[k]], existing));
                    assert(more[places[k]] == all[places[k]]);
                }
            }
            assert(!held ==> is_first_library(more, last)) by {
                assert forall|r: int|
                    !held && 0 <= r < last && under_arm64((#[trigger] more[r]).0) implies
                    text::after_last_slash(more[r].0) != file by {
                    assert(more[r] == all[r]);
                    let k = choose|k: int|
                        0 <= k < e.files.len() && (#[trigger] e.files[k]).0
                            == text::after_last_slash(all[r].0);
                    assert(e.files[k].0 == text::after_last_slash(all[r].0));
                }
            }
        }
        let wanted = under_arm64(entry.0) && !held;
        let adds = entry.1 is Some && wanted && (existing.contains(file) || (entry.1 matches Some(
            Some(_),
        )));
        if adds {
            let added = after.files[e.files.len() as int];
            assert(after.files == e.files.push(added));
            assert(is_file_of(added, entry, existing));
            let longer = places.push(last);
            assert forall|k: int| 0 <= k < longer.len() implies is_first_library(
                more,
                #[trigger] longer[k],
            ) && is_file_of(after.files[k], more[longer[k]], existing) by {
                if k < places.len() {
                    assert(longer[k] == places[k]);
                    assert(after.files[k] == e.files[k]);
                }
            }
            assert forall|j: int, k: int| 0 <= j < k < longer.len() implies #[trigger] longer[j]
                < #[trigger] longer[k] by {
                assert(longer[j] == places[j]);
                assert(is_first_library(all, places[j]));
            }
            assert(drawn_from(after.files, more, existing, longer));
        } else {
            assert(after.files == e.files);
            assert(drawn_from(after.files, more, existing, places));
        }
        if after.complete {
            assert forall|q: int| 0 <= q < more.len() && under_arm64((#[trigger] more[q]).0) implies
                exists|k: int|
                0 <= k < after.files.len() && (#[trigger] after.files[k]).0
                    == text::after_last_slash(more[q].0) by {
                if q < last {
                    assert(more[q] == all[q]);
                    let k = choose|k: int|
                        0 <= k < e.files.len() && (#[trigger] e.files[k]).0
                            == text::after_last_slash(all[q].0);
                    assert(after.files[k].0 == text::after_last_slash(more[q].0));
                } else if held {
                    let k = choose|k: int| 0 <= k < e.files.len() && (#[trigger] e.files[k]).0
                        == file;
                    assert(after.files[k].0 == file);
                } else {
                    assert(after.files[e.files.len() as int].0 == file);
                }
            }
        }
    }
}

proof fn entries_give_files(
    e: ExtractionModel,
    all: Seq<(Seq<char>, Option<Option<Seq<u8>>>)>,
    entries: Seq<(Seq<char>, Option<Option<Seq<u8>>>)>,
    existing: Seq<Seq<char>>,
    fine: bool,
)
    requires
        gives_files_of(e, all, existing, fine),
    ensures
        gives_files_of(e.after_entries(entries, existing), all + entries, existing, fine),
    decreases entries.len(),
{
    if entries.len() == 0 {
        assert(all + entries == all);
    } else {
        let short = entries.drop_last();
        entries_give_files(e, all, short, existing, fine);
        one_more_entry(
            e.after_entries(short, existing),
            all + short,
            entries.last(),
            existing,
            fine,
        );
        assert((all + short).push(entries.last()) == all + entries);
    }
}

/// Every package among the entries can be read, and every entry can be opened.
pub open spec fn packages_readable(
    entries: Seq<(Seq<char>, Option<Option<Seq<u8>>>)>,
) -> bool {
    forall|i: int|
        0 <= i < entries.len() ==> (#[trigger] entries[i]).1 is Some && (ends_as_package(
            entries[i].0,
        ) ==> entries[i].1 matches Some(Some(_)))
}

proof fn readable_with_one_more(entries: Seq<(Seq<char>, Option<Option<Seq<u8>>>)>)
    requires
        entries.len() > 0,
    ensures
        packages_readable(entries) <==> packages_readable(entries.drop_last())
            && entries.last().1 is Some && (ends_as_package(entries.last().0)
            ==> entries.last().1 matches Some(Some(_))),
{
    let short = entries.drop_last();
    assert forall|i: int| 0 <= i < short.len() implies short[i] == #[trigger] entries[i] by {}
    assert(entries.last() == entries[entries.len() - 1]);
    if packages_readable(entries) {
        assert forall|i: int| 0 <= i < short.len() implies (#[trigger] short[i]).1 is Some && (
        ends_as_package(short[i].0) ==> short[i].1 matches Some(Some(_))) by {
            assert(short[i] == entries[i]);
        }
    }
    if packages_readable(short) && entries.last().1 is Some && (ends_as_package(entries.last().0)
        ==> entries.last().1 matches Some(Some(_))) {
        assert forall|i: int| 0 <= i < entries.len() implies (#[trigger] entries[i]).1 is Some && (
        ends_as_package(entries[i].0) ==> entries[i].1 matches Some(Some(_))) by {
            if i < short.len() {
                assert(short[i] == entries[i]);
            }
        }
    }
}

/// More entries leave the files alone where the extraction has stopped already.
proof fn stopped_gives_files(
    e: ExtractionModel,
    all: Seq<(Seq<char>, Option<Option<Seq<u8>>>)>,
    entries: Seq<(Seq<char>, Option<Option<Seq<u8>>>)>,
    existing: Seq<Seq<char>>,
    fine: bool,
)
    requires
        gives_files_of(e, all, existing, fine),
        !e.complete,
    ensures
        gives_files_of(e, all + entries, existing, fine),
    decreases entries.len(),
{
    if entries.len() == 0 {
        assert(all + entries == all);
    } else {
        let short = entries.drop_last();
        stopped_gives_files(e, all, short, existing, fine);
        one_more_entry(e, all + short, entries.last(), existing, fine);
        assert((all + short).push(entries.last()) == all + entries);
    }
}

proof fn packages_give_files(
    e: ExtractionModel,
    all: Seq<(Seq<char>, Option<Option<Seq<u8>>>)>,
    entries: Seq<(Seq<char>, Option<Option<Seq<u8>>>)>,
    existing: Seq<Seq<char>>,
)
    requires
        gives_files_of(e, all, existing, true),
    ensures
        gives_files_of(
            e.after_packages(entries, existing),
            all + all_inside(entries),
            existing,
            packages_readable(entries),
        ),
    decreases entries.len(),
{
    if entries.len() == 0 {
        assert(all + all_inside(entries) == all);
    } else {
        let short = entries.drop_last();
        let entry = entries.last();
        let so_far = all + all_inside(short);
        let before = e.after_packages(short, existing);
        packages_give_files(e, all, short, existing);
        readable_with_one_more(entries);
        law_names_tell_libraries_and_packages(entry.0, existing);
        assert(so_far + inside(entry) == all + all_inside(entries));
        let fine = packages_readable(short);
        if !before.complete {
            stopped_gives_files(before, so_far, inside(entry), existing, fine);
            assert(gives_files_of(before, so_far + inside(entry), existing, fine));
            if fine {
                assert(!can_be_taken(so_far + inside(entry), existing));
            }
        } else {
            let after = before.after_package(entry, existing);
            if entry.1 is None || ends_as_package(entry.0) && !(entry.1 matches Some(Some(_))) {
                assert(after.files == before.files);
                assert(so_far + inside(entry) == so_far);
            } else if inside(entry).len() == 0 {
                assert(so_far + inside(entry) == so_far);
                assert(after == before);
            } else {
                entries_give_files(before, so_far, inside(entry), existing, fine);
            }
        }
    }
}

proof fn nothing_gives_nothing(existing: Seq<Seq<char>>)
    ensures
        gives_files_of(ExtractionModel::empty(true), Seq::empty(), existing, true),
{
    let e = ExtractionModel::empty(true);
    assert(drawn_from(e.files, Seq::empty(), existing, Seq::<int>::empty()));
}

/// An extraction gives the ARM64 libraries of an archive and of the packages nested in it, and
/// nothing else: each file is named after an entry whose name begins with `lib/arm64-v8a/` and ends
/// with `.so`, has the content of that entry where it is not on disk, and they come in the order of
/// the entries, the first of each name. Nothing is left out where the extraction was not stopped,
/// and it is stopped exactly where an entry, or what has to be read of it, cannot be read.
pub proof fn law_extraction_gives_the_arm64_libraries(data: Seq<u8>, existing: Seq<Seq<char>>)
    ensures
        match zip_file::zip_entries(data) {
            Some(entries) => gives_files_of(
                natives::extraction(data, existing),
                searched(entries),
                existing,
                packages_readable(entries),
            ),
            None => natives::extraction(data, existing).files.len() == 0 && !natives::extraction(
                data,
                existing,
            ).complete,
        },
{
    if let Some(entries) = zip_file::zip_entries(data) {
        let start = ExtractionModel::empty(true);
        nothing_gives_nothing(existing);
        entries_give_files(start, Seq::empty(), entries, existing, true);
        assert(Seq::<(Seq<char>, Option<Option<Seq<u8>>>)>::empty() + entries == entries);
        let direct = start.after_entries(entries, existing);
        if direct.complete {
            packages_give_files(direct, entries, entries, existing);
        } else {
            stopped_gives_files(direct, entries, all_inside(entries), existing, true);
            assert(!can_be_taken(searched(entries), existing));
        }
    }
}

/// Where no entry is an ARM64 library, neither of the archive nor of a package nested in it, there
/// is no file.
pub proof fn law_no_arm64_library_no_file(
    data: Seq<u8>,
    existing: Seq<Seq<char>>,
    entries: Seq<(Seq<char>, Option<Option<Seq<u8>>>)>,
)
    requires
        zip_file::zip_entries(data) == Some(entries),
        forall|i: int| 0 <= i < entries.len() ==> !under_arm64((#[trigger] entries[i]).0),
        forall|i: int|
            0 <= i < all_inside(entries).len() ==> !under_arm64(
                (#[trigger] all_inside(entries)[i]).0,
            ),
    ensures
        natives::extraction(data, existing).files.len() == 0,
{
    law_extraction_gives_the_arm64_libraries(data, existing);
    let files = natives::extraction(data, existing).files;
    let all = searched(entries);
    let places = choose|places: Seq<int>| #[trigger] drawn_from(files, all, existing, places);
    if files.len() > 0 {
        let q = places[0];
        assert(is_first_library(all, q));
        if q < entries.len() {
            assert(all[q] == entries[q]);
        } else {
            assert(all[q] == all_inside(entries)[q - entries.len()]);
        }
    }
}

/// Of an entry that is no library, or whose file has been found, nothing is needed; of another one
/// the name where its file is on disk, and else the content too. Its file is added behind those
/// that were found before.
pub proof fn law_what_is_needed_of_an_entry(
    e: ExtractionModel,
    name: Seq<char>,
    existing: Seq<Seq<char>>,
    content: Option<Seq<u8>>,
    k: int,
)
    ensures
        !under_arm64(name) ==> e.need(name, existing) == natives::Need::Nothing,
        0 <= k < e.files.len() && e.files[k].0 == text::after_last_slash(name) ==> e.need(
            name,
            existing,
        ) == natives::Need::Nothing,
        under_arm64(name) && (forall|i: int|
            0 <= i < e.files.len() ==> (#[trigger] e.files[i]).0 != text::after_last_slash(name))
            ==> e.need(name, existing) == (if existing.contains(text::after_last_slash(name)) {
            natives::Need::Name
        } else {
            natives::Need::Content
        }),
        e.with(name, content).files == e.files.push((text::after_last_slash(name), content)),
        e.with(name, content).complete == e.complete,
{
    law_names_tell_libraries_and_packages(name, existing);
    law_names_tell_libraries_and_packages(text::after_last_slash(name), existing);
}

/// An extraction shows its files, place by place, with their names and what is to be written.
pub proof fn law_extraction_shows_its_files(e: natives::Extraction, i: int)
    ensures
        e@.files.len() == e.files@.len(),
        e@.complete == e.complete,
        0 <= i < e.files@.len() ==> e@.files[i].0 == e.files@[i].name@,
        0 <= i < e.files@.len() && e.files@[i].content is None ==> e@.files[i].1 is None,
        0 <= i < e.files@.len() ==> (e.files@[i].content matches Some(c) ==> e@.files[i].1 == Some(
            c@,
        )),
{
}

/// Only names under `lib/arm64-v8a/` with the end `.so` are told to be libraries, and only names
/// with the end `.apk` or `.apks` to be packages.
pub proof fn law_names_are_told_apart(name: &str, library: bool, package: bool)
    requires
        call_ensures(natives::names_arm64_library, (name,), library),
        call_ensures(natives::names_package, (name,), package),
    ensures
        library == ("lib/arm64-v8a/"@.is_prefix_of(name@) && ".so"@.is_suffix_of(name@)),
        package == (".apk"@.is_suffix_of(name@) || ".apks"@.is_suffix_of(name@)),
{
    law_names_tell_libraries_and_packages(name@, Seq::empty());
}

/// What is extracted from a package is what its entries give.
pub proof fn law_all_arm64_libraries_are_extracted(
    data: Vec<u8>,
    existing: &Vec<String>,
    r: natives::Extraction,
    entries: Seq<(Seq<char>, Option<Option<Seq<u8>>>)>,
)
    requires
        call_ensures(natives::extract_all_native_sos, (data, existing), r),
        zip_file::zip_entries(data@) == Some(entries),
    ensures
        gives_files_of(r@, searched(entries), text::texts(existing@), packages_readable(entries)),
{
    law_extraction_gives_the_arm64_libraries(data@, text::texts(existing@));
}

} // verus!
