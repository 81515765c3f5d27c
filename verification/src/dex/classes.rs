//! The classes of a `classes.dex` file.
use crate::dex::reader;
use crate::text;
use vstd::prelude::*;

verus! {

/// The classes that a DEX file defines, by type descriptor.
#[derive(Debug)]
pub struct DexInfo {
    pub class_count: usize,
    pub classes: Vec<String>,
    pub activities: Vec<String>,
    pub services: Vec<String>,
}

/// Why a file could not be read as DEX.
#[derive(Debug)]
pub struct DexError {
    pub message: String,
}

/// What `dex::DexReader::from_vec` and the `classes` of its result make of a file: for
/// each class definition the type descriptor of the class, or `None` where the class
/// cannot be read; or else the debug text of the error.
pub uninterp spec fn dex_classes(data: Seq<u8>) -> Result<Seq<Option<Seq<char>>>, Seq<char>>;

/// The type descriptor is that of an activity.
pub open spec fn is_activity(t: Seq<char>) -> bool {
    text::has_suffix(t, "Activity;"@) || text::has_substring(t, "activity"@)
}

/// The type descriptor is that of a service, and not of an activity.
pub open spec fn is_service(t: Seq<char>) -> bool {
    !is_activity(t) && (text::has_suffix(t, "Service;"@) || text::has_substring(t, "service"@))
}

/// The type descriptors of the classes that could be read.
pub open spec fn readable(list: Seq<Option<Seq<char>>>) -> Seq<Seq<char>>
    decreases list.len(),
{
    if list.len() == 0 {
        Seq::empty()
    } else {
        match list.last() {
            Some(t) => readable(list.drop_last()).push(t),
            None => readable(list.drop_last()),
        }
    }
}

impl DexInfo {
    /// The classes of this list, counted and sorted into activities and services.
    pub open spec fn lists(self, classes: Seq<Seq<char>>) -> bool {
        &&& self.class_count == classes.len()
        &&& text::texts(self.classes@) == classes
        &&& text::texts(self.activities@) == classes.filter(|t: Seq<char>| is_activity(t))
        &&& text::texts(self.services@) == classes.filter(|t: Seq<char>| is_service(t))
    }
}

/// Calls `dex::DexReader::from_vec`, `dex::Dex::classes` and, for each class, its
/// `jtype` as text. The result depends on the bytes alone. On the files that are left out the
/// reader panics, or calls itself deeper than the stack may hold.
#[verifier::external_body]
fn read_classes(data: &[u8]) -> (r: Result<Vec<Option<String>>, String>)
    requires
        reader::reader_returns(data@),
    ensures
        match r {
            Ok(list) => dex_classes(data@) == Ok::<Seq<Option<Seq<char>>>, Seq<char>>(
                text::optional_texts(list@),
            ),
            Err(e) => dex_classes(data@) == Err::<Seq<Option<Seq<char>>>, Seq<char>>(e@),
        },
{
    match ::dex::DexReader::from_vec(data.to_vec()) {
        Ok(file) => Ok(
            file.classes().map(|class| class.ok().map(|c| c.jtype().to_string())).collect(),
        ),
        Err(e) => Err(format!("{:?}", e)),
    }
}

/// Filtering a longer prefix: the next element is appended where it passes.
proof fn filter_of_prefix<A>(s: Seq<A>, p: spec_fn(A) -> bool, i: int)
    requires
        0 <= i < s.len(),
    ensures
        s.take(i + 1).filter(p) == (if p(s[i]) {
            s.take(i).filter(p).push(s[i])
        } else {
            s.take(i).filter(p)
        }),
{
    reveal(Seq::filter);
    assert(s.take(i + 1).drop_last() == s.take(i));
}

/// Sorts the classes of a file, as far as they could be read, into activities and
/// services.
pub fn collect_classes(list: &Vec<Option<String>>) -> (r: DexInfo)
    ensures
        r.lists(readable(text::optional_texts(list@))),
{
    let ghost all = text::optional_texts(list@);
    let mut classes: Vec<String> = Vec::new();
    let mut activities: Vec<String> = Vec::new();
    let mut services: Vec<String> = Vec::new();
    let ghost activity = |t: Seq<char>| is_activity(t);
    let ghost service = |t: Seq<char>| is_service(t);
    let mut i: usize = 0;
    proof {
        reveal(Seq::filter);
        assert(all.take(0) == Seq::<Option<Seq<char>>>::empty());
        assert(text::texts(classes@) == Seq::<Seq<char>>::empty());
    }
    while i < list.len()
        invariant
            i <= list.len(),
            all == text::optional_texts(list@),
            activity == (|t: Seq<char>| is_activity(t)),
            service == (|t: Seq<char>| is_service(t)),
            text::texts(classes@) == readable(all.take(i as int)),
            text::texts(activities@) == readable(all.take(i as int)).filter(activity),
            text::texts(services@) == readable(all.take(i as int)).filter(service),
        decreases list.len() - i,
    {
        let ghost before = readable(all.take(i as int));
        assert(all.take(i + 1).drop_last() == all.take(i as int));
        assert(all[i as int] == text::optional_text(list@[i as int]));
        match &list[i] {
            Some(t) => {
                proof {
                    let after = before.push(t@);
                    filter_of_prefix(after, activity, before.len() as int);
                    filter_of_prefix(after, service, before.len() as int);
                    assert(after.take(before.len() as int) == before);
                    assert(after.take(before.len() as int + 1) == after);
                }
                let ghost old_classes = classes@;
                let ghost old_activities = activities@;
                let ghost old_services = services@;
                classes.push(t.clone());
                assert(text::texts(classes@) == text::texts(old_classes).push(t@));
                let descriptor = t.as_str();
                if text::ends_with(descriptor, "Activity;") || text::contains(
                    descriptor,
                    "activity",
                ) {
                    activities.push(t.clone());
                    assert(text::texts(activities@) == text::texts(old_activities).push(t@));
                } else if text::ends_with(descriptor, "Service;") || text::contains(
                    descriptor,
                    "service",
                ) {
                    services.push(t.clone());
                    assert(text::texts(services@) == text::texts(old_services).push(t@));
                }
            },
            None => {},
        }
        i = i + 1;
    }
    assert(all.take(i as int) == all);
    DexInfo { class_count: classes.len(), classes, activities, services }
}

/// Reads the classes of a DEX file.
pub fn parse_dex(data: &[u8]) -> (r: Result<DexInfo, DexError>)
    requires
        reader::reader_returns(data@),
    ensures
        match dex_classes(data@) {
            Ok(list) => r matches Ok(info) && info.lists(readable(list)),
            Err(reason) => r matches Err(e) && e.message@ == "DEX parse error: "@ + reason,
        },
{
    match read_classes(data) {
        Ok(list) => Ok(collect_classes(&list)),
        Err(reason) => {
            let mut message = "DEX parse error: ".to_owned();
            text::append(&mut message, reason.as_str());
            Err(DexError { message })
        },
    }
}

/// Does the file define the class of the main activity that a manifest names?
pub fn defines_main_activity(info: &DexInfo, main_activity: &str) -> (r: bool)
    ensures
        r == exists|i: int|
            0 <= i < info.classes@.len() && #[trigger] text::has_substring(
                info.classes@[i]@,
                text::dots_to_slashes(main_activity@),
            ),
{
    let path = text::replace_dots(main_activity);
    let mut i: usize = 0;
    while i < info.classes.len()
        invariant
            i <= info.classes.len(),
            path@ == text::dots_to_slashes(main_activity@),
            forall|k: int|
                0 <= k < i ==> !#[trigger] text::has_substring(
                    info.classes@[k]@,
                    text::dots_to_slashes(main_activity@),
                ),
        decreases info.classes.len() - i,
    {
        if text::contains(info.classes[i].as_str(), path.as_str()) {
            return true;
        }
        i = i + 1;
    }
    false
}

/// What a filter keeps: the elements that pass, and no others.
proof fn filter_members<A>(s: Seq<A>, p: spec_fn(A) -> bool, x: A)
    ensures
        s.filter(p).contains(x) <==> s.contains(x) && p(x),
    decreases s.len(),
{
    reveal(Seq::filter);
    if s.len() > 0 {
        let short = s.drop_last();
        filter_members(short, p, x);
        let kept = short.filter(p);
        if s.contains(x) {
            let i = choose|i: int| 0 <= i < s.len() && s[i] == x;
            assert(i < short.len() ==> short[i] == x);
        }
        if short.contains(x) {
            let i = choose|i: int| 0 <= i < short.len() && short[i] == x;
            assert(s[i] == x);
        }
        if kept.contains(x) {
            let i = choose|i: int| 0 <= i < kept.len() && kept[i] == x;
            assert(s.filter(p)[i] == x);
        }
        if s.filter(p).contains(x) {
            let i = choose|i: int| 0 <= i < s.filter(p).len() && s.filter(p)[i] == x;
            assert(i < kept.len() ==> kept[i] == x);
        }
        if p(s.last()) {
            assert(s.filter(p)[kept.len() as int] == s.last());
        }
        assert(s[s.len() - 1] == s.last());
    }
}

/// The activities of a file are exactly its classes that are activities, its services those
/// that are services, and no class is listed as both.
pub proof fn law_classes_are_listed_once(classes: Seq<Seq<char>>, t: Seq<char>)
    ensures
        ({
            let activities = classes.filter(|t: Seq<char>| is_activity(t));
            let services = classes.filter(|t: Seq<char>| is_service(t));
            &&& activities.contains(t) <==> classes.contains(t) && is_activity(t)
            &&& services.contains(t) <==> classes.contains(t) && is_service(t)
            &&& !(activities.contains(t) && services.contains(t))
        }),
{
    filter_members(classes, |t: Seq<char>| is_activity(t), t);
    filter_members(classes, |t: Seq<char>| is_service(t), t);
}

/// The activities of a file are its classes, in order, whose descriptor ends with `Activity;` or
/// has `activity` in it. Its services are the others, in order, whose descriptor ends with
/// `Service;` or has `service` in it. All classes are counted, also those that are neither.
pub proof fn law_classes_are_sorted_by_their_descriptors(info: DexInfo, classes: Seq<Seq<char>>)
    requires
        info.lists(classes),
    ensures
        ({
            let activity = |t: Seq<char>|
                "Activity;"@.is_suffix_of(t) || exists|i: int|
                    0 <= i <= t.len() - "activity"@.len() && #[trigger] t.subrange(
                        i,
                        i + "activity"@.len(),
                    ) == "activity"@;
            let service = |t: Seq<char>|
                !activity(t) && ("Service;"@.is_suffix_of(t) || exists|i: int|
                    0 <= i <= t.len() - "service"@.len() && #[trigger] t.subrange(
                        i,
                        i + "service"@.len(),
                    ) == "service"@);
            &&& info.class_count == classes.len()
            &&& text::texts(info.classes@) == classes
            &&& text::texts(info.activities@) == classes.filter(activity)
            &&& text::texts(info.services@) == classes.filter(service)
        }),
{
    let activity = |t: Seq<char>|
        "Activity;"@.is_suffix_of(t) || exists|i: int|
            0 <= i <= t.len() - "activity"@.len() && #[trigger] t.subrange(
                i,
                i + "activity"@.len(),
            ) == "activity"@;
    let service = |t: Seq<char>|
        !activity(t) && ("Service;"@.is_suffix_of(t) || exists|i: int|
            0 <= i <= t.len() - "service"@.len() && #[trigger] t.subrange(
                i,
                i + "service"@.len(),
            ) == "service"@);
    assert forall|t: Seq<char>| is_activity(t) == #[trigger] activity(t) by {
        substring_has_a_place(t, "activity"@);
    }
    assert forall|t: Seq<char>| is_service(t) == #[trigger] service(t) by {
        substring_has_a_place(t, "service"@);
        assert(is_activity(t) == activity(t));
    }
    assert((|t: Seq<char>| is_activity(t)) =~= activity);
    assert((|t: Seq<char>| is_service(t)) =~= service);
}

proof fn substring_has_a_place(t: Seq<char>, pat: Seq<char>)
    ensures
        text::has_substring(t, pat) <==> exists|i: int|
            0 <= i <= t.len() - pat.len() && #[trigger] t.subrange(i, i + pat.len()) == pat,
{
    if text::has_substring(t, pat) {
        let i = choose|i: int| #[trigger] text::occurs_at(t, pat, i);
        assert(t.subrange(i, i + pat.len()) == pat);
    }
    if exists|i: int| 0 <= i <= t.len() - pat.len() && #[trigger] t.subrange(i, i + pat.len()) == pat {
        let i = choose|i: int|
            0 <= i <= t.len() - pat.len() && #[trigger] t.subrange(i, i + pat.len()) == pat;
        assert(text::occurs_at(t, pat, i));
    }
}

/// Classes that cannot be read are left out and the others stay in order: what can be read of two
/// lists is what can be read of the first and then what can be read of the second.
pub proof fn law_readable_classes_stay_in_order(
    first: Seq<Option<Seq<char>>>,
    second: Seq<Option<Seq<char>>>,
    t: Seq<char>,
)
    ensures
        readable(first + second) == readable(first) + readable(second),
        readable(seq![Some(t)]) == seq![t],
        readable(seq![None::<Seq<char>>]).len() == 0,
        readable(Seq::<Option<Seq<char>>>::empty()).len() == 0,
    decreases second.len(),
{
    assert(seq![Some(t)].drop_last() == Seq::<Option<Seq<char>>>::empty());
    assert(seq![None::<Seq<char>>].drop_last() == Seq::<Option<Seq<char>>>::empty());
    assert(readable(Seq::<Option<Seq<char>>>::empty()) == Seq::<Seq<char>>::empty());
    assert(readable(seq![Some(t)]) == seq![t]);
    if second.len() == 0 {
        assert(first + second == first);
        assert(readable(first) + readable(second) == readable(first));
    } else {
        law_readable_classes_stay_in_order(first, second.drop_last(), t);
        assert((first + second).drop_last() == first + second.drop_last());
        let a = readable(first);
        let b = readable(second.drop_last());
        if let Some(u) = second.last() {
            assert((a + b).push(u) == a + b.push(u));
        }
    }
}

/// A file that the reader refuses is refused with its reason; from any other one all classes that
/// can be read are listed.
pub proof fn law_refused_files_are_refused_with_the_reason(data: &[u8], r: Result<DexInfo, DexError>)
    requires
        call_ensures(parse_dex, (data,), r),
    ensures
        dex_classes(data@) matches Err(reason) ==> (r matches Err(e) && e.message@
            == "DEX parse error: "@ + dex_classes(data@)->Err_0),
        dex_classes(data@) matches Ok(list) ==> (r matches Ok(info) && info.lists(
            readable(dex_classes(data@)->Ok_0),
        )),
{
}

} // verus!
