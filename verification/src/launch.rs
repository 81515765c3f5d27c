//! How a target is run.
use crate::text;
use vstd::prelude::*;
use vstd::utf8::is_ascii_chars;

verus! {

/// The extension, in lower case, is that of an application package.
pub open spec fn is_package_extension(lower: Seq<char>) -> bool {
    lower == "apk"@ || lower == "apkm"@ || lower == "xapk"@ || lower == "apks"@ || lower == "zip"@
}

/// Is the extension, in lower case, that of an application package?
pub fn names_package_extension(lower: &str) -> (r: bool)
    ensures
        r == is_package_extension(lower@),
{
    text::same_text(lower, "apk") || text::same_text(lower, "apkm") || text::same_text(
        lower,
        "xapk",
    ) || text::same_text(lower, "apks") || text::same_text(lower, "zip")
}

/// Is a file with this extension an application package? Capital letters count as small
/// ones.
pub fn is_archive_extension(extension: &str) -> (r: bool)
    ensures
        r == is_package_extension(text::lowercase(extension@)),
        is_ascii_chars(extension@) ==> r == is_package_extension(
            extension@.map_values(|c: char| text::ascii_lower(c)),
        ),
{
    names_package_extension(text::to_lowercase(extension).as_str())
}

/// How a package is run.
#[derive(Debug, Clone, Copy, PartialEq, Eq, Structural)]
pub enum BundlePath {
    /// It has no native library: its activity is run directly.
    PureJava,
    /// None of its libraries exports `JNI_OnLoad`: the first one is run by itself.
    FirstLibrary,
    /// The libraries that export `JNI_OnLoad` are loaded.
    JniLibraries,
}

/// Chooses how a package is run by the number of its libraries, and of those that export
/// `JNI_OnLoad`.
pub fn bundle_path(libraries: usize, jni_libraries: usize) -> (r: BundlePath)
    ensures
        r == (if libraries == 0 {
            BundlePath::PureJava
        } else if jni_libraries == 0 {
            BundlePath::FirstLibrary
        } else {
            BundlePath::JniLibraries
        }),
{
    if libraries == 0 {
        BundlePath::PureJava
    } else if jni_libraries == 0 {
        BundlePath::FirstLibrary
    } else {
        BundlePath::JniLibraries
    }
}

/// A package is known by one of five extensions, and by no other.
pub proof fn law_five_extensions_are_packages(lower: Seq<char>)
    ensures
        is_package_extension(lower) <==> seq!["apk"@, "apkm"@, "xapk"@, "apks"@, "zip"@].contains(
            lower,
        ),
{
    let all = seq!["apk"@, "apkm"@, "xapk"@, "apks"@, "zip"@];
    assert(all[0] == "apk"@ && all[1] == "apkm"@ && all[2] == "xapk"@ && all[3] == "apks"@ && all[4]
        == "zip"@);
}

/// A package without libraries is run by its activity, one whose libraries all lack `JNI_OnLoad` by
/// its first library, and any other by the libraries that have it.
pub proof fn law_packages_are_run_by_their_libraries(
    libraries: usize,
    jni_libraries: usize,
    path: BundlePath,
)
    requires
        call_ensures(bundle_path, (libraries, jni_libraries), path),
    ensures
        path is PureJava <==> libraries == 0,
        path is FirstLibrary <==> libraries > 0 && jni_libraries == 0,
        path is JniLibraries <==> libraries > 0 && jni_libraries > 0,
{
}

/// An extension of ASCII letters is that of a package where it is one of the five once its capitals
/// have been made small.
pub proof fn law_capital_extensions_count_as_small(extension: &str, r: bool, lower: Seq<char>)
    requires
        call_ensures(is_archive_extension, (extension,), r),
        is_ascii_chars(extension@),
        lower.len() == extension@.len(),
        forall|i: int|
            0 <= i < lower.len() ==> #[trigger] lower[i] as int == (if 65 <= extension@[i] as int <= 90 {
                extension@[i] as int + 32
            } else {
                extension@[i] as int
            }),
    ensures
        r <==> seq!["apk"@, "apkm"@, "xapk"@, "apks"@, "zip"@].contains(lower),
{
    let small = extension@.map_values(|c: char| text::ascii_lower(c));
    assert forall|i: int| 0 <= i < lower.len() implies small[i] == #[trigger] lower[i] by {
        text::law_capitals_become_small(extension@[i]);
    }
    assert(small == lower);
    law_five_extensions_are_packages(lower);
}

} // verus!
