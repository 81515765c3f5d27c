//! Files of an application package: the package itself may be bundled as `base.apk`.
use crate::archive::zip_file;
use crate::archive::zip_file::{named_content, open_archive};
use crate::bytes;
use crate::dex::manifest;
use crate::dex::ManifestInfo;
use vstd::prelude::*;

verus! {

/// A file of the package whose archive has these entries: the one in `base.apk` where that
/// is an archive with such a file, and else the one in the archive itself.
pub open spec fn bundled(
    entries: Seq<(Seq<char>, Option<Option<Seq<u8>>>)>,
    name: Seq<char>,
) -> Option<Seq<u8>> {
    let inner = match zip_file::content_named(entries, "base.apk"@) {
        Some(base) => match zip_file::zip_entries(base) {
            Some(base_entries) => zip_file::content_named(base_entries, name),
            None => None,
        },
        None => None,
    };
    match inner {
        Some(content) => Some(content),
        None => zip_file::content_named(entries, name),
    }
}

/// A file of the package in these bytes.
pub open spec fn package_file(data: Seq<u8>, name: Seq<char>) -> Option<Seq<u8>> {
    match zip_file::zip_entries(data) {
        Some(entries) => bundled(entries, name),
        None => None,
    }
}

/// Takes a file out of a package.
pub fn extract_file(data: Vec<u8>, name: &str) -> (r: Option<Vec<u8>>)
    ensures
        bytes::optional_bytes(r) == package_file(data@, name@),
{
    match open_archive(data) {
        None => None,
        Some(opened) => {
            let mut archive = opened;
            if let Some(base) = named_content(&mut archive, "base.apk") {
                if let Some(nested) = open_archive(base) {
                    let mut base_archive = nested;
                    if let Some(content) = named_content(&mut base_archive, name) {
                        return Some(content);
                    }
                }
            }
            named_content(&mut archive, name)
        },
    }
}

/// Extract `classes.dex` from the main APK archive or nested `base.apk`.
pub fn extract_classes_dex(data: Vec<u8>) -> (r: Option<Vec<u8>>)
    ensures
        bytes::optional_bytes(r) == package_file(data@, "classes.dex"@),
{
    extract_file(data, "classes.dex")
}

/// What the manifest of a package says, where it has one: nothing where it has none, and
/// `None` where the strings of the manifest reach beyond its end.
pub fn read_manifest(content: &Option<Vec<u8>>) -> (r: Option<ManifestInfo>)
    ensures
        match bytes::optional_bytes(*content) {
            Some(b) => if manifest::pool_in_bounds(b) {
                r matches Some(info) && info.describes(b)
            } else {
                r is None
            },
            None => r == Some(
                ManifestInfo { main_activity: None, application_class: None, package_name: None },
            ),
        },
{
    match content {
        Some(b) => {
            if ManifestInfo::can_parse(b.as_slice()) {
                Some(ManifestInfo::parse(b.as_slice()))
            } else {
                None
            }
        },
        None => Some(
            ManifestInfo { main_activity: None, application_class: None, package_name: None },
        ),
    }
}

/// Extract `AndroidManifest.xml` from `base.apk` inside a bundle, or directly from APK, and
/// read it. `None` where the strings of the manifest reach beyond its end.
pub fn extract_manifest(data: Vec<u8>) -> (r: Option<ManifestInfo>)
    ensures
        match package_file(data@, "AndroidManifest.xml"@) {
            Some(b) => if manifest::pool_in_bounds(b) {
                r matches Some(info) && info.describes(b)
            } else {
                r is None
            },
            None => r == Some(
                ManifestInfo { main_activity: None, application_class: None, package_name: None },
            ),
        },
{
    let content = extract_file(data, "AndroidManifest.xml");
    read_manifest(&content)
}

} // verus!
