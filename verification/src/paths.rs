//! Paths given as text: the default report location and the parts of a
//! path that the report shows.

use vstd::prelude::*;

verus! {

/// Whether a path, given as text, is absolute.
pub uninterp spec fn absolute_path(path: Seq<char>) -> bool;

/// The last component of a path given as text, if it has one.
pub uninterp spec fn file_name_text(path: Seq<char>) -> Option<Seq<char>>;

/// Whether a path is absolute (`Path::is_absolute`). Trusted: the result is
/// the named property of the path's text; what makes a path absolute is the
/// platform's rule and is not stated here.
#[verifier::external_body]
pub(crate) fn path_is_absolute(path: &str) -> (r: bool)
    ensures
        r == absolute_path(path@),
{
    std::path::Path::new(path).is_absolute()
}

/// The final component of a path (`Path::file_name`), as text. Trusted: the
/// result is the named component of the path's text; the rules by which the
/// standard library splits a path are not stated here.
#[verifier::external_body]
pub(crate) fn path_file_name(path: &str) -> (r: Option<String>)
    ensures
        match r {
            Some(s) => file_name_text(path@) == Some(s@),
            None => file_name_text(path@) is None,
        },
{
    match std::path::Path::new(path).file_name() {
        Some(name) => name.to_str().map(String::from),
        None => None,
    }
}

/// The stem of the final component of a path, given as text.
pub uninterp spec fn file_stem_text(path: Seq<char>) -> Option<Seq<char>>;

/// The path given as text with its final component replaced.
pub uninterp spec fn with_file_name_text(path: Seq<char>, name: Seq<char>) -> Seq<char>;

/// The stem of the final component of a path (`Path::file_stem`), as text.
/// Trusted: the result is the named stem of the path's text; how the
/// standard library finds the stem is not stated here.
#[verifier::external_body]
pub(crate) fn path_file_stem(path: &str) -> (r: Option<String>)
    ensures
        match r {
            Some(s) => file_stem_text(path@) == Some(s@),
            None => file_stem_text(path@) is None,
        },
{
    match std::path::Path::new(path).file_stem() {
        Some(stem) => stem.to_str().map(String::from),
        None => None,
    }
}

/// The path with its final component replaced (`Path::with_file_name`), as
/// text. Trusted: the result is the named replacement applied to the two
/// texts; how the standard library replaces the component is not stated here.
#[verifier::external_body]
pub(crate) fn path_with_file_name(path: &str, name: &str) -> (r: String)
    ensures
        r@ == with_file_name_text(path@, name@),
{
    std::path::Path::new(path).with_file_name(name).to_string_lossy().into_owned()
}

/// The file name of the report for a document with the given stem.
pub open spec fn report_file_name_spec(stem: Option<Seq<char>>) -> Seq<char> {
    let base = match stem {
        Some(s) => s,
        None => "report"@,
    };
    base + ".link-map.html"@
}

/// The file name of the report for a document with the given stem:
/// `<stem>.link-map.html`, or `report.link-map.html` without one.
pub fn report_file_name(stem: Option<&str>) -> (r: String)
    ensures
        r@ == report_file_name_spec(match stem {
            Some(s) => Some(s@),
            None => None,
        }),
{
    let mut name = String::new();
    match stem {
        Some(s) => name.append(s),
        None => name.append("report"),
    }
    name.append(".link-map.html");
    name
}

/// Where the report of a document goes by default: beside the document,
/// named after its stem.
pub fn default_output_path(input: &str) -> (r: String)
    ensures
        r@ == with_file_name_text(input@, report_file_name_spec(file_stem_text(input@))),
{
    let stem = path_file_stem(input);
    let name = match &stem {
        Some(s) => report_file_name(Some(s.as_str())),
        None => report_file_name(None),
    };
    path_with_file_name(input, name.as_str())
}

} // verus!
