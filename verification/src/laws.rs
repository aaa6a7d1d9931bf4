//! Properties of the audit that hold for every document and every report.

use vstd::prelude::*;
use crate::audit::{audit_spec, duplicate_names, encrypted_text, report_links, report_spec, sort_by_name};
use crate::html::{document_href, target_cell};
use crate::report::ReportView;
use crate::resolve::{first_item_page, page_object_count};
use crate::text::{decimal, has_prefix};
use crate::links::{annotation_outcome, annotations_outcome, page_outcome, pages_outcome};
use crate::pdf::{ObjectId, PdfDocument, PdfObject, encrypted_spec};
use crate::policy::{FailOn, policy_fails};
use crate::report::{AuditErrorView, FindingView, HeadingView, LinkKind, LinkStatus, LinkView, Severity, Summary, count_kind, count_severity, count_valid_internal};
use crate::text::{bytes_le, escape_char, escape_html, safe_external};
use crate::audit::{insert_position, name_key, destination_entries, destination_entry, invalid_findings, manifest_findings, heading_findings, report_findings, no_links_findings, empty_pdf_findings, duplicate_finding, names_of, no_links_text};

use crate::resolve::named_destinations;
use crate::report::DestinationView;
use crate::report::summary_of;
use crate::links::internal_view;
use crate::resolve::{destination_page_spec, first_named};
use crate::text::lossy_utf8;
use crate::html::{
    html_spec, map_title, or_else, link_rows, finding_items, PAGE_HEAD, PAGE_STYLE, PAGE_INTRO, PAGE_INPUT_END,
    PAGE_COUNT_END, LINKS_END, VALID_END, EXTERNAL_END, TABLE_HEAD, TABLE_END, PAGE_FOOT, EMPTY_ROWS, NO_FINDINGS,
};
use crate::links::rect_view;

verus! {

/// Every finding is either an error or a warning: the summary's `broken`
/// and `warnings` counts add up to the number of findings.
pub proof fn law_findings_are_errors_or_warnings(fs: Seq<FindingView>)
    ensures
        count_severity(fs, Severity::Error) + count_severity(fs, Severity::Warning) == fs.len(),
    decreases fs.len(),
{
    if fs.len() > 0 {
        law_findings_are_errors_or_warnings(fs.drop_last());
    }
}

/// Every link is internal, external or unsupported, and the valid internal
/// links are among the internal ones.
pub proof fn law_link_kinds_partition_links(ls: Seq<LinkView>)
    ensures
        count_kind(ls, LinkKind::Internal) + count_kind(ls, LinkKind::External) + count_kind(
            ls,
            LinkKind::Unsupported,
        ) == ls.len(),
        count_valid_internal(ls) <= count_kind(ls, LinkKind::Internal),
    decreases ls.len(),
{
    if ls.len() > 0 {
        law_link_kinds_partition_links(ls.drop_last());
    }
}

/// `x` is defined at two different places of `names`.
pub open spec fn defined_twice(names: Seq<Seq<char>>, x: Seq<char>) -> bool {
    exists|i: int, j: int| 0 <= i < j < names.len() && names[i] == x && names[j] == x
}

/// A name is reported as a duplicate exactly when it is defined more than
/// once, and no name is reported twice.
pub proof fn law_duplicates_are_exactly_the_repeated_names(names: Seq<Seq<char>>)
    ensures
        forall|x: Seq<char>| duplicate_names(names).contains(x) <==> defined_twice(names, x),
        duplicate_names(names).no_duplicates(),
    decreases names.len(),
{
    if names.len() > 0 {
        let prev = names.drop_last();
        let last = names.last();
        law_duplicates_are_exactly_the_repeated_names(prev);
        let earlier = duplicate_names(prev);
        let res = duplicate_names(names);
        let pushed = prev.contains(last) && !earlier.contains(last);
        assert(res == if pushed { earlier.push(last) } else { earlier });
        assert forall|x: Seq<char>| res.contains(x) <==> (earlier.contains(x) || (x == last
            && prev.contains(last))) by {
            if pushed {
                if res.contains(x) {
                    let k = choose|k: int| 0 <= k < res.len() && res[k] == x;
                    if k < earlier.len() {
                        assert(earlier[k] == x);
                    }
                }
                if earlier.contains(x) {
                    let k = choose|k: int| 0 <= k < earlier.len() && earlier[k] == x;
                    assert(res[k] == x);
                }
                if x == last {
                    assert(res[res.len() - 1] == x);
                }
            }
        }
        assert forall|x: Seq<char>| defined_twice(names, x) <==> (defined_twice(prev, x) || (x
            == last && prev.contains(x))) by {
            if defined_twice(prev, x) {
                let (i, j) = choose|i: int, j: int|
                    0 <= i < j < prev.len() && prev[i] == x && prev[j] == x;
                assert(names[i] == x && names[j] == x);
            }
            if x == last && prev.contains(x) {
                let i = choose|i: int| 0 <= i < prev.len() && prev[i] == x;
                assert(names[i] == x && names[names.len() - 1] == x);
            }
            if defined_twice(names, x) {
                let (i, j) = choose|i: int, j: int|
                    0 <= i < j < names.len() && names[i] == x && names[j] == x;
                if j < names.len() - 1 {
                    assert(prev[i] == x && prev[j] == x);
                } else {
                    assert(prev[i] == x);
                }
            }
        }
        if pushed {
            assert forall|a: int, b: int| 0 <= a < res.len() && 0 <= b < res.len() && a != b
                implies res[a] != res[b] by {
                if a < earlier.len() && b < earlier.len() {
                } else if a < earlier.len() {
                    assert(earlier.contains(res[a]));
                } else {
                    assert(earlier.contains(res[b]));
                }
            }
        }
    }
}

/// Text escaped for HTML holds none of the characters that open markup or
/// close an attribute.
pub open spec fn markup_free(s: Seq<char>) -> bool {
    forall|i: int| 0 <= i < s.len() ==> s[i] != '<' && s[i] != '>' && s[i] != '"' && s[i] != '\''
}

proof fn lemma_escape_char_markup_free(c: char)
    ensures
        markup_free(escape_char(c)),
{
    reveal_strlit("&amp;");
    reveal_strlit("&lt;");
    reveal_strlit("&gt;");
    reveal_strlit("&quot;");
    reveal_strlit("&#39;");
}

/// Escaped text holds no `<`, `>`, `"` or `'`: whatever a target holds, it
/// cannot open a tag or leave an attribute of the map.
pub proof fn law_escaped_text_is_markup_free(s: Seq<char>)
    ensures
        markup_free(escape_html(s)),
    decreases s.len(),
{
    if s.len() > 0 {
        law_escaped_text_is_markup_free(s.drop_last());
        lemma_escape_char_markup_free(s.last());
        let a = escape_html(s.drop_last());
        let b = escape_char(s.last());
        assert forall|i: int| 0 <= i < (a + b).len() implies (a + b)[i] != '<' && (a + b)[i] != '>'
            && (a + b)[i] != '"' && (a + b)[i] != '\'' by {
            if i < a.len() {
                assert((a + b)[i] == a[i]);
            } else {
                assert((a + b)[i] == b[i - a.len()]);
            }
        }
    }
}

/// Text without `&`, `<`, `>`, `"` and `'` is left as it is by escaping.
pub proof fn law_plain_text_escapes_to_itself(s: Seq<char>)
    requires
        forall|i: int| 0 <= i < s.len() ==> s[i] != '&' && s[i] != '<' && s[i] != '>' && s[i] != '"'
            && s[i] != '\'',
    ensures
        escape_html(s) == s,
    decreases s.len(),
{
    if s.len() > 0 {
        law_plain_text_escapes_to_itself(s.drop_last());
        assert(s.drop_last().push(s.last()) =~= s);
    }
}

/// Failing on any finding is stricter than failing on errors, and `never`
/// never fails.
pub proof fn law_fail_policies_are_ordered(s: Summary)
    ensures
        !policy_fails(FailOn::Never, s),
        policy_fails(FailOn::Broken, s) ==> policy_fails(FailOn::Any, s),
        policy_fails(FailOn::Any, s) <==> s.broken > 0 || s.warnings > 0,
{
}

/// An encrypted document is refused, whatever manifest is given.
pub proof fn law_encrypted_documents_are_refused(
    doc: PdfDocument,
    input: Seq<char>,
    manifest: Option<Result<Seq<HeadingView>, AuditErrorView>>,
)
    requires
        encrypted_spec(doc),
    ensures
        audit_spec(doc, input, manifest) == Err::<crate::report::ReportView, AuditErrorView>(
            AuditErrorView::Pdf(encrypted_text()),
        ),
{
}


/// What a link's status says agrees with its kind and target page: external
/// links and only they are `external`, unsupported actions and only they
/// are `warning`, and a link has a target page exactly when it is `valid`.
pub open spec fn status_agrees(l: LinkView) -> bool {
    &&& (l.kind == LinkKind::External <==> l.status == LinkStatus::External)
    &&& (l.kind == LinkKind::Unsupported <==> l.status == LinkStatus::Warning)
    &&& (l.target_page is Some <==> l.status == LinkStatus::Valid)
}

pub open spec fn all_agree(ls: Seq<LinkView>) -> bool {
    forall|i: int| 0 <= i < ls.len() ==> status_agrees(#[trigger] ls[i])
}

proof fn lemma_all_agree_concat(a: Seq<LinkView>, b: Seq<LinkView>)
    requires
        all_agree(a),
        all_agree(b),
    ensures
        all_agree(a + b),
{
    assert forall|i: int| 0 <= i < (a + b).len() implies status_agrees(#[trigger] (a + b)[i]) by {
        if i < a.len() {
            assert((a + b)[i] == a[i]);
        } else {
            assert((a + b)[i] == b[i - a.len()]);
        }
    }
}

proof fn lemma_annotations_agree(doc: PdfDocument, page: u32, items: Seq<PdfObject>, n: nat)
    ensures
        all_agree(annotations_outcome(doc, page, items, n).links),
    decreases n,
{
    if n > 0 {
        lemma_annotations_agree(doc, page, items, (n - 1) as nat);
        let cur = annotation_outcome(doc, page, (n - 1) as nat, items[n - 1]);
        assert(all_agree(cur.links)) by {
            if cur.links.len() == 1 {
                assert(status_agrees(cur.links[0]));
            }
        }
        lemma_all_agree_concat(annotations_outcome(doc, page, items, (n - 1) as nat).links, cur.links);
    }
}

proof fn lemma_pages_agree(doc: PdfDocument, pages: Seq<(u32, ObjectId)>)
    ensures
        all_agree(pages_outcome(doc, pages).links),
    decreases pages.len(),
{
    if pages.len() > 0 {
        lemma_pages_agree(doc, pages.drop_last());
        let (n, id) = pages.last();
        let cur = page_outcome(doc, n, id);
        assert(all_agree(cur.links)) by {
            match crate::pdf::get_object_spec(doc, id) {
                Ok(o) => match crate::pdf::as_dict_spec(o) {
                    Ok(d) => match crate::pdf::dict_get(d, crate::pdf::key("Annots")) {
                        Some(a) => match crate::pdf::deref_spec(doc, a) {
                            Ok(PdfObject::Array(items)) => {
                                lemma_annotations_agree(doc, n, items@, items@.len());
                            },
                            _ => {},
                        },
                        None => {},
                    },
                    Err(_) => {},
                },
                Err(_) => {},
            }
        }
        lemma_all_agree_concat(pages_outcome(doc, pages.drop_last()).links, cur.links);
    }
}

/// In every report, each link's status agrees with its kind and its target
/// page (see `status_agrees`).
pub proof fn law_link_status_agrees_with_kind(doc: PdfDocument)
    ensures
        all_agree(report_links(doc)),
{
    lemma_pages_agree(doc, doc.pages@);
}

/// An external link whose address is not a web or mail address is shown as
/// escaped text only: the map never makes it clickable, and nothing in it
/// can open markup.
pub proof fn law_unsafe_addresses_are_never_clickable(doc: PdfDocument, input: Seq<char>, i: int)
    requires
        0 <= i < report_links(doc).len(),
        report_links(doc)[i].kind == LinkKind::External,
        !safe_external(report_links(doc)[i].target),
    ensures
        target_cell(report_links(doc)[i], input) == escape_html(report_links(doc)[i].target),
        markup_free(target_cell(report_links(doc)[i], input)),
{
    law_link_status_agrees_with_kind(doc);
    assert(status_agrees(report_links(doc)[i]));
    law_escaped_text_is_markup_free(report_links(doc)[i].target);
}


/// Byte-wise order is total.
pub proof fn law_byte_order_is_total(a: Seq<u8>, b: Seq<u8>)
    ensures
        bytes_le(a, b) || bytes_le(b, a),
    decreases a.len(),
{
    if a.len() > 0 && b.len() > 0 && a[0] == b[0] {
        law_byte_order_is_total(a.drop_first(), b.drop_first());
    }
}

/// Byte-wise order is transitive.
pub proof fn law_byte_order_is_transitive(a: Seq<u8>, b: Seq<u8>, c: Seq<u8>)
    requires
        bytes_le(a, b),
        bytes_le(b, c),
    ensures
        bytes_le(a, c),
    decreases a.len(),
{
    if a.len() > 0 && a[0] == b[0] && b[0] == c[0] {
        law_byte_order_is_transitive(a.drop_first(), b.drop_first(), c.drop_first());
    }
}

/// Destinations are in non-decreasing order of their names' bytes.
pub open spec fn sorted_by_name(s: Seq<DestinationView>) -> bool {
    forall|i: int, j: int| 0 <= i < j < s.len() ==> bytes_le(name_key(s[i]), name_key(s[j]))
}

proof fn lemma_insert_position(r: Seq<DestinationView>, x: DestinationView)
    ensures
        insert_position(r, x) <= r.len(),
        forall|k: int| 0 <= k < insert_position(r, x) ==> bytes_le(name_key(r[k]), name_key(x)),
        insert_position(r, x) < r.len() ==> !bytes_le(name_key(r[insert_position(r, x) as int]), name_key(x)),
    decreases r.len(),
{
    if r.len() > 0 && bytes_le(name_key(r[0]), name_key(x)) {
        lemma_insert_position(r.drop_first(), x);
        assert forall|k: int| 0 <= k < insert_position(r, x) implies bytes_le(name_key(r[k]), name_key(x)) by {
            if k > 0 {
                assert(r[k] == r.drop_first()[k - 1]);
            }
        }
    }
}

/// The destinations of a report come sorted by name, and they are exactly
/// the recorded destinations, reordered.
pub proof fn law_destinations_are_sorted_by_name(s: Seq<DestinationView>)
    ensures
        sorted_by_name(sort_by_name(s)),
        sort_by_name(s).to_multiset() == s.to_multiset(),
    decreases s.len(),
{
    if s.len() > 0 {
        let r = sort_by_name(s.drop_last());
        let x = s.last();
        law_destinations_are_sorted_by_name(s.drop_last());
        lemma_insert_position(r, x);
        let p = insert_position(r, x) as int;
        let out = r.insert(p, x);
        assert(sort_by_name(s) == out);
        assert forall|i: int, j: int| 0 <= i < j < out.len() implies bytes_le(name_key(out[i]), name_key(out[j])) by {
            if j < p {
                assert(out[i] == r[i] && out[j] == r[j]);
            } else if j == p {
                assert(out[i] == r[i] && out[j] == x);
            } else if i == p {
                assert(out[j] == r[j - 1]);
                law_byte_order_is_total(name_key(r[p]), name_key(x));
                if j - 1 > p {
                    law_byte_order_is_transitive(name_key(x), name_key(r[p]), name_key(r[j - 1]));
                }
            } else if i < p {
                assert(out[i] == r[i] && out[j] == r[j - 1]);
            } else {
                assert(out[i] == r[i - 1] && out[j] == r[j - 1]);
            }
        }
        vstd::seq_lib::to_multiset_insert(r, p, x);
        vstd::seq_lib::to_multiset_build(s.drop_last(), x);
        assert(s.drop_last().push(x) =~= s);
    }
}


/// Every destination of a report is marked valid exactly when it resolves
/// to a page.
pub proof fn law_destination_valid_iff_resolved(doc: PdfDocument)
    ensures
        forall|i: int| 0 <= i < sort_by_name(destination_entries(doc)).len() ==> (#[trigger] sort_by_name(
            destination_entries(doc),
        )[i]).valid == (sort_by_name(destination_entries(doc))[i].page is Some),
{
    let entries = destination_entries(doc);
    let out = sort_by_name(entries);
    law_destinations_are_sorted_by_name(entries);
    assert forall|i: int| 0 <= i < out.len() implies (#[trigger] out[i]).valid == (out[i].page is Some) by {
        vstd::seq_lib::to_multiset_contains(out, out[i]);
        vstd::seq_lib::to_multiset_contains(entries, out[i]);
        assert(out.contains(out[i]));
        let k = choose|k: int| 0 <= k < entries.len() && entries[k] == out[i];
        assert(entries[k] == destination_entry(doc, named_destinations(doc)[k]));
    }
}

/// No finding of the list has the given code.
pub open spec fn codes_avoid(fs: Seq<FindingView>, code: Seq<char>) -> bool {
    forall|i: int| 0 <= i < fs.len() ==> (#[trigger] fs[i]).code != code
}

proof fn lemma_codes_avoid_concat(a: Seq<FindingView>, b: Seq<FindingView>, code: Seq<char>)
    requires
        codes_avoid(a, code),
        codes_avoid(b, code),
    ensures
        codes_avoid(a + b, code),
{
    assert forall|i: int| 0 <= i < (a + b).len() implies (#[trigger] (a + b)[i]).code != code by {
        if i < a.len() {
            assert((a + b)[i] == a[i]);
        } else {
            assert((a + b)[i] == b[i - a.len()]);
        }
    }
}

/// A code that none of the duplicate, destination, page, link and manifest
/// findings carries.
pub open spec fn foreign_code(c: Seq<char>) -> bool {
    &&& c != "duplicate_destination"@
    &&& c != "invalid_destination"@
    &&& c != "malformed_page"@
    &&& c != "malformed_annotations"@
    &&& c != "broken_link"@
    &&& c != "unsupported_link"@
    &&& c != "missing_manifest_anchor"@
    &&& c != "manifest_page_mismatch"@
}

proof fn lemma_codes_differ()
    ensures
        foreign_code("no_links"@),
        foreign_code("empty_pdf"@),
        "no_links"@ != "empty_pdf"@,
{
    reveal_strlit("no_links");
    reveal_strlit("empty_pdf");
    reveal_strlit("duplicate_destination");
    reveal_strlit("invalid_destination");
    reveal_strlit("malformed_page");
    reveal_strlit("malformed_annotations");
    reveal_strlit("broken_link");
    reveal_strlit("unsupported_link");
    reveal_strlit("missing_manifest_anchor");
    reveal_strlit("manifest_page_mismatch");
    assert("no_links"@.len() == 8);
    assert("empty_pdf"@.len() == 9);
    assert("duplicate_destination"@.len() == 21);
    assert("invalid_destination"@.len() == 19);
    assert("malformed_page"@.len() == 14);
    assert("malformed_annotations"@.len() == 21);
    assert("broken_link"@.len() == 11);
    assert("unsupported_link"@.len() == 16);
    assert("missing_manifest_anchor"@.len() == 23);
    assert("manifest_page_mismatch"@.len() == 22);
}

proof fn lemma_invalid_avoid(doc: PdfDocument, pairs: Seq<(Seq<char>, PdfObject)>, c: Seq<char>)
    requires
        foreign_code(c),
    ensures
        codes_avoid(invalid_findings(doc, pairs), c),
    decreases pairs.len(),
{
    if pairs.len() > 0 {
        lemma_invalid_avoid(doc, pairs.drop_last(), c);
        let e = invalid_findings(doc, pairs.drop_last());
        assert forall|i: int| 0 <= i < invalid_findings(doc, pairs).len() implies (#[trigger] invalid_findings(doc, pairs)[i]).code != c by {
            if i < e.len() {
                assert(invalid_findings(doc, pairs)[i] == e[i]);
            }
        }
    }
}

proof fn lemma_annotations_avoid(doc: PdfDocument, page: u32, items: Seq<PdfObject>, n: nat, c: Seq<char>)
    requires
        foreign_code(c),
    ensures
        codes_avoid(annotations_outcome(doc, page, items, n).findings, c),
    decreases n,
{
    if n > 0 {
        lemma_annotations_avoid(doc, page, items, (n - 1) as nat, c);
        let cur = annotation_outcome(doc, page, (n - 1) as nat, items[n - 1]);
        assert(codes_avoid(cur.findings, c)) by {
            if cur.findings.len() == 1 {
                assert(cur.findings[0].code != c);
            }
        }
        lemma_codes_avoid_concat(annotations_outcome(doc, page, items, (n - 1) as nat).findings, cur.findings, c);
    }
}

proof fn lemma_pages_avoid(doc: PdfDocument, pages: Seq<(u32, ObjectId)>, c: Seq<char>)
    requires
        foreign_code(c),
    ensures
        codes_avoid(pages_outcome(doc, pages).findings, c),
    decreases pages.len(),
{
    if pages.len() > 0 {
        lemma_pages_avoid(doc, pages.drop_last(), c);
        let (n, id) = pages.last();
        let cur = page_outcome(doc, n, id);
        assert(codes_avoid(cur.findings, c)) by {
            match crate::pdf::get_object_spec(doc, id) {
                Ok(o) => match crate::pdf::as_dict_spec(o) {
                    Ok(d) => match crate::pdf::dict_get(d, crate::pdf::key("Annots")) {
                        Some(a) => match crate::pdf::deref_spec(doc, a) {
                            Ok(PdfObject::Array(items)) => {
                                lemma_annotations_avoid(doc, n, items@, items@.len(), c);
                            },
                            _ => {},
                        },
                        None => {},
                    },
                    Err(_) => {},
                },
                Err(_) => {},
            }
        }
        lemma_codes_avoid_concat(pages_outcome(doc, pages.drop_last()).findings, cur.findings, c);
    }
}

proof fn lemma_manifest_avoid(doc: PdfDocument, hs: Seq<HeadingView>, c: Seq<char>)
    requires
        foreign_code(c),
    ensures
        codes_avoid(manifest_findings(doc, hs), c),
    decreases hs.len(),
{
    if hs.len() > 0 {
        lemma_manifest_avoid(doc, hs.drop_last(), c);
        let cur = heading_findings(doc, hs.last());
        assert(codes_avoid(cur, c)) by {
            if cur.len() == 1 {
                assert(cur[0].code != c);
            }
        }
        lemma_codes_avoid_concat(manifest_findings(doc, hs.drop_last()), cur, c);
    }
}

/// A report ends with the `no_links` finding when the document has no link
/// annotations, and has no such finding otherwise.
pub proof fn law_no_links_finding_exactly_when_no_links(doc: PdfDocument, headings: Option<Seq<HeadingView>>)
    ensures
        report_links(doc).len() == 0 ==> report_findings(doc, headings).last() == (FindingView {
            code: "no_links"@,
            severity: Severity::Warning,
            message: no_links_text(),
        }),
        report_links(doc).len() > 0 ==> codes_avoid(report_findings(doc, headings), "no_links"@),
{
    lemma_codes_differ();
    let pairs = named_destinations(doc);
    let e = empty_pdf_findings(doc);
    let d = duplicate_names(names_of(pairs)).map_values(|n: Seq<char>| duplicate_finding(n));
    let v = invalid_findings(doc, pairs);
    let p = pages_outcome(doc, doc.pages@).findings;
    assert(codes_avoid(e, "no_links"@));
    assert(codes_avoid(d, "no_links"@));
    lemma_invalid_avoid(doc, pairs, "no_links"@);
    lemma_pages_avoid(doc, doc.pages@, "no_links"@);
    lemma_codes_avoid_concat(e, d, "no_links"@);
    lemma_codes_avoid_concat(e + d, v, "no_links"@);
    lemma_codes_avoid_concat(e + d + v, p, "no_links"@);
    let base = e + d + v + p;
    let checked = match headings {
        Some(hs) => base + manifest_findings(doc, hs),
        None => base,
    };
    match headings {
        Some(hs) => {
            lemma_manifest_avoid(doc, hs, "no_links"@);
            lemma_codes_avoid_concat(base, manifest_findings(doc, hs), "no_links"@);
        },
        None => {},
    }
    assert(report_findings(doc, headings) == checked + no_links_findings(report_links(doc)));
    if report_links(doc).len() > 0 {
        assert(checked + no_links_findings(report_links(doc)) =~= checked);
    }
}


/// The summary of a report agrees with its lists: it counts every link,
/// splits the findings into errors and warnings, and counts the internal
/// and external links among all links and the valid internal links among
/// the internal ones.
pub proof fn law_report_summary_is_consistent(
    doc: PdfDocument,
    input: Seq<char>,
    headings: Option<Seq<HeadingView>>,
)
    requires
        report_links(doc).len() <= usize::MAX,
        report_findings(doc, headings).len() <= usize::MAX,
    ensures
        report_spec(doc, input, headings).summary.total_links == report_spec(doc, input, headings).links.len(),
        report_spec(doc, input, headings).summary.broken + report_spec(doc, input, headings).summary.warnings
            == report_spec(doc, input, headings).findings.len(),
        report_spec(doc, input, headings).summary.internal_links + report_spec(doc, input, headings).summary.external_links
            <= report_spec(doc, input, headings).summary.total_links,
        report_spec(doc, input, headings).summary.valid_internal <= report_spec(doc, input, headings).summary.internal_links,
{
    law_findings_are_errors_or_warnings(report_findings(doc, headings));
    law_link_kinds_partition_links(report_links(doc));
}


/// A report begins with the `empty_pdf` finding when the document has no
/// pages, and has no such finding otherwise.
pub proof fn law_empty_pdf_finding_exactly_when_no_pages(doc: PdfDocument, headings: Option<Seq<HeadingView>>)
    ensures
        doc.pages@.len() == 0 ==> report_findings(doc, headings)[0] == (FindingView {
            code: "empty_pdf"@,
            severity: Severity::Warning,
            message: "The PDF has no pages."@,
        }),
        doc.pages@.len() > 0 ==> codes_avoid(report_findings(doc, headings), "empty_pdf"@),
{
    lemma_codes_differ();
    let c = "empty_pdf"@;
    let pairs = named_destinations(doc);
    let e = empty_pdf_findings(doc);
    let d = duplicate_names(names_of(pairs)).map_values(|n: Seq<char>| duplicate_finding(n));
    let v = invalid_findings(doc, pairs);
    let p = pages_outcome(doc, doc.pages@).findings;
    let base = e + d + v + p;
    let checked = match headings {
        Some(hs) => base + manifest_findings(doc, hs),
        None => base,
    };
    let all = checked + no_links_findings(report_links(doc));
    assert(report_findings(doc, headings) == all);
    if doc.pages@.len() == 0 {
        assert(all[0] == e[0]);
    } else {
        assert(e =~= Seq::<FindingView>::empty());
        assert(codes_avoid(d, c));
        lemma_invalid_avoid(doc, pairs, c);
        lemma_pages_avoid(doc, doc.pages@, c);
        lemma_codes_avoid_concat(e, d, c);
        lemma_codes_avoid_concat(e + d, v, c);
        lemma_codes_avoid_concat(e + d + v, p, c);
        match headings {
            Some(hs) => {
                lemma_manifest_avoid(doc, hs, c);
                lemma_codes_avoid_concat(base, manifest_findings(doc, hs), c);
            },
            None => {},
        }
        assert(codes_avoid(no_links_findings(report_links(doc)), c));
        lemma_codes_avoid_concat(checked, no_links_findings(report_links(doc)), c);
    }
}


/// Every occurrence of `c` in `s` replaced by `r` (what `str::replace`
/// does with a single-character pattern).
pub open spec fn replace_char(s: Seq<char>, c: char, r: Seq<char>) -> Seq<char>
    decreases s.len(),
{
    if s.len() == 0 {
        Seq::empty()
    } else {
        replace_char(s.drop_last(), c, r) + if s.last() == c {
            r
        } else {
            seq![s.last()]
        }
    }
}

proof fn lemma_replace_concat(a: Seq<char>, b: Seq<char>, c: char, r: Seq<char>)
    ensures
        replace_char(a + b, c, r) == replace_char(a, c, r) + replace_char(b, c, r),
    decreases b.len(),
{
    if b.len() == 0 {
        assert(a + b =~= a);
        assert(replace_char(a, c, r) + replace_char(b, c, r) =~= replace_char(a, c, r));
    } else {
        lemma_replace_concat(a, b.drop_last(), c, r);
        assert((a + b).drop_last() =~= a + b.drop_last());
        assert((a + b).last() == b.last());
        let tail = if b.last() == c { r } else { seq![b.last()] };
        assert(replace_char(a + b, c, r) == replace_char(a + b.drop_last(), c, r) + tail);
        assert(replace_char(b, c, r) == replace_char(b.drop_last(), c, r) + tail);
        assert(replace_char(a, c, r) + replace_char(b.drop_last(), c, r) + tail =~= replace_char(a, c, r) + (
        replace_char(b.drop_last(), c, r) + tail));
    }
}

proof fn lemma_replace_absent(s: Seq<char>, c: char, r: Seq<char>)
    requires
        !s.contains(c),
    ensures
        replace_char(s, c, r) == s,
    decreases s.len(),
{
    if s.len() > 0 {
        assert(!s.drop_last().contains(c)) by {
            if s.drop_last().contains(c) {
                let i = choose|i: int| 0 <= i < s.drop_last().len() && s.drop_last()[i] == c;
                assert(s[i] == c);
            }
        }
        lemma_replace_absent(s.drop_last(), c, r);
        assert(s[s.len() - 1] != c);
        assert(s.drop_last() + seq![s.last()] =~= s);
    }
}

/// The chain of replacements that escapes `&` first, then `<`, `>`, `"` and `'`.
pub open spec fn replace_chain(s: Seq<char>) -> Seq<char> {
    replace_char(
        replace_char(
            replace_char(replace_char(replace_char(s, '&', "&amp;"@), '<', "&lt;"@), '>', "&gt;"@),
            '"',
            "&quot;"@,
        ),
        '\'',
        "&#39;"@,
    )
}

proof fn lemma_chain_concat(a: Seq<char>, b: Seq<char>)
    ensures
        replace_chain(a + b) == replace_chain(a) + replace_chain(b),
{
    lemma_replace_concat(a, b, '&', "&amp;"@);
    let a1 = replace_char(a, '&', "&amp;"@);
    let b1 = replace_char(b, '&', "&amp;"@);
    lemma_replace_concat(a1, b1, '<', "&lt;"@);
    let a2 = replace_char(a1, '<', "&lt;"@);
    let b2 = replace_char(b1, '<', "&lt;"@);
    lemma_replace_concat(a2, b2, '>', "&gt;"@);
    let a3 = replace_char(a2, '>', "&gt;"@);
    let b3 = replace_char(b2, '>', "&gt;"@);
    lemma_replace_concat(a3, b3, '"', "&quot;"@);
    let a4 = replace_char(a3, '"', "&quot;"@);
    let b4 = replace_char(b3, '"', "&quot;"@);
    lemma_replace_concat(a4, b4, '\'', "&#39;"@);
}

proof fn lemma_replace_one(x: char, c: char, r: Seq<char>)
    ensures
        replace_char(seq![x], c, r) == if x == c { r } else { seq![x] },
{
    assert(seq![x].drop_last() =~= Seq::<char>::empty());
    assert(replace_char(Seq::<char>::empty(), c, r) =~= Seq::<char>::empty());
    assert(Seq::<char>::empty() + (if x == c { r } else { seq![x] }) =~= (if x == c { r } else { seq![x] }));
}

proof fn lemma_chain_one(x: char)
    ensures
        replace_chain(seq![x]) == escape_char(x),
{
    reveal_strlit("&amp;");
    reveal_strlit("&lt;");
    reveal_strlit("&gt;");
    reveal_strlit("&quot;");
    reveal_strlit("&#39;");
    let amp = "&amp;"@;
    let lt = "&lt;"@;
    let gt = "&gt;"@;
    let quot = "&quot;"@;
    let apos = "&#39;"@;
    lemma_replace_one(x, '&', amp);
    let s1 = replace_char(seq![x], '&', amp);
    if x == '&' {
        assert(!amp.contains('<')) by { if amp.contains('<') { let i = choose|i: int| 0 <= i < amp.len() && amp[i] == '<'; } }
        assert(!amp.contains('>')) by { if amp.contains('>') { let i = choose|i: int| 0 <= i < amp.len() && amp[i] == '>'; } }
        assert(!amp.contains('"')) by { if amp.contains('"') { let i = choose|i: int| 0 <= i < amp.len() && amp[i] == '"'; } }
        assert(!amp.contains('\'')) by { if amp.contains('\'') { let i = choose|i: int| 0 <= i < amp.len() && amp[i] == '\''; } }
        lemma_replace_absent(amp, '<', lt);
        lemma_replace_absent(amp, '>', gt);
        lemma_replace_absent(amp, '"', quot);
        lemma_replace_absent(amp, '\'', apos);
    } else {
        lemma_replace_one(x, '<', lt);
        if x == '<' {
            assert(!lt.contains('>')) by { if lt.contains('>') { let i = choose|i: int| 0 <= i < lt.len() && lt[i] == '>'; } }
            assert(!lt.contains('"')) by { if lt.contains('"') { let i = choose|i: int| 0 <= i < lt.len() && lt[i] == '"'; } }
            assert(!lt.contains('\'')) by { if lt.contains('\'') { let i = choose|i: int| 0 <= i < lt.len() && lt[i] == '\''; } }
            lemma_replace_absent(lt, '>', gt);
            lemma_replace_absent(lt, '"', quot);
            lemma_replace_absent(lt, '\'', apos);
        } else {
            lemma_replace_one(x, '>', gt);
            if x == '>' {
                assert(!gt.contains('"')) by { if gt.contains('"') { let i = choose|i: int| 0 <= i < gt.len() && gt[i] == '"'; } }
                assert(!gt.contains('\'')) by { if gt.contains('\'') { let i = choose|i: int| 0 <= i < gt.len() && gt[i] == '\''; } }
                lemma_replace_absent(gt, '"', quot);
                lemma_replace_absent(gt, '\'', apos);
            } else {
                lemma_replace_one(x, '"', quot);
                if x == '"' {
                    assert(!quot.contains('\'')) by { if quot.contains('\'') { let i = choose|i: int| 0 <= i < quot.len() && quot[i] == '\''; } }
                    lemma_replace_absent(quot, '\'', apos);
                } else {
                    lemma_replace_one(x, '\'', apos);
                }
            }
        }
    }
}

/// Escaping character by character gives the same text as replacing `&`,
/// then `<`, `>`, `"` and `'` in five passes over the whole text.
pub proof fn law_escaping_is_the_replacement_chain(s: Seq<char>)
    ensures
        escape_html(s) == replace_chain(s),
    decreases s.len(),
{
    if s.len() == 0 {
        assert(replace_char(s, '&', "&amp;"@) =~= s);
        assert(replace_char(s, '<', "&lt;"@) =~= s);
        assert(replace_char(s, '>', "&gt;"@) =~= s);
        assert(replace_char(s, '"', "&quot;"@) =~= s);
        assert(replace_char(s, '\'', "&#39;"@) =~= s);
    } else {
        law_escaping_is_the_replacement_chain(s.drop_last());
        assert(s.drop_last() + seq![s.last()] =~= s);
        lemma_chain_concat(s.drop_last(), seq![s.last()]);
        lemma_chain_one(s.last());
    }
}


/// A destination cell that makes a web or mail address clickable.
pub open spec fn address_anchor(target: Seq<char>) -> Seq<char> {
    "<a href=\""@ + escape_html(target) + "\" rel=\"noreferrer\">"@ + escape_html(target) + "</a>"@
}

/// A destination cell that links to a page of the audited document itself.
pub open spec fn page_anchor(input: Seq<char>, p: u32) -> Seq<char> {
    "<a href=\""@ + escape_html(document_href(input)) + "#page="@ + decimal(p as nat) + "\">page "@
        + decimal(p as nat) + "</a>"@
}

/// In the map of any report, however it was made, the destination cell of
/// each link is escaped text without markup, or a link to the link's own
/// address when that is a web or mail address, or a link to a page of the
/// audited document: no other address is ever made clickable.
pub proof fn law_only_safe_addresses_and_the_document_are_linked(r: ReportView, i: int)
    requires
        0 <= i < r.links.len(),
    ensures
        ({
            let l = r.links[i];
            let cell = target_cell(l, r.input);
            ||| (cell == escape_html(l.target) && markup_free(cell))
            ||| (l.kind == LinkKind::External && safe_external(l.target) && cell == address_anchor(l.target))
            ||| (exists|p: u32| l.target_page == Some(p) && cell == page_anchor(r.input, p))
        }),
{
    let l = r.links[i];
    law_escaped_text_is_markup_free(l.target);
    if !(l.kind == LinkKind::External && safe_external(l.target)) {
        match l.target_page {
            Some(p) => {
                assert(target_cell(l, r.input) == page_anchor(r.input, p));
            },
            None => {},
        }
    }
}

/// A zero-based page index designates page `index + 1` exactly when it is
/// below the number of page objects (and that number fits in 32 bits), and
/// no page otherwise: an index is never wrapped or truncated into range.
pub proof fn law_page_index_resolves_only_within_the_document(doc: PdfDocument, i: i64)
    ensures
        first_item_page(doc, PdfObject::Integer(i)) is Some <==> (0 <= i && i < page_object_count(doc)
            && i < u32::MAX),
        first_item_page(doc, PdfObject::Integer(i)) matches Some(p) ==> p == i + 1 && 1 <= p
            <= page_object_count(doc),
{
}


/// The entity that stands for `&`.
pub open spec fn amp_entity() -> Seq<char> {
    seq!['&', 'a', 'm', 'p', ';']
}

/// The entity that stands for `<`.
pub open spec fn lt_entity() -> Seq<char> {
    seq!['&', 'l', 't', ';']
}

/// The entity that stands for `>`.
pub open spec fn gt_entity() -> Seq<char> {
    seq!['&', 'g', 't', ';']
}

/// The entity that stands for `"`.
pub open spec fn quot_entity() -> Seq<char> {
    seq!['&', 'q', 'u', 'o', 't', ';']
}

/// The entity that stands for `'`.
pub open spec fn apos_entity() -> Seq<char> {
    seq!['&', '#', '3', '9', ';']
}

/// Decodes the five entities that escaping writes, in one pass from left
/// to right; any other character is kept.
pub open spec fn unescape_html(s: Seq<char>) -> Seq<char>
    decreases s.len(),
{
    if s.len() == 0 {
        Seq::empty()
    } else if has_prefix(s, amp_entity()) {
        seq!['&'] + unescape_html(s.skip(5))
    } else if has_prefix(s, lt_entity()) {
        seq!['<'] + unescape_html(s.skip(4))
    } else if has_prefix(s, gt_entity()) {
        seq!['>'] + unescape_html(s.skip(4))
    } else if has_prefix(s, quot_entity()) {
        seq!['"'] + unescape_html(s.skip(6))
    } else if has_prefix(s, apos_entity()) {
        seq!['\''] + unescape_html(s.skip(5))
    } else {
        seq![s[0]] + unescape_html(s.skip(1))
    }
}

proof fn lemma_escape_front(c: char, s: Seq<char>)
    ensures
        escape_html(seq![c] + s) == escape_char(c) + escape_html(s),
    decreases s.len(),
{
    if s.len() == 0 {
        assert(seq![c] + s =~= seq![c]);
        assert(seq![c].drop_last() =~= Seq::<char>::empty());
        assert(seq![c].last() == c);
        assert(escape_html(Seq::<char>::empty()) =~= Seq::<char>::empty());
        assert(escape_html(seq![c]) == escape_html(seq![c].drop_last()) + escape_char(c));
        assert(Seq::<char>::empty() + escape_char(c) =~= escape_char(c));
        assert(escape_html(seq![c]) =~= escape_char(c));
        assert(escape_char(c) + escape_html(s) =~= escape_char(c));
    } else {
        lemma_escape_front(c, s.drop_last());
        assert((seq![c] + s).drop_last() =~= seq![c] + s.drop_last());
        assert((seq![c] + s).last() == s.last());
        assert(escape_char(c) + escape_html(s.drop_last()) + escape_char(s.last()) =~= escape_char(c) + (
        escape_html(s.drop_last()) + escape_char(s.last())));
    }
}

proof fn lemma_unescape_entity(e: Seq<char>, c: char, x: Seq<char>)
    requires
        e.len() > 0,
        unescape_html(e + x) == seq![c] + unescape_html((e + x).skip(e.len() as int)),
    ensures
        unescape_html(e + x) == seq![c] + unescape_html(x),
{
    assert((e + x).skip(e.len() as int) =~= x);
}

proof fn lemma_unescape_one(c: char, x: Seq<char>)
    ensures
        unescape_html(escape_char(c) + x) == seq![c] + unescape_html(x),
{
    reveal_strlit("&amp;");
    reveal_strlit("&lt;");
    reveal_strlit("&gt;");
    reveal_strlit("&quot;");
    reveal_strlit("&#39;");
    assert("&amp;"@ =~= amp_entity());
    assert("&lt;"@ =~= lt_entity());
    assert("&gt;"@ =~= gt_entity());
    assert("&quot;"@ =~= quot_entity());
    assert("&#39;"@ =~= apos_entity());
    let e = escape_char(c);
    let s = e + x;
    if c == '&' {
        assert(s.subrange(0, 5) =~= amp_entity());
        lemma_unescape_entity(e, c, x);
    } else if c == '<' {
        assert(s[1] == 'l');
        assert(!has_prefix(s, amp_entity())) by { if has_prefix(s, amp_entity()) { assert(s.subrange(0, 5)[1] == 'a'); } }
        assert(s.subrange(0, 4) =~= lt_entity());
        lemma_unescape_entity(e, c, x);
    } else if c == '>' {
        assert(s[1] == 'g');
        assert(!has_prefix(s, amp_entity())) by { if has_prefix(s, amp_entity()) { assert(s.subrange(0, 5)[1] == 'a'); } }
        assert(!has_prefix(s, lt_entity())) by { if has_prefix(s, lt_entity()) { assert(s.subrange(0, 4)[1] == 'l'); } }
        assert(s.subrange(0, 4) =~= gt_entity());
        lemma_unescape_entity(e, c, x);
    } else if c == '"' {
        assert(s[1] == 'q');
        assert(!has_prefix(s, amp_entity())) by { if has_prefix(s, amp_entity()) { assert(s.subrange(0, 5)[1] == 'a'); } }
        assert(!has_prefix(s, lt_entity())) by { if has_prefix(s, lt_entity()) { assert(s.subrange(0, 4)[1] == 'l'); } }
        assert(!has_prefix(s, gt_entity())) by { if has_prefix(s, gt_entity()) { assert(s.subrange(0, 4)[1] == 'g'); } }
        assert(s.subrange(0, 6) =~= quot_entity());
        lemma_unescape_entity(e, c, x);
    } else if c == '\'' {
        assert(s[1] == '#');
        assert(!has_prefix(s, amp_entity())) by { if has_prefix(s, amp_entity()) { assert(s.subrange(0, 5)[1] == 'a'); } }
        assert(!has_prefix(s, lt_entity())) by { if has_prefix(s, lt_entity()) { assert(s.subrange(0, 4)[1] == 'l'); } }
        assert(!has_prefix(s, gt_entity())) by { if has_prefix(s, gt_entity()) { assert(s.subrange(0, 4)[1] == 'g'); } }
        assert(!has_prefix(s, quot_entity())) by { if has_prefix(s, quot_entity()) { assert(s.subrange(0, 6)[1] == 'q'); } }
        assert(s.subrange(0, 5) =~= apos_entity());
        lemma_unescape_entity(e, c, x);
    } else {
        assert(e == seq![c]);
        assert(s[0] == c);
        assert(!has_prefix(s, amp_entity())) by { if has_prefix(s, amp_entity()) { assert(s.subrange(0, 5)[0] == '&'); } }
        assert(!has_prefix(s, lt_entity())) by { if has_prefix(s, lt_entity()) { assert(s.subrange(0, 4)[0] == '&'); } }
        assert(!has_prefix(s, gt_entity())) by { if has_prefix(s, gt_entity()) { assert(s.subrange(0, 4)[0] == '&'); } }
        assert(!has_prefix(s, quot_entity())) by { if has_prefix(s, quot_entity()) { assert(s.subrange(0, 6)[0] == '&'); } }
        assert(!has_prefix(s, apos_entity())) by { if has_prefix(s, apos_entity()) { assert(s.subrange(0, 5)[0] == '&'); } }
        lemma_unescape_entity(e, c, x);
    }
}

/// Decoding the entities of escaped text gives back the text: escaping
/// loses nothing, and two different texts never escape to the same text.
pub proof fn law_escaping_can_be_undone(s: Seq<char>)
    ensures
        unescape_html(escape_html(s)) == s,
    decreases s.len(),
{
    if s.len() > 0 {
        let rest = s.skip(1);
        assert(s =~= seq![s[0]] + rest);
        lemma_escape_front(s[0], rest);
        lemma_unescape_one(s[0], escape_html(rest));
        law_escaping_can_be_undone(rest);
    }
}

/// Escaping is injective.
pub proof fn law_escaping_is_injective(a: Seq<char>, b: Seq<char>)
    requires
        escape_html(a) == escape_html(b),
    ensures
        a == b,
{
    law_escaping_can_be_undone(a);
    law_escaping_can_be_undone(b);
}

/// The text begins with one of the five entities that escaping writes.
pub open spec fn begins_with_entity(s: Seq<char>) -> bool {
    ||| has_prefix(s, amp_entity())
    ||| has_prefix(s, lt_entity())
    ||| has_prefix(s, gt_entity())
    ||| has_prefix(s, quot_entity())
    ||| has_prefix(s, apos_entity())
}

proof fn lemma_entity_kept(x: Seq<char>, y: Seq<char>)
    requires
        begins_with_entity(x),
    ensures
        begins_with_entity(x + y),
{
    if x.len() >= 4 {
        assert((x + y).subrange(0, 4) =~= x.subrange(0, 4));
    }
    if x.len() >= 5 {
        assert((x + y).subrange(0, 5) =~= x.subrange(0, 5));
    }
    if x.len() >= 6 {
        assert((x + y).subrange(0, 6) =~= x.subrange(0, 6));
    }
}

proof fn lemma_escape_char_ampersand(c: char, j: int)
    requires
        0 <= j < escape_char(c).len(),
        escape_char(c)[j] == '&',
    ensures
        j == 0,
        begins_with_entity(escape_char(c)),
{
    reveal_strlit("&amp;");
    reveal_strlit("&lt;");
    reveal_strlit("&gt;");
    reveal_strlit("&quot;");
    reveal_strlit("&#39;");
    assert("&amp;"@ =~= amp_entity());
    assert("&lt;"@ =~= lt_entity());
    assert("&gt;"@ =~= gt_entity());
    assert("&quot;"@ =~= quot_entity());
    assert("&#39;"@ =~= apos_entity());
    let e = escape_char(c);
    assert(e.subrange(0, e.len() as int) =~= e);
}

/// Every `&` in escaped text begins one of `&amp;`, `&lt;`, `&gt;`,
/// `&quot;` and `&#39;`: escaping leaves no bare ampersand.
pub proof fn law_every_ampersand_begins_an_entity(s: Seq<char>, i: int)
    requires
        0 <= i < escape_html(s).len(),
        escape_html(s)[i] == '&',
    ensures
        begins_with_entity(escape_html(s).skip(i)),
    decreases s.len(),
{
    let a = escape_html(s.drop_last());
    let b = escape_char(s.last());
    assert(escape_html(s) == a + b);
    if i < a.len() {
        assert((a + b)[i] == a[i]);
        law_every_ampersand_begins_an_entity(s.drop_last(), i);
        lemma_entity_kept(a.skip(i), b);
        assert((a + b).skip(i) =~= a.skip(i) + b);
    } else {
        assert((a + b)[i] == b[i - a.len()]);
        lemma_escape_char_ampersand(s.last(), i - a.len());
        assert((a + b).skip(i) =~= b);
    }
}

/// A link whose destination is a PDF name resolves exactly as one whose
/// destination is a string with the same bytes: to the page of the first
/// named destination of that name, and is broken, with a note, only when
/// no such destination exists or it leads to no page.
pub proof fn law_name_and_string_destinations_resolve_alike(
    doc: PdfDocument,
    v: Vec<u8>,
    source_page: u32,
    id: Seq<char>,
    rect: Option<Seq<crate::report::RectNumber>>,
)
    ensures
        internal_view(doc, PdfObject::Name(v), source_page, id, rect) == internal_view(
            doc,
            PdfObject::String(v),
            source_page,
            id,
            rect,
        ),
        ({
            let l = internal_view(doc, PdfObject::Name(v), source_page, id, rect);
            let expected = match first_named(named_destinations(doc), lossy_utf8(v@)) {
                Some(o) => destination_page_spec(doc, o),
                None => None,
            };
            &&& l.kind == LinkKind::Internal
            &&& l.target == lossy_utf8(v@)
            &&& l.target_page == expected
            &&& (l.status == LinkStatus::Valid) == (expected is Some)
            &&& (l.status == LinkStatus::Broken) == (expected is None)
            &&& (l.note is None) == (expected is Some)
        }),
{
}

/// A heading that names an existing destination and expects a page gets a
/// page-mismatch error exactly when the destination does not resolve to
/// that page, and nothing else; when the pages agree it gets no finding.
pub proof fn law_manifest_page_mismatch_exactly_when_pages_differ(
    doc: PdfDocument,
    h: HeadingView,
    dest: PdfObject,
    expected: u32,
)
    requires
        h.anchor is Some,
        first_named(named_destinations(doc), h.anchor->0) == Some(dest),
        h.page == Some(expected),
    ensures
        heading_findings(doc, h).len() <= 1,
        heading_findings(doc, h).len() == 0 <==> destination_page_spec(doc, dest) == Some(expected),
        forall|i: int|
            0 <= i < heading_findings(doc, h).len() ==> {
                &&& (#[trigger] heading_findings(doc, h)[i]).code == "manifest_page_mismatch"@
                &&& heading_findings(doc, h)[i].severity == Severity::Error
            },
{
}

/// Selects the links of one kind.
pub open spec fn of_kind(k: LinkKind) -> spec_fn(LinkView) -> bool {
    |l: LinkView| l.kind == k
}

/// Selects the internal links that resolve to a page.
pub open spec fn valid_internal_link() -> spec_fn(LinkView) -> bool {
    |l: LinkView| l.kind == LinkKind::Internal && l.status == LinkStatus::Valid
}

/// Selects the findings of one severity.
pub open spec fn of_severity(s: Severity) -> spec_fn(FindingView) -> bool {
    |f: FindingView| f.severity == s
}

proof fn lemma_count_kind_is_filter(ls: Seq<LinkView>, k: LinkKind)
    ensures
        count_kind(ls, k) == ls.filter(of_kind(k)).len(),
    decreases ls.len(),
{
    reveal(Seq::filter);
    if ls.len() > 0 {
        lemma_count_kind_is_filter(ls.drop_last(), k);
    }
}

proof fn lemma_count_valid_is_filter(ls: Seq<LinkView>)
    ensures
        count_valid_internal(ls) == ls.filter(valid_internal_link()).len(),
    decreases ls.len(),
{
    reveal(Seq::filter);
    if ls.len() > 0 {
        lemma_count_valid_is_filter(ls.drop_last());
    }
}

proof fn lemma_count_severity_is_filter(fs: Seq<FindingView>, s: Severity)
    ensures
        count_severity(fs, s) == fs.filter(of_severity(s)).len(),
    decreases fs.len(),
{
    reveal(Seq::filter);
    if fs.len() > 0 {
        lemma_count_severity_is_filter(fs.drop_last(), s);
    }
}

/// Each count of the summary is the number of links, or findings, that it
/// names: the external links are exactly those of kind external (a link
/// with an unsupported action is not one), the valid internal links are
/// the internal links that resolve, `broken` counts the errors and
/// `warnings` the warnings.
pub proof fn law_summary_counts_what_it_names(ls: Seq<LinkView>, fs: Seq<FindingView>)
    requires
        ls.len() <= usize::MAX,
        fs.len() <= usize::MAX,
    ensures
        summary_of(ls, fs).total_links == ls.len(),
        summary_of(ls, fs).internal_links == ls.filter(of_kind(LinkKind::Internal)).len(),
        summary_of(ls, fs).external_links == ls.filter(of_kind(LinkKind::External)).len(),
        summary_of(ls, fs).valid_internal == ls.filter(valid_internal_link()).len(),
        summary_of(ls, fs).broken == fs.filter(of_severity(Severity::Error)).len(),
        summary_of(ls, fs).warnings == fs.filter(of_severity(Severity::Warning)).len(),
{
    broadcast use vstd::seq_lib::group_filter_ensures;
    lemma_count_kind_is_filter(ls, LinkKind::Internal);
    lemma_count_kind_is_filter(ls, LinkKind::External);
    lemma_count_valid_is_filter(ls);
    lemma_count_severity_is_filter(fs, Severity::Error);
    lemma_count_severity_is_filter(fs, Severity::Warning);
}

/// Under `--fail-on broken` a completed audit fails exactly when its
/// summary counts an error, whatever the number of warnings; and for a
/// summary of findings, exactly when one of the findings is an error.
pub proof fn law_broken_policy_fails_exactly_on_errors(s: Summary, ls: Seq<LinkView>, fs: Seq<FindingView>)
    requires
        ls.len() <= usize::MAX,
        fs.len() <= usize::MAX,
    ensures
        policy_fails(FailOn::Broken, s) <==> s.broken > 0,
        policy_fails(FailOn::Broken, s) == policy_fails(FailOn::Broken, Summary { warnings: 0, ..s }),
        policy_fails(FailOn::Broken, summary_of(ls, fs)) <==> exists|i: int|
            0 <= i < fs.len() && (#[trigger] fs[i]).severity == Severity::Error,
{
    broadcast use vstd::seq_lib::group_filter_ensures;
    law_summary_counts_what_it_names(ls, fs);
    let errors = fs.filter(of_severity(Severity::Error));
    if exists|i: int| 0 <= i < fs.len() && (#[trigger] fs[i]).severity == Severity::Error {
        let i = choose|i: int| 0 <= i < fs.len() && (#[trigger] fs[i]).severity == Severity::Error;
        assert(of_severity(Severity::Error)(fs[i]));
        assert(errors.contains(fs[i]));
    }
    if errors.len() > 0 {
        assert(of_severity(Severity::Error)(errors[0]));
        assert(errors.contains(errors[0]));
        fs.lemma_filter_contains_rev(of_severity(Severity::Error), errors[0]);
        let k = choose|k: int| 0 <= k < fs.len() && fs[k] == errors[0];
        assert(fs[k].severity == Severity::Error);
    }
}

/// `part` occurs in `s`.
pub open spec fn shows(s: Seq<char>, part: Seq<char>) -> bool {
    exists|i: int| 0 <= i && i + part.len() <= s.len() && #[trigger] s.subrange(i, i + part.len()) == part
}

/// One metric of the map: the number in bold, then its label.
pub open spec fn metric_text(value: nat, label: Seq<char>) -> Seq<char> {
    "<strong>"@ + decimal(value) + "</strong>"@ + label
}

proof fn lemma_shows_extends(s: Seq<char>, part: Seq<char>, y: Seq<char>)
    requires
        shows(s, part),
    ensures
        shows(s + y, part),
{
    let i = choose|i: int| 0 <= i && i + part.len() <= s.len() && #[trigger] s.subrange(i, i + part.len()) == part;
    assert((s + y).subrange(i, i + part.len()) =~= s.subrange(i, i + part.len()));
}

proof fn lemma_metric_shown(x: Seq<char>, open: Seq<char>, d: Seq<char>, close: Seq<char>, label: Seq<char>)
    requires
        open.len() >= 8,
        open.subrange(open.len() - 8, open.len() as int) == "<strong>"@,
        has_prefix(close, "</strong>"@ + label),
    ensures
        shows(((x + open) + d) + close, "<strong>"@ + d + "</strong>"@ + label),
{
    reveal_strlit("<strong>");
    reveal_strlit("</strong>");
    let s = ((x + open) + d) + close;
    let part = "<strong>"@ + d + "</strong>"@ + label;
    let i = x.len() + open.len() - 8;
    let tail = "</strong>"@ + label;
    assert(close.subrange(0, tail.len() as int) == tail);
    assert(s.subrange(i, i + part.len()) =~= part) by {
        assert forall|j: int| 0 <= j < part.len() implies s.subrange(i, i + part.len())[j] == part[j] by {
            if j < 8 {
                assert(s[i + j] == open[open.len() - 8 + j]);
                assert(open.subrange(open.len() - 8, open.len() as int)[j] == open[open.len() - 8 + j]);
            } else if j < 8 + d.len() {
                assert(s[i + j] == d[j - 8]);
            } else {
                assert(s[i + j] == close[j - 8 - d.len()]);
                assert(close.subrange(0, tail.len() as int)[j - 8 - d.len()] == close[j - 8 - d.len()]);
            }
        }
    }
}

/// The map shows each count of the summary under its own label: the number
/// of links, of valid internal links, of external links and of broken
/// findings, each as its decimal in bold.
pub proof fn law_map_shows_the_summary(r: ReportView)
    ensures
        shows(html_spec(r), metric_text(r.summary.total_links as nat, "links"@)),
        shows(html_spec(r), metric_text(r.summary.valid_internal as nat, "valid internal"@)),
        shows(html_spec(r), metric_text(r.summary.external_links as nat, "external"@)),
        shows(html_spec(r), metric_text(r.summary.broken as nat, "broken"@)),
{
    reveal_strlit("<strong>");
    reveal_strlit("</strong>");
    reveal_strlit("links");
    reveal_strlit("valid internal");
    reveal_strlit("external");
    reveal_strlit("broken");
    reveal_strlit(" pages · generated locally</p><section class=\"summary\" aria-label=\"Audit summary\"><div class=\"metric\"><strong>");
    reveal_strlit("</strong>links</div><div class=\"metric\"><strong>");
    reveal_strlit("</strong>valid internal</div><div class=\"metric\"><strong>");
    reveal_strlit("</strong>external</div><div class=\"metric\"><strong>");
    reveal_strlit("</strong>broken</div></section><h2>Annotation map</h2><div class=\"table-wrap\" tabindex=\"0\" role=\"region\" aria-label=\"Scrollable annotation map\"><table><thead><tr><th>From page</th><th>ID</th><th>Destination</th><th>Status</th><th>Note</th></tr></thead><tbody>");
    assert(PAGE_COUNT_END@.subrange(PAGE_COUNT_END@.len() - 8, PAGE_COUNT_END@.len() as int) =~= "<strong>"@);
    assert(LINKS_END@.subrange(LINKS_END@.len() - 8, LINKS_END@.len() as int) =~= "<strong>"@);
    assert(VALID_END@.subrange(VALID_END@.len() - 8, VALID_END@.len() as int) =~= "<strong>"@);
    assert(EXTERNAL_END@.subrange(EXTERNAL_END@.len() - 8, EXTERNAL_END@.len() as int) =~= "<strong>"@);
    assert(LINKS_END@.subrange(0, ("</strong>"@ + "links"@).len() as int) =~= "</strong>"@ + "links"@);
    assert(VALID_END@.subrange(0, ("</strong>"@ + "valid internal"@).len() as int) =~= "</strong>"@ + "valid internal"@);
    assert(EXTERNAL_END@.subrange(0, ("</strong>"@ + "external"@).len() as int) =~= "</strong>"@ + "external"@);
    assert(TABLE_HEAD@.subrange(0, ("</strong>"@ + "broken"@).len() as int) =~= "</strong>"@ + "broken"@);
    let title = escape_html(map_title(r.input));
    let p0 = PAGE_HEAD@;
    let p1 = p0 + title;
    let p2 = p1 + PAGE_STYLE@;
    let p3 = p2 + title;
    let p4 = p3 + PAGE_INTRO@;
    let p5 = p4 + escape_html(r.input);
    let p6 = p5 + PAGE_INPUT_END@;
    let p7 = p6 + decimal(r.pages as nat);
    let p8 = p7 + PAGE_COUNT_END@;
    let p9 = p8 + decimal(r.summary.total_links as nat);
    let p10 = p9 + LINKS_END@;
    let p11 = p10 + decimal(r.summary.valid_internal as nat);
    let p12 = p11 + VALID_END@;
    let p13 = p12 + decimal(r.summary.external_links as nat);
    let p14 = p13 + EXTERNAL_END@;
    let p15 = p14 + decimal(r.summary.broken as nat);
    let p16 = p15 + TABLE_HEAD@;
    let p17 = p16 + or_else(link_rows(r.links, r.input), EMPTY_ROWS@);
    let p18 = p17 + TABLE_END@;
    let p19 = p18 + or_else(finding_items(r.findings), NO_FINDINGS@);
    let p20 = p19 + PAGE_FOOT@;
    assert(html_spec(r) == p20);
    lemma_metric_shown(p7, PAGE_COUNT_END@, decimal(r.summary.total_links as nat), LINKS_END@, "links"@);
    lemma_shows_extends(p10, metric_text(r.summary.total_links as nat, "links"@), decimal(r.summary.valid_internal as nat));
    lemma_shows_extends(p11, metric_text(r.summary.total_links as nat, "links"@), VALID_END@);
    lemma_shows_extends(p12, metric_text(r.summary.total_links as nat, "links"@), decimal(r.summary.external_links as nat));
    lemma_shows_extends(p13, metric_text(r.summary.total_links as nat, "links"@), EXTERNAL_END@);
    lemma_shows_extends(p14, metric_text(r.summary.total_links as nat, "links"@), decimal(r.summary.broken as nat));
    lemma_shows_extends(p15, metric_text(r.summary.total_links as nat, "links"@), TABLE_HEAD@);
    lemma_shows_extends(p16, metric_text(r.summary.total_links as nat, "links"@), or_else(link_rows(r.links, r.input), EMPTY_ROWS@));
    lemma_shows_extends(p17, metric_text(r.summary.total_links as nat, "links"@), TABLE_END@);
    lemma_shows_extends(p18, metric_text(r.summary.total_links as nat, "links"@), or_else(finding_items(r.findings), NO_FINDINGS@));
    lemma_shows_extends(p19, metric_text(r.summary.total_links as nat, "links"@), PAGE_FOOT@);
    lemma_metric_shown(p9, LINKS_END@, decimal(r.summary.valid_internal as nat), VALID_END@, "valid internal"@);
    lemma_shows_extends(p12, metric_text(r.summary.valid_internal as nat, "valid internal"@), decimal(r.summary.external_links as nat));
    lemma_shows_extends(p13, metric_text(r.summary.valid_internal as nat, "valid internal"@), EXTERNAL_END@);
    lemma_shows_extends(p14, metric_text(r.summary.valid_internal as nat, "valid internal"@), decimal(r.summary.broken as nat));
    lemma_shows_extends(p15, metric_text(r.summary.valid_internal as nat, "valid internal"@), TABLE_HEAD@);
    lemma_shows_extends(p16, metric_text(r.summary.valid_internal as nat, "valid internal"@), or_else(link_rows(r.links, r.input), EMPTY_ROWS@));
    lemma_shows_extends(p17, metric_text(r.summary.valid_internal as nat, "valid internal"@), TABLE_END@);
    lemma_shows_extends(p18, metric_text(r.summary.valid_internal as nat, "valid internal"@), or_else(finding_items(r.findings), NO_FINDINGS@));
    lemma_shows_extends(p19, metric_text(r.summary.valid_internal as nat, "valid internal"@), PAGE_FOOT@);
    lemma_metric_shown(p11, VALID_END@, decimal(r.summary.external_links as nat), EXTERNAL_END@, "external"@);
    lemma_shows_extends(p14, metric_text(r.summary.external_links as nat, "external"@), decimal(r.summary.broken as nat));
    lemma_shows_extends(p15, metric_text(r.summary.external_links as nat, "external"@), TABLE_HEAD@);
    lemma_shows_extends(p16, metric_text(r.summary.external_links as nat, "external"@), or_else(link_rows(r.links, r.input), EMPTY_ROWS@));
    lemma_shows_extends(p17, metric_text(r.summary.external_links as nat, "external"@), TABLE_END@);
    lemma_shows_extends(p18, metric_text(r.summary.external_links as nat, "external"@), or_else(finding_items(r.findings), NO_FINDINGS@));
    lemma_shows_extends(p19, metric_text(r.summary.external_links as nat, "external"@), PAGE_FOOT@);
    lemma_metric_shown(p13, EXTERNAL_END@, decimal(r.summary.broken as nat), TABLE_HEAD@, "broken"@);
    lemma_shows_extends(p16, metric_text(r.summary.broken as nat, "broken"@), or_else(link_rows(r.links, r.input), EMPTY_ROWS@));
    lemma_shows_extends(p17, metric_text(r.summary.broken as nat, "broken"@), TABLE_END@);
    lemma_shows_extends(p18, metric_text(r.summary.broken as nat, "broken"@), or_else(finding_items(r.findings), NO_FINDINGS@));
    lemma_shows_extends(p19, metric_text(r.summary.broken as nat, "broken"@), PAGE_FOOT@);
}

/// Every link to a destination inside the document is internal; it is
/// valid, with a target page and no note, exactly when its destination
/// resolves, and otherwise broken with a note that names the destination.
/// A destination given directly (not by name) resolves to its own page.
pub proof fn law_internal_link_is_valid_exactly_when_resolved(
    doc: PdfDocument,
    dest: PdfObject,
    source_page: u32,
    id: Seq<char>,
    rect: Option<Seq<crate::report::RectNumber>>,
)
    ensures
        ({
            let l = internal_view(doc, dest, source_page, id, rect);
            &&& l.kind == LinkKind::Internal
            &&& l.id == id
            &&& l.source_page == source_page
            &&& l.rect == rect
            &&& (l.status == LinkStatus::Valid) == (l.target_page is Some)
            &&& (l.status == LinkStatus::Broken) == (l.target_page is None)
            &&& (l.target_page is Some ==> l.note is None)
            &&& (l.target_page is None ==> l.note == Some(crate::links::unresolved_note(l.target)))
            &&& (!(dest is Name) && !(dest is String) ==> l.target_page == destination_page_spec(doc, dest)
                && l.target == "explicit destination"@)
        }),
{
}

/// A heading without an anchor contributes no finding; one whose anchor
/// names no destination contributes exactly one error, for the missing
/// anchor; one whose anchor exists but that expects no page contributes
/// none.
pub proof fn law_manifest_anchor_findings(doc: PdfDocument, h: HeadingView)
    ensures
        h.anchor is None ==> heading_findings(doc, h).len() == 0,
        h.anchor is Some && first_named(named_destinations(doc), h.anchor->0) is None ==> {
            &&& heading_findings(doc, h).len() == 1
            &&& heading_findings(doc, h)[0].code == "missing_manifest_anchor"@
            &&& heading_findings(doc, h)[0].severity == Severity::Error
        },
        h.anchor is Some && first_named(named_destinations(doc), h.anchor->0) is Some && h.page is None
            ==> heading_findings(doc, h).len() == 0,
{
}

/// The findings of a manifest are those of its headings, in order: a
/// manifest split in two gives the findings of the first part followed by
/// those of the second, and a single heading gives its own findings.
pub proof fn law_manifest_findings_follow_the_headings(doc: PdfDocument, a: Seq<HeadingView>, b: Seq<HeadingView>, h: HeadingView)
    ensures
        manifest_findings(doc, a + b) == manifest_findings(doc, a) + manifest_findings(doc, b),
        manifest_findings(doc, seq![h]) == heading_findings(doc, h),
    decreases b.len(),
{
    assert(seq![h].drop_last() =~= Seq::<HeadingView>::empty());
    assert(seq![h].last() == h);
    assert(manifest_findings(doc, Seq::<HeadingView>::empty()) =~= Seq::<FindingView>::empty());
    assert(manifest_findings(doc, seq![h]) == manifest_findings(doc, seq![h].drop_last()) + heading_findings(doc, h));
    assert(Seq::<FindingView>::empty() + heading_findings(doc, h) =~= heading_findings(doc, h));
    if b.len() == 0 {
        assert(a + b =~= a);
        assert(manifest_findings(doc, a) + manifest_findings(doc, b) =~= manifest_findings(doc, a));
    } else {
        law_manifest_findings_follow_the_headings(doc, a, b.drop_last(), h);
        assert((a + b).drop_last() =~= a + b.drop_last());
        assert((a + b).last() == b.last());
        assert(manifest_findings(doc, a) + manifest_findings(doc, b.drop_last()) + heading_findings(doc, b.last())
            =~= manifest_findings(doc, a) + (manifest_findings(doc, b.drop_last()) + heading_findings(doc, b.last())));
    }
}

} // verus!
