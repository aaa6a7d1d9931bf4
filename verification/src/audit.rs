//! The audit of a whole document: named destinations, duplicates, links,
//! the optional heading manifest, and the report that gathers them.

use vstd::prelude::*;
use vstd::utf8::encode_utf8;
use crate::pdf::{PdfObject, PdfDocument, encrypted_spec};
use crate::load::parse_pdf;
use crate::report::{AuditError, AuditErrorView, AuditReport, DestinationRecord, DestinationView, Finding, FindingView, HeadingView, LinkRecord, ManifestHeading, ReportView, Severity, destinations_view, finding, findings_view, headings_view, links_view, summarize, summary_of};
use crate::resolve::{Resolver, destination_page_spec, first_named, named_destinations, named_view};
use crate::links::{pages_outcome, outcome_of, join, process_page};
use crate::text::{bytes_le, bytes_le_exec, decimal, push_decimal};

verus! {

/// The names of a list of named destinations.
pub open spec fn names_of(pairs: Seq<(Seq<char>, PdfObject)>) -> Seq<Seq<char>> {
    pairs.map_values(|p: (Seq<char>, PdfObject)| p.0)
}

/// Each name that occurs more than once, listed once, where it first recurs.
pub open spec fn duplicate_names(names: Seq<Seq<char>>) -> Seq<Seq<char>>
    decreases names.len(),
{
    if names.len() == 0 {
        Seq::empty()
    } else {
        let earlier = duplicate_names(names.drop_last());
        let x = names.last();
        if names.drop_last().contains(x) && !earlier.contains(x) {
            earlier.push(x)
        } else {
            earlier
        }
    }
}

pub open spec fn duplicate_finding(name: Seq<char>) -> FindingView {
    FindingView {
        code: "duplicate_destination"@,
        severity: Severity::Error,
        message: "Named destination “"@ + name + "” is defined more than once."@,
    }
}

pub open spec fn invalid_finding(name: Seq<char>) -> FindingView {
    FindingView {
        code: "invalid_destination"@,
        severity: Severity::Error,
        message: "Named destination “"@ + name + "” does not resolve to a page."@,
    }
}

/// The record of a named destination.
pub open spec fn destination_entry(doc: PdfDocument, p: (Seq<char>, PdfObject)) -> DestinationView {
    let page = destination_page_spec(doc, p.1);
    DestinationView { name: p.0, page, valid: page is Some }
}

/// A finding for each named destination that resolves to no page, in order.
pub open spec fn invalid_findings(doc: PdfDocument, pairs: Seq<(Seq<char>, PdfObject)>) -> Seq<FindingView>
    decreases pairs.len(),
{
    if pairs.len() == 0 {
        Seq::empty()
    } else {
        let earlier = invalid_findings(doc, pairs.drop_last());
        if destination_page_spec(doc, pairs.last().1) is Some {
            earlier
        } else {
            earlier.push(invalid_finding(pairs.last().0))
        }
    }
}

/// The key by which destinations are sorted: the bytes of the name.
pub open spec fn name_key(d: DestinationView) -> Seq<u8> {
    encode_utf8(d.name)
}

/// Where `x` goes in `r` so that it follows every entry that sorts before or with it.
pub open spec fn insert_position(r: Seq<DestinationView>, x: DestinationView) -> nat
    decreases r.len(),
{
    if r.len() == 0 {
        0
    } else if !bytes_le(name_key(r[0]), name_key(x)) {
        0
    } else {
        1 + insert_position(r.drop_first(), x)
    }
}

/// A stable sort of destinations by name, in byte order.
pub open spec fn sort_by_name(s: Seq<DestinationView>) -> Seq<DestinationView>
    decreases s.len(),
{
    if s.len() == 0 {
        s
    } else {
        let r = sort_by_name(s.drop_last());
        r.insert(insert_position(r, s.last()) as int, s.last())
    }
}

fn text_in(v: &Vec<String>, upto: usize, s: &String) -> (r: bool)
    requires
        upto <= v@.len(),
    ensures
        r == v@.take(upto as int).map_values(|x: String| x@).contains(s@),
{
    let ghost seen = v@.take(upto as int).map_values(|x: String| x@);
    let mut j: usize = 0;
    while j < upto
        invariant
            upto <= v@.len(),
            seen == v@.take(upto as int).map_values(|x: String| x@),
            j <= upto,
            forall|k: int| 0 <= k < j ==> seen[k] != s@,
        decreases upto - j,
    {
        if v[j] == *s {
            assert(seen[j as int] == s@);
            return true;
        }
        j = j + 1;
    }
    false
}

/// Each name that is defined more than once, listed once, where it first recurs.
pub fn find_duplicates(named: &Vec<(String, &PdfObject)>) -> (d: Vec<String>)
    ensures
        d@.map_values(|x: String| x@) == duplicate_names(names_of(named_view(named@))),
{
    let ghost names = names_of(named_view(named@));
    let mut all: Vec<String> = Vec::new();
    let mut dups: Vec<String> = Vec::new();
    let mut i: usize = 0;
    while i < named.len()
        invariant
            names == names_of(named_view(named@)),
            i <= named@.len(),
            all@.len() == i,
            all@.map_values(|x: String| x@) == names.take(i as int),
            dups@.map_values(|x: String| x@) == duplicate_names(names.take(i as int)),
        decreases named.len() - i,
    {
        let name = named[i].0.clone();
        assert(names.take(i + 1).drop_last() =~= names.take(i as int));
        assert(names.take(i + 1).last() == name@);
        assert(all@.take(i as int) =~= all@);
        let earlier = text_in(&all, i, &name);
        let already = text_in(&dups, dups.len(), &name);
        assert(dups@.take(dups@.len() as int) =~= dups@);
        if earlier && !already {
            let ghost prev = dups@;
            dups.push(name.clone());
            assert(dups@.map_values(|x: String| x@) =~= prev.map_values(|x: String| x@).push(name@));
        }
        let ghost prev_all = all@;
        all.push(name);
        assert(all@.map_values(|x: String| x@) =~= prev_all.map_values(|x: String| x@).push(
            names[i as int],
        ));
        assert(names.take(i + 1) =~= names.take(i as int).push(names[i as int]));
        i = i + 1;
    }
    assert(names.take(i as int) =~= names);
    dups
}

/// Where `x` goes among already sorted records.
fn find_insert_position(out: &Vec<DestinationRecord>, x: &DestinationRecord) -> (p: usize)
    ensures
        p == insert_position(destinations_view(out@), x@),
        p <= out@.len(),
{
    let ghost r = destinations_view(out@);
    let xk = x.name.as_str().as_bytes();
    let mut j: usize = 0;
    assert(r.skip(0) =~= r);
    while j < out.len()
        invariant
            r == destinations_view(out@),
            j <= out@.len(),
            xk@ == name_key(x@),
            insert_position(r, x@) == j + insert_position(r.skip(j as int), x@),
        decreases out.len() - j,
    {
        let yk = out[j].name.as_str().as_bytes();
        assert(r.skip(j as int)[0] == r[j as int]);
        if !bytes_le_exec(yk, xk) {
            return j;
        }
        assert(r.skip(j as int).drop_first() =~= r.skip(j + 1));
        j = j + 1;
    }
    j
}

/// Sorts destination records by name, in byte order, keeping the order of
/// records with equal names.
pub fn sort_destinations(v: Vec<DestinationRecord>) -> (r: Vec<DestinationRecord>)
    ensures
        destinations_view(r@) == sort_by_name(destinations_view(v@)),
{
    let ghost orig = destinations_view(v@);
    let n = v.len();
    let mut rest = v;
    let mut out: Vec<DestinationRecord> = Vec::new();
    let mut k: usize = 0;
    assert(orig.skip(0) =~= orig);
    assert(orig.take(0) =~= Seq::<DestinationView>::empty());
    while rest.len() > 0
        invariant
            k + rest@.len() == orig.len(),
            orig.len() == n,
            destinations_view(rest@) == orig.skip(k as int),
            destinations_view(out@) == sort_by_name(orig.take(k as int)),
        decreases rest.len(),
    {
        let ghost rest_before = rest@;
        let x = rest.remove(0);
        assert(x == rest_before[0]);
        assert(destinations_view(rest_before)[0] == rest_before[0]@);
        assert(orig.skip(k as int)[0] == orig[k as int]);
        assert(x@ == orig[k as int]);
        assert(rest@ =~= rest_before.drop_first());
        assert(destinations_view(rest@) =~= destinations_view(rest_before).drop_first());
        assert(orig.skip(k as int).drop_first() =~= orig.skip(k + 1));
        let p = find_insert_position(&out, &x);
        let ghost out_before = out@;
        out.insert(p, x);
        assert(orig.take(k + 1).drop_last() =~= orig.take(k as int));
        assert(destinations_view(out@) =~= destinations_view(out_before).insert(p as int, orig[k as int]));
        k = k + 1;
    }
    assert(orig.take(k as int) =~= orig);
    out
}


/// The finding for a heading whose anchor names no destination.
pub open spec fn missing_anchor_finding(title: Seq<char>, anchor: Seq<char>) -> FindingView {
    FindingView {
        code: "missing_manifest_anchor"@,
        severity: Severity::Error,
        message: "Manifest heading “"@ + title + "” expects missing destination “"@ + anchor + "”."@,
    }
}

/// How a resolved page is named in a message.
pub open spec fn page_text(p: Option<u32>) -> Seq<char> {
    match p {
        Some(v) => decimal(v as nat),
        None => "no page"@,
    }
}

/// The finding for a heading whose destination is on another page than expected.
pub open spec fn page_mismatch_finding(
    title: Seq<char>,
    expected: u32,
    anchor: Seq<char>,
    actual: Option<u32>,
) -> FindingView {
    FindingView {
        code: "manifest_page_mismatch"@,
        severity: Severity::Error,
        message: "Manifest heading “"@ + title + "” expects page "@ + decimal(expected as nat)
            + ", destination “"@ + anchor + "” resolves to "@ + page_text(actual) + "."@,
    }
}

/// What one manifest heading is found to be wrong about.
pub open spec fn heading_findings(doc: PdfDocument, h: HeadingView) -> Seq<FindingView> {
    match h.anchor {
        None => Seq::empty(),
        Some(anchor) => match first_named(named_destinations(doc), anchor) {
            None => seq![missing_anchor_finding(h.title, anchor)],
            Some(dest) => match h.page {
                None => Seq::empty(),
                Some(expected) => {
                    let actual = destination_page_spec(doc, dest);
                    if actual == Some(expected) {
                        Seq::empty()
                    } else {
                        seq![page_mismatch_finding(h.title, expected, anchor, actual)]
                    }
                },
            },
        },
    }
}

/// What a manifest is found to be wrong about, heading by heading.
pub open spec fn manifest_findings(doc: PdfDocument, hs: Seq<HeadingView>) -> Seq<FindingView>
    decreases hs.len(),
{
    if hs.len() == 0 {
        Seq::empty()
    } else {
        manifest_findings(doc, hs.drop_last()) + heading_findings(doc, hs.last())
    }
}

/// Compares the headings of a manifest with the document's named destinations.
pub fn validate_manifest(r: &Resolver, headings: &Vec<ManifestHeading>, findings: &mut Vec<Finding>)
    ensures
        findings_view(final(findings)@) == findings_view(old(findings)@) + manifest_findings(
            r.document(),
            headings_view(headings@),
        ),
{
    let ghost doc = r.document();
    let ghost hs = headings_view(headings@);
    let ghost start = findings_view(findings@);
    let mut i: usize = 0;
    while i < headings.len()
        invariant
            doc == r.document(),
            hs == headings_view(headings@),
            i <= headings@.len(),
            findings_view(findings@) == start + manifest_findings(doc, hs.take(i as int)),
        decreases headings.len() - i,
    {
        let heading = &headings[i];
        assert(hs.take(i + 1).drop_last() =~= hs.take(i as int));
        assert(hs.take(i + 1).last() == heading@);
        let ghost prev = findings@;
        if let Some(anchor) = &heading.anchor {
            match r.lookup_named(anchor) {
                None => {
                    let mut m = String::new();
                    m.append("Manifest heading “");
                    m.append(heading.title.as_str());
                    m.append("” expects missing destination “");
                    m.append(anchor.as_str());
                    m.append("”.");
                    findings.push(finding("missing_manifest_anchor", Severity::Error, m));
                    assert(findings_view(findings@) =~= findings_view(prev).push(
                        missing_anchor_finding(heading.title@, anchor@),
                    ));
                },
                Some(dest) => {
                    if let Some(expected) = heading.page {
                        let actual = r.destination_page(dest);
                        let same = match actual {
                            Some(a) => a == expected,
                            None => false,
                        };
                        if !same {
                            let mut m = String::new();
                            m.append("Manifest heading “");
                            m.append(heading.title.as_str());
                            m.append("” expects page ");
                            push_decimal(&mut m, expected as u64);
                            m.append(", destination “");
                            m.append(anchor.as_str());
                            m.append("” resolves to ");
                            match actual {
                                Some(a) => push_decimal(&mut m, a as u64),
                                None => m.append("no page"),
                            }
                            m.append(".");
                            assert(m@ =~= page_mismatch_finding(heading.title@, expected, anchor@, actual).message);
                            findings.push(finding("manifest_page_mismatch", Severity::Error, m));
                            assert(findings_view(findings@) =~= findings_view(prev).push(
                                page_mismatch_finding(heading.title@, expected, anchor@, actual),
                            ));
                        }
                    }
                },
            }
        }
        assert(findings_view(findings@) =~= start + manifest_findings(doc, hs.take(i + 1)));
        i = i + 1;
    }
    assert(hs.take(i as int) =~= hs);
}

/// The records of the named destinations, in the order they are defined.
pub open spec fn destination_entries(doc: PdfDocument) -> Seq<DestinationView> {
    named_destinations(doc).map_values(|p: (Seq<char>, PdfObject)| destination_entry(doc, p))
}

/// Records every named destination, adding a finding for each that resolves to no page.
fn collect_destinations(r: &Resolver, findings: &mut Vec<Finding>) -> (d: Vec<DestinationRecord>)
    ensures
        destinations_view(d@) == destination_entries(r.document()),
        findings_view(final(findings)@) == findings_view(old(findings)@) + invalid_findings(
            r.document(),
            named_destinations(r.document()),
        ),
{
    let ghost doc = r.document();
    let named = r.named();
    let ghost pairs = named_view(named@);
    let ghost start = findings_view(findings@);
    let mut out: Vec<DestinationRecord> = Vec::new();
    let mut i: usize = 0;
    while i < named.len()
        invariant
            doc == r.document(),
            pairs == named_view(named@),
            pairs == named_destinations(doc),
            i <= named@.len(),
            destinations_view(out@) == pairs.take(i as int).map_values(
                |p: (Seq<char>, PdfObject)| destination_entry(doc, p),
            ),
            findings_view(findings@) == start + invalid_findings(doc, pairs.take(i as int)),
        decreases named.len() - i,
    {
        let name = named[i].0.clone();
        let page = r.destination_page(named[i].1);
        let valid = page.is_some();
        assert(pairs[i as int] == (name@, *named@[i as int].1));
        assert(pairs.take(i + 1).drop_last() =~= pairs.take(i as int));
        let ghost prev = findings@;
        if !valid {
            let mut m = String::new();
            m.append("Named destination “");
            m.append(name.as_str());
            m.append("” does not resolve to a page.");
            findings.push(finding("invalid_destination", Severity::Error, m));
            assert(findings_view(findings@) =~= findings_view(prev).push(invalid_finding(name@)));
        }
        assert(findings_view(findings@) =~= start + invalid_findings(doc, pairs.take(i + 1)));
        let ghost prev_out = out@;
        let rec = DestinationRecord { name, page, valid };
        assert(rec@ == destination_entry(doc, pairs[i as int]));
        out.push(rec);
        assert(destinations_view(out@) =~= destinations_view(prev_out).push(destination_entry(doc, pairs[i as int])));
        assert(destinations_view(out@) =~= pairs.take(i + 1).map_values(
            |p: (Seq<char>, PdfObject)| destination_entry(doc, p),
        ));
        i = i + 1;
    }
    assert(pairs.take(i as int) =~= pairs);
    out
}

pub open spec fn empty_pdf_findings(doc: PdfDocument) -> Seq<FindingView> {
    if doc.pages@.len() == 0 {
        seq![FindingView { code: "empty_pdf"@, severity: Severity::Warning, message: "The PDF has no pages."@ }]
    } else {
        Seq::empty()
    }
}

pub open spec fn no_links_text() -> Seq<char> {
    "No link annotations were found. If the source had navigation, the converter may have dropped it."@
}

pub open spec fn no_links_findings(links: Seq<crate::report::LinkView>) -> Seq<FindingView> {
    if links.len() == 0 {
        seq![FindingView { code: "no_links"@, severity: Severity::Warning, message: no_links_text() }]
    } else {
        Seq::empty()
    }
}

/// The links of a document, page by page.
pub open spec fn report_links(doc: PdfDocument) -> Seq<crate::report::LinkView> {
    pages_outcome(doc, doc.pages@).links
}

/// The findings of an audit, in the order they are reported.
pub open spec fn report_findings(doc: PdfDocument, headings: Option<Seq<HeadingView>>) -> Seq<FindingView> {
    let pairs = named_destinations(doc);
    let base = empty_pdf_findings(doc) + duplicate_names(names_of(pairs)).map_values(
        |n: Seq<char>| duplicate_finding(n),
    ) + invalid_findings(doc, pairs) + pages_outcome(doc, doc.pages@).findings;
    let checked = match headings {
        Some(hs) => base + manifest_findings(doc, hs),
        None => base,
    };
    checked + no_links_findings(report_links(doc))
}

/// The report of an audit.
pub open spec fn report_spec(doc: PdfDocument, input: Seq<char>, headings: Option<Seq<HeadingView>>) -> ReportView {
    let links = report_links(doc);
    let findings = report_findings(doc, headings);
    ReportView {
        schema_version: 1,
        input,
        pages: doc.pages@.len() as usize,
        summary: summary_of(links, findings),
        links,
        destinations: sort_by_name(destination_entries(doc)),
        findings,
    }
}

pub open spec fn encrypted_text() -> Seq<char> {
    "Encrypted PDFs are not supported; decrypt a copy before auditing."@
}

/// The outcome of an audit: refused for an encrypted document, then for a
/// manifest that could not be read, and a report otherwise.
pub open spec fn audit_spec(
    doc: PdfDocument,
    input: Seq<char>,
    manifest: Option<Result<Seq<HeadingView>, AuditErrorView>>,
) -> Result<ReportView, AuditErrorView> {
    if encrypted_spec(doc) {
        Err(AuditErrorView::Pdf(encrypted_text()))
    } else {
        match manifest {
            Some(Err(e)) => Err(e),
            Some(Ok(hs)) => Ok(report_spec(doc, input, Some(hs))),
            None => Ok(report_spec(doc, input, None)),
        }
    }
}

pub open spec fn manifest_view(m: Option<Result<Vec<ManifestHeading>, AuditError>>) -> Option<Result<Seq<HeadingView>, AuditErrorView>> {
    match m {
        Some(Ok(hs)) => Some(Ok(headings_view(hs@))),
        Some(Err(e)) => Some(Err(e@)),
        None => None,
    }
}

pub open spec fn audit_result_view(r: Result<AuditReport, AuditError>) -> Result<ReportView, AuditErrorView> {
    match r {
        Ok(rep) => Ok(rep@),
        Err(e) => Err(e@),
    }
}

/// Audits a loaded document: its named destinations, its link annotations
/// page by page, and, where a manifest is given, the headings it expects.
/// `input` is how the report names the document; `manifest` is the outcome
/// of reading the manifest, if one was named.
pub fn audit_document(
    doc: &PdfDocument,
    input: String,
    manifest: Option<Result<Vec<ManifestHeading>, AuditError>>,
) -> (r: Result<AuditReport, AuditError>)
    ensures
        audit_result_view(r) == audit_spec(*doc, input@, manifest_view(manifest)),
{
    if doc.is_encrypted() {
        return Err(AuditError::Pdf("Encrypted PDFs are not supported; decrypt a copy before auditing.".to_owned()));
    }
    let r = Resolver::new(doc);
    let ghost d = *doc;
    let mut findings: Vec<Finding> = Vec::new();
    if doc.pages.len() == 0 {
        findings.push(finding("empty_pdf", Severity::Warning, "The PDF has no pages.".to_owned()));
    }
    assert(findings_view(findings@) =~= empty_pdf_findings(d));
    let named = r.named();
    let dups = find_duplicates(named);
    let ghost dup_names = duplicate_names(names_of(named_destinations(d)));
    let ghost f0 = findings_view(findings@);
    let mut i: usize = 0;
    while i < dups.len()
        invariant
            dups@.map_values(|x: String| x@) == dup_names,
            i <= dups@.len(),
            findings_view(findings@) == f0 + dup_names.take(i as int).map_values(
                |n: Seq<char>| duplicate_finding(n),
            ),
        decreases dups.len() - i,
    {
        let mut m = String::new();
        m.append("Named destination “");
        m.append(dups[i].as_str());
        m.append("” is defined more than once.");
        let ghost prev = findings@;
        assert(dup_names[i as int] == dups@[i as int]@);
        assert(m@ =~= duplicate_finding(dup_names[i as int]).message);
        findings.push(finding("duplicate_destination", Severity::Error, m));
        assert(findings_view(findings@) =~= findings_view(prev).push(duplicate_finding(dup_names[i as int])));
        assert(dup_names.take(i + 1).map_values(|n: Seq<char>| duplicate_finding(n)) =~= dup_names.take(i as int).map_values(
            |n: Seq<char>| duplicate_finding(n),
        ).push(duplicate_finding(dup_names[i as int])));
        assert(findings_view(findings@) =~= f0 + dup_names.take(i + 1).map_values(
            |n: Seq<char>| duplicate_finding(n),
        ));
        i = i + 1;
    }
    assert(dup_names.take(i as int) =~= dup_names);
    let destinations = collect_destinations(&r, &mut findings);
    let destinations = sort_destinations(destinations);
    let mut links: Vec<LinkRecord> = Vec::new();
    let ghost o1 = outcome_of(links@, findings@);
    let mut p: usize = 0;
    assert(join(o1, pages_outcome(d, doc.pages@.take(0))) =~= o1);
    while p < doc.pages.len()
        invariant
            d == *doc,
            d == r.document(),
            p <= doc.pages@.len(),
            outcome_of(links@, findings@) == join(o1, pages_outcome(d, doc.pages@.take(p as int))),
        decreases doc.pages.len() - p,
    {
        let (n, id) = doc.pages[p];
        process_page(&r, n, id, &mut links, &mut findings);
        assert(doc.pages@.take(p + 1).drop_last() =~= doc.pages@.take(p as int));
        assert(outcome_of(links@, findings@) =~= join(o1, pages_outcome(d, doc.pages@.take(p + 1))));
        p = p + 1;
    }
    assert(doc.pages@.take(p as int) =~= doc.pages@);
    match manifest {
        Some(Err(e)) => {
            return Err(e);
        },
        Some(Ok(headings)) => {
            validate_manifest(&r, &headings, &mut findings);
        },
        None => {},
    }
    if links.len() == 0 {
        findings.push(finding("no_links", Severity::Warning, "No link annotations were found. If the source had navigation, the converter may have dropped it.".to_owned()));
    }
    assert(links_view(links@) == report_links(d));
    assert(findings_view(findings@) =~= report_findings(d, match manifest_view(manifest) {
        Some(Ok(hs)) => Some(hs),
        _ => None,
    }));
    let summary = summarize(&links, &findings);
    let report = AuditReport {
        schema_version: 1,
        input,
        pages: doc.pages.len(),
        summary,
        links,
        destinations,
        findings,
    };
    Ok(report)
}


/// The text of the error for bytes that do not parse as a PDF file.
pub open spec fn parse_error_text(input: Seq<char>, error: Seq<char>) -> Seq<char> {
    "Could not parse "@ + input + ": "@ + error
}

/// The error of a parse, or the document it gave: a parse error becomes a
/// PDF error that names `input` and the parser's reason.
pub fn parse_outcome(parsed: Result<PdfDocument, String>, input: &String) -> (r: Result<PdfDocument, AuditError>)
    ensures
        match parsed {
            Ok(d) => r matches Ok(d2) && d2 == d,
            Err(e) => r matches Err(err) && err@ == AuditErrorView::Pdf(parse_error_text(input@, e@)),
        },
{
    match parsed {
        Ok(d) => Ok(d),
        Err(e) => {
            let mut m = String::new();
            m.append("Could not parse ");
            m.append(input.as_str());
            m.append(": ");
            m.append(e.as_str());
            assert(m@ =~= parse_error_text(input@, e@));
            Err(AuditError::Pdf(m))
        },
    }
}

/// Parses the bytes of a PDF file into the document model, for
/// `audit_document`. Which document the parser gives back is not stated
/// (see `parse_pdf`); whatever it gives, a failure is a PDF error that names
/// `input` and the parser's reason, as `parse_outcome` states.
pub fn parse_document(bytes: &[u8], input: &String) -> (r: Result<PdfDocument, AuditError>)
    ensures
        r matches Err(err) ==> exists|reason: Seq<char>|
            err@ == AuditErrorView::Pdf(#[trigger] parse_error_text(input@, reason)),
{
    let parsed = parse_pdf(bytes);
    let ghost given = parsed;
    let r = parse_outcome(parsed, input);
    proof {
        if let Err(e) = given {
            assert(parse_error_text(input@, e@) == parse_error_text(input@, e@));
        }
    }
    r
}

} // verus!
