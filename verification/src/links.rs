//! Inspecting link annotations: what each link leads to, and the links and
//! findings that a page contributes to a report.

use vstd::prelude::*;
use crate::pdf::{
    ObjectId, PdfObject, PdfDict, PdfDocument, as_dict, as_dict_spec, deref_spec, dict_get,
    get_object_spec, key, lookup_error_text, push_lookup_error,
};
use crate::report::{
    LinkKind, LinkStatus, LinkRecord, LinkView, Finding, FindingView, RectNumber, Severity,
    broken_link, broken_view, finding, links_view, findings_view,
};
use crate::resolve::{
    Resolver, destination_page_spec, first_named, named_destinations, object_text,
    object_text_spec,
};
use crate::text::{bytes_eq, decimal, lossy_text, lossy_utf8, push_decimal};

verus! {

/// The coordinate that a rectangle item holds, if it is a number.
pub open spec fn rect_number(o: PdfObject) -> Option<RectNumber> {
    match o {
        PdfObject::Integer(v) => Some(RectNumber::Integer(v)),
        PdfObject::Real(v) => Some(RectNumber::Real(v)),
        _ => None,
    }
}

/// The rectangle of an annotation: four numbers, or nothing.
pub open spec fn rect_spec(value: Option<PdfObject>) -> Option<Seq<RectNumber>> {
    match value {
        Some(PdfObject::Array(a)) => if a@.len() == 4 && (forall|i: int|
            0 <= i < 4 ==> (#[trigger] rect_number(a@[i])) is Some) {
            Some(Seq::new(4, |i: int| rect_number(a@[i])->0))
        } else {
            None
        },
        _ => None,
    }
}

pub open spec fn rect_view(r: Option<[RectNumber; 4]>) -> Option<Seq<RectNumber>> {
    match r {
        Some(a) => Some(a@),
        None => None,
    }
}

fn number_of(o: &PdfObject) -> (r: Option<RectNumber>)
    ensures
        r == rect_number(*o),
{
    match o {
        PdfObject::Integer(v) => Some(RectNumber::Integer(*v)),
        PdfObject::Real(v) => Some(RectNumber::Real(*v)),
        _ => None,
    }
}

/// Reads an annotation rectangle.
pub fn parse_rect(value: Option<&PdfObject>) -> (r: Option<[RectNumber; 4]>)
    ensures
        rect_view(r) == rect_spec(match value {
            Some(v) => Some(*v),
            None => None,
        }),
{
    let values = match value {
        Some(PdfObject::Array(a)) => a,
        _ => {
            return None;
        },
    };
    if values.len() != 4 {
        return None;
    }
    let a = match number_of(&values[0]) {
        Some(x) => x,
        None => {
            return None;
        },
    };
    let b = match number_of(&values[1]) {
        Some(x) => x,
        None => {
            return None;
        },
    };
    let c = match number_of(&values[2]) {
        Some(x) => x,
        None => {
            return None;
        },
    };
    let d = match number_of(&values[3]) {
        Some(x) => x,
        None => {
            return None;
        },
    };
    let out = [a, b, c, d];
    assert(forall|i: int| 0 <= i < 4 ==> (#[trigger] rect_number(values@[i])) is Some);
    assert(out@ =~= Seq::new(4, |i: int| rect_number(values@[i])->0));
    Some(out)
}

/// The note of a destination that resolves to no page.
pub open spec fn unresolved_note(label: Seq<char>) -> Seq<char> {
    "Destination “"@ + label + "” does not resolve to a page."@
}

/// The record of a link to a destination inside the document.
pub open spec fn internal_view(
    doc: PdfDocument,
    dest: PdfObject,
    source_page: u32,
    id: Seq<char>,
    rect: Option<Seq<RectNumber>>,
) -> LinkView {
    let (label, resolved) = match dest {
        PdfObject::Name(v) => {
            let name = lossy_utf8(v@);
            (name, match first_named(named_destinations(doc), name) {
                Some(o) => destination_page_spec(doc, o),
                None => None,
            })
        },
        PdfObject::String(v) => {
            let name = lossy_utf8(v@);
            (name, match first_named(named_destinations(doc), name) {
                Some(o) => destination_page_spec(doc, o),
                None => None,
            })
        },
        _ => ("explicit destination"@, destination_page_spec(doc, dest)),
    };
    LinkView {
        id,
        source_page,
        kind: LinkKind::Internal,
        target: label,
        target_page: resolved,
        status: if resolved is Some { LinkStatus::Valid } else { LinkStatus::Broken },
        note: if resolved is Some { None } else { Some(unresolved_note(label)) },
        rect,
    }
}

/// The record of a link to a destination inside the document.
pub fn internal_link(
    r: &Resolver,
    dest: &PdfObject,
    source_page: u32,
    id: String,
    rect: Option<[RectNumber; 4]>,
) -> (l: LinkRecord)
    ensures
        l@ == internal_view(r.document(), *dest, source_page, id@, rect_view(rect)),
{
    let (label, resolved) = match dest {
        PdfObject::Name(v) => {
            let name = lossy_text(v.as_slice());
            let resolved = match r.lookup_named(&name) {
                Some(o) => r.destination_page(o),
                None => None,
            };
            (name, resolved)
        },
        PdfObject::String(v) => {
            let name = lossy_text(v.as_slice());
            let resolved = match r.lookup_named(&name) {
                Some(o) => r.destination_page(o),
                None => None,
            };
            (name, resolved)
        },
        _ => ("explicit destination".to_owned(), r.destination_page(dest)),
    };
    let (status, note) = if resolved.is_some() {
        (LinkStatus::Valid, None)
    } else {
        let mut m = String::new();
        m.append("Destination “");
        m.append(label.as_str());
        m.append("” does not resolve to a page.");
        assert(m@ =~= unresolved_note(label@));
        (LinkStatus::Broken, Some(m))
    };
    LinkRecord {
        id,
        source_page,
        kind: LinkKind::Internal,
        target: label,
        target_page: resolved,
        status,
        note,
        rect,
    }
}

/// The action type of a link action: the name under `S`, if there is one.
pub open spec fn action_type(action: PdfDict) -> Option<Seq<u8>> {
    match dict_get(action, key("S")) {
        Some(PdfObject::Name(v)) => Some(v@),
        _ => None,
    }
}

/// The record of a link whose annotation has an action dictionary.
pub open spec fn action_view(
    doc: PdfDocument,
    action: PdfDict,
    source_page: u32,
    id: Seq<char>,
    rect: Option<Seq<RectNumber>>,
) -> LinkView {
    let s = match action_type(action) {
        Some(v) => v,
        None => Seq::empty(),
    };
    if s == key("URI") {
        let target = match dict_get(action, key("URI")) {
            Some(o) => object_text_spec(o),
            None => Seq::empty(),
        };
        if target.len() == 0 {
            broken_view(id, source_page, "URI action has no target."@)
        } else {
            LinkView {
                id,
                source_page,
                kind: LinkKind::External,
                target,
                target_page: None,
                status: LinkStatus::External,
                note: Some("Recorded only; never requested."@),
                rect,
            }
        }
    } else if s == key("GoTo") {
        match dict_get(action, key("D")) {
            Some(dest) => internal_view(doc, dest, source_page, id, rect),
            None => broken_view(id, source_page, "GoTo action has no destination."@),
        }
    } else {
        LinkView {
            id,
            source_page,
            kind: LinkKind::Unsupported,
            target: "/"@ + lossy_utf8(s),
            target_page: None,
            status: LinkStatus::Warning,
            note: Some("Action type is recorded but not validated in v1."@),
            rect,
        }
    }
}

/// The record of a link annotation.
pub open spec fn inspect_view(
    doc: PdfDocument,
    annotation: PdfDict,
    source_page: u32,
    id: Seq<char>,
    rect: Option<Seq<RectNumber>>,
) -> LinkView {
    match dict_get(annotation, key("Dest")) {
        Some(dest) => internal_view(doc, dest, source_page, id, rect),
        None => match dict_get(annotation, key("A")) {
            None => broken_view(id, source_page, "Link has neither /Dest nor /A."@),
            Some(a) => match deref_spec(doc, a) {
                Err(_) => broken_view(id, source_page, "Link action cannot be read."@),
                Ok(PdfObject::Dictionary(action)) => action_view(doc, action, source_page, id, rect),
                Ok(_) => broken_view(id, source_page, "Link action is not a dictionary."@),
            },
        },
    }
}

fn action_link(
    r: &Resolver,
    action: &PdfDict,
    source_page: u32,
    id: String,
    rect: Option<[RectNumber; 4]>,
) -> (l: LinkRecord)
    ensures
        l@ == action_view(r.document(), *action, source_page, id@, rect_view(rect)),
{
    let empty: Vec<u8> = Vec::new();
    let s: &[u8] = match action.get("S".as_bytes()) {
        Some(PdfObject::Name(v)) => v.as_slice(),
        _ => empty.as_slice(),
    };
    if bytes_eq(s, "URI".as_bytes()) {
        let target = match action.get("URI".as_bytes()) {
            Some(o) => object_text(o),
            None => String::new(),
        };
        if target.as_str().is_empty() {
            return broken_link(id, source_page, "URI action has no target.");
        }
        LinkRecord {
            id,
            source_page,
            kind: LinkKind::External,
            target,
            target_page: None,
            status: LinkStatus::External,
            note: Some("Recorded only; never requested.".to_owned()),
            rect,
        }
    } else if bytes_eq(s, "GoTo".as_bytes()) {
        match action.get("D".as_bytes()) {
            Some(dest) => internal_link(r, dest, source_page, id, rect),
            None => broken_link(id, source_page, "GoTo action has no destination."),
        }
    } else {
        let mut target = String::new();
        target.append("/");
        let name = lossy_text(s);
        target.append(name.as_str());
        LinkRecord {
            id,
            source_page,
            kind: LinkKind::Unsupported,
            target,
            target_page: None,
            status: LinkStatus::Warning,
            note: Some("Action type is recorded but not validated in v1.".to_owned()),
            rect,
        }
    }
}

/// Inspects a link annotation: where it leads, and whether that resolves.
pub fn inspect_link(
    r: &Resolver,
    dict: &PdfDict,
    source_page: u32,
    id: String,
    rect: Option<[RectNumber; 4]>,
) -> (l: LinkRecord)
    ensures
        l@ == inspect_view(r.document(), *dict, source_page, id@, rect_view(rect)),
{
    let doc = r.doc();
    if let Some(dest) = dict.get("Dest".as_bytes()) {
        return internal_link(r, dest, source_page, id, rect);
    }
    let action = match dict.get("A".as_bytes()) {
        Some(a) => a,
        None => {
            return broken_link(id, source_page, "Link has neither /Dest nor /A.");
        },
    };
    let action = match doc.deref(action) {
        Ok(a) => a,
        Err(_) => {
            return broken_link(id, source_page, "Link action cannot be read.");
        },
    };
    match action {
        PdfObject::Dictionary(d) => action_link(r, d, source_page, id, rect),
        _ => broken_link(id, source_page, "Link action is not a dictionary."),
    }
}


/// The identifier of the link at a (zero-based) position among a page's annotations.
pub open spec fn link_id(page: u32, index: nat) -> Seq<char> {
    "p"@ + decimal(page as nat) + "-l"@ + decimal(index + 1)
}

/// The annotation is a link annotation.
pub open spec fn is_link_annotation(d: PdfDict) -> bool {
    match dict_get(d, key("Subtype")) {
        Some(PdfObject::Name(v)) => v@ == key("Link"),
        _ => false,
    }
}

/// A link record with its rectangle replaced.
pub open spec fn with_rect(l: LinkView, rect: Option<Seq<RectNumber>>) -> LinkView {
    LinkView {
        id: l.id,
        source_page: l.source_page,
        kind: l.kind,
        target: l.target,
        target_page: l.target_page,
        status: l.status,
        note: l.note,
        rect,
    }
}

pub open spec fn note_or(note: Option<Seq<char>>, default: Seq<char>) -> Seq<char> {
    match note {
        Some(n) => n,
        None => default,
    }
}

/// The text that describes a broken or unsupported link.
pub open spec fn link_problem_text(l: LinkView, default: Seq<char>) -> Seq<char> {
    "Link "@ + l.id + " on page "@ + decimal(l.source_page as nat) + ": "@ + note_or(l.note, default)
}

/// The finding that an inspected link gives rise to, if any.
pub open spec fn link_findings(l: LinkView) -> Seq<FindingView> {
    if l.status == LinkStatus::Broken {
        seq![FindingView {
            code: "broken_link"@,
            severity: Severity::Error,
            message: link_problem_text(l, "invalid destination"@),
        }]
    } else if l.status == LinkStatus::Warning {
        seq![FindingView {
            code: "unsupported_link"@,
            severity: Severity::Warning,
            message: link_problem_text(l, "unsupported action"@),
        }]
    } else {
        Seq::empty()
    }
}

/// Links and findings, in the order they are reported.
#[verifier::ext_equal]
pub struct Outcome {
    pub links: Seq<LinkView>,
    pub findings: Seq<FindingView>,
}

pub open spec fn no_outcome() -> Outcome {
    Outcome { links: Seq::empty(), findings: Seq::empty() }
}

pub open spec fn join(a: Outcome, b: Outcome) -> Outcome {
    Outcome { links: a.links + b.links, findings: a.findings + b.findings }
}

pub open spec fn one_finding(f: FindingView) -> Outcome {
    Outcome { links: Seq::empty(), findings: seq![f] }
}

/// What one annotation of a page contributes.
pub open spec fn annotation_outcome(doc: PdfDocument, page: u32, index: nat, annot: PdfObject) -> Outcome {
    let id = link_id(page, index);
    match deref_spec(doc, annot) {
        Err(_) => Outcome {
            links: seq![broken_view(id, page, "Unreadable annotation object."@)],
            findings: Seq::empty(),
        },
        Ok(PdfObject::Dictionary(d)) => if is_link_annotation(d) {
            let rect = rect_spec(dict_get(d, key("Rect")));
            let link = inspect_view(doc, d, page, id, rect);
            Outcome { links: seq![with_rect(link, rect)], findings: link_findings(link) }
        } else {
            no_outcome()
        },
        Ok(_) => no_outcome(),
    }
}

/// What the first `n` annotations of a page contribute.
pub open spec fn annotations_outcome(doc: PdfDocument, page: u32, items: Seq<PdfObject>, n: nat) -> Outcome
    decreases n,
{
    if n == 0 {
        no_outcome()
    } else {
        join(
            annotations_outcome(doc, page, items, (n - 1) as nat),
            annotation_outcome(doc, page, (n - 1) as nat, items[n - 1]),
        )
    }
}

pub open spec fn page_problem(page: u32, text: Seq<char>) -> Outcome {
    one_finding(FindingView { code: "malformed_page"@, severity: Severity::Warning, message: text })
}

pub open spec fn annotations_problem(page: u32, text: Seq<char>) -> Outcome {
    one_finding(FindingView { code: "malformed_annotations"@, severity: Severity::Warning, message: text })
}

/// What one page contributes.
pub open spec fn page_outcome(doc: PdfDocument, page: u32, page_id: ObjectId) -> Outcome {
    let page_dict = match get_object_spec(doc, page_id) {
        Err(e) => Err(e),
        Ok(o) => as_dict_spec(o),
    };
    match page_dict {
        Err(e) => page_problem(
            page,
            "Page "@ + decimal(page as nat) + " could not be inspected: "@ + lookup_error_text(e),
        ),
        Ok(d) => match dict_get(d, key("Annots")) {
            None => no_outcome(),
            Some(a) => match deref_spec(doc, a) {
                Err(_) => annotations_problem(
                    page,
                    "Page "@ + decimal(page as nat) + " has an unreadable annotations array."@,
                ),
                Ok(PdfObject::Array(items)) => annotations_outcome(doc, page, items@, items@.len()),
                Ok(_) => annotations_problem(
                    page,
                    "Page "@ + decimal(page as nat) + " annotations are not an array."@,
                ),
            },
        },
    }
}

/// What the given pages contribute, in page order.
pub open spec fn pages_outcome(doc: PdfDocument, pages: Seq<(u32, ObjectId)>) -> Outcome
    decreases pages.len(),
{
    if pages.len() == 0 {
        no_outcome()
    } else {
        join(
            pages_outcome(doc, pages.drop_last()),
            page_outcome(doc, pages.last().0, pages.last().1),
        )
    }
}

pub open spec fn outcome_of(links: Seq<LinkRecord>, findings: Seq<Finding>) -> Outcome {
    Outcome { links: links_view(links), findings: findings_view(findings) }
}

fn push_link_finding(l: &LinkRecord, findings: &mut Vec<Finding>)
    ensures
        findings_view(final(findings)@) == findings_view(old(findings)@) + link_findings(l@),
{
    let is_broken = l.status == LinkStatus::Broken;
    let is_warning = l.status == LinkStatus::Warning;
    if !is_broken && !is_warning {
        assert(findings_view(findings@) =~= findings_view(findings@) + link_findings(l@));
        return;
    }
    let mut m = String::new();
    m.append("Link ");
    m.append(l.id.as_str());
    m.append(" on page ");
    push_decimal(&mut m, l.source_page as u64);
    m.append(": ");
    match &l.note {
        Some(n) => m.append(n.as_str()),
        None => if is_broken {
            m.append("invalid destination")
        } else {
            m.append("unsupported action")
        },
    }
    let ghost prev = findings@;
    if is_broken {
        assert(m@ =~= link_problem_text(l@, "invalid destination"@));
        findings.push(finding("broken_link", Severity::Error, m));
    } else {
        assert(m@ =~= link_problem_text(l@, "unsupported action"@));
        findings.push(finding("unsupported_link", Severity::Warning, m));
    }
    assert(findings_view(findings@) =~= findings_view(prev) + link_findings(l@));
}

/// Adds what one annotation of a page contributes.
fn process_annotation(
    r: &Resolver,
    page: u32,
    index: usize,
    annotation: &PdfObject,
    links: &mut Vec<LinkRecord>,
    findings: &mut Vec<Finding>,
)
    requires
        index < usize::MAX,
    ensures
        outcome_of(final(links)@, final(findings)@) == join(
            outcome_of(old(links)@, old(findings)@),
            annotation_outcome(r.document(), page, index as nat, *annotation),
        ),
{
    let ghost start = outcome_of(links@, findings@);
    let ghost out = annotation_outcome(r.document(), page, index as nat, *annotation);
    let doc = r.doc();
    let mut id = String::new();
    id.append("p");
    push_decimal(&mut id, page as u64);
    id.append("-l");
    push_decimal(&mut id, (index + 1) as u64);
    assert(id@ =~= link_id(page, index as nat));
    let annotation = match doc.deref(annotation) {
        Ok(a) => a,
        Err(_) => {
            links.push(broken_link(id, page, "Unreadable annotation object."));
            assert(outcome_of(links@, findings@) =~= join(start, out));
            return;
        },
    };
    let dict = match annotation {
        PdfObject::Dictionary(d) => d,
        _ => {
            assert(outcome_of(links@, findings@) =~= join(start, out));
            return;
        },
    };
    let is_link = match dict.get("Subtype".as_bytes()) {
        Some(PdfObject::Name(v)) => bytes_eq(v.as_slice(), "Link".as_bytes()),
        _ => false,
    };
    if !is_link {
        assert(outcome_of(links@, findings@) =~= join(start, out));
        return;
    }
    let rect = parse_rect(dict.get("Rect".as_bytes()));
    let mut link = inspect_link(r, dict, page, id, rect);
    push_link_finding(&link, findings);
    link.rect = rect;
    links.push(link);
    assert(outcome_of(links@, findings@) =~= join(start, out));
}

/// Adds what one page contributes.
pub fn process_page(
    r: &Resolver,
    page: u32,
    page_id: ObjectId,
    links: &mut Vec<LinkRecord>,
    findings: &mut Vec<Finding>,
)
    ensures
        outcome_of(final(links)@, final(findings)@) == join(
            outcome_of(old(links)@, old(findings)@),
            page_outcome(r.document(), page, page_id),
        ),
{
    let ghost start = outcome_of(links@, findings@);
    let ghost doc_v = r.document();
    let doc = r.doc();
    let page_dict = match doc.get_object(page_id) {
        Err(e) => Err(e),
        Ok(o) => as_dict(o),
    };
    let dict = match page_dict {
        Err(e) => {
            let mut m = String::new();
            m.append("Page ");
            push_decimal(&mut m, page as u64);
            m.append(" could not be inspected: ");
            push_lookup_error(&mut m, e);
            findings.push(finding("malformed_page", Severity::Warning, m));
            assert(outcome_of(links@, findings@) =~= join(start, page_outcome(doc_v, page, page_id)));
            return;
        },
        Ok(d) => d,
    };
    let annots = match dict.get("Annots".as_bytes()) {
        Some(a) => a,
        None => {
            assert(outcome_of(links@, findings@) =~= join(start, page_outcome(doc_v, page, page_id)));
            return;
        },
    };
    let annots = match doc.deref(annots) {
        Ok(a) => a,
        Err(_) => {
            let mut m = String::new();
            m.append("Page ");
            push_decimal(&mut m, page as u64);
            m.append(" has an unreadable annotations array.");
            findings.push(finding("malformed_annotations", Severity::Warning, m));
            assert(outcome_of(links@, findings@) =~= join(start, page_outcome(doc_v, page, page_id)));
            return;
        },
    };
    let items = match annots {
        PdfObject::Array(items) => items,
        _ => {
            let mut m = String::new();
            m.append("Page ");
            push_decimal(&mut m, page as u64);
            m.append(" annotations are not an array.");
            findings.push(finding("malformed_annotations", Severity::Warning, m));
            assert(outcome_of(links@, findings@) =~= join(start, page_outcome(doc_v, page, page_id)));
            return;
        },
    };
    let mut i: usize = 0;
    assert(join(start, annotations_outcome(doc_v, page, items@, 0)) =~= start);
    while i < items.len()
        invariant
            doc_v == r.document(),
            i <= items@.len(),
            outcome_of(links@, findings@) == join(start, annotations_outcome(doc_v, page, items@, i as nat)),
        decreases items.len() - i,
    {
        process_annotation(r, page, i, &items[i], links, findings);
        assert(outcome_of(links@, findings@) =~= join(start, annotations_outcome(doc_v, page, items@, (i + 1) as nat)));
        i = i + 1;
    }
}

} // verus!
