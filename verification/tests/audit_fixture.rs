use pdf_link_map::{
    audit_document, AuditError, AuditReport, LinkKind, LinkStatus, ManifestHeading, PdfDict,
    PdfDocument, PdfObject, RectNumber, Severity,
};

fn name(value: &str) -> PdfObject {
    PdfObject::Name(value.as_bytes().to_vec())
}

fn text(value: &str) -> PdfObject {
    PdfObject::String(value.as_bytes().to_vec())
}

fn dict(entries: Vec<(&str, PdfObject)>) -> PdfDict {
    PdfDict {
        entries: entries
            .into_iter()
            .map(|(k, v)| (k.as_bytes().to_vec(), v))
            .collect(),
    }
}

fn rect(a: i64, b: i64, c: i64, d: i64) -> PdfObject {
    PdfObject::Array(vec![
        PdfObject::Integer(a),
        PdfObject::Integer(b),
        PdfObject::Integer(c),
        PdfObject::Integer(d),
    ])
}

fn link(dest: PdfObject) -> PdfObject {
    PdfObject::Dictionary(dict(vec![
        ("Type", name("Annot")),
        ("Subtype", name("Link")),
        ("Rect", rect(0, 0, 100, 20)),
        ("Dest", dest),
    ]))
}

fn action_link(action: PdfDict) -> PdfObject {
    PdfObject::Dictionary(dict(vec![
        ("Type", name("Annot")),
        ("Subtype", name("Link")),
        ("Rect", rect(0, 20, 100, 40)),
        ("A", PdfObject::Dictionary(action)),
    ]))
}

fn uri(value: &str) -> PdfObject {
    action_link(dict(vec![("S", name("URI")), ("URI", text(value))]))
}

fn page(annots: Option<Vec<PdfObject>>) -> PdfObject {
    let mut entries = vec![
        ("Type", name("Page")),
        ("Parent", PdfObject::Reference((1, 0))),
        ("MediaBox", rect(0, 0, 612, 792)),
        ("Resources", PdfObject::Dictionary(dict(vec![]))),
    ];
    if let Some(a) = annots {
        entries.push(("Annots", PdfObject::Array(a)));
    }
    PdfObject::Dictionary(dict(entries))
}

/// A two-page document whose first page links to a named destination, to a
/// missing named destination and to a web address, with a name tree that
/// defines "duplicate" twice.
fn fixture_with(annots: Vec<PdfObject>, names: Vec<PdfObject>) -> PdfDocument {
    PdfDocument {
        objects: vec![
            (
                (1, 0),
                PdfObject::Dictionary(dict(vec![
                    ("Type", name("Pages")),
                    (
                        "Kids",
                        PdfObject::Array(vec![PdfObject::Reference((2, 0)), PdfObject::Reference((3, 0))]),
                    ),
                    ("Count", PdfObject::Integer(2)),
                ])),
            ),
            ((2, 0), page(Some(annots))),
            ((3, 0), page(None)),
            ((4, 0), PdfObject::Stream(dict(vec![]))),
            ((5, 0), PdfObject::Stream(dict(vec![]))),
            (
                (6, 0),
                PdfObject::Dictionary(dict(vec![
                    ("Type", name("Catalog")),
                    ("Pages", PdfObject::Reference((1, 0))),
                    (
                        "Names",
                        PdfObject::Dictionary(dict(vec![(
                            "Dests",
                            PdfObject::Dictionary(dict(vec![("Names", PdfObject::Array(names))])),
                        )])),
                    ),
                ])),
            ),
        ],
        trailer: dict(vec![("Root", PdfObject::Reference((6, 0))), ("Size", PdfObject::Integer(7))]),
        pages: vec![(1, (2, 0)), (2, (3, 0))],
    }
}

fn fit_page_two() -> PdfObject {
    PdfObject::Array(vec![PdfObject::Reference((3, 0)), name("Fit")])
}

fn fixture() -> PdfDocument {
    fixture_with(
        vec![link(text("install")), link(text("missing-anchor")), uri("https://example.test/docs")],
        vec![
            text("install"),
            fit_page_two(),
            text("duplicate"),
            fit_page_two(),
            text("duplicate"),
            fit_page_two(),
        ],
    )
}

fn heading(title: &str, anchor: Option<&str>, page: Option<u32>) -> ManifestHeading {
    ManifestHeading { title: title.to_string(), anchor: anchor.map(|a| a.to_string()), page }
}

fn audit(doc: &PdfDocument, manifest: Option<Vec<ManifestHeading>>) -> AuditReport {
    match audit_document(doc, "converted.pdf".to_string(), manifest.map(Ok)) {
        Ok(r) => r,
        Err(e) => panic!("audit failed: {}", e.message()),
    }
}

fn codes(report: &AuditReport) -> Vec<String> {
    report.findings.iter().map(|f| f.code.clone()).collect()
}

#[test]
fn catches_every_deliberately_broken_fixture_link() {
    let doc = fixture();
    let manifest = vec![
        heading("Install", Some("install"), Some(2)),
        heading("Lost chapter", Some("lost"), None),
    ];
    let report = audit(&doc, Some(manifest));
    assert_eq!(report.summary.total_links, 3);
    assert_eq!(
        report
            .links
            .iter()
            .filter(|link| link.status == LinkStatus::Broken)
            .count(),
        1
    );
    assert_eq!(
        report
            .links
            .iter()
            .filter(|link| link.kind == LinkKind::External)
            .count(),
        1
    );
    assert!(report.findings.iter().any(|finding| finding.code == "duplicate_destination"));
    assert!(report.findings.iter().any(|finding| finding.code == "missing_manifest_anchor"));
    assert_eq!(report.links[0].target_page, Some(2));
}

#[test]
fn no_annotation_pdf_has_an_actionable_empty_state() {
    let doc = PdfDocument {
        objects: vec![
            (
                (1, 0),
                PdfObject::Dictionary(dict(vec![
                    ("Type", name("Pages")),
                    ("Kids", PdfObject::Array(vec![PdfObject::Reference((2, 0))])),
                    ("Count", PdfObject::Integer(1)),
                ])),
            ),
            ((2, 0), page(None)),
            ((3, 0), PdfObject::Stream(dict(vec![]))),
            (
                (4, 0),
                PdfObject::Dictionary(dict(vec![
                    ("Type", name("Catalog")),
                    ("Pages", PdfObject::Reference((1, 0))),
                ])),
            ),
        ],
        trailer: dict(vec![("Root", PdfObject::Reference((4, 0)))]),
        pages: vec![(1, (2, 0))],
    };
    let report = audit(&doc, None);
    assert_eq!(report.summary.total_links, 0);
    assert!(report.findings.iter().any(|finding| finding.code == "no_links"));
}

#[test]
fn fixture_report_records_every_link_in_order() {
    let report = audit(&fixture(), None);
    let ids: Vec<&str> = report.links.iter().map(|l| l.id.as_str()).collect();
    assert_eq!(ids, vec!["p1-l1", "p1-l2", "p1-l3"]);
    assert_eq!(report.links[0].status, LinkStatus::Valid);
    assert_eq!(report.links[0].target, "install");
    assert_eq!(report.links[0].note, None);
    assert_eq!(
        report.links[0].rect,
        Some([RectNumber::Integer(0), RectNumber::Integer(0), RectNumber::Integer(100), RectNumber::Integer(20)])
    );
    assert_eq!(report.links[1].target, "missing-anchor");
    assert_eq!(report.links[1].target_page, None);
    assert_eq!(
        report.links[1].note.as_deref(),
        Some("Destination “missing-anchor” does not resolve to a page.")
    );
    assert_eq!(report.links[2].kind, LinkKind::External);
    assert_eq!(report.links[2].status, LinkStatus::External);
    assert_eq!(report.links[2].target, "https://example.test/docs");
    assert_eq!(report.links[2].note.as_deref(), Some("Recorded only; never requested."));
    assert_eq!(report.schema_version, 1);
    assert_eq!(report.pages, 2);
    assert_eq!(report.input, "converted.pdf");
}

#[test]
fn fixture_findings_come_in_report_order() {
    let report = audit(&fixture(), None);
    assert_eq!(codes(&report), vec!["duplicate_destination", "broken_link"]);
    assert_eq!(
        report.findings[0].message,
        "Named destination “duplicate” is defined more than once."
    );
    assert_eq!(report.findings[0].severity, Severity::Error);
    assert_eq!(
        report.findings[1].message,
        "Link p1-l2 on page 1: Destination “missing-anchor” does not resolve to a page."
    );
    assert_eq!(report.summary.broken, 2);
    assert_eq!(report.summary.warnings, 0);
    assert_eq!(report.summary.internal_links, 2);
    assert_eq!(report.summary.external_links, 1);
    assert_eq!(report.summary.valid_internal, 1);
}

#[test]
fn destinations_are_sorted_by_name_and_marked_valid() {
    let report = audit(&fixture(), None);
    let names: Vec<&str> = report.destinations.iter().map(|d| d.name.as_str()).collect();
    assert_eq!(names, vec!["duplicate", "duplicate", "install"]);
    assert!(report.destinations.iter().all(|d| d.valid == d.page.is_some()));
    assert!(report.destinations.iter().all(|d| d.page == Some(2)));
}

#[test]
fn summary_counts_agree_with_the_lists() {
    let report = audit(&fixture(), Some(vec![heading("Lost", Some("lost"), None)]));
    assert_eq!(report.summary.total_links, report.links.len());
    assert_eq!(report.summary.broken + report.summary.warnings, report.findings.len());
    for l in &report.links {
        assert_eq!(l.kind == LinkKind::External, l.status == LinkStatus::External);
        assert_eq!(l.kind == LinkKind::Unsupported, l.status == LinkStatus::Warning);
        assert_eq!(l.target_page.is_some(), l.status == LinkStatus::Valid);
    }
}

#[test]
fn a_name_defined_three_times_is_reported_once() {
    let doc = fixture_with(
        vec![link(text("x"))],
        vec![text("x"), fit_page_two(), text("x"), fit_page_two(), text("x"), fit_page_two()],
    );
    let report = audit(&doc, None);
    assert_eq!(codes(&report), vec!["duplicate_destination"]);
}

#[test]
fn manifest_page_mismatch_names_both_pages() {
    let report = audit(&fixture(), Some(vec![heading("Install", Some("install"), Some(5))]));
    let f = report.findings.iter().find(|f| f.code == "manifest_page_mismatch").unwrap();
    assert_eq!(
        f.message,
        "Manifest heading “Install” expects page 5, destination “install” resolves to 2."
    );
    assert_eq!(f.severity, Severity::Error);
}

#[test]
fn manifest_heading_without_anchor_is_not_checked() {
    let report = audit(&fixture(), Some(vec![heading("Intro", None, Some(9))]));
    assert_eq!(codes(&report), vec!["duplicate_destination", "broken_link"]);
}

#[test]
fn missing_anchor_message_names_heading_and_anchor() {
    let report = audit(&fixture(), Some(vec![heading("Lost chapter", Some("lost"), None)]));
    let f = report.findings.last().unwrap();
    assert_eq!(f.code, "missing_manifest_anchor");
    assert_eq!(f.message, "Manifest heading “Lost chapter” expects missing destination “lost”.");
}

#[test]
fn encrypted_documents_are_refused() {
    let mut doc = fixture();
    doc.objects.push(((7, 0), PdfObject::Dictionary(dict(vec![("Filter", name("Standard"))]))));
    doc.trailer.entries.push((b"Encrypt".to_vec(), PdfObject::Reference((7, 0))));
    match audit_document(&doc, "secret.pdf".to_string(), Some(Err(AuditError::Manifest("unread".to_string())))) {
        Err(AuditError::Pdf(m)) => {
            assert_eq!(m, "Encrypted PDFs are not supported; decrypt a copy before auditing.")
        }
        _ => panic!("an encrypted document must be refused"),
    }
}

#[test]
fn an_unreadable_manifest_fails_the_audit() {
    let doc = fixture();
    match audit_document(&doc, "x.pdf".to_string(), Some(Err(AuditError::Manifest("bad manifest".to_string())))) {
        Err(AuditError::Manifest(m)) => assert_eq!(m, "bad manifest"),
        _ => panic!("the manifest error must be returned"),
    }
}

#[test]
fn empty_document_gets_both_warnings() {
    let doc = PdfDocument { objects: vec![], trailer: dict(vec![]), pages: vec![] };
    let report = audit(&doc, None);
    assert_eq!(codes(&report), vec!["empty_pdf", "no_links"]);
    assert_eq!(report.findings[0].message, "The PDF has no pages.");
    assert_eq!(report.summary.warnings, 2);
    assert!(report.destinations.is_empty());
}

#[test]
fn invalid_named_destination_is_reported() {
    let doc = fixture_with(vec![link(text("gone"))], vec![text("gone"), PdfObject::Array(vec![PdfObject::Reference((9, 0))])]);
    let report = audit(&doc, None);
    assert_eq!(codes(&report), vec!["invalid_destination", "broken_link"]);
    assert_eq!(report.findings[0].message, "Named destination “gone” does not resolve to a page.");
    assert_eq!(report.destinations[0].valid, false);
}

#[test]
fn explicit_destinations_resolve_by_reference_and_by_index() {
    let doc = fixture_with(
        vec![
            link(PdfObject::Array(vec![PdfObject::Reference((2, 0)), name("Fit")])),
            link(PdfObject::Array(vec![PdfObject::Integer(1), name("Fit")])),
            link(PdfObject::Array(vec![PdfObject::Integer(2), name("Fit")])),
            link(PdfObject::Array(vec![PdfObject::Integer(-1)])),
            link(PdfObject::Array(vec![PdfObject::Integer(4294967295)])),
            link(PdfObject::Array(vec![PdfObject::Integer(4294967296)])),
            link(PdfObject::Array(vec![PdfObject::Integer(0)])),
        ],
        vec![],
    );
    let report = audit(&doc, None);
    let pages: Vec<Option<u32>> = report.links.iter().map(|l| l.target_page).collect();
    assert_eq!(pages, vec![Some(1), Some(2), None, None, None, None, Some(1)]);
    assert_eq!(report.links[0].target, "explicit destination");
    assert_eq!(
        report.links[2].note.as_deref(),
        Some("Destination “explicit destination” does not resolve to a page.")
    );
}

#[test]
fn page_indices_never_wrap_into_a_document_without_pages() {
    let mut doc = fixture_with(
        vec![
            link(PdfObject::Array(vec![PdfObject::Integer(4294967295)])),
            link(PdfObject::Array(vec![PdfObject::Integer(4294967296)])),
            link(PdfObject::Array(vec![PdfObject::Integer(0)])),
        ],
        vec![],
    );
    doc.pages = vec![(1, (2, 0))];
    let report = audit(&doc, None);
    let pages: Vec<Option<u32>> = report.links.iter().map(|l| l.target_page).collect();
    assert_eq!(pages, vec![None, None, Some(1)]);
}

#[test]
fn action_links_cover_goto_unsupported_and_broken_actions() {
    let doc = fixture_with(
        vec![
            action_link(dict(vec![("S", name("GoTo")), ("D", text("install"))])),
            action_link(dict(vec![("S", PdfObject::Name(vec![b'L', 0xFF]))])),
            action_link(dict(vec![("S", name("URI"))])),
            action_link(dict(vec![("S", name("GoTo"))])),
            PdfObject::Dictionary(dict(vec![("Subtype", name("Link"))])),
            PdfObject::Dictionary(dict(vec![("Subtype", name("Link")), ("A", PdfObject::Integer(3))])),
            PdfObject::Dictionary(dict(vec![("Subtype", name("Link")), ("A", PdfObject::Reference((40, 0)))])),
            PdfObject::Reference((41, 0)),
            PdfObject::Dictionary(dict(vec![("Subtype", name("Widget"))])),
        ],
        vec![text("install"), fit_page_two()],
    );
    let report = audit(&doc, None);
    assert_eq!(report.links.len(), 8);
    assert_eq!(report.links[0].status, LinkStatus::Valid);
    assert_eq!(report.links[0].target_page, Some(2));
    assert_eq!(report.links[1].kind, LinkKind::Unsupported);
    assert_eq!(report.links[1].status, LinkStatus::Warning);
    assert_eq!(report.links[1].target, "/L\u{FFFD}");
    let notes: Vec<Option<&str>> = report.links[2..].iter().map(|l| l.note.as_deref()).collect();
    assert_eq!(
        notes,
        vec![
            Some("URI action has no target."),
            Some("GoTo action has no destination."),
            Some("Link has neither /Dest nor /A."),
            Some("Link action is not a dictionary."),
            Some("Link action cannot be read."),
            Some("Unreadable annotation object."),
        ]
    );
    assert_eq!(report.links[7].id, "p1-l8");
    assert_eq!(report.links[7].rect, None);
    assert_eq!(report.links[2].target, "unresolved");
    let unsupported = report.findings.iter().find(|f| f.code == "unsupported_link").unwrap();
    assert_eq!(unsupported.severity, Severity::Warning);
    assert_eq!(
        unsupported.message,
        "Link p1-l2 on page 1: Action type is recorded but not validated in v1."
    );
    // An unreadable annotation object is recorded as a broken link without a finding.
    assert_eq!(report.findings.iter().filter(|f| f.code == "broken_link").count(), 5);
}

#[test]
fn malformed_pages_and_annotation_arrays_are_reported() {
    let mut doc = fixture();
    doc.pages = vec![(1, (2, 0)), (2, (3, 0)), (3, (8, 0)), (4, (4, 0))];
    if let PdfObject::Dictionary(d) = &mut doc.objects[2].1 {
        d.entries.push((b"Annots".to_vec(), PdfObject::Integer(7)));
    }
    let report = audit(&doc, None);
    let messages: Vec<&str> = report
        .findings
        .iter()
        .filter(|f| f.code.starts_with("malformed"))
        .map(|f| f.message.as_str())
        .collect();
    assert_eq!(
        messages,
        vec![
            "Page 2 annotations are not an array.",
            "Page 3 could not be inspected: object ID 8 0 not found",
            "Page 4 could not be inspected: object has wrong type; expected type Dictionary but found type Stream",
        ]
    );
}

#[test]
fn a_reference_cycle_is_reported_as_unreadable() {
    let mut doc = fixture();
    doc.objects.push(((20, 0), PdfObject::Reference((21, 0))));
    doc.objects.push(((21, 0), PdfObject::Reference((20, 0))));
    doc.pages = vec![(1, (20, 0))];
    let report = audit(&doc, None);
    assert_eq!(
        report.findings.iter().find(|f| f.code == "malformed_page").unwrap().message,
        "Page 1 could not be inspected: dereferencing object reached limit, may indicate a reference cycle"
    );
}
