use lopdf::{Dictionary, Document, Object, Stream};
use pdf_link_map::{
    audit_document, parse_document, parse_outcome, AuditError, LinkKind, LinkStatus, ManifestHeading,
    PdfDict, PdfDocument,
};

fn name(value: &str) -> Object {
    Object::Name(value.as_bytes().to_vec())
}

fn text(value: &str) -> Object {
    Object::string_literal(value)
}

fn rect(values: [i64; 4]) -> Object {
    Object::Array(values.iter().map(|v| Object::Integer(*v)).collect())
}

fn link(dest: Object) -> Object {
    let mut d = Dictionary::new();
    d.set("Type", name("Annot"));
    d.set("Subtype", name("Link"));
    d.set("Rect", rect([0, 0, 100, 20]));
    d.set("Dest", dest);
    Object::Dictionary(d)
}

fn uri(value: &str) -> Object {
    let mut action = Dictionary::new();
    action.set("S", name("URI"));
    action.set("URI", Object::string_literal(value));
    let mut d = Dictionary::new();
    d.set("Type", name("Annot"));
    d.set("Subtype", name("Link"));
    d.set("Rect", rect([0, 20, 100, 40]));
    d.set("A", Object::Dictionary(action));
    Object::Dictionary(d)
}

/// The two-page fixture: links to "install", "missing-anchor" and a web
/// address, and a name tree that defines "duplicate" twice.
fn fixture_bytes() -> Vec<u8> {
    let mut doc = Document::with_version("1.7");
    let pages_id = doc.new_object_id();
    let page_one = doc.new_object_id();
    let page_two = doc.new_object_id();
    let content_one = doc.add_object(Stream::new(Dictionary::new(), Vec::new()));
    let content_two = doc.add_object(Stream::new(Dictionary::new(), Vec::new()));
    let destination = Object::Array(vec![Object::Reference(page_two), name("Fit")]);
    let mut one = Dictionary::new();
    one.set("Type", name("Page"));
    one.set("Parent", Object::Reference(pages_id));
    one.set("MediaBox", rect([0, 0, 612, 792]));
    one.set("Resources", Object::Dictionary(Dictionary::new()));
    one.set("Contents", Object::Reference(content_one));
    one.set(
        "Annots",
        Object::Array(vec![link(text("install")), link(text("missing-anchor")), uri("https://example.test/docs")]),
    );
    doc.objects.insert(page_one, Object::Dictionary(one));
    let mut two = Dictionary::new();
    two.set("Type", name("Page"));
    two.set("Parent", Object::Reference(pages_id));
    two.set("MediaBox", rect([0, 0, 612, 792]));
    two.set("Resources", Object::Dictionary(Dictionary::new()));
    two.set("Contents", Object::Reference(content_two));
    doc.objects.insert(page_two, Object::Dictionary(two));
    let mut pages = Dictionary::new();
    pages.set("Type", name("Pages"));
    pages.set("Kids", Object::Array(vec![Object::Reference(page_one), Object::Reference(page_two)]));
    pages.set("Count", Object::Integer(2));
    doc.objects.insert(pages_id, Object::Dictionary(pages));
    let names = vec![
        text("install"),
        destination.clone(),
        text("duplicate"),
        destination.clone(),
        text("duplicate"),
        destination,
    ];
    let mut tree = Dictionary::new();
    tree.set("Names", Object::Array(names));
    let mut name_dict = Dictionary::new();
    name_dict.set("Dests", Object::Dictionary(tree));
    let mut catalog = Dictionary::new();
    catalog.set("Type", name("Catalog"));
    catalog.set("Pages", Object::Reference(pages_id));
    catalog.set("Names", Object::Dictionary(name_dict));
    let catalog_id = doc.add_object(Object::Dictionary(catalog));
    doc.trailer.set("Root", Object::Reference(catalog_id));
    doc.compress();
    let mut bytes = Vec::new();
    doc.save_to(&mut bytes).unwrap();
    bytes
}

fn heading(title: &str, anchor: Option<&str>, page: Option<u32>) -> ManifestHeading {
    ManifestHeading { title: title.to_string(), anchor: anchor.map(|a| a.to_string()), page }
}

#[test]
fn parsed_fixture_is_audited_like_the_document() {
    let manifest = vec![heading("Install", Some("install"), Some(2)), heading("Lost chapter", Some("lost"), None)];
    let input = "converted.pdf".to_string();
    let doc = match parse_document(&fixture_bytes(), &input) {
        Ok(d) => d,
        Err(e) => panic!("{}", e.message()),
    };
    let report = match audit_document(&doc, input, Some(Ok(manifest))) {
        Ok(r) => r,
        Err(e) => panic!("{}", e.message()),
    };
    assert_eq!(report.summary.total_links, 3);
    assert_eq!(report.links.iter().filter(|l| l.status == LinkStatus::Broken).count(), 1);
    assert_eq!(report.links.iter().filter(|l| l.kind == LinkKind::External).count(), 1);
    assert!(report.findings.iter().any(|f| f.code == "duplicate_destination"));
    assert!(report.findings.iter().any(|f| f.code == "missing_manifest_anchor"));
    assert_eq!(report.links[0].target_page, Some(2));
    assert_eq!(report.pages, 2);
}

#[test]
fn bytes_that_are_not_a_pdf_are_refused() {
    match parse_document(b"not a pdf", &"bad.pdf".to_string()) {
        Err(AuditError::Pdf(m)) => assert!(m.starts_with("Could not parse bad.pdf: "), "{m}"),
        _ => panic!("bytes that are not a PDF must be refused"),
    }
}

#[test]
fn parse_failure_names_the_input_and_the_reason() {
    match parse_outcome(Err("invalid file header".to_string()), &"report.pdf".to_string()) {
        Err(AuditError::Pdf(m)) => assert_eq!(m, "Could not parse report.pdf: invalid file header"),
        _ => panic!("a parse failure must be a PDF error"),
    }
}

#[test]
fn parsed_document_is_passed_on_unchanged() {
    let doc = PdfDocument { objects: vec![], trailer: PdfDict { entries: vec![] }, pages: vec![(1, (3, 0))] };
    match parse_outcome(Ok(doc), &"report.pdf".to_string()) {
        Ok(d) => assert_eq!(d.pages, vec![(1, (3, 0))]),
        Err(e) => panic!("{}", e.message()),
    }
}
