use pdf_link_map::{
    esc, finding, is_safe_external, render_html, AuditReport, LinkKind, LinkRecord, LinkStatus,
    Severity, Summary,
};

fn report_with(input: &str, links: Vec<LinkRecord>) -> AuditReport {
    AuditReport {
        schema_version: 1,
        input: input.into(),
        pages: 1,
        summary: Summary::default(),
        links,
        destinations: vec![],
        findings: vec![],
    }
}

fn external(target: &str) -> LinkRecord {
    LinkRecord {
        id: "x".into(),
        source_page: 1,
        kind: LinkKind::External,
        target: target.into(),
        target_page: None,
        status: LinkStatus::External,
        note: None,
        rect: None,
    }
}

fn internal(target_page: Option<u32>) -> LinkRecord {
    LinkRecord {
        id: "p1-l1".into(),
        source_page: 1,
        kind: LinkKind::Internal,
        target: "install".into(),
        target_page,
        status: if target_page.is_some() { LinkStatus::Valid } else { LinkStatus::Broken },
        note: None,
        rect: None,
    }
}

#[test]
fn unsafe_uri_is_not_clickable() {
    let mut report = report_with("x.pdf", vec![]);
    report.links.push(external("javascript:alert(1)"));
    let html = render_html(&report);
    assert!(!html.contains("href=\"javascript:"));
}

#[test]
fn safe_uri_is_clickable_and_escaped() {
    let report = report_with("x.pdf", vec![external("https://example.test/?a=1&b=\"2\"")]);
    let html = render_html(&report);
    assert!(html.contains(
        "<a href=\"https://example.test/?a=1&amp;b=&quot;2&quot;\" rel=\"noreferrer\">https://example.test/?a=1&amp;b=&quot;2&quot;</a>"
    ));
    assert!(html.contains("<span class=\"status External\">↗ External</span>"));
}

#[test]
fn internal_links_point_into_the_document() {
    let relative = render_html(&report_with("docs/x.pdf", vec![internal(Some(2))]));
    assert!(relative.contains("<a href=\"./docs/x.pdf#page=2\">page 2</a>"));
    let absolute = render_html(&report_with("/srv/x.pdf", vec![internal(Some(3))]));
    assert!(absolute.contains("<a href=\"/srv/x.pdf#page=3\">page 3</a>"));
    let broken = render_html(&report_with("x.pdf", vec![internal(None)]));
    assert!(broken.contains("<td>install</td><td><span class=\"status Broken\">✕ Broken</span></td><td>—</td>"));
}

#[test]
fn title_uses_the_file_name() {
    let html = render_html(&report_with("/tmp/work/handbook.pdf", vec![]));
    assert!(html.contains("<title>Link map — handbook.pdf</title>"));
    assert!(html.contains("<h1>Link map — handbook.pdf</h1>"));
    assert!(html.contains("<code>/tmp/work/handbook.pdf</code> · 1 pages · generated locally"));
}

#[test]
fn empty_report_has_placeholders() {
    let html = render_html(&report_with("x.pdf", vec![]));
    assert!(html.starts_with("<!doctype html><html lang=\"en\">"));
    assert!(html.ends_with("</footer></main></body></html>"));
    assert!(html.contains("<tbody><tr><td colspan=\"5\" class=\"empty\">No link annotations found.</td></tr></tbody>"));
    assert!(html.contains("<ul><li>✓ No findings.</li></ul>"));
    assert!(html.contains("<h2>Annotation map</h2>"));
}

#[test]
fn findings_and_counts_are_listed() {
    let mut report = report_with("x.pdf", vec![internal(Some(1))]);
    report.findings.push(finding("broken_link", Severity::Error, "Link <b> & more".to_string()));
    report.summary = Summary { total_links: 1, internal_links: 1, external_links: 0, valid_internal: 1, broken: 1, warnings: 0 };
    let html = render_html(&report);
    assert!(html.contains("<li><strong>broken_link</strong> Link &lt;b&gt; &amp; more</li>"));
    assert!(html.contains("<strong>1</strong>links"));
    assert!(html.contains("<strong>1</strong>broken"));
    assert!(html.contains("<tr><td>1</td><td>p1-l1</td>"));
}

#[test]
fn escaping_replaces_markup_characters() {
    assert_eq!(esc("a<b>&\"c'"), "a&lt;b&gt;&amp;&quot;c&#39;");
    assert_eq!(esc("plain text — ok"), "plain text — ok");
    let e = esc("<script>\"'");
    assert!(!e.contains('<') && !e.contains('>') && !e.contains('"') && !e.contains('\''));
}

#[test]
fn only_web_and_mail_addresses_are_safe() {
    assert!(is_safe_external("https://example.test"));
    assert!(is_safe_external("http://example.test"));
    assert!(is_safe_external("mailto:team@example.test"));
    assert!(!is_safe_external("javascript:alert(1)"));
    assert!(!is_safe_external("ftp://example.test"));
    assert!(!is_safe_external("HTTPS://example.test"));
    assert!(!is_safe_external(""));
}

#[test]
fn escaping_keeps_different_texts_apart() {
    assert_ne!(esc("&lt;"), esc("<"));
    assert_eq!(esc("&lt;"), "&amp;lt;");
    assert_eq!(esc("<"), "&lt;");
}

#[test]
fn an_unsafe_address_with_a_page_links_only_to_the_document() {
    let mut l = external("javascript:alert(1)");
    l.target_page = Some(4);
    let html = render_html(&report_with("x.pdf", vec![l]));
    assert!(!html.contains("href=\"javascript:"));
    assert!(html.contains("<a href=\"./x.pdf#page=4\">page 4</a>"));
}

#[test]
fn every_ampersand_in_escaped_text_begins_an_entity() {
    let e = esc("Tom & Jerry <&amp;> \"quoted\" 'x' &&");
    let entities = ["&amp;", "&lt;", "&gt;", "&quot;", "&#39;"];
    for (i, _) in e.match_indices('&') {
        assert!(entities.iter().any(|x| e[i..].starts_with(x)), "bare & at {i} in {e}");
    }
    assert_eq!(e.matches('&').count(), 10);
}
