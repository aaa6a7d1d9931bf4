//! The standalone HTML map of a report.

use vstd::prelude::*;
use crate::report::{AuditReport, FindingView, LinkKind, LinkStatus, LinkRecord, LinkView, ReportView};
use crate::links::note_or;
use crate::paths::{absolute_path, file_name_text, path_file_name, path_is_absolute};
use crate::text::{decimal, escape_html, esc, is_safe_external, push_decimal, safe_external};

verus! {

pub const PAGE_HEAD: &'static str = "<!doctype html><html lang=\"en\"><head><meta charset=\"utf-8\"><meta name=\"viewport\" content=\"width=device-width,initial-scale=1\"><title>";
pub const PAGE_STYLE: &'static str = "</title><style>\n:root{--paper:#f4eedb;--raised:#fffdf5;--ink:#19232b;--muted:#51616b;--rule:#a8c1c5;--red:#8e2d25;--blue:#1f5872;--green:#2d684e}*{box-sizing:border-box}body{margin:0;background:var(--paper);color:var(--ink);font:16px/1.55 system-ui,sans-serif;background-image:repeating-linear-gradient(0deg,transparent 0 31px,rgba(70,120,130,.16) 31px 32px)}main{width:min(1120px,calc(100% - 32px));margin:auto;padding:48px 0 80px}h1{font-size:clamp(2rem,6vw,3.5rem);margin:.2em 0}.summary{display:flex;flex-wrap:wrap;gap:16px;margin:28px 0}.metric{background:var(--raised);border:1px solid var(--rule);padding:12px 18px;box-shadow:3px 3px 0 var(--ink)}.metric strong{display:block;font-size:1.6rem}.table-wrap{overflow:auto;background:var(--raised)}.table-wrap:focus-visible{outline:3px solid var(--blue);outline-offset:3px}table{border-collapse:collapse;width:100%;min-width:760px}th,td{padding:12px;text-align:left;border-bottom:1px solid var(--rule)}th{background:#e4e5d5}a{color:var(--blue);font-weight:650}a:focus-visible{outline:3px solid var(--blue);outline-offset:3px}.status{font-weight:750}.Broken{color:var(--red)}.Valid{color:var(--green)}.empty{padding:32px;text-align:center}code{background:var(--raised);padding:2px 5px}footer{margin-top:48px;color:var(--muted)}@media print{body{background:white}main{width:100%;padding:0}}\n</style></head><body><main><p>PDF LINK MAP / LOCAL AUDIT</p><h1>";
pub const PAGE_INTRO: &'static str = "</h1><p><code>";
pub const PAGE_INPUT_END: &'static str = "</code> · ";
pub const PAGE_COUNT_END: &'static str = " pages · generated locally</p><section class=\"summary\" aria-label=\"Audit summary\"><div class=\"metric\"><strong>";
pub const LINKS_END: &'static str = "</strong>links</div><div class=\"metric\"><strong>";
pub const VALID_END: &'static str = "</strong>valid internal</div><div class=\"metric\"><strong>";
pub const EXTERNAL_END: &'static str = "</strong>external</div><div class=\"metric\"><strong>";
pub const TABLE_HEAD: &'static str = "</strong>broken</div></section><h2>Annotation map</h2><div class=\"table-wrap\" tabindex=\"0\" role=\"region\" aria-label=\"Scrollable annotation map\"><table><thead><tr><th>From page</th><th>ID</th><th>Destination</th><th>Status</th><th>Note</th></tr></thead><tbody>";
pub const TABLE_END: &'static str = "</tbody></table></div><h2>Findings</h2><ul>";
pub const PAGE_FOOT: &'static str = "</ul><footer>External addresses are listed without being requested. PDF Link Map never modifies the source file.</footer></main></body></html>";
pub const EMPTY_ROWS: &'static str = "<tr><td colspan=\"5\" class=\"empty\">No link annotations found.</td></tr>";
pub const NO_FINDINGS: &'static str = "<li>✓ No findings.</li>";

/// The label of a status in the map.
pub open spec fn status_label(s: LinkStatus) -> Seq<char> {
    match s {
        LinkStatus::Valid => "✓ Valid"@,
        LinkStatus::Broken => "✕ Broken"@,
        LinkStatus::External => "↗ External"@,
        LinkStatus::Warning => "! Review"@,
    }
}

/// The style class of a status: the status's own name.
pub open spec fn status_class(s: LinkStatus) -> Seq<char> {
    match s {
        LinkStatus::Valid => "Valid"@,
        LinkStatus::Broken => "Broken"@,
        LinkStatus::External => "External"@,
        LinkStatus::Warning => "Warning"@,
    }
}

fn status_label_str(s: LinkStatus) -> (r: &'static str)
    ensures
        r@ == status_label(s),
{
    match s {
        LinkStatus::Valid => "✓ Valid",
        LinkStatus::Broken => "✕ Broken",
        LinkStatus::External => "↗ External",
        LinkStatus::Warning => "! Review",
    }
}

fn status_class_str(s: LinkStatus) -> (r: &'static str)
    ensures
        r@ == status_class(s),
{
    match s {
        LinkStatus::Valid => "Valid",
        LinkStatus::Broken => "Broken",
        LinkStatus::External => "External",
        LinkStatus::Warning => "Warning",
    }
}

/// The address of the audited document as the map links to it.
pub open spec fn document_href(input: Seq<char>) -> Seq<char> {
    if absolute_path(input) {
        input
    } else {
        "./"@ + input
    }
}

/// The destination cell of a link: a clickable address for a web or mail
/// address, a link into the document for a resolved page, and plain escaped
/// text otherwise.
pub open spec fn target_cell(l: LinkView, input: Seq<char>) -> Seq<char> {
    if l.kind == LinkKind::External && safe_external(l.target) {
        "<a href=\""@ + escape_html(l.target) + "\" rel=\"noreferrer\">"@ + escape_html(l.target)
            + "</a>"@
    } else {
        match l.target_page {
            Some(p) => "<a href=\""@ + escape_html(document_href(input)) + "#page="@ + decimal(
                p as nat,
            ) + "\">page "@ + decimal(p as nat) + "</a>"@,
            None => escape_html(l.target),
        }
    }
}

/// The table row of a link.
pub open spec fn link_row(l: LinkView, input: Seq<char>) -> Seq<char> {
    "<tr><td>"@ + decimal(l.source_page as nat) + "</td><td>"@ + escape_html(l.id) + "</td><td>"@
        + target_cell(l, input) + "</td><td><span class=\"status "@ + status_class(l.status)
        + "\">"@ + status_label(l.status) + "</span></td><td>"@ + escape_html(
        note_or(l.note, "—"@),
    ) + "</td></tr>"@
}

pub open spec fn link_rows(ls: Seq<LinkView>, input: Seq<char>) -> Seq<char>
    decreases ls.len(),
{
    if ls.len() == 0 {
        Seq::empty()
    } else {
        link_rows(ls.drop_last(), input) + link_row(ls.last(), input)
    }
}

/// The list item of a finding.
pub open spec fn finding_item(f: FindingView) -> Seq<char> {
    "<li><strong>"@ + escape_html(f.code) + "</strong> "@ + escape_html(f.message) + "</li>"@
}

pub open spec fn finding_items(fs: Seq<FindingView>) -> Seq<char>
    decreases fs.len(),
{
    if fs.len() == 0 {
        Seq::empty()
    } else {
        finding_items(fs.drop_last()) + finding_item(fs.last())
    }
}

pub open spec fn or_else(s: Seq<char>, fallback: Seq<char>) -> Seq<char> {
    if s.len() == 0 {
        fallback
    } else {
        s
    }
}

/// The title of the map.
pub open spec fn map_title(input: Seq<char>) -> Seq<char> {
    "Link map — "@ + match file_name_text(input) {
        Some(n) => n,
        None => input,
    }
}

/// The whole map of a report.
pub open spec fn html_spec(r: ReportView) -> Seq<char> {
    let title = escape_html(map_title(r.input));
    PAGE_HEAD@ + title + PAGE_STYLE@ + title + PAGE_INTRO@ + escape_html(r.input) + PAGE_INPUT_END@
        + decimal(r.pages as nat) + PAGE_COUNT_END@ + decimal(r.summary.total_links as nat)
        + LINKS_END@ + decimal(r.summary.valid_internal as nat) + VALID_END@ + decimal(
        r.summary.external_links as nat,
    ) + EXTERNAL_END@ + decimal(r.summary.broken as nat) + TABLE_HEAD@ + or_else(
        link_rows(r.links, r.input),
        EMPTY_ROWS@,
    ) + TABLE_END@ + or_else(finding_items(r.findings), NO_FINDINGS@) + PAGE_FOOT@
}

fn push_target_cell(out: &mut String, l: &LinkRecord, input: &String)
    ensures
        final(out)@ == old(out)@ + target_cell(l@, input@),
{
    if l.kind == LinkKind::External && is_safe_external(l.target.as_str()) {
        let t = esc(l.target.as_str());
        out.append("<a href=\"");
        out.append(t.as_str());
        out.append("\" rel=\"noreferrer\">");
        out.append(t.as_str());
        out.append("</a>");
    } else {
        match l.target_page {
            Some(p) => {
                let href = if path_is_absolute(input.as_str()) {
                    input.clone()
                } else {
                    let mut h = String::new();
                    h.append("./");
                    h.append(input.as_str());
                    h
                };
                let e = esc(href.as_str());
                out.append("<a href=\"");
                out.append(e.as_str());
                out.append("#page=");
                push_decimal(out, p as u64);
                out.append("\">page ");
                push_decimal(out, p as u64);
                out.append("</a>");
            },
            None => {
                let e = esc(l.target.as_str());
                out.append(e.as_str());
            },
        }
    }
    assert(final(out)@ =~= old(out)@ + target_cell(l@, input@));
}

fn push_link_row(out: &mut String, l: &LinkRecord, input: &String)
    ensures
        final(out)@ == old(out)@ + link_row(l@, input@),
{
    out.append("<tr><td>");
    push_decimal(out, l.source_page as u64);
    out.append("</td><td>");
    let id = esc(l.id.as_str());
    out.append(id.as_str());
    out.append("</td><td>");
    push_target_cell(out, l, input);
    out.append("</td><td><span class=\"status ");
    out.append(status_class_str(l.status));
    out.append("\">");
    out.append(status_label_str(l.status));
    out.append("</span></td><td>");
    let note = match &l.note {
        Some(n) => esc(n.as_str()),
        None => esc("—"),
    };
    out.append(note.as_str());
    out.append("</td></tr>");
    assert(final(out)@ =~= old(out)@ + link_row(l@, input@));
}

/// Renders the report as a standalone HTML page.
pub fn render_html(report: &AuditReport) -> (html: String)
    ensures
        html@ == html_spec(report@),
{
    let ghost rv = report@;
    let mut rows = String::new();
    let mut i: usize = 0;
    while i < report.links.len()
        invariant
            rv == report@,
            i <= report.links@.len(),
            rows@ == link_rows(rv.links.take(i as int), rv.input),
        decreases report.links.len() - i,
    {
        push_link_row(&mut rows, &report.links[i], &report.input);
        assert(rv.links.take(i + 1).drop_last() =~= rv.links.take(i as int));
        assert(rv.links.take(i + 1).last() == report.links@[i as int]@);
        i = i + 1;
    }
    assert(rv.links.take(i as int) =~= rv.links);
    if rows.as_str().is_empty() {
        rows.append(EMPTY_ROWS);
    }
    let mut issues = String::new();
    let mut j: usize = 0;
    while j < report.findings.len()
        invariant
            rv == report@,
            j <= report.findings@.len(),
            issues@ == finding_items(rv.findings.take(j as int)),
        decreases report.findings.len() - j,
    {
        let item = &report.findings[j];
        issues.append("<li><strong>");
        let code = esc(item.code.as_str());
        issues.append(code.as_str());
        issues.append("</strong> ");
        let message = esc(item.message.as_str());
        issues.append(message.as_str());
        issues.append("</li>");
        assert(rv.findings.take(j + 1).drop_last() =~= rv.findings.take(j as int));
        assert(rv.findings.take(j + 1).last() == item@);
        assert(issues@ =~= finding_items(rv.findings.take(j + 1)));
        j = j + 1;
    }
    assert(rv.findings.take(j as int) =~= rv.findings);
    if issues.as_str().is_empty() {
        issues.append(NO_FINDINGS);
    }
    let mut title = String::new();
    title.append("Link map — ");
    match path_file_name(report.input.as_str()) {
        Some(n) => title.append(n.as_str()),
        None => title.append(report.input.as_str()),
    }
    assert(title@ =~= map_title(rv.input));
    let title = esc(title.as_str());
    let mut html = String::new();
    html.append(PAGE_HEAD);
    html.append(title.as_str());
    html.append(PAGE_STYLE);
    html.append(title.as_str());
    html.append(PAGE_INTRO);
    let input = esc(report.input.as_str());
    html.append(input.as_str());
    html.append(PAGE_INPUT_END);
    push_decimal(&mut html, report.pages as u64);
    html.append(PAGE_COUNT_END);
    push_decimal(&mut html, report.summary.total_links as u64);
    html.append(LINKS_END);
    push_decimal(&mut html, report.summary.valid_internal as u64);
    html.append(VALID_END);
    push_decimal(&mut html, report.summary.external_links as u64);
    html.append(EXTERNAL_END);
    push_decimal(&mut html, report.summary.broken as u64);
    html.append(TABLE_HEAD);
    html.append(rows.as_str());
    html.append(TABLE_END);
    html.append(issues.as_str());
    html.append(PAGE_FOOT);
    assert(html@ =~= html_spec(rv));
    html
}

} // verus!
