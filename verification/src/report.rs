//! The audit report: its records, their mathematical views, and the summary
//! counts derived from them.

use vstd::prelude::*;

verus! {

/// Where a link leads.
#[derive(Clone, Copy, Debug, PartialEq, Eq, Structural)]
pub enum LinkKind {
    Internal,
    External,
    Unsupported,
}

/// What the audit concluded about a link.
#[derive(Clone, Copy, Debug, PartialEq, Eq, Structural)]
pub enum LinkStatus {
    Valid,
    Broken,
    External,
    Warning,
}

/// How serious a finding is.
#[derive(Clone, Copy, Debug, PartialEq, Eq, Structural)]
pub enum Severity {
    Error,
    Warning,
}

/// One coordinate of an annotation rectangle, as the document holds it.
#[derive(Clone, Copy, Debug, PartialEq, Eq, Structural)]
pub enum RectNumber {
    Integer(i64),
    /// The bit pattern of a single-precision value.
    Real(u32),
}

/// A link annotation and what became of it.
#[derive(Debug, Clone)]
pub struct LinkRecord {
    pub id: String,
    pub source_page: u32,
    pub kind: LinkKind,
    pub target: String,
    pub target_page: Option<u32>,
    pub status: LinkStatus,
    pub note: Option<String>,
    pub rect: Option<[RectNumber; 4]>,
}

/// A named destination and the page it resolves to.
#[derive(Debug, Clone)]
pub struct DestinationRecord {
    pub name: String,
    pub page: Option<u32>,
    pub valid: bool,
}

/// A problem the audit reports.
#[derive(Debug, Clone)]
pub struct Finding {
    pub code: String,
    pub severity: Severity,
    pub message: String,
}

/// The counts at the head of a report.
#[derive(Clone, Copy, Debug, PartialEq, Eq, Structural)]
pub struct Summary {
    pub total_links: usize,
    pub internal_links: usize,
    pub external_links: usize,
    pub valid_internal: usize,
    pub broken: usize,
    pub warnings: usize,
}

/// The outcome of an audit.
#[derive(Debug, Clone)]
pub struct AuditReport {
    pub schema_version: u8,
    pub input: String,
    pub pages: usize,
    pub summary: Summary,
    pub links: Vec<LinkRecord>,
    pub destinations: Vec<DestinationRecord>,
    pub findings: Vec<Finding>,
}

/// A heading that a manifest expects the document to keep.
#[derive(Debug, Clone)]
pub struct ManifestHeading {
    pub title: String,
    pub anchor: Option<String>,
    pub page: Option<u32>,
}

/// Why an audit could not be made.
#[derive(Debug)]
pub enum AuditError {
    Io(String),
    Pdf(String),
    Manifest(String),
}

pub open spec fn opt_text(o: Option<String>) -> Option<Seq<char>> {
    match o {
        Some(s) => Some(s@),
        None => None,
    }
}

#[verifier::ext_equal]
pub struct LinkView {
    pub id: Seq<char>,
    pub source_page: u32,
    pub kind: LinkKind,
    pub target: Seq<char>,
    pub target_page: Option<u32>,
    pub status: LinkStatus,
    pub note: Option<Seq<char>>,
    pub rect: Option<Seq<RectNumber>>,
}

impl View for LinkRecord {
    type V = LinkView;

    open spec fn view(&self) -> LinkView {
        LinkView {
            id: self.id@,
            source_page: self.source_page,
            kind: self.kind,
            target: self.target@,
            target_page: self.target_page,
            status: self.status,
            note: opt_text(self.note),
            rect: match self.rect {
                Some(r) => Some(r@),
                None => None,
            },
        }
    }
}

#[verifier::ext_equal]
pub struct DestinationView {
    pub name: Seq<char>,
    pub page: Option<u32>,
    pub valid: bool,
}

impl View for DestinationRecord {
    type V = DestinationView;

    open spec fn view(&self) -> DestinationView {
        DestinationView { name: self.name@, page: self.page, valid: self.valid }
    }
}

#[verifier::ext_equal]
pub struct FindingView {
    pub code: Seq<char>,
    pub severity: Severity,
    pub message: Seq<char>,
}

impl View for Finding {
    type V = FindingView;

    open spec fn view(&self) -> FindingView {
        FindingView { code: self.code@, severity: self.severity, message: self.message@ }
    }
}

#[verifier::ext_equal]
pub struct HeadingView {
    pub title: Seq<char>,
    pub anchor: Option<Seq<char>>,
    pub page: Option<u32>,
}

impl View for ManifestHeading {
    type V = HeadingView;

    open spec fn view(&self) -> HeadingView {
        HeadingView { title: self.title@, anchor: opt_text(self.anchor), page: self.page }
    }
}

#[verifier::ext_equal]
pub struct ReportView {
    pub schema_version: u8,
    pub input: Seq<char>,
    pub pages: usize,
    pub summary: Summary,
    pub links: Seq<LinkView>,
    pub destinations: Seq<DestinationView>,
    pub findings: Seq<FindingView>,
}

pub open spec fn links_view(v: Seq<LinkRecord>) -> Seq<LinkView> {
    v.map_values(|l: LinkRecord| l@)
}

pub open spec fn destinations_view(v: Seq<DestinationRecord>) -> Seq<DestinationView> {
    v.map_values(|d: DestinationRecord| d@)
}

pub open spec fn findings_view(v: Seq<Finding>) -> Seq<FindingView> {
    v.map_values(|f: Finding| f@)
}

pub open spec fn headings_view(v: Seq<ManifestHeading>) -> Seq<HeadingView> {
    v.map_values(|h: ManifestHeading| h@)
}

impl View for AuditReport {
    type V = ReportView;

    open spec fn view(&self) -> ReportView {
        ReportView {
            schema_version: self.schema_version,
            input: self.input@,
            pages: self.pages,
            summary: self.summary,
            links: links_view(self.links@),
            destinations: destinations_view(self.destinations@),
            findings: findings_view(self.findings@),
        }
    }
}

/// The view of an error: which kind, and its text.
pub enum AuditErrorView {
    Io(Seq<char>),
    Pdf(Seq<char>),
    Manifest(Seq<char>),
}

impl View for AuditError {
    type V = AuditErrorView;

    open spec fn view(&self) -> AuditErrorView {
        match self {
            AuditError::Io(s) => AuditErrorView::Io(s@),
            AuditError::Pdf(s) => AuditErrorView::Pdf(s@),
            AuditError::Manifest(s) => AuditErrorView::Manifest(s@),
        }
    }
}

pub open spec fn error_text(e: AuditErrorView) -> Seq<char> {
    match e {
        AuditErrorView::Io(s) => s,
        AuditErrorView::Pdf(s) => s,
        AuditErrorView::Manifest(s) => s,
    }
}

impl AuditError {
    /// The text of the error, as it is shown to the user.
    pub fn message(&self) -> (s: String)
        ensures
            s@ == error_text(self@),
    {
        match self {
            AuditError::Io(v) => v.clone(),
            AuditError::Pdf(v) => v.clone(),
            AuditError::Manifest(v) => v.clone(),
        }
    }
}

impl Default for Summary {
    fn default() -> (s: Summary)
        ensures
            s.total_links == 0 && s.internal_links == 0 && s.external_links == 0
                && s.valid_internal == 0 && s.broken == 0 && s.warnings == 0,
    {
        Summary {
            total_links: 0,
            internal_links: 0,
            external_links: 0,
            valid_internal: 0,
            broken: 0,
            warnings: 0,
        }
    }
}

/// A finding with the given code, severity and message.
pub fn finding(code: &str, severity: Severity, message: String) -> (f: Finding)
    ensures
        f@ == (FindingView { code: code@, severity, message: message@ }),
{
    Finding { code: code.to_owned(), severity, message }
}

/// The view of a link that could not be followed.
pub open spec fn broken_view(id: Seq<char>, source_page: u32, message: Seq<char>) -> LinkView {
    LinkView {
        id,
        source_page,
        kind: LinkKind::Internal,
        target: "unresolved"@,
        target_page: None,
        status: LinkStatus::Broken,
        note: Some(message),
        rect: None,
    }
}

/// A link that could not be followed, with the reason in its note.
pub fn broken_link(id: String, source_page: u32, message: &str) -> (l: LinkRecord)
    ensures
        l@ == broken_view(id@, source_page, message@),
{
    LinkRecord {
        id,
        source_page,
        kind: LinkKind::Internal,
        target: "unresolved".to_owned(),
        target_page: None,
        status: LinkStatus::Broken,
        note: Some(message.to_owned()),
        rect: None,
    }
}

/// How many links are of the given kind.
pub open spec fn count_kind(ls: Seq<LinkView>, k: LinkKind) -> nat
    decreases ls.len(),
{
    if ls.len() == 0 {
        0
    } else {
        count_kind(ls.drop_last(), k) + if ls.last().kind == k { 1nat } else { 0nat }
    }
}

/// How many internal links resolve to a page.
pub open spec fn count_valid_internal(ls: Seq<LinkView>) -> nat
    decreases ls.len(),
{
    if ls.len() == 0 {
        0
    } else {
        count_valid_internal(ls.drop_last()) + if ls.last().kind == LinkKind::Internal
            && ls.last().status == LinkStatus::Valid {
            1nat
        } else {
            0nat
        }
    }
}

/// How many findings have the given severity.
pub open spec fn count_severity(fs: Seq<FindingView>, s: Severity) -> nat
    decreases fs.len(),
{
    if fs.len() == 0 {
        0
    } else {
        count_severity(fs.drop_last(), s) + if fs.last().severity == s { 1nat } else { 0nat }
    }
}

/// The summary of a list of links and a list of findings.
pub open spec fn summary_of(ls: Seq<LinkView>, fs: Seq<FindingView>) -> Summary {
    Summary {
        total_links: ls.len() as usize,
        internal_links: count_kind(ls, LinkKind::Internal) as usize,
        external_links: count_kind(ls, LinkKind::External) as usize,
        valid_internal: count_valid_internal(ls) as usize,
        broken: count_severity(fs, Severity::Error) as usize,
        warnings: count_severity(fs, Severity::Warning) as usize,
    }
}

fn count_links_of_kind(links: &Vec<LinkRecord>, k: LinkKind) -> (c: usize)
    ensures
        c == count_kind(links_view(links@), k),
{
    let mut c: usize = 0;
    let mut i: usize = 0;
    while i < links.len()
        invariant
            i <= links@.len(),
            c <= i,
            c == count_kind(links_view(links@).take(i as int), k),
        decreases links.len() - i,
    {
        assert(links_view(links@).take(i + 1).drop_last() =~= links_view(links@).take(i as int));
        if links[i].kind == k {
            c = c + 1;
        }
        i = i + 1;
    }
    assert(links_view(links@).take(i as int) =~= links_view(links@));
    c
}

fn count_valid_internal_links(links: &Vec<LinkRecord>) -> (c: usize)
    ensures
        c == count_valid_internal(links_view(links@)),
{
    let mut c: usize = 0;
    let mut i: usize = 0;
    while i < links.len()
        invariant
            i <= links@.len(),
            c <= i,
            c == count_valid_internal(links_view(links@).take(i as int)),
        decreases links.len() - i,
    {
        assert(links_view(links@).take(i + 1).drop_last() =~= links_view(links@).take(i as int));
        if links[i].kind == LinkKind::Internal && links[i].status == LinkStatus::Valid {
            c = c + 1;
        }
        i = i + 1;
    }
    assert(links_view(links@).take(i as int) =~= links_view(links@));
    c
}

fn count_findings_of(findings: &Vec<Finding>, s: Severity) -> (c: usize)
    ensures
        c == count_severity(findings_view(findings@), s),
{
    let mut c: usize = 0;
    let mut i: usize = 0;
    while i < findings.len()
        invariant
            i <= findings@.len(),
            c <= i,
            c == count_severity(findings_view(findings@).take(i as int), s),
        decreases findings.len() - i,
    {
        assert(findings_view(findings@).take(i + 1).drop_last() =~= findings_view(findings@).take(
            i as int,
        ));
        if findings[i].severity == s {
            c = c + 1;
        }
        i = i + 1;
    }
    assert(findings_view(findings@).take(i as int) =~= findings_view(findings@));
    c
}

/// Counts the links by kind and the findings by severity.
pub fn summarize(links: &Vec<LinkRecord>, findings: &Vec<Finding>) -> (s: Summary)
    ensures
        s == summary_of(links_view(links@), findings_view(findings@)),
{
    Summary {
        total_links: links.len(),
        internal_links: count_links_of_kind(links, LinkKind::Internal),
        external_links: count_links_of_kind(links, LinkKind::External),
        valid_internal: count_valid_internal_links(links),
        broken: count_findings_of(findings, Severity::Error),
        warnings: count_findings_of(findings, Severity::Warning),
    }
}

} // verus!
