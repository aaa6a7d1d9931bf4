//! Auditing the link annotations of PDF documents: which links resolve,
//! which are broken, which leave the document, and whether the named
//! destinations match a manifest of expected headings.

pub mod text;
pub mod pdf;
pub mod load;
pub mod report;
pub mod resolve;
pub mod links;
pub mod audit;
pub mod paths;
pub mod html;
pub mod policy;

pub use audit::{audit_document, parse_document, parse_outcome};
pub use html::render_html;
pub use paths::default_output_path;
pub use pdf::{ObjectId, PdfDict, PdfDocument, PdfObject};
pub use policy::FailOn;
pub use report::{
    AuditError, AuditReport, DestinationRecord, Finding, LinkKind, LinkRecord, LinkStatus,
    ManifestHeading, RectNumber, Severity, Summary, finding,
};
pub use text::{esc, is_safe_external};
pub mod laws;
