use pdf_link_map::paths::report_file_name;
use pdf_link_map::policy::{completed_exit_status, policy_failed};
use pdf_link_map::{default_output_path, AuditError, FailOn, Summary};

#[test]
fn report_goes_beside_a_nested_document() {
    assert_eq!(default_output_path("docs/manual.v2.pdf"), "docs/manual.v2.link-map.html");
    assert_eq!(default_output_path("/srv/handbook.pdf"), "/srv/handbook.link-map.html");
}

#[test]
fn report_file_name_falls_back_to_report() {
    assert_eq!(report_file_name(Some("guide")), "guide.link-map.html");
    assert_eq!(report_file_name(None), "report.link-map.html");
}

fn summary(broken: usize, warnings: usize) -> Summary {
    Summary { total_links: 0, internal_links: 0, external_links: 0, valid_internal: 0, broken, warnings }
}

#[test]
fn fail_on_policies() {
    assert!(!policy_failed(FailOn::Never, &summary(3, 3)));
    assert!(policy_failed(FailOn::Broken, &summary(1, 0)));
    assert!(!policy_failed(FailOn::Broken, &summary(0, 4)));
    assert!(policy_failed(FailOn::Any, &summary(0, 4)));
    assert!(!policy_failed(FailOn::Any, &summary(0, 0)));
    assert_eq!(completed_exit_status(FailOn::Broken, &summary(1, 0)), 1);
    assert_eq!(completed_exit_status(FailOn::Never, &summary(1, 0)), 0);
}

#[test]
fn errors_show_their_text() {
    assert_eq!(AuditError::Io("PDF not found: x.pdf".into()).message(), "PDF not found: x.pdf");
    assert_eq!(AuditError::Manifest("m".into()).message(), "m");
    assert_eq!(AuditError::Pdf("p".into()).message(), "p");
}
