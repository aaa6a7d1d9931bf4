use pdf_link_map::default_output_path;
use std::path::PathBuf;

#[test]
fn default_report_name() {
    assert_eq!(
        PathBuf::from(default_output_path("guide.pdf")),
        PathBuf::from("guide.link-map.html")
    );
}
