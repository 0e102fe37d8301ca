use zhitiku_desktop::diagnostic::Diagnostic;
use zhitiku_desktop::template::{
    AnchorKind, SdtBuilder, TemplateAnchorReport, finish_control, marker_name,
    normalize_anchor_name,
};
use zhitiku_desktop::types::ByteSpan;

fn empty_report() -> TemplateAnchorReport {
    TemplateAnchorReport { anchors: Vec::new(), diagnostics: Vec::new() }
}

#[test]
fn anchor_names_are_normalized() {
    assert_eq!(normalize_anchor_name(" ZT_TITLE "), Some("ZT_TITLE".to_owned()));
    assert_eq!(normalize_anchor_name("{{ ZT_QUESTIONS }}"), Some("ZT_QUESTIONS".to_owned()));
    assert_eq!(normalize_anchor_name("ZT_"), None);
    assert_eq!(normalize_anchor_name("TITLE"), None);
    assert_eq!(normalize_anchor_name("ZT_题目"), None);
    assert_eq!(normalize_anchor_name("ZT_a.b-c"), Some("ZT_a.b-c".to_owned()));
}

#[test]
fn markers_need_double_braces() {
    assert_eq!(marker_name("  {{ZT_QUESTIONS}} "), Some("ZT_QUESTIONS".to_owned()));
    assert_eq!(marker_name("ZT_QUESTIONS"), None);
    assert_eq!(marker_name("{{ZT_QUESTIONS}"), None);
}

#[test]
fn finished_controls_become_anchors_or_findings() {
    let mut report = empty_report();
    finish_control(
        SdtBuilder {
            start: 10,
            tag: Some("ZT_TITLE".to_owned()),
            properties_depth: 0,
            content_start: Some(40),
            content_end: Some(80),
        },
        95,
        &mut report,
    );
    assert_eq!(report.anchors.len(), 1);
    let anchor = &report.anchors[0];
    assert_eq!(anchor.name, "ZT_TITLE");
    assert_eq!(anchor.kind, AnchorKind::ContentControl);
    assert_eq!(anchor.replacement_span, ByteSpan::new(40, 80));
    assert_eq!(anchor.container_span, ByteSpan::new(10, 95));

    finish_control(
        SdtBuilder { start: 0, tag: Some("ZT_X".to_owned()), properties_depth: 0, content_start: None, content_end: None },
        5,
        &mut report,
    );
    assert_eq!(report.anchors.len(), 1);
    assert_eq!(report.diagnostics.len(), 1);
    assert_eq!(report.diagnostics[0].message, "content control tagged 'ZT_X' has no usable w:sdtContent");
    assert!(!report.is_valid());

    let mut untouched = empty_report();
    finish_control(
        SdtBuilder { start: 0, tag: Some("other".to_owned()), properties_depth: 0, content_start: None, content_end: None },
        5,
        &mut untouched,
    );
    assert!(untouched.anchors.is_empty() && untouched.is_valid());
}

#[test]
fn warnings_keep_a_report_valid() {
    let mut report = empty_report();
    report.diagnostics.push(Diagnostic::warning("W", None, "note".to_owned()));
    assert!(report.is_valid());
    report.diagnostics.push(Diagnostic::error("E", None, "bad".to_owned()));
    assert!(!report.is_valid());
}

#[test]
fn byte_spans_contain_nested_spans() {
    let outer = ByteSpan::new(0, 10);
    assert!(outer.contains(ByteSpan::new(2, 10)));
    assert!(!outer.contains(ByteSpan::new(2, 11)));
    assert!(ByteSpan::new(5, 5).is_empty());
    assert_eq!(outer.as_range(), 0..10);
}
