use zhitiku_desktop::diagnostic::DiagnosticSeverity;
use zhitiku_desktop::limits::DocxLimits;
use zhitiku_desktop::package::{
    PackageKind, ZipEntryFacts, active_part_reason, archive_size_diagnostic,
    declared_entry_count_in_tail, inspect_central_directory, invalid_part_name,
    is_active_content_type,
};

fn entry(name: &str, size: u64) -> ZipEntryFacts {
    ZipEntryFacts {
        name: name.to_owned(),
        compressed_size: size,
        uncompressed_size: size,
        crc32: 0,
        compression_method: "Deflated".to_owned(),
        is_directory: false,
        encrypted: false,
        is_symlink: false,
        enclosed: true,
        utf8_name: true,
    }
}

fn minimal_entries() -> Vec<ZipEntryFacts> {
    vec![
        entry("[Content_Types].xml", 300),
        entry("_rels/.rels", 200),
        entry("word/document.xml", 400),
        entry("word/styles.xml", 80),
    ]
}

fn codes(entries: &[ZipEntryFacts], limits: &DocxLimits) -> Vec<&'static str> {
    inspect_central_directory(entries, Some(2_000), None, 0, false, limits)
        .diagnostics
        .iter()
        .map(|item| item.code)
        .collect()
}

#[test]
fn minimal_central_directory_is_acceptable() {
    let inspection =
        inspect_central_directory(&minimal_entries(), Some(2_000), None, 0, false, &DocxLimits::default());
    assert!(inspection.is_acceptable(), "{:?}", inspection.diagnostics);
    assert_eq!(inspection.package_kind, PackageKind::Unknown);
    assert_eq!(inspection.parts.len(), 4);
    assert_eq!(inspection.total_uncompressed_bytes, 980);
    assert_eq!(inspection.parts[2].index, 2);
    assert_eq!(inspection.parts[2].name, "word/document.xml");
}

#[test]
fn traversal_names_are_unsafe() {
    let mut entries = minimal_entries();
    let mut outside = entry("../../outside.bin", 3);
    outside.enclosed = false;
    entries.push(outside);
    let inspection =
        inspect_central_directory(&entries, Some(2_000), None, 0, false, &DocxLimits::default());
    assert!(!inspection.is_acceptable());
    assert!(inspection.diagnostics.iter().any(|item| item.code == "DOCX_UNSAFE_PART_NAME"));
}

#[test]
fn declared_size_limits_are_reported() {
    let limits = DocxLimits { max_xml_part_bytes: 8, ..DocxLimits::default() };
    assert!(codes(&minimal_entries(), &limits).contains(&"DOCX_PART_TOO_LARGE"));
}

#[test]
fn duplicate_case_and_active_parts_are_rejected() {
    let mut entries = minimal_entries();
    entries.push(entry("word/styles.xml", 10));
    entries.push(entry("WORD/Styles.xml", 10));
    entries.push(entry("word/vbaProject.bin", 5));
    let found = codes(&entries, &DocxLimits::default());
    assert!(found.contains(&"DOCX_DUPLICATE_PART"));
    assert!(found.contains(&"DOCX_AMBIGUOUS_PART_CASE"));
    assert!(found.contains(&"DOCX_ACTIVE_CONTENT_PART"));
}

#[test]
fn missing_required_parts_and_container_problems_are_reported() {
    let entries = vec![entry("word/document.xml", 10)];
    let inspection =
        inspect_central_directory(&entries, Some(2_000), Some(3), 7, true, &DocxLimits::default());
    let found: Vec<_> = inspection.diagnostics.iter().map(|item| item.code).collect();
    assert_eq!(
        found,
        vec![
            "DOCX_DUPLICATE_PART",
            "DOCX_PREPENDED_DATA",
            "DOCX_OVERLAPPING_ZIP_ENTRIES",
            "DOCX_REQUIRED_PART_MISSING",
            "DOCX_REQUIRED_PART_MISSING",
        ]
    );
    assert_eq!(inspection.diagnostics[1].message, "7 byte(s) occur before the ZIP package");
    assert_eq!(inspection.diagnostics[3].part_name.as_deref(), Some("[Content_Types].xml"));
}

#[test]
fn suspicious_compression_is_only_a_warning() {
    let mut entries = minimal_entries();
    let mut bomb = entry("word/media/image1.png", 0);
    bomb.compressed_size = 1_000;
    bomb.uncompressed_size = 2_000_000;
    entries.push(bomb);
    let inspection =
        inspect_central_directory(&entries, Some(2_000), None, 0, false, &DocxLimits::default());
    let warning = inspection
        .diagnostics
        .iter()
        .find(|item| item.code == "DOCX_SUSPICIOUS_COMPRESSION_RATIO")
        .unwrap();
    assert_eq!(warning.severity, DiagnosticSeverity::Warning);
    assert_eq!(warning.message, "declared compression ratio is approximately 2000:1");
    assert!(inspection.is_acceptable());
}

#[test]
fn oversized_archive_is_diagnosed() {
    let limits = DocxLimits { max_archive_bytes: 4, ..DocxLimits::default() };
    let diagnostic = archive_size_diagnostic(10, &limits).unwrap();
    assert_eq!(diagnostic.code, "DOCX_ARCHIVE_TOO_LARGE");
    assert_eq!(diagnostic.message, "package is 10 bytes; the configured limit is 4 bytes");
    assert!(archive_size_diagnostic(4, &limits).is_none());
}

#[test]
fn part_names_are_checked_for_unsafe_forms() {
    assert_eq!(invalid_part_name("word/document.xml", true, true), None);
    assert_eq!(
        invalid_part_name("/word/document.xml", true, true).as_deref(),
        Some("part name is empty or absolute")
    );
    assert_eq!(
        invalid_part_name("word\\document.xml", true, true).as_deref(),
        Some("part name contains a forbidden URI/path character")
    );
    assert_eq!(
        invalid_part_name("word/%2e%2E/x", true, true),
        None
    );
    assert_eq!(
        invalid_part_name("word/%2Fx", true, true).as_deref(),
        Some("part name contains an encoded path separator or NUL")
    );
    assert_eq!(
        invalid_part_name("word//x.xml", true, true).as_deref(),
        Some("part name contains an empty, '.' or '..' segment")
    );
    assert_eq!(
        invalid_part_name("word/./x.xml", true, true).as_deref(),
        Some("part name contains an empty, '.' or '..' segment")
    );
    assert_eq!(invalid_part_name("word/media/", true, true), None);
    assert_eq!(
        invalid_part_name("x", true, false).as_deref(),
        Some("part name is not UTF-8")
    );
}

#[test]
fn active_parts_and_content_types() {
    let limits = DocxLimits::default();
    assert_eq!(active_part_reason("word/vbaProject.bin", &limits), Some("VBA macro projects are not allowed"));
    assert_eq!(active_part_reason("word/activeX/x.xml", &limits), Some("ActiveX controls are not allowed"));
    assert_eq!(
        active_part_reason("word/embeddings/oleObject1.bin", &limits),
        Some("embedded OLE/package objects are not allowed")
    );
    let mathtype = DocxLimits { allow_mathtype_ole: true, ..DocxLimits::default() };
    assert_eq!(active_part_reason("word/embeddings/oleObject1.bin", &mathtype), None);
    assert_eq!(active_part_reason("word/document.xml", &limits), None);
    assert!(is_active_content_type("application/vnd.ms-word.document.macroEnabled.main+xml", &limits));
    assert!(is_active_content_type("application/vnd.openxmlformats-officedocument.oleObject", &limits));
    assert!(!is_active_content_type("application/vnd.openxmlformats-officedocument.oleObject", &mathtype));
    assert!(!is_active_content_type("application/xml", &limits));
}

#[test]
fn part_limits_follow_part_kind() {
    let limits = DocxLimits::default();
    assert_eq!(limits.part_limit("word/document.XML"), limits.max_xml_part_bytes);
    assert_eq!(limits.part_limit("word/media/image1.png"), limits.max_media_part_bytes);
    assert_eq!(limits.part_limit("docProps/thumbnail.jpeg"), limits.max_part_uncompressed_bytes);
    assert_eq!(limits.max_entries, 4_096);
}

#[test]
fn end_of_central_directory_declares_entry_count() {
    let mut tail = vec![9u8; 5];
    tail.extend_from_slice(&[0x50, 0x4b, 0x05, 0x06, 0, 0, 0, 0, 4, 0, 7, 0, 0, 0, 0, 0, 0, 0, 0, 0]);
    tail.extend_from_slice(&2u16.to_le_bytes());
    tail.extend_from_slice(b"hi");
    assert_eq!(declared_entry_count_in_tail(&tail), Some(7));
    assert_eq!(declared_entry_count_in_tail(&tail[..tail.len() - 1]), None);
    assert_eq!(declared_entry_count_in_tail(&[0u8; 10]), None);
}

#[test]
fn a_small_part_above_the_ratio_limit_is_still_suspicious() {
    let mut entries = minimal_entries();
    let mut small = entry("word/media/image2.png", 0);
    small.compressed_size = 10;
    small.uncompressed_size = 5_000;
    entries.push(small);
    let inspection =
        inspect_central_directory(&entries, Some(2_000), None, 0, false, &DocxLimits::default());
    let warning = inspection
        .diagnostics
        .iter()
        .find(|item| item.code == "DOCX_SUSPICIOUS_COMPRESSION_RATIO")
        .unwrap();
    assert_eq!(warning.part_name.as_deref(), Some("word/media/image2.png"));
    assert_eq!(warning.message, "declared compression ratio is approximately 500:1");
    assert!(inspection.is_acceptable());
}
