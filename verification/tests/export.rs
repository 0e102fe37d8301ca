use std::io::{Cursor, Read, Write};

use zhitiku_desktop::error::DocxError;
use zhitiku_desktop::export::{
    raw_copy_with_part_edits, raw_copy_with_replacements, raw_copy_with_replacements_and_additions,
    raw_copy_with_replacements_and_removals, safe_added_part_name,
};
use zhitiku_desktop::limits::DocxLimits;
use zip::{ZipArchive, ZipWriter, write::SimpleFileOptions};

const CONTENT_TYPES: &str = r#"<?xml version="1.0" encoding="UTF-8"?>
<Types xmlns="http://schemas.openxmlformats.org/package/2006/content-types">
  <Default Extension="rels" ContentType="application/vnd.openxmlformats-package.relationships+xml"/>
  <Default Extension="xml" ContentType="application/xml"/>
  <Override PartName="/word/document.xml" ContentType="application/vnd.openxmlformats-officedocument.wordprocessingml.document.main+xml"/>
</Types>"#;

const ROOT_RELS: &str = r#"<?xml version="1.0" encoding="UTF-8"?>
<Relationships xmlns="http://schemas.openxmlformats.org/package/2006/relationships">
  <Relationship Id="rId1" Type="http://schemas.openxmlformats.org/officeDocument/2006/relationships/officeDocument" Target="word/document.xml"/>
</Relationships>"#;

const ORIGINAL_DOCUMENT: &str = r#"<w:document xmlns:w="http://schemas.openxmlformats.org/wordprocessingml/2006/main"><w:body><w:p><w:r><w:t>old</w:t></w:r></w:p></w:body></w:document>"#;
const NEW_DOCUMENT: &str = r#"<w:document xmlns:w="http://schemas.openxmlformats.org/wordprocessingml/2006/main"><w:body><w:p><w:r><w:t>new</w:t></w:r></w:p></w:body></w:document>"#;

fn package_with_entries(entries: &[(&str, &[u8])]) -> Vec<u8> {
    let cursor = Cursor::new(Vec::new());
    let mut writer = ZipWriter::new(cursor);
    let options = SimpleFileOptions::default().compression_method(zip::CompressionMethod::Deflated);
    for (name, bytes) in entries {
        writer.start_file(*name, options).unwrap();
        writer.write_all(bytes).unwrap();
    }
    writer.finish().unwrap().into_inner()
}

fn minimal_docx(document_xml: &str) -> Vec<u8> {
    package_with_entries(&[
        ("[Content_Types].xml", CONTENT_TYPES.as_bytes()),
        ("_rels/.rels", ROOT_RELS.as_bytes()),
        ("word/document.xml", document_xml.as_bytes()),
        ("word/styles.xml", b"<w:styles xmlns:w=\"http://schemas.openxmlformats.org/wordprocessingml/2006/main\"/>"),
    ])
}

fn rejected_codes(error: DocxError) -> Vec<&'static str> {
    match error {
        DocxError::Rejected { diagnostics } => diagnostics.iter().map(|d| d.code).collect(),
        other => panic!("expected a rejection, got {other:?}"),
    }
}

#[test]
fn rewrites_selected_part_and_raw_copies_the_rest() {
    let source = minimal_docx(ORIGINAL_DOCUMENT);
    let replacements = vec![("word/document.xml".to_owned(), NEW_DOCUMENT.as_bytes().to_vec())];

    let exported = raw_copy_with_replacements(&source, &replacements, &DocxLimits::default()).unwrap();
    assert_eq!(exported.summary.rewritten_parts, vec!["word/document.xml"]);
    assert_eq!(exported.summary.raw_copied_parts, 3);

    let mut output_archive = ZipArchive::new(Cursor::new(exported.output)).unwrap();
    let mut document = String::new();
    output_archive
        .by_name("word/document.xml")
        .unwrap()
        .read_to_string(&mut document)
        .unwrap();
    assert_eq!(document, NEW_DOCUMENT);

    let mut source_archive = ZipArchive::new(Cursor::new(source)).unwrap();
    let source_styles = source_archive.by_name("word/styles.xml").unwrap();
    let output_styles = output_archive.by_name("word/styles.xml").unwrap();
    assert_eq!(source_styles.crc32(), output_styles.crc32());
    assert_eq!(source_styles.compressed_size(), output_styles.compressed_size());
    assert_eq!(source_styles.compression(), output_styles.compression());
}

#[test]
fn validates_all_replacement_names_before_writing() {
    let source = minimal_docx(ORIGINAL_DOCUMENT);
    let replacements = vec![("word/missing.xml".to_owned(), b"<x/>".to_vec())];
    let result = raw_copy_with_replacements(&source, &replacements, &DocxLimits::default());
    assert!(matches!(result, Err(DocxError::Rejected { .. })));
}

#[test]
fn adds_bounded_generated_parts_without_shadowing_source_members() {
    let source = minimal_docx(ORIGINAL_DOCUMENT);
    let additions = vec![("word/media/zhitiku-image-1.png".to_owned(), vec![0x89, b'P', b'N', b'G'])];
    let exported =
        raw_copy_with_replacements_and_additions(&source, &[], &additions, &DocxLimits::default()).unwrap();

    assert_eq!(exported.summary.rewritten_parts, vec!["word/media/zhitiku-image-1.png"]);
    let mut output_archive = ZipArchive::new(Cursor::new(exported.output)).unwrap();
    let mut image = Vec::new();
    output_archive
        .by_name("word/media/zhitiku-image-1.png")
        .unwrap()
        .read_to_end(&mut image)
        .unwrap();
    assert_eq!(image, vec![0x89, b'P', b'N', b'G']);
}

#[test]
fn omits_explicitly_removed_parts() {
    let source = minimal_docx(ORIGINAL_DOCUMENT);
    let removals = vec!["word/styles.xml".to_owned()];
    let exported =
        raw_copy_with_replacements_and_removals(&source, &[], &removals, &DocxLimits::default()).unwrap();

    let mut output_archive = ZipArchive::new(Cursor::new(exported.output)).unwrap();
    assert!(output_archive.by_name("word/styles.xml").is_err());
    assert!(output_archive.by_name("word/document.xml").is_ok());
}

#[test]
fn rejects_conflicting_replace_and_remove_requests() {
    let source = minimal_docx(ORIGINAL_DOCUMENT);
    let replacements = vec![("word/document.xml".to_owned(), NEW_DOCUMENT.as_bytes().to_vec())];
    let removals = vec!["word/document.xml".to_owned()];
    let result =
        raw_copy_with_replacements_and_removals(&source, &replacements, &removals, &DocxLimits::default());
    assert!(matches!(result, Err(DocxError::Rejected { .. })));
}

#[test]
fn summary_counts_the_output_bytes_and_every_source_part() {
    let source = minimal_docx(ORIGINAL_DOCUMENT);
    let exported = raw_copy_with_part_edits(&source, &[], &[], &[], &DocxLimits::default()).unwrap();
    assert_eq!(exported.summary.input_parts, 4);
    assert_eq!(exported.summary.raw_copied_parts, 4);
    assert!(exported.summary.rewritten_parts.is_empty());
    assert_eq!(exported.summary.output_bytes, exported.output.len() as u64);
}

#[test]
fn an_addition_may_not_shadow_a_source_part() {
    let source = minimal_docx(ORIGINAL_DOCUMENT);
    let additions = vec![("word/styles.xml".to_owned(), b"<x/>".to_vec())];
    let error = raw_copy_with_part_edits(&source, &[], &[], &additions, &DocxLimits::default()).unwrap_err();
    assert!(!rejected_codes(error).is_empty());
}

#[test]
fn an_unsafe_addition_name_is_refused() {
    let source = minimal_docx(ORIGINAL_DOCUMENT);
    let additions = vec![("word/../escape.png".to_owned(), vec![1, 2, 3])];
    let error = raw_copy_with_part_edits(&source, &[], &[], &additions, &DocxLimits::default()).unwrap_err();
    assert!(!rejected_codes(error).is_empty());
}

#[test]
fn removing_a_missing_part_is_refused() {
    let source = minimal_docx(ORIGINAL_DOCUMENT);
    let removals = vec!["word/missing.xml".to_owned()];
    let error = raw_copy_with_part_edits(&source, &[], &removals, &[], &DocxLimits::default()).unwrap_err();
    assert!(!rejected_codes(error).is_empty());
}

#[test]
fn an_oversized_source_is_refused_before_reading() {
    let source = minimal_docx(ORIGINAL_DOCUMENT);
    let limits = DocxLimits { max_archive_bytes: 10, ..DocxLimits::default() };
    let error = raw_copy_with_part_edits(&source, &[], &[], &[], &limits).unwrap_err();
    assert!(!rejected_codes(error).is_empty());
}

#[test]
fn safe_added_part_names() {
    assert!(safe_added_part_name("word/media/image1.png"));
    assert!(safe_added_part_name("a"));
    assert!(!safe_added_part_name(""));
    assert!(!safe_added_part_name("/word/a.png"));
    assert!(!safe_added_part_name("word\\a.png"));
    assert!(!safe_added_part_name("word/a\0.png"));
    assert!(!safe_added_part_name("word//a.png"));
    assert!(!safe_added_part_name("word/./a.png"));
    assert!(!safe_added_part_name("word/../a.png"));
    assert!(!safe_added_part_name("word/"));
    assert!(!safe_added_part_name(".."));
}
