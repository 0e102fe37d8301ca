use std::io::{Cursor, Read, Write};

use zhitiku_desktop::error::DocxError;
use zhitiku_desktop::hex_bytes::decode_hex_bytes;
use zhitiku_desktop::licensing::to_lower_hex;
use zhitiku_desktop::limits::DocxLimits;
use zhitiku_desktop::page_setup::TemplatePageSetup;
use zhitiku_desktop::side_seal::extract_side_seal_layout;
use zhitiku_desktop::template_config::{
    ParagraphStylePrototype, TemplateRegionConfiguration, TemplateRegionPlacement, TemplateSourceRange,
    TemplateStyleProfile, TemplateStyleSelection, preview_template_configuration,
};
use zhitiku_desktop::template_configure::configure_template_package;
use zhitiku_desktop::template_layout::preview_template_layout;
use zip::{ZipArchive, ZipWriter, write::SimpleFileOptions};

const DOCUMENT_PART: &str = "word/document.xml";

const CONTENT_TYPES: &str = r#"<?xml version="1.0" encoding="UTF-8"?>
<Types xmlns="http://schemas.openxmlformats.org/package/2006/content-types">
  <Default Extension="rels" ContentType="application/vnd.openxmlformats-package.relationships+xml"/>
  <Default Extension="xml" ContentType="application/xml"/>
  <Override PartName="/word/document.xml" ContentType="application/vnd.openxmlformats-officedocument.wordprocessingml.document.main+xml"/>
</Types>"#;

const ROOT_RELS: &str = r#"<?xml version="1.0" encoding="UTF-8"?>
<Relationships xmlns="http://schemas.openxmlformats.org/package/2006/relationships">
  <Relationship Id="rId1" Type="http://schemas.openxmlformats.org/officeDocument/2006/relationships/officeDocument" Target="word/document.xml"/>
</Relationships>"#;

const DOCUMENT: &str = r#"<w:document xmlns:w="http://schemas.openxmlformats.org/wordprocessingml/2006/main"><w:body>
<w:p><w:r><w:t>学校期末考试</w:t></w:r></w:p>
<w:p><w:r><w:t>姓名：________</w:t></w:r></w:p>
<w:sectPr/>
</w:body></w:document>"#;

const SAMPLE_PAPER: &str = r#"<w:document xmlns:w="http://schemas.openxmlformats.org/wordprocessingml/2006/main"><w:body>
<w:p><w:pPr><w:jc w:val="center"/></w:pPr><w:r><w:rPr><w:b/><w:sz w:val="36"/></w:rPr><w:t>学校期末考试</w:t></w:r></w:p>
<w:p><w:pPr><w:pStyle w:val="SectionHeading"/></w:pPr><w:r><w:rPr><w:rFonts w:eastAsia="黑体"/><w:sz w:val="28"/></w:rPr><w:t>一、选择题</w:t></w:r></w:p>
<w:p><w:pPr><w:ind w:firstLine="420"/></w:pPr><w:r><w:rPr><w:rFonts w:eastAsia="宋体"/><w:sz w:val="28"/></w:rPr><w:t>1. 原来的题目</w:t></w:r></w:p>
<w:p><w:pPr><w:ind w:left="420"/></w:pPr><w:r><w:rPr><w:rFonts w:eastAsia="宋体"/><w:sz w:val="28"/></w:rPr><w:t>A. 原来的选项</w:t></w:r></w:p>
<w:p><w:r><w:t>命题人：张老师</w:t></w:r></w:p>
<w:sectPr/>
</w:body></w:document>"#;

const LAYOUT_TEMPLATE: &str = r#"<w:document xmlns:w="http://schemas.openxmlformats.org/wordprocessingml/2006/main"><w:body>
<w:p><w:pPr><w:jc w:val="center"/></w:pPr><w:r><w:rPr><w:rFonts w:eastAsia="宋体"/><w:sz w:val="21"/></w:rPr><w:t>学校：第一中学</w:t></w:r></w:p>
<w:sdt><w:sdtPr><w:tag w:val="ZT_TITLE"/></w:sdtPr><w:sdtContent><w:p/></w:sdtContent></w:sdt>
<w:sdt><w:sdtPr><w:tag w:val="ZT_QUESTIONS"/></w:sdtPr><w:sdtContent><w:p/></w:sdtContent></w:sdt>
<w:sectPr><w:pgSz w:w="16838" w:h="11906"/><w:pgMar w:top="720" w:right="900" w:bottom="1080" w:left="1260" w:header="560" w:footer="680"/><w:cols w:num="2" w:space="425" w:sep="1"/><w:docGrid w:type="lines" w:linePitch="312"/></w:sectPr>
</w:body></w:document>"#;

const FLOATING_SEAL_TEMPLATE: &str = r#"<w:document xmlns:w="http://schemas.openxmlformats.org/wordprocessingml/2006/main" xmlns:wp="http://schemas.openxmlformats.org/drawingml/2006/wordprocessingDrawing" xmlns:wps="http://schemas.microsoft.com/office/word/2010/wordprocessingShape"><w:body>
<w:p><w:pPr><w:jc w:val="center"/><w:rPr><w:sz w:val="28"/></w:rPr></w:pPr><w:r><w:rPr><w:sz w:val="24"/></w:rPr><w:drawing><wp:anchor><wps:txbx><w:txbxContent><w:p><w:r><w:t>班级 姓名 考号 密封线内不准答题</w:t></w:r></w:p></w:txbxContent></wps:txbx></wp:anchor></w:drawing></w:r><w:r><w:rPr><w:rFonts w:eastAsia="宋体"/><w:b/><w:sz w:val="40"/></w:rPr><w:t>原试卷标题</w:t></w:r></w:p>
<w:p><w:r><w:t>考试时间：90分钟</w:t></w:r></w:p>
<w:sectPr/>
</w:body></w:document>"#;

const FLOATING_SEAL_GEOMETRY_PARAGRAPH: &str = r#"<w:p xmlns:w="http://schemas.openxmlformats.org/wordprocessingml/2006/main" xmlns:wp="http://schemas.openxmlformats.org/drawingml/2006/wordprocessingDrawing" xmlns:a="http://schemas.openxmlformats.org/drawingml/2006/main" xmlns:wpg="http://schemas.microsoft.com/office/word/2010/wordprocessingGroup" xmlns:wps="http://schemas.microsoft.com/office/word/2010/wordprocessingShape"><w:r><w:drawing><wp:anchor><wp:positionH relativeFrom="column"><wp:posOffset>-907415</wp:posOffset></wp:positionH><wp:positionV relativeFrom="paragraph"><wp:posOffset>-862965</wp:posOffset></wp:positionV><wp:extent cx="961390" cy="11428095"/><a:graphic><a:graphicData><wpg:wgp><wpg:grpSpPr><a:xfrm><a:off x="0" y="0"/><a:ext cx="961390" cy="11428095"/><a:chOff x="441" y="42"/><a:chExt cx="1680" cy="16692"/></a:xfrm></wpg:grpSpPr><wps:wsp><wps:spPr><a:xfrm><a:off x="441" y="42"/><a:ext cx="1680" cy="16692"/></a:xfrm></wps:spPr><wps:txbx><w:txbxContent><w:p><w:pPr><w:jc w:val="center"/></w:pPr><w:r><w:rPr><w:sz w:val="24"/></w:rPr><w:t>班级</w:t></w:r><w:r><w:rPr><w:sz w:val="24"/><w:u w:val="single"/></w:rPr><w:t xml:space="preserve">              </w:t></w:r><w:r><w:rPr><w:sz w:val="24"/></w:rPr><w:t>姓名 考号</w:t></w:r></w:p><w:p><w:pPr><w:jc w:val="center"/></w:pPr><w:r><w:t>密              封              线              内              不              准              答              题</w:t></w:r></w:p></w:txbxContent></wps:txbx><wps:bodyPr vert="vert270"/></wps:wsp><wps:wsp><wps:spPr><a:xfrm><a:off x="1510" y="42"/><a:ext cx="0" cy="16692"/></a:xfrm><a:prstGeom prst="line"/><a:ln w="19050"><a:prstDash val="dash"/></a:ln></wps:spPr></wps:wsp></wpg:wgp></a:graphicData></a:graphic></wp:anchor></w:drawing></w:r></w:p>"#;

const THEME: &str = r#"<a:theme xmlns:a="http://schemas.openxmlformats.org/drawingml/2006/main"><a:themeElements><a:fontScheme name="Office"><a:majorFont><a:latin typeface="Calibri Light"/><a:ea typeface=""/><a:font script="Hans" typeface="宋体"/></a:majorFont><a:minorFont><a:latin typeface="Calibri"/><a:font script="Hans" typeface="仿宋"/></a:minorFont></a:fontScheme></a:themeElements></a:theme>"#;

const FOOTER: &str = r#"<w:ftr xmlns:w="http://schemas.openxmlformats.org/wordprocessingml/2006/main"><w:p><w:r><w:t>第 </w:t></w:r><w:r><w:instrText> PAGE </w:instrText></w:r><w:r><w:t> 页，共 </w:t></w:r><w:r><w:instrText> NUMPAGES </w:instrText></w:r><w:r><w:t> 页</w:t></w:r></w:p></w:ftr>"#;


fn package_with_entries(entries: &[(&str, &[u8])]) -> Vec<u8> {
    let cursor = Cursor::new(Vec::new());
    let mut writer = ZipWriter::new(cursor);
    let options = SimpleFileOptions::default().compression_method(zip::CompressionMethod::Deflated);
    for (name, bytes) in entries {
        writer.start_file(*name, options).unwrap();
        writer.write_all(bytes).unwrap();
    }
    writer.finish().unwrap().into_inner()
}

fn minimal_docx(document_xml: &str) -> Vec<u8> {
    package_with_entries(&[
        ("[Content_Types].xml", CONTENT_TYPES.as_bytes()),
        ("_rels/.rels", ROOT_RELS.as_bytes()),
        ("word/document.xml", document_xml.as_bytes()),
        ("word/styles.xml", b"<w:styles xmlns:w=\"http://schemas.openxmlformats.org/wordprocessingml/2006/main\"/>"),
    ])
}

fn document_xml(package: &[u8]) -> String {
    let mut archive = ZipArchive::new(Cursor::new(package)).unwrap();
    let mut xml = String::new();
    archive.by_name(DOCUMENT_PART).unwrap().read_to_string(&mut xml).unwrap();
    xml
}

fn role<'a>(profile: &'a TemplateStyleProfile, name: &str) -> Option<&'a ParagraphStylePrototype> {
    profile.roles.iter().find(|(role, _)| role == name).map(|(_, prototype)| prototype)
}

fn stored_bytes_round_trip(bytes: &[u8]) -> Vec<u8> {
    decode_hex_bytes(&to_lower_hex(bytes)).unwrap()
}

#[test]
fn previews_non_anchor_paragraphs_and_configures_after_a_selected_paragraph() {
    let source = minimal_docx(DOCUMENT);
    let preview = preview_template_configuration(&source, &DocxLimits::default()).unwrap();
    assert_eq!(preview.paragraphs.len(), 2);
    assert!(!preview.has_questions_anchor);

    let configured = configure_template_package(
        &source,
        &TemplateRegionConfiguration {
            questions: TemplateRegionPlacement::AfterParagraph(1),
            styles: TemplateStyleSelection::default(),
            title: Some(TemplateRegionPlacement::ReplaceParagraph(0)),
        },
        &DocxLimits::default(),
    )
    .unwrap();
    assert!(configured.analysis.is_acceptable());
    let xml = document_xml(&configured.bytes);
    assert!(xml.contains("{{ZT_TITLE}}"));
    assert!(xml.contains("姓名：________"));
    assert!(xml.find("姓名：________").unwrap() < xml.find("{{ZT_QUESTIONS}}").unwrap());
}

#[test]
fn document_end_inserts_before_section_properties() {
    let source = minimal_docx(DOCUMENT);
    let configured = configure_template_package(
        &source,
        &TemplateRegionConfiguration {
            questions: TemplateRegionPlacement::DocumentEnd,
            styles: TemplateStyleSelection::default(),
            title: None,
        },
        &DocxLimits::default(),
    )
    .unwrap();
    let xml = document_xml(&configured.bytes);
    assert!(xml.find("{{ZT_QUESTIONS}}").unwrap() < xml.find("<w:sectPr").unwrap());
}

#[test]
fn layout_preview_keeps_static_body_order_styles_and_page_setup() {
    let preview =
        preview_template_layout(&minimal_docx(LAYOUT_TEMPLATE), &DocxLimits::default())
            .unwrap();

    assert_eq!(preview.page.width_twips, 16_838);
    assert_eq!(preview.page.height_twips, 11_906);
    assert_eq!(preview.page.margin_left_twips, 1_260);
    assert_eq!(preview.page.header_twips, 560);
    assert_eq!(preview.page.footer_twips, 680);
    assert_eq!(preview.page.column_count, 2);
    assert_eq!(preview.page.column_gap_twips, 425);
    assert!(preview.page.column_separator);
    assert_eq!(preview.page.document_grid_type.as_deref(), Some("lines"));
    assert_eq!(preview.page.document_grid_line_pitch_twips, Some(312));
    assert_eq!(
        preview
            .blocks
            .iter()
            .map(|block| block.kind.as_str())
            .collect::<Vec<_>>(),
        vec!["static", "title", "questions"]
    );
    let static_block = &preview.blocks[0];
    assert_eq!(static_block.text, "学校：第一中学");
    let style = static_block
        .style
        .as_ref()
        .expect("static style should be kept");
    assert!(
        String::from_utf8_lossy(&style.run_properties)
            .contains(r#"w:rFonts w:eastAsia="宋体""#)
    );
}

#[test]
fn layout_preview_reads_theme_fonts_and_dynamic_page_numbers() {
    let package = package_with_entries(&[
        ("[Content_Types].xml", CONTENT_TYPES.as_bytes()),
        ("_rels/.rels", ROOT_RELS.as_bytes()),
        ("word/document.xml", LAYOUT_TEMPLATE.as_bytes()),
        (
            "word/styles.xml",
            b"<w:styles xmlns:w=\"http://schemas.openxmlformats.org/wordprocessingml/2006/main\"/>",
        ),
        ("word/theme/theme1.xml", THEME.as_bytes()),
        ("word/footer1.xml", FOOTER.as_bytes()),
    ]);
    let preview = preview_template_layout(&package, &DocxLimits::default()).unwrap();

    assert_eq!(
        preview.font_theme.major_latin.as_deref(),
        Some("Calibri Light")
    );
    assert_eq!(preview.font_theme.major_east_asia.as_deref(), Some("宋体"));
    assert_eq!(preview.font_theme.minor_east_asia.as_deref(), Some("仿宋"));
    assert_eq!(
        preview.page_number_format.as_deref(),
        Some("第 {pageNo} 页，共 {pageCount} 页")
    );
}

#[test]
fn replacing_title_keeps_floating_side_seal_and_uses_visible_title_style() {
    let configured = configure_template_package(
        &minimal_docx(FLOATING_SEAL_TEMPLATE),
        &TemplateRegionConfiguration {
            questions: TemplateRegionPlacement::DocumentEnd,
            styles: TemplateStyleSelection::default(),
            title: Some(TemplateRegionPlacement::ReplaceParagraph(0)),
        },
        &DocxLimits::default(),
    )
    .unwrap();

    let xml = document_xml(&configured.bytes);
    assert!(xml.contains("<wp:anchor>"));
    assert!(xml.contains("班级 姓名 考号 密封线内不准答题"));
    assert!(!xml.contains("原试卷标题"));
    assert!(xml.contains(r#"ztw:line="1" ztw:lineRule="exact""#));
    assert!(xml.find("<wp:anchor>").unwrap() < xml.find("{{ZT_TITLE}}").unwrap());

    let title = configured
        .style_profile
        .as_ref()
        .and_then(|profile| role(profile, "title"))
        .expect("title style should be saved");
    let title_run = String::from_utf8_lossy(&title.run_properties);
    assert!(title_run.contains(r#"w:rFonts w:eastAsia="宋体""#));
    assert!(title_run.contains(r#"w:sz w:val="40""#));
    assert!(!title_run.contains(r#"w:sz w:val="24""#));

    let preview = preview_template_layout(&configured.bytes, &DocxLimits::default()).unwrap();
    assert_eq!(
        preview
            .blocks
            .iter()
            .map(|block| block.kind.as_str())
            .collect::<Vec<_>>(),
        vec!["sideSeal", "title", "static", "questions"]
    );
}

#[test]
fn reads_side_seal_anchor_geometry_direction_text_and_line() {
    let page = TemplatePageSetup {
        margin_left_twips: 1_417,
        margin_top_twips: 1_417,
        ..TemplatePageSetup::default()
    };
    // The real template's separate dashed-line shape also contains a
    // bodyPr without a vert attribute. It must not clear the text box's
    // earlier vert270 direction.
    let paragraph = FLOATING_SEAL_GEOMETRY_PARAGRAPH.replace(
        "</wps:spPr></wps:wsp></wpg:wgp>",
        "</wps:spPr><wps:bodyPr upright=\"1\"/></wps:wsp></wpg:wgp>",
    );
    let layout =
        extract_side_seal_layout(paragraph.as_bytes(), 0, &page, &DocxLimits::default())
            .unwrap()
            .expect("side seal geometry should be available");

    assert_eq!(layout.horizontal_relative_from.as_deref(), Some("column"));
    assert_eq!(layout.vertical_relative_from.as_deref(), Some("paragraph"));
    assert_eq!(layout.page_x_emu, Some(-7_620));
    assert_eq!(layout.page_y_emu, Some(36_830));
    assert_eq!(layout.width_emu, 961_390);
    assert_eq!(layout.height_emu, 11_428_095);
    assert_eq!(layout.text_direction.as_deref(), Some("vert270"));
    assert_eq!(layout.line_x_emu, Some(611_741));
    assert_eq!(layout.line_width_emu, Some(19_050));
    assert_eq!(layout.line_dash.as_deref(), Some("dash"));
    assert_eq!(layout.lines.len(), 2);
    assert_eq!(layout.lines[0].alignment.as_deref(), Some("center"));
    assert_eq!(layout.lines[0].runs[0].text, "班级");
    assert!(layout.lines[0].runs[1].underline);
    assert_eq!(layout.lines[0].runs[1].size_half_points, Some(24));
}

#[test]
fn layout_preview_reads_side_seal_namespaces_inherited_from_document_root() {
    let paragraph = FLOATING_SEAL_GEOMETRY_PARAGRAPH
        .replace(
            r#" xmlns:w="http://schemas.openxmlformats.org/wordprocessingml/2006/main""#,
            "",
        )
        .replace(
            r#" xmlns:wp="http://schemas.openxmlformats.org/drawingml/2006/wordprocessingDrawing""#,
            "",
        )
        .replace(
            r#" xmlns:a="http://schemas.openxmlformats.org/drawingml/2006/main""#,
            "",
        )
        .replace(
            r#" xmlns:wpg="http://schemas.microsoft.com/office/word/2010/wordprocessingGroup""#,
            "",
        )
        .replace(
            r#" xmlns:wps="http://schemas.microsoft.com/office/word/2010/wordprocessingShape""#,
            "",
        );
    let document = format!(
        r#"<w:document xmlns:w="http://schemas.openxmlformats.org/wordprocessingml/2006/main" xmlns:wp="http://schemas.openxmlformats.org/drawingml/2006/wordprocessingDrawing" xmlns:a="http://schemas.openxmlformats.org/drawingml/2006/main" xmlns:wpg="http://schemas.microsoft.com/office/word/2010/wordprocessingGroup" xmlns:wps="http://schemas.microsoft.com/office/word/2010/wordprocessingShape"><w:body>{paragraph}<w:sectPr><w:pgSz w:w="23811" w:h="16838"/><w:pgMar w:top="1417" w:right="1417" w:bottom="1417" w:left="1417"/></w:sectPr></w:body></w:document>"#
    );
    let preview =
        preview_template_layout(&minimal_docx(&document), &DocxLimits::default()).unwrap();
    let seal = preview
        .blocks
        .iter()
        .find(|block| block.kind == "sideSeal")
        .and_then(|block| block.side_seal.as_ref())
        .expect("side-seal geometry should survive paragraph slicing");

    assert_eq!(seal.text_direction.as_deref(), Some("vert270"));
    assert_eq!(seal.line_dash.as_deref(), Some("dash"));
    assert_eq!(seal.lines.len(), 2);
}

#[test]
fn rejects_title_and_questions_at_the_same_insertion_point() {
    let source = minimal_docx(DOCUMENT);
    let error = configure_template_package(
        &source,
        &TemplateRegionConfiguration {
            questions: TemplateRegionPlacement::AfterParagraph(0),
            styles: TemplateStyleSelection::default(),
            title: Some(TemplateRegionPlacement::AfterParagraph(0)),
        },
        &DocxLimits::default(),
    )
    .unwrap_err();
    let DocxError::Rejected { diagnostics } = error else {
        panic!("overlapping positions must be rejected");
    };
    assert!(
        diagnostics
            .iter()
            .any(|item| item.code == "TEMPLATE_CONFIGURATION_REGIONS_OVERLAP")
    );
}

#[test]
fn replaces_a_question_range_and_preserves_role_style_prototypes() {
    let source = minimal_docx(SAMPLE_PAPER);
    let configured = configure_template_package(
        &source,
        &TemplateRegionConfiguration {
            questions: TemplateRegionPlacement::ReplaceRange {
                start_paragraph: 1,
                end_paragraph: 3,
            },
            styles: TemplateStyleSelection {
                section_heading: Some(1),
                question: Some(2),
                option: Some(3),
                answer: None,
                explanation: None,
            },
            title: Some(TemplateRegionPlacement::ReplaceParagraph(0)),
        },
        &DocxLimits::default(),
    )
    .unwrap();

    let xml = document_xml(&configured.bytes);
    assert!(xml.contains(r#"w:tag w:val="ZT_QUESTIONS""#));
    assert!(xml.contains("<w:sdtContent><w:p/></w:sdtContent>"));
    assert!(!xml.contains("原来的题目"));
    assert!(!xml.contains("原来的选项"));
    assert!(xml.contains("命题人：张老师"));

    let profile = configured.style_profile.expect("range must save styles");
    assert_eq!(
        profile.source_range,
        Some(TemplateSourceRange {
            start_paragraph_index: 1,
            end_paragraph_index: 3,
        })
    );
    let heading = role(&profile, "sectionHeading").unwrap();
    assert!(
        String::from_utf8_lossy(&heading.run_properties)
            .contains(r#"w:rFonts w:eastAsia="黑体""#)
    );
    let question = role(&profile, "question").unwrap();
    assert!(
        String::from_utf8_lossy(&question.run_properties)
            .contains(r#"w:rFonts w:eastAsia="宋体""#)
    );
    assert!(String::from_utf8_lossy(&question.run_properties).contains(r#"w:sz w:val="28""#));
    for (_, prototype) in &profile.roles {
        assert_eq!(stored_bytes_round_trip(&prototype.paragraph_properties), prototype.paragraph_properties);
        assert_eq!(stored_bytes_round_trip(&prototype.run_properties), prototype.run_properties);
    }
}


#[test]
fn configured_profiles_list_roles_in_name_order_and_keep_a_questions_anchor() {
    let configured = configure_template_package(
        &minimal_docx(SAMPLE_PAPER),
        &TemplateRegionConfiguration {
            questions: TemplateRegionPlacement::ReplaceRange { start_paragraph: 1, end_paragraph: 3 },
            styles: TemplateStyleSelection {
                section_heading: Some(1),
                question: None,
                option: Some(3),
                answer: None,
                explanation: None,
            },
            title: Some(TemplateRegionPlacement::ReplaceParagraph(0)),
        },
        &DocxLimits::default(),
    )
    .unwrap();
    let profile = configured.style_profile.expect("samples give a profile");
    let names: Vec<&str> = profile.roles.iter().map(|(name, _)| name.as_str()).collect();
    assert_eq!(names, vec!["option", "question", "sectionHeading", "title"]);
    assert_eq!(role(&profile, "question").unwrap().source_paragraph_index, 1);
    assert_eq!(profile.schema_version, 1);
    assert!(configured.analysis.anchors.iter().any(|anchor| anchor.name == "ZT_QUESTIONS"));
}

#[test]
fn a_style_sample_outside_the_questions_range_is_refused() {
    let error = configure_template_package(
        &minimal_docx(SAMPLE_PAPER),
        &TemplateRegionConfiguration {
            questions: TemplateRegionPlacement::ReplaceRange { start_paragraph: 1, end_paragraph: 2 },
            styles: TemplateStyleSelection { option: Some(4), ..TemplateStyleSelection::default() },
            title: None,
        },
        &DocxLimits::default(),
    )
    .unwrap_err();
    assert!(matches!(error, DocxError::Rejected { .. }));
}
