//! The layout preview of a template: its page, its static paragraphs with
//! their styles (the side seal drawn as such), the places of its title and
//! questions regions, its theme fonts and its page number format.
use vstd::prelude::*;
use crate::archive::{archive_len, entry_name_facts, open_archive, read_part_limited};

use crate::document::{Paragraph};
use crate::error::{DocxError, DocxFault, DocxResult};
use crate::limits::DocxLimits;
use crate::package::spec_archive_size_diagnostic;
use crate::page_setup::{TemplatePageSetup, read_page_setup};
use crate::side_seal::{
    TemplateSideSealLayout, extract_side_seal_layout, is_side_seal_paragraph, spec_is_side_seal, spec_seal_wrapper,
    spec_side_seal,
};
use crate::template::TemplateAnchor;
use crate::template_config::{ParagraphStylePrototype, acceptable_document_analysis, missing_document_error, spans_within};
use crate::template_styles::{extract_paragraph_style_properties, style_outcome};
use crate::text::{chars_of, ends_with_chars, has_prefix, has_suffix, same_text, starts_with_chars};
use crate::theme::{TemplateFontTheme, detect_page_number_fields, parse_font_theme};

use crate::xml::XmlStream;

verus! {

/// The text shown for the side seal.
pub const SIDE_SEAL_TEXT: &'static str = "班级 姓名 考号 密封线内不准答题";

/// One block of the layout preview.
#[derive(Clone, Debug, PartialEq, Eq)]
pub struct TemplateLayoutBlock {
    /// `static`, `sideSeal`, `title` or `questions`.
    pub kind: String,
    pub text: String,
    pub style: Option<ParagraphStylePrototype>,
    pub side_seal: Option<TemplateSideSealLayout>,
}

/// The layout preview of a template.
#[derive(Clone, Debug, PartialEq, Eq)]
pub struct TemplateLayoutPreview {
    pub page: TemplatePageSetup,
    pub blocks: Vec<TemplateLayoutBlock>,
    pub font_theme: TemplateFontTheme,
    pub page_number_format: Option<String>,
}

/// The kind of block an anchor makes: its region, or none for the answer
/// and explanation regions and any other anchor.
pub open spec fn anchor_block_kind(name: Seq<char>) -> Option<Seq<char>> {
    if name == "ZT_TITLE"@ {
        Some("title"@)
    } else if name == "ZT_QUESTIONS"@ {
        Some("questions"@)
    } else {
        None
    }
}

/// Whether block `a` sorts after block `b` by position.
pub open spec fn positions_of(blocks: Seq<(usize, TemplateLayoutBlock)>) -> Seq<usize> {
    blocks.map_values(|b: (usize, TemplateLayoutBlock)| b.0)
}

/// `b` inserted into the ordered `blocks` after every block at or before
/// its position.
pub open spec fn insert_block(blocks: Seq<(usize, TemplateLayoutBlock)>, b: (usize, TemplateLayoutBlock)) -> Seq<
    (usize, TemplateLayoutBlock),
>
    decreases blocks.len(),
{
    if blocks.len() == 0 {
        seq![b]
    } else if blocks.last().0 <= b.0 {
        blocks.push(b)
    } else {
        insert_block(blocks.drop_last(), b).push(blocks.last())
    }
}

/// `blocks` in order of position, keeping the order of blocks at the same
/// position.
pub open spec fn sort_blocks(blocks: Seq<(usize, TemplateLayoutBlock)>) -> Seq<(usize, TemplateLayoutBlock)>
    decreases blocks.len(),
{
    if blocks.len() == 0 {
        blocks
    } else {
        insert_block(sort_blocks(blocks.drop_last()), blocks.last())
    }
}

/// The region blocks of `anchors`, in order, at the start of each anchor's
/// container.
pub open spec fn region_blocks(anchors: Seq<TemplateAnchor>) -> Seq<(usize, Seq<char>)>
    decreases anchors.len(),
{
    if anchors.len() == 0 {
        Seq::empty()
    } else {
        let before = region_blocks(anchors.drop_last());
        match anchor_block_kind(anchors.last().name@) {
            Some(kind) => before.push((anchors.last().container_span.start, kind)),
            None => before,
        }
    }
}

/// A region block as position and kind: empty text, no style, no seal.
pub open spec fn as_region(b: (usize, TemplateLayoutBlock)) -> Option<(usize, Seq<char>)> {
    if b.1.text@.len() == 0 && b.1.style is None && b.1.side_seal is None {
        Some((b.0, b.1.kind@))
    } else {
        None
    }
}

/// Inserts `b` into the ordered `blocks` after every block at or before its
/// position.
fn insert_block_sorted(blocks: &mut Vec<(usize, TemplateLayoutBlock)>, b: (usize, TemplateLayoutBlock))
    ensures
        final(blocks)@ == insert_block(old(blocks)@, b),
    decreases old(blocks)@.len(),
{
    let n = blocks.len();
    if n == 0 {
        blocks.push(b);
        assert(blocks@ =~= seq![b]);
        return;
    }
    if blocks[n - 1].0 <= b.0 {
        blocks.push(b);
        return;
    }
    let ghost before = blocks@;
    let last = blocks.pop().unwrap();
    assert(blocks@ =~= before.drop_last());
    insert_block_sorted(blocks, b);
    blocks.push(last);
}

/// The blocks of the preview: the positioned paragraph blocks followed by a
/// block for each title and questions anchor at the start of its container,
/// all in order of position, keeping the order of blocks at the same
/// position.
pub fn layout_blocks(positioned: Vec<(usize, TemplateLayoutBlock)>, anchors: &[TemplateAnchor]) -> (blocks: Vec<
    TemplateLayoutBlock,
>)
    ensures
        exists|regions: Seq<(usize, TemplateLayoutBlock)>|
            #![trigger sort_blocks(positioned@ + regions)]
            regions.map_values(|b: (usize, TemplateLayoutBlock)| as_region(b)) == region_blocks(anchors@).map_values(
                |r: (usize, Seq<char>)| Some(r),
            ) && blocks@ == sort_blocks(positioned@ + regions).map_values(
                |b: (usize, TemplateLayoutBlock)| b.1,
            ),
{
    let ghost first = positioned@;
    let mut all = positioned;
    let mut k: usize = 0;
    let ghost mut regions: Seq<(usize, TemplateLayoutBlock)> = Seq::empty();
    assert(anchors@.subrange(0, 0) =~= Seq::<TemplateAnchor>::empty());
    assert(first + regions =~= first);
    while k < anchors.len()
        invariant
            k <= anchors@.len(),
            all@ == first + regions,
            regions.map_values(|b: (usize, TemplateLayoutBlock)| as_region(b)) == region_blocks(
                anchors@.subrange(0, k as int),
            ).map_values(|r: (usize, Seq<char>)| Some(r)),
        decreases anchors@.len() - k,
    {
        let a = &anchors[k];
        assert(anchors@.subrange(0, k + 1).drop_last() =~= anchors@.subrange(0, k as int));
        let kind = if same_text(a.name.as_str(), "ZT_TITLE") {
            Some("title")
        } else if same_text(a.name.as_str(), "ZT_QUESTIONS") {
            Some("questions")
        } else {
            None
        };
        match kind {
            Some(kind) => {
                let block = TemplateLayoutBlock { kind: kind.to_owned(), text: String::new(), style: None, side_seal: None };
                let entry = (a.container_span.start, block);
                let ghost prior = regions;
                proof {
                    regions = regions.push(entry);
                    assert(regions.map_values(|b: (usize, TemplateLayoutBlock)| as_region(b)) =~= prior.map_values(
                        |b: (usize, TemplateLayoutBlock)| as_region(b),
                    ).push(as_region(entry)));
                    assert(region_blocks(anchors@.subrange(0, k + 1)).map_values(|r: (usize, Seq<char>)| Some(r))
                        =~= region_blocks(anchors@.subrange(0, k as int)).map_values(|r: (usize, Seq<char>)| Some(r)).push(
                        Some((a.container_span.start, kind@)),
                    ));
                }
                all.push(entry);
                assert(all@ =~= first + regions);
            },
            None => {},
        }
        k = k + 1;
    }
    assert(anchors@.subrange(0, anchors@.len() as int) =~= anchors@);
    let ghost whole = all@;
    let mut rest = all;
    let total = rest.len();
    let mut taken: usize = 0;
    let mut sorted: Vec<(usize, TemplateLayoutBlock)> = Vec::new();
    assert(whole.subrange(0, 0) =~= Seq::<(usize, TemplateLayoutBlock)>::empty());
    while rest.len() > 0
        invariant
            total == whole.len(),
            taken + rest@.len() == whole.len(),
            rest@ == whole.subrange(taken as int, whole.len() as int),
            sorted@ == sort_blocks(whole.subrange(0, taken as int)),
        decreases rest@.len(),
    {
        let b = rest.remove(0);
        assert(rest@ =~= whole.subrange(taken + 1, whole.len() as int));
        assert(whole.subrange(0, taken + 1).drop_last() =~= whole.subrange(0, taken as int));
        insert_block_sorted(&mut sorted, b);
        taken = taken + 1;
    }
    assert(whole.subrange(0, whole.len() as int) =~= whole);
    let ghost ordered = sorted@;
    let mut blocks: Vec<TemplateLayoutBlock> = Vec::new();
    let mut rest = sorted;
    let count = rest.len();
    let mut done: usize = 0;
    while rest.len() > 0
        invariant
            count == ordered.len(),
            done + rest@.len() == ordered.len(),
            rest@ == ordered.subrange(done as int, ordered.len() as int),
            blocks@ == ordered.subrange(0, done as int).map_values(|b: (usize, TemplateLayoutBlock)| b.1),
        decreases rest@.len(),
    {
        let b = rest.remove(0);
        assert(rest@ =~= ordered.subrange(done + 1, ordered.len() as int));
        blocks.push(b.1);
        assert(ordered.subrange(0, done + 1).map_values(|x: (usize, TemplateLayoutBlock)| x.1) =~= ordered.subrange(
            0,
            done as int,
        ).map_values(|x: (usize, TemplateLayoutBlock)| x.1).push(b.1));
        done = done + 1;
    }
    assert(ordered.subrange(0, ordered.len() as int) =~= ordered);
    blocks
}

/// Whether `result` is what reading the side seal in the paragraph bytes
/// `source` gives, when the XML reader gives the events `stream` for them
/// wrapped in the side-seal namespaces.
pub open spec fn seal_read(
    result: DocxResult<Option<TemplateSideSealLayout>>,
    stream: XmlStream,
    source: Seq<u8>,
    paragraph_index: usize,
    page: TemplatePageSetup,
    limits: DocxLimits,
) -> bool {
    &&& stream.source_len == spec_seal_wrapper(source).len()
    &&& match (result, spec_side_seal(stream, paragraph_index, page.margin_left_twips, page.margin_top_twips, limits)) {
        (Ok(Some(l)), Ok(Some(expected))) => l@ == expected,
        (Ok(None), Ok(None)) => true,
        (Err(x), Err(fault)) => x@ == fault,
        _ => false,
    }
}

/// Whether `result` is the block of the paragraph `p`, whose bytes are
/// `source`, given what reading its style (`read`, from the events
/// `stream`) and, for a side seal, its layout (`layout`, from the events
/// `seal_stream`) gave: the first error of these readings; otherwise the
/// side seal (with its text and layout) when its bytes say so, a static
/// block with its text otherwise, styled with the properties the paragraph
/// lends and placed at the paragraph's start.
pub open spec fn paragraph_block_read(
    result: DocxResult<(usize, TemplateLayoutBlock)>,
    read: DocxResult<(Vec<u8>, Vec<u8>)>,
    stream: XmlStream,
    layout: DocxResult<Option<TemplateSideSealLayout>>,
    seal_stream: XmlStream,
    p: Paragraph,
    source: Seq<u8>,
    page: TemplatePageSetup,
    limits: DocxLimits,
) -> bool {
    let seal = spec_is_side_seal(source);
    &&& stream.source_len == source.len()
    &&& style_outcome(read, stream, source, limits)
    &&& (seal && read is Ok ==> seal_read(layout, seal_stream, source, p.index, page, limits))
    &&& match read {
        Err(e) => result matches Err(x) && x@ == e@,
        Ok((pp, rp)) => if seal && layout is Err {
            result matches Err(x) && x@ == layout->Err_0@
        } else {
            &&& result matches Ok((position, block))
            &&& position == p.source_span.start
            &&& block.kind@ == if seal { "sideSeal"@ } else { "static"@ }
            &&& block.text@ == if seal { SIDE_SEAL_TEXT@ } else { p.logical_text@ }
            &&& block.side_seal == if seal { layout->Ok_0 } else { None }
            &&& block.style == Some(
                ParagraphStylePrototype { source_paragraph_index: p.index, paragraph_properties: pp, run_properties: rp },
            )
        },
    }
}

/// Whether `result` is the block of the paragraph `p`, whose bytes are
/// `source`, for some events the XML reader gives for them.
pub open spec fn paragraph_block_outcome(
    result: DocxResult<(usize, TemplateLayoutBlock)>,
    p: Paragraph,
    source: Seq<u8>,
    page: TemplatePageSetup,
    limits: DocxLimits,
) -> bool {
    exists|
        read: DocxResult<(Vec<u8>, Vec<u8>)>,
        stream: XmlStream,
        layout: DocxResult<Option<TemplateSideSealLayout>>,
        seal_stream: XmlStream,
    | #[trigger] paragraph_block_read(result, read, stream, layout, seal_stream, p, source, page, limits)
}

/// The block of one paragraph of the template.
fn paragraph_block(p: &Paragraph, document_xml: &[u8], page: &TemplatePageSetup, limits: &DocxLimits) -> (result:
    DocxResult<(usize, TemplateLayoutBlock)>)
    requires
        p.source_span.start <= p.source_span.end <= document_xml@.len(),
    ensures
        paragraph_block_outcome(
            result,
            *p,
            document_xml@.subrange(p.source_span.start as int, p.source_span.end as int),
            *page,
            *limits,
        ),
{
    let span = p.source_span;
    let source = vstd::slice::slice_subrange(document_xml, span.start, span.end);
    assert(source@ == document_xml@.subrange(span.start as int, span.end as int));
    let read = extract_paragraph_style_properties(source, limits);
    let ghost read_view = read;
    let ghost st = choose|stream: XmlStream|
        stream.source_len == source@.len() && #[trigger] style_outcome(read_view, stream, source@, *limits);
    let (paragraph_properties, run_properties) = match read {
        Err(x) => {
            let result = Err(x);
            assert(paragraph_block_read(result, read_view, st, Ok(None), st, *p, source@, *page, *limits));
            return result;
        },
        Ok(pair) => pair,
    };
    let seal = is_side_seal_paragraph(source);
    let ghost mut layout_view: DocxResult<Option<TemplateSideSealLayout>> = Ok(None);
    let ghost mut seal_stream: XmlStream = st;
    let side_seal = if seal {
        let layout = extract_side_seal_layout(source, p.index, page, limits);
        proof {
            layout_view = layout;
            let w = choose|stream: XmlStream|
                stream.source_len == spec_seal_wrapper(source@).len() && match (
                    layout,
                    #[trigger] spec_side_seal(stream, p.index, page.margin_left_twips, page.margin_top_twips, *limits),
                ) {
                    (Ok(Some(l)), Ok(Some(expected))) => l@ == expected,
                    (Ok(None), Ok(None)) => true,
                    (Err(x), Err(fault)) => x@ == fault,
                    _ => false,
                };
            assert(seal_read(layout, w, source@, p.index, *page, *limits));
            seal_stream = w;
        }
        match layout {
            Err(x) => {
                let result = Err(x);
                assert(paragraph_block_read(result, read_view, st, layout_view, seal_stream, *p, source@, *page, *limits));
                return result;
            },
            Ok(l) => l,
        }
    } else {
        None
    };
    let block = TemplateLayoutBlock {
        kind: if seal {
            "sideSeal".to_owned()
        } else {
            "static".to_owned()
        },
        text: if seal {
            SIDE_SEAL_TEXT.to_owned()
        } else {
            p.logical_text.clone()
        },
        style: Some(ParagraphStylePrototype { source_paragraph_index: p.index, paragraph_properties, run_properties }),
        side_seal,
    };
    let result = Ok((span.start, block));
    assert(paragraph_block_read(result, read_view, st, layout_view, seal_stream, *p, source@, *page, *limits));
    result
}

/// Whether a part name is a theme part.
pub open spec fn is_theme_part(name: Seq<char>) -> bool {
    has_prefix(name, "word/theme/"@) && has_suffix(name, ".xml"@)
}

/// Whether a part name is a header or footer part.
pub open spec fn is_header_footer_part(name: Seq<char>) -> bool {
    (has_prefix(name, "word/header"@) || has_prefix(name, "word/footer"@)) && has_suffix(name, ".xml"@)
}

/// The theme part (the first one) and the header and footer parts among
/// the package's part names, in order.
pub open spec fn metadata_parts(names: Seq<Seq<char>>) -> (Option<Seq<char>>, Seq<Seq<char>>)
    decreases names.len(),
{
    if names.len() == 0 {
        (None, Seq::empty())
    } else {
        let (theme, fields) = metadata_parts(names.drop_last());
        let name = names.last();
        if is_theme_part(name) && theme is None {
            (Some(name), fields)
        } else if is_header_footer_part(name) {
            (theme, fields.push(name))
        } else {
            (theme, fields)
        }
    }
}

/// The page number format a preview shows: with a page count field, page
/// and count; with only a page field, the page.
pub open spec fn spec_page_number_format(has_page: bool, has_count: bool) -> Option<Seq<char>> {
    if has_count {
        Some("第 {pageNo} 页，共 {pageCount} 页"@)
    } else if has_page {
        Some("第 {pageNo} 页"@)
    } else {
        None
    }
}

/// The page number format a preview shows.
pub fn page_number_format(has_page: bool, has_count: bool) -> (format: Option<String>)
    ensures
        match (format, spec_page_number_format(has_page, has_count)) {
            (Some(f), Some(expected)) => f@ == expected,
            (None, None) => true,
            _ => false,
        },
{
    if has_count {
        Some("第 {pageNo} 页，共 {pageCount} 页".to_owned())
    } else if has_page {
        Some("第 {pageNo} 页".to_owned())
    } else {
        None
    }
}

/// Whether `name` is a theme part.
fn theme_part_name(name: &str) -> (found: bool)
    ensures
        found == is_theme_part(name@),
{
    let c = chars_of(name);
    starts_with_chars(c.as_slice(), chars_of("word/theme/").as_slice()) && ends_with_chars(
        c.as_slice(),
        chars_of(".xml").as_slice(),
    )
}

/// Whether `name` is a header or footer part.
fn header_footer_part_name(name: &str) -> (found: bool)
    ensures
        found == is_header_footer_part(name@),
{
    let c = chars_of(name);
    (starts_with_chars(c.as_slice(), chars_of("word/header").as_slice()) || starts_with_chars(
        c.as_slice(),
        chars_of("word/footer").as_slice(),
    )) && ends_with_chars(c.as_slice(), chars_of(".xml").as_slice())
}

/// The theme part and the header and footer parts among `names`.
pub fn preview_metadata_parts(names: &[String]) -> (parts: (Option<String>, Vec<String>))
    ensures
        ({
            let (theme, fields) = metadata_parts(names@.map_values(|n: String| n@));
            &&& match (parts.0, theme) {
                (Some(t), Some(expected)) => t@ == expected,
                (None, None) => true,
                _ => false,
            }
            &&& parts.1@.map_values(|n: String| n@) == fields
        }),
{
    let ghost all = names@.map_values(|n: String| n@);
    let mut theme: Option<String> = None;
    let mut fields: Vec<String> = Vec::new();
    let mut k: usize = 0;
    assert(all.subrange(0, 0) =~= Seq::<Seq<char>>::empty());
    while k < names.len()
        invariant
            k <= names@.len(),
            all == names@.map_values(|n: String| n@),
            ({
                let (t, f) = metadata_parts(all.subrange(0, k as int));
                &&& match (theme, t) {
                    (Some(a), Some(b)) => a@ == b,
                    (None, None) => true,
                    _ => false,
                }
                &&& fields@.map_values(|n: String| n@) == f
            }),
        decreases names@.len() - k,
    {
        let name = names[k].as_str();
        assert(all.subrange(0, k + 1).drop_last() =~= all.subrange(0, k as int));
        assert(all.subrange(0, k + 1).last() == name@);
        if theme_part_name(name) && theme.is_none() {
            theme = Some(name.to_owned());
        } else if header_footer_part_name(name) {
            let ghost before = fields@;
            fields.push(name.to_owned());
            assert(fields@.map_values(|n: String| n@) =~= before.map_values(|n: String| n@).push(name@));
        }
        k = k + 1;
    }
    assert(all.subrange(0, names@.len() as int) =~= all);
    (theme, fields)
}

/// The font theme and page number format of a template package: the theme
/// part's fonts (none without a theme part) and the format its header and
/// footer parts' page number fields call for.
pub fn read_template_preview_metadata(package_bytes: &[u8], limits: &DocxLimits) -> (result: DocxResult<
    (TemplateFontTheme, Option<String>),
>)
    ensures
        result matches Ok((_, format)) ==> exists|has_page: bool, has_count: bool|
            match (format, #[trigger] spec_page_number_format(has_page, has_count)) {
                (Some(f), Some(expected)) => f@ == expected,
                (None, None) => true,
                _ => false,
            },
{
    let mut archive = match open_archive(package_bytes) {
        Err(error) => return Err(DocxError::Zip(error)),
        Ok(archive) => archive,
    };
    let n = archive_len(&archive);
    let mut names: Vec<String> = Vec::new();
    let mut index: usize = 0;
    while index < n
        invariant
            index <= n,
        decreases n - index,
    {
        match entry_name_facts(&mut archive, index) {
            Err(error) => return Err(DocxError::Zip(error)),
            Ok((name, _, _)) => names.push(name),
        }
        index = index + 1;
    }
    let (theme_part, field_parts) = preview_metadata_parts(names.as_slice());
    let font_theme = match theme_part {
        Some(part_name) => {
            let xml = match read_part_limited(&mut archive, part_name.as_str(), limits.max_xml_part_bytes) {
                Err(x) => return Err(x),
                Ok(bytes) => bytes,
            };
            match parse_font_theme(xml.as_slice(), part_name.as_str(), limits) {
                Err(x) => return Err(x),
                Ok(theme) => theme,
            }
        },
        None => TemplateFontTheme::default(),
    };
    let mut has_page = false;
    let mut has_count = false;
    let mut k: usize = 0;
    while k < field_parts.len()
        invariant
            k <= field_parts@.len(),
        decreases field_parts@.len() - k,
    {
        let part_name = field_parts[k].as_str();
        let xml = match read_part_limited(&mut archive, part_name, limits.max_xml_part_bytes) {
            Err(x) => return Err(x),
            Ok(bytes) => bytes,
        };
        match detect_page_number_fields(xml.as_slice(), part_name, limits) {
            Err(x) => return Err(x),
            Ok((page, count)) => {
                has_page = has_page || page;
                has_count = has_count || count;
            },
        }
        k = k + 1;
    }
    let format = page_number_format(has_page, has_count);
    assert(match (format, spec_page_number_format(has_page, has_count)) {
        (Some(f), Some(expected)) => f@ == expected,
        (None, None) => true,
        _ => false,
    });
    Ok((font_theme, format))
}

/// The layout preview of a template held in `package_bytes`: once its
/// analysis shows a document package without errors, its page setup; a
/// block for each paragraph outside every anchor region (as
/// [`paragraph_block`] makes it) and for each title and questions anchor,
/// in order of position (as [`layout_blocks`] orders them); and its theme
/// fonts and page number format.
pub fn preview_template_layout(package_bytes: &[u8], limits: &DocxLimits) -> (result: DocxResult<TemplateLayoutPreview>)
    ensures
        package_bytes@.len() > limits.max_archive_bytes ==> (result matches Err(x) && x@ == DocxFault::Rejected {
            diagnostics: seq![spec_archive_size_diagnostic(package_bytes@.len() as u64, *limits)->0],
        }),
{
    let analysis = match acceptable_document_analysis(package_bytes, limits) {
        Err(x) => return Err(x),
        Ok(a) => a,
    };
    let document_xml = match &analysis.document_xml {
        None => return Err(missing_document_error()),
        Some(xml) => xml,
    };
    let parsed = match crate::template_config::read_placed_document(document_xml.as_slice(), limits) {
        Err(x) => return Err(x),
        Ok(d) => d,
    };
    let page = match read_page_setup(document_xml.as_slice(), limits) {
        Err(x) => return Err(x),
        Ok(page) => page,
    };
    let mut positioned: Vec<(usize, TemplateLayoutBlock)> = Vec::new();
    let mut k: usize = 0;
    while k < parsed.paragraphs.len()
        invariant
            k <= parsed.paragraphs@.len(),
            spans_within(parsed.paragraphs@, document_xml@.len() as int),
            package_bytes@.len() <= limits.max_archive_bytes,
        decreases parsed.paragraphs@.len() - k,
    {
        let p = &parsed.paragraphs[k];
        if !crate::template_config::any_anchor_contains(analysis.anchors.as_slice(), p.source_span) {
            match paragraph_block(p, document_xml.as_slice(), &page, limits) {
                Err(x) => return Err(x),
                Ok(block) => positioned.push(block),
            }
        }
        k = k + 1;
    }
    let blocks = layout_blocks(positioned, analysis.anchors.as_slice());
    let (font_theme, page_number_format) = match read_template_preview_metadata(package_bytes, limits) {
        Err(x) => return Err(x),
        Ok(metadata) => metadata,
    };
    Ok(TemplateLayoutPreview { page, blocks, font_theme, page_number_format })
}

} // verus!
