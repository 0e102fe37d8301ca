//! The side seal of an exam template: the floating DrawingML group beside
//! the page where pupils write class, name and number, with its dashed cut
//! line. Its position, size, text lines and line geometry are read from the
//! paragraph that anchors it.
use vstd::prelude::*;
use crate::error::{DocxError, DocxFault, DocxResult};
use crate::limits::DocxLimits;
use crate::numbers::{parse_i64, parse_i64_spec, parse_u32, parse_u64, parse_unsigned};
use crate::package::DOCUMENT_PART;
use crate::page_setup::{TemplatePageSetup, is_off, prior_position};
use crate::text::{same_text, trim_white_space, trimmed};
use crate::xml::{NamespaceKind, ResolvedNamespace, XmlEvent, XmlEventKind, XmlStream, attribute_value, classify_namespace, opt_text, spec_attribute_value, spec_classify};
use crate::xml_reader::read_xml_stream;
use vstd::string::{StrSliceExecFns, StringSliceAdditionalSpecFns};

verus! {

/// The namespace of WordprocessingML drawing anchors (`wp:`).
pub const WORDPROCESSING_DRAWING_NS: &'static str = "http://schemas.openxmlformats.org/drawingml/2006/wordprocessingDrawing";

/// The namespace of WordprocessingML shape groups (`wpg:`).
pub const WORDPROCESSING_GROUP_NS: &'static str = "http://schemas.microsoft.com/office/word/2010/wordprocessingGroup";

/// The namespace of WordprocessingML shapes (`wps:`).
pub const WORDPROCESSING_SHAPE_NS: &'static str = "http://schemas.microsoft.com/office/word/2010/wordprocessingShape";

/// English Metric Units per twip.
pub const EMU_PER_TWIP: i64 = 635;

/// The root element that declares, for a paragraph taken out of its
/// document, the namespaces a side-seal drawing uses.
pub const SEAL_ROOT_OPEN: &'static str = "<root xmlns:w=\"http://schemas.openxmlformats.org/wordprocessingml/2006/main\" xmlns:wp=\"http://schemas.openxmlformats.org/drawingml/2006/wordprocessingDrawing\" xmlns:a=\"http://schemas.openxmlformats.org/drawingml/2006/main\" xmlns:wpg=\"http://schemas.microsoft.com/office/word/2010/wordprocessingGroup\" xmlns:wps=\"http://schemas.microsoft.com/office/word/2010/wordprocessingShape\">";

/// The end of that root element.
pub const SEAL_ROOT_CLOSE: &'static str = "</root>";

/// One run of side-seal text.
#[derive(Clone, Debug, PartialEq, Eq)]
pub struct TemplateSideSealRun {
    pub text: String,
    pub underline: bool,
    pub size_half_points: Option<u32>,
}

/// One line of side-seal text: its alignment and runs.
#[derive(Clone, Debug, PartialEq, Eq)]
pub struct TemplateSideSealLine {
    pub alignment: Option<String>,
    pub runs: Vec<TemplateSideSealRun>,
}

/// Where the side seal stands, how large it is, its text and its cut line.
#[derive(Clone, Debug, PartialEq, Eq)]
pub struct TemplateSideSealLayout {
    pub horizontal_relative_from: Option<String>,
    pub vertical_relative_from: Option<String>,
    pub horizontal_offset_emu: Option<i64>,
    pub vertical_offset_emu: Option<i64>,
    pub page_x_emu: Option<i64>,
    pub page_y_emu: Option<i64>,
    pub width_emu: u64,
    pub height_emu: u64,
    pub text_direction: Option<String>,
    pub line_x_emu: Option<i64>,
    pub line_width_emu: Option<u64>,
    pub line_dash: Option<String>,
    pub lines: Vec<TemplateSideSealLine>,
}

/// A run as plain values.
pub struct RunView {
    pub text: Seq<char>,
    pub underline: bool,
    pub size_half_points: Option<u32>,
}

/// A line as plain values.
pub struct LineView {
    pub alignment: Option<Seq<char>>,
    pub runs: Seq<RunView>,
}

/// A side-seal layout as plain values.
pub struct SealLayoutView {
    pub horizontal_relative_from: Option<Seq<char>>,
    pub vertical_relative_from: Option<Seq<char>>,
    pub horizontal_offset_emu: Option<i64>,
    pub vertical_offset_emu: Option<i64>,
    pub page_x_emu: Option<i64>,
    pub page_y_emu: Option<i64>,
    pub width_emu: u64,
    pub height_emu: u64,
    pub text_direction: Option<Seq<char>>,
    pub line_x_emu: Option<i64>,
    pub line_width_emu: Option<u64>,
    pub line_dash: Option<Seq<char>>,
    pub lines: Seq<LineView>,
}

impl View for TemplateSideSealRun {
    type V = RunView;

    open spec fn view(&self) -> RunView {
        RunView { text: self.text@, underline: self.underline, size_half_points: self.size_half_points }
    }
}

impl View for TemplateSideSealLine {
    type V = LineView;

    open spec fn view(&self) -> LineView {
        LineView { alignment: opt_text(self.alignment), runs: self.runs@.map_values(|r: TemplateSideSealRun| r@) }
    }
}

impl View for TemplateSideSealLayout {
    type V = SealLayoutView;

    open spec fn view(&self) -> SealLayoutView {
        SealLayoutView {
            horizontal_relative_from: opt_text(self.horizontal_relative_from),
            vertical_relative_from: opt_text(self.vertical_relative_from),
            horizontal_offset_emu: self.horizontal_offset_emu,
            vertical_offset_emu: self.vertical_offset_emu,
            page_x_emu: self.page_x_emu,
            page_y_emu: self.page_y_emu,
            width_emu: self.width_emu,
            height_emu: self.height_emu,
            text_direction: opt_text(self.text_direction),
            line_x_emu: self.line_x_emu,
            line_width_emu: self.line_width_emu,
            line_dash: opt_text(self.line_dash),
            lines: self.lines@.map_values(|l: TemplateSideSealLine| l@),
        }
    }
}

/// Whether `needle` occurs in `hay`.
pub open spec fn byte_infix(hay: Seq<u8>, needle: Seq<u8>) -> bool {
    exists|i: int| 0 <= i && i + needle.len() <= hay.len() && #[trigger] hay.subrange(i, i + needle.len()) == needle
}

/// Whether a paragraph is the side seal: its bytes hold the UTF-8 text of
/// 班级 (class), 姓名 (name), 考号 (number) and the characters 密, 封 and
/// 线 of 密封线 (seal line).
pub open spec fn spec_is_side_seal(paragraph_xml: Seq<u8>) -> bool {
    &&& byte_infix(paragraph_xml, "班级".spec_bytes())
    &&& byte_infix(paragraph_xml, "姓名".spec_bytes())
    &&& byte_infix(paragraph_xml, "考号".spec_bytes())
    &&& byte_infix(paragraph_xml, "密".spec_bytes())
    &&& byte_infix(paragraph_xml, "封".spec_bytes())
    &&& byte_infix(paragraph_xml, "线".spec_bytes())
}

/// Whether `needle` occurs in `hay`.
fn contains_bytes(hay: &[u8], needle: &[u8]) -> (found: bool)
    ensures
        found == byte_infix(hay@, needle@),
{
    if needle.len() > hay.len() {
        return false;
    }
    let limit = hay.len() - needle.len();
    let mut at: usize = 0;
    loop
        invariant
            needle@.len() <= hay@.len(),
            limit == hay@.len() - needle@.len(),
            at <= limit,
            forall|i: int| 0 <= i < at ==> #[trigger] hay@.subrange(i, i + needle@.len()) != needle@,
        ensures
            forall|i: int| 0 <= i <= limit ==> #[trigger] hay@.subrange(i, i + needle@.len()) != needle@,
        decreases limit - at,
    {
        let mut j: usize = 0;
        let mut same = true;
        while j < needle.len()
            invariant
                at + needle.len() <= hay.len(),
                j <= needle@.len(),
                same == forall|k: int| 0 <= k < j ==> hay@[at + k] == needle@[k],
            decreases needle@.len() - j,
        {
            if hay[at + j] != needle[j] {
                same = false;
            }
            j = j + 1;
        }
        if same {
            assert(hay@.subrange(at as int, at + needle@.len()) =~= needle@);
            return true;
        }
        assert(hay@.subrange(at as int, at + needle@.len()) != needle@) by {
            let k = choose|k: int| 0 <= k < needle@.len() && hay@[at + k] != needle@[k];
            assert(hay@.subrange(at as int, at + needle@.len())[k] != needle@[k]);
        }
        if at == limit {
            break;
        }
        at = at + 1;
    }
    false
}

/// Whether a paragraph is the side seal, by the text its bytes hold.
pub fn is_side_seal_paragraph(paragraph_xml: &[u8]) -> (seal: bool)
    ensures
        seal == spec_is_side_seal(paragraph_xml@),
{
    contains_bytes(paragraph_xml, "班级".as_bytes()) && contains_bytes(paragraph_xml, "姓名".as_bytes())
        && contains_bytes(paragraph_xml, "考号".as_bytes()) && contains_bytes(paragraph_xml, "密".as_bytes())
        && contains_bytes(paragraph_xml, "封".as_bytes()) && contains_bytes(paragraph_xml, "线".as_bytes())
}

/// A paragraph wrapped in a root that declares the side-seal namespaces.
pub open spec fn spec_seal_wrapper(paragraph_xml: Seq<u8>) -> Seq<u8> {
    SEAL_ROOT_OPEN.spec_bytes() + paragraph_xml + SEAL_ROOT_CLOSE.spec_bytes()
}

/// Appends `bytes` to `out`.
fn push_bytes(out: &mut Vec<u8>, bytes: &[u8])
    ensures
        final(out)@ == old(out)@ + bytes@,
{
    let mut i: usize = 0;
    while i < bytes.len()
        invariant
            i <= bytes@.len(),
            out@ == old(out)@ + bytes@.subrange(0, i as int),
        decreases bytes@.len() - i,
    {
        out.push(bytes[i]);
        assert(old(out)@ + bytes@.subrange(0, i + 1) =~= (old(out)@ + bytes@.subrange(0, i as int)).push(bytes@[i as int]));
        i = i + 1;
    }
    assert(bytes@.subrange(0, bytes@.len() as int) =~= bytes@);
}

/// A paragraph wrapped in a root that declares the side-seal namespaces.
pub fn side_seal_namespace_wrapper(paragraph_xml: &[u8]) -> (wrapped: Vec<u8>)
    ensures
        wrapped@ == spec_seal_wrapper(paragraph_xml@),
{
    let mut wrapped: Vec<u8> = Vec::new();
    push_bytes(&mut wrapped, SEAL_ROOT_OPEN.as_bytes());
    push_bytes(&mut wrapped, paragraph_xml);
    push_bytes(&mut wrapped, SEAL_ROOT_CLOSE.as_bytes());
    assert(Seq::<u8>::empty() + SEAL_ROOT_OPEN.spec_bytes() =~= SEAL_ROOT_OPEN.spec_bytes());
    wrapped
}

/// Whether a name's namespace is bound to `uri`.
pub open spec fn bound_to(namespace: ResolvedNamespace, uri: Seq<char>) -> bool {
    match namespace {
        ResolvedNamespace::Bound(u) => u@ == uri,
        _ => false,
    }
}

/// Whether a name's namespace is bound to `uri`.
fn namespace_matches(namespace: &ResolvedNamespace, uri: &str) -> (found: bool)
    ensures
        found == bound_to(*namespace, uri@),
{
    match namespace {
        ResolvedNamespace::Bound(u) => same_text(u.as_str(), uri),
        _ => false,
    }
}

/// The position of one axis of the seal on the page: the offset itself when
/// it is measured from the page (or, horizontally, from the left margin
/// area; vertically, from the top margin area); the margin plus the offset
/// when it is measured from the margin or column, or vertically from the
/// first paragraph of the document; otherwise unknown. A sum beyond `i64`
/// is unknown too.
pub open spec fn spec_axis(
    relative_from: Option<Seq<char>>,
    offset: Option<i64>,
    margin_twips: u32,
    paragraph_index: usize,
    horizontal: bool,
) -> Option<i64> {
    match (relative_from, offset) {
        (Some(r), Some(o)) => {
            let from_margin = margin_twips * EMU_PER_TWIP + o;
            if r == "page"@ {
                Some(o)
            } else if r == "margin"@ || r == "column"@ || (r == "paragraph"@ && !horizontal && paragraph_index == 0) {
                if i64::MIN <= from_margin <= i64::MAX {
                    Some(from_margin as i64)
                } else {
                    None
                }
            } else if (r == "leftMargin"@ && horizontal) || (r == "topMargin"@ && !horizontal) {
                Some(o)
            } else {
                None
            }
        },
        _ => None,
    }
}

/// The position of one axis of the seal on the page.
fn resolved_side_seal_axis(
    relative_from: &Option<String>,
    offset: Option<i64>,
    margin_twips: u32,
    paragraph_index: usize,
    horizontal: bool,
) -> (axis: Option<i64>)
    ensures
        axis == spec_axis(opt_text(*relative_from), offset, margin_twips, paragraph_index, horizontal),
{
    let (r, o) = match (relative_from, offset) {
        (Some(r), Some(o)) => (r.as_str(), o),
        _ => return None,
    };
    let margin = margin_twips as i64 * EMU_PER_TWIP;
    if same_text(r, "page") {
        Some(o)
    } else if same_text(r, "margin") || same_text(r, "column") || (same_text(r, "paragraph") && !horizontal
        && paragraph_index == 0) {
        margin.checked_add(o)
    } else if (same_text(r, "leftMargin") && horizontal) || (same_text(r, "topMargin") && !horizontal) {
        Some(o)
    } else {
        None
    }
}

/// The x of the cut line inside the seal, scaled from the group's child
/// coordinates to the seal's width, rounding towards zero; unknown where it
/// falls outside `i64`.
pub open spec fn spec_line_x(line_x: Option<i64>, group_x: Option<i64>, group_width: Option<i64>, width: u64) -> Option<i64> {
    match (line_x, group_x, group_width) {
        (Some(x), Some(gx), Some(gw)) => if gw > 0 {
            let product = (x - gx) * width;
            let scaled = if product >= 0 {
                product / (gw as int)
            } else {
                -((-product) / (gw as int))
            };
            if i64::MIN <= scaled <= i64::MAX {
                Some(scaled as i64)
            } else {
                None
            }
        } else {
            None
        },
        _ => None,
    }
}

/// The x of the cut line inside the seal.
fn scaled_line_x(line_x: Option<i64>, group_x: Option<i64>, group_width: Option<i64>, width: u64) -> (x: Option<i64>)
    ensures
        x == spec_line_x(line_x, group_x, group_width, width),
{
    let (x, gx, gw) = match (line_x, group_x, group_width) {
        (Some(x), Some(gx), Some(gw)) => (x, gx, gw),
        _ => return None,
    };
    if gw <= 0 {
        return None;
    }
    let negative = x < gx;
    let distance: u128 = if negative {
        (gx as i128 - x as i128) as u128
    } else {
        (x as i128 - gx as i128) as u128
    };
    assert(distance <= 0x1_0000_0000_0000_0000u128);
    assert(distance * (width as u128) <= 0x1_0000_0000_0000_0000u128 * 0xffff_ffff_ffff_ffffu128) by (nonlinear_arith)
        requires
            distance <= 0x1_0000_0000_0000_0000u128,
            width <= 0xffff_ffff_ffff_ffffu64,
    ;
    let magnitude: u128 = distance * (width as u128) / (gw as u128);
    proof {
        let product = (x - gx) * width;
        if negative {
            assert(product == -(distance * width)) by (nonlinear_arith)
                requires
                    distance == gx - x,
                    product == (x - gx) * width,
            ;
            if distance * width == 0 {
                assert(product == 0);
            }
        } else {
            assert(product == distance * width) by (nonlinear_arith)
                requires
                    distance == x - gx,
                    product == (x - gx) * width,
            ;
        }
    }
    if negative {
        if magnitude <= 0x8000_0000_0000_0000u128 {
            if magnitude == 0x8000_0000_0000_0000u128 {
                Some(i64::MIN)
            } else {
                Some(-(magnitude as i64))
            }
        } else {
            None
        }
    } else {
        if magnitude <= 0x7fff_ffff_ffff_ffffu128 {
            Some(magnitude as i64)
        } else {
            None
        }
    }
}

/// A shape of the seal's group being read, as plain values.
pub struct ShapeView {
    pub preset: Option<Seq<char>>,
    pub offset_x: Option<i64>,
    pub extent_x: Option<i64>,
    pub extent_y: Option<i64>,
    pub line_width_emu: Option<u64>,
    pub line_dash: Option<Seq<char>>,
    pub contains_text_box: bool,
    pub text_direction: Option<Seq<char>>,
}

/// A shape before any of its properties has been read.
pub open spec fn empty_shape() -> ShapeView {
    ShapeView {
        preset: None,
        offset_x: None,
        extent_x: None,
        extent_y: None,
        line_width_emu: None,
        line_dash: None,
        contains_text_box: false,
        text_direction: None,
    }
}

/// What the reading of a side-seal paragraph knows after some events: the
/// depth of each element it is inside, what it has read of the anchor, the
/// text box lines, the group's child coordinates and the cut line.
pub struct SealState {
    pub depth: int,
    pub anchor_depth: Option<int>,
    pub h_position_depth: Option<int>,
    pub v_position_depth: Option<int>,
    pub offset_capture: Option<(int, bool)>,
    pub h_relative_from: Option<Seq<char>>,
    pub v_relative_from: Option<Seq<char>>,
    pub h_offset: Option<i64>,
    pub v_offset: Option<i64>,
    pub width: Option<u64>,
    pub height: Option<u64>,
    pub text_direction: Option<Seq<char>>,
    pub text_box_depth: Option<int>,
    pub paragraph_depth: Option<int>,
    pub properties_depth: Option<int>,
    pub line: Option<LineView>,
    pub run_depth: Option<int>,
    pub run: Option<RunView>,
    pub text_depth: Option<int>,
    pub lines: Seq<LineView>,
    pub group_depth: Option<int>,
    pub group_x: Option<i64>,
    pub group_width: Option<i64>,
    pub shape_depth: Option<int>,
    pub shape: Option<ShapeView>,
    pub line_x: Option<i64>,
    pub line_width: Option<u64>,
    pub line_dash: Option<Seq<char>>,
}

/// The state before the first event.
pub open spec fn initial_seal_state() -> SealState {
    SealState {
        depth: 0,
        anchor_depth: None,
        h_position_depth: None,
        v_position_depth: None,
        offset_capture: None,
        h_relative_from: None,
        v_relative_from: None,
        h_offset: None,
        v_offset: None,
        width: None,
        height: None,
        text_direction: None,
        text_box_depth: None,
        paragraph_depth: None,
        properties_depth: None,
        line: None,
        run_depth: None,
        run: None,
        text_depth: None,
        lines: Seq::empty(),
        group_depth: None,
        group_x: None,
        group_width: None,
        shape_depth: None,
        shape: None,
        line_x: None,
        line_width: None,
        line_dash: None,
    }
}

/// The attribute `local` of `e`, in any namespace.
pub open spec fn seal_attr(e: XmlEvent, local: Seq<char>) -> Result<Option<Seq<char>>, DocxFault> {
    spec_attribute_value(e, local, None, DOCUMENT_PART@)
}

/// The attribute `local` of `e` read as an `i64`, `None` where it is absent
/// or no such number.
pub open spec fn i64_attr(e: XmlEvent, local: Seq<char>) -> Result<Option<i64>, DocxFault> {
    match seal_attr(e, local) {
        Err(f) => Err(f),
        Ok(None) => Ok(None),
        Ok(Some(v)) => Ok(
            match parse_i64_spec(v) {
                Some(n) => Some(n as i64),
                None => None,
            },
        ),
    }
}

/// The attribute `local` of `e` read as a `u64`, `None` where it is absent
/// or no such number.
pub open spec fn u64_attr(e: XmlEvent, local: Seq<char>) -> Result<Option<u64>, DocxFault> {
    match seal_attr(e, local) {
        Err(f) => Err(f),
        Ok(None) => Ok(None),
        Ok(Some(v)) => Ok(
            match parse_unsigned(v, u64::MAX as nat) {
                Some(n) => Some(n as u64),
                None => None,
            },
        ),
    }
}

/// The anchor part of an opening element at `depth`: `wp:anchor`, its
/// `wp:positionH` and `wp:positionV` with their `relativeFrom`, the
/// `wp:posOffset` whose text follows, and `wp:extent`.
pub open spec fn anchor_open(s: SealState, e: XmlEvent, depth: int) -> Result<SealState, DocxFault> {
    let wpd = bound_to(e.namespace, WORDPROCESSING_DRAWING_NS@);
    let local = e.local@;
    if wpd && local == "anchor"@ {
        Ok(SealState { anchor_depth: Some(depth), ..s })
    } else if s.anchor_depth is Some && wpd && local == "positionH"@ {
        match seal_attr(e, "relativeFrom"@) {
            Err(f) => Err(f),
            Ok(v) => Ok(SealState { h_position_depth: Some(depth), h_relative_from: v, ..s }),
        }
    } else if s.anchor_depth is Some && wpd && local == "positionV"@ {
        match seal_attr(e, "relativeFrom"@) {
            Err(f) => Err(f),
            Ok(v) => Ok(SealState { v_position_depth: Some(depth), v_relative_from: v, ..s }),
        }
    } else if s.anchor_depth is Some && wpd && local == "posOffset"@ {
        if s.h_position_depth is Some {
            Ok(SealState { offset_capture: Some((depth, true)), ..s })
        } else if s.v_position_depth is Some {
            Ok(SealState { offset_capture: Some((depth, false)), ..s })
        } else {
            Ok(s)
        }
    } else if s.anchor_depth is Some && wpd && local == "extent"@ {
        match u64_attr(e, "cx"@) {
            Err(f) => Err(f),
            Ok(w) => match u64_attr(e, "cy"@) {
                Err(f) => Err(f),
                Ok(h) => Ok(SealState { width: w, height: h, ..s }),
            },
        }
    } else {
        Ok(s)
    }
}

/// The group part of an opening element at `depth`: `wpg:grpSpPr` and, in
/// it but outside any shape, the child offset and extent.
pub open spec fn group_open(s: SealState, e: XmlEvent, depth: int) -> Result<SealState, DocxFault> {
    let wpg = bound_to(e.namespace, WORDPROCESSING_GROUP_NS@);
    let drawing = spec_classify(e.namespace) == NamespaceKind::Drawing;
    let local = e.local@;
    if wpg && local == "grpSpPr"@ {
        Ok(SealState { group_depth: Some(depth), ..s })
    } else if s.group_depth is Some && s.shape_depth is None && drawing && local == "chOff"@ {
        match i64_attr(e, "x"@) {
            Err(f) => Err(f),
            Ok(v) => Ok(SealState { group_x: v, ..s }),
        }
    } else if s.group_depth is Some && s.shape_depth is None && drawing && local == "chExt"@ {
        match i64_attr(e, "cx"@) {
            Err(f) => Err(f),
            Ok(v) => Ok(SealState { group_width: v, ..s }),
        }
    } else {
        Ok(s)
    }
}

/// The shape part of an opening element at `depth`: `wps:wsp` starts a
/// shape; inside one, its preset geometry, first offset and extent, line
/// width and dash, and whether it holds a text box.
pub open spec fn shape_open(s: SealState, e: XmlEvent, depth: int) -> Result<SealState, DocxFault> {
    let wps = bound_to(e.namespace, WORDPROCESSING_SHAPE_NS@);
    let drawing = spec_classify(e.namespace) == NamespaceKind::Drawing;
    let local = e.local@;
    if wps && local == "wsp"@ {
        Ok(SealState { shape_depth: Some(depth), shape: Some(empty_shape()), ..s })
    } else if s.shape is Some {
        let sh = s.shape->0;
        if drawing && local == "prstGeom"@ {
            match seal_attr(e, "prst"@) {
                Err(f) => Err(f),
                Ok(v) => Ok(SealState { shape: Some(ShapeView { preset: v, ..sh }), ..s }),
            }
        } else if drawing && local == "off"@ && sh.offset_x is None {
            match i64_attr(e, "x"@) {
                Err(f) => Err(f),
                Ok(v) => Ok(SealState { shape: Some(ShapeView { offset_x: v, ..sh }), ..s }),
            }
        } else if drawing && local == "ext"@ && sh.extent_x is None {
            match i64_attr(e, "cx"@) {
                Err(f) => Err(f),
                Ok(x) => match i64_attr(e, "cy"@) {
                    Err(f) => Err(f),
                    Ok(y) => Ok(SealState { shape: Some(ShapeView { extent_x: x, extent_y: y, ..sh }), ..s }),
                },
            }
        } else if drawing && local == "ln"@ {
            match u64_attr(e, "w"@) {
                Err(f) => Err(f),
                Ok(v) => Ok(SealState { shape: Some(ShapeView { line_width_emu: v, ..sh }), ..s }),
            }
        } else if drawing && local == "prstDash"@ {
            match seal_attr(e, "val"@) {
                Err(f) => Err(f),
                Ok(v) => Ok(SealState { shape: Some(ShapeView { line_dash: v, ..sh }), ..s }),
            }
        } else if wps && local == "txbx"@ {
            Ok(SealState { shape: Some(ShapeView { contains_text_box: true, ..sh }), ..s })
        } else {
            Ok(s)
        }
    } else {
        Ok(s)
    }
}

/// The text direction a `wps:bodyPr` inside a shape gives it.
pub open spec fn body_open(s: SealState, e: XmlEvent) -> Result<SealState, DocxFault> {
    if bound_to(e.namespace, WORDPROCESSING_SHAPE_NS@) && e.local@ == "bodyPr"@ && s.shape is Some {
        match seal_attr(e, "vert"@) {
            Err(f) => Err(f),
            Ok(Some(direction)) => Ok(
                SealState { shape: Some(ShapeView { text_direction: Some(direction), ..s.shape->0 }), ..s },
            ),
            Ok(None) => Ok(s),
        }
    } else {
        Ok(s)
    }
}

/// The text part of an opening element at `depth`: the text box content,
/// its first-level paragraphs with their alignment, and their runs with
/// underline, size and text.
pub open spec fn text_open(s: SealState, e: XmlEvent, depth: int) -> Result<SealState, DocxFault> {
    let word = spec_classify(e.namespace) == NamespaceKind::Word;
    let local = e.local@;
    if word && local == "txbxContent"@ {
        Ok(SealState { text_box_depth: Some(depth), ..s })
    } else if s.text_box_depth is Some && word && local == "p"@ && s.paragraph_depth is None {
        Ok(
            SealState {
                paragraph_depth: Some(depth),
                line: Some(LineView { alignment: None, runs: Seq::empty() }),
                ..s
            },
        )
    } else if s.paragraph_depth is Some && word && local == "pPr"@ && s.properties_depth is None {
        Ok(SealState { properties_depth: Some(depth), ..s })
    } else if s.properties_depth is Some && s.run_depth is None && word && local == "jc"@ {
        match s.line {
            None => Ok(s),
            Some(l) => match seal_attr(e, "val"@) {
                Err(f) => Err(f),
                Ok(v) => Ok(SealState { line: Some(LineView { alignment: v, ..l }), ..s }),
            },
        }
    } else if s.paragraph_depth is Some && s.properties_depth is None && word && local == "r"@ && s.run_depth is None {
        Ok(
            SealState {
                run_depth: Some(depth),
                run: Some(RunView { text: Seq::empty(), underline: false, size_half_points: None }),
                ..s
            },
        )
    } else if s.run_depth is Some && word && local == "u"@ {
        match s.run {
            None => Ok(s),
            Some(r) => match seal_attr(e, "val"@) {
                Err(f) => Err(f),
                Ok(v) => Ok(
                    SealState { run: Some(RunView { underline: !(v matches Some(t) && is_off(t)), ..r }), ..s },
                ),
            },
        }
    } else if s.run_depth is Some && word && local == "sz"@ {
        match s.run {
            None => Ok(s),
            Some(r) => match seal_attr(e, "val"@) {
                Err(f) => Err(f),
                Ok(v) => Ok(
                    SealState {
                        run: Some(
                            RunView {
                                size_half_points: match v {
                                    Some(t) => match parse_unsigned(t, u32::MAX as nat) {
                                        Some(n) => Some(n as u32),
                                        None => None,
                                    },
                                    None => None,
                                },
                                ..r
                            },
                        ),
                        ..s
                    },
                ),
            },
        }
    } else if s.run_depth is Some && word && local == "t"@ {
        Ok(SealState { text_depth: Some(depth), ..s })
    } else {
        Ok(s)
    }
}

/// The reading after an opening (or empty) element.
pub open spec fn seal_open(s: SealState, e: XmlEvent, limits: DocxLimits) -> Result<SealState, DocxFault> {
    let depth = s.depth + 1;
    if depth > limits.max_xml_depth {
        Err(
            DocxFault::LimitExceeded {
                resource: "XML depth in side-seal drawing"@,
                limit: limits.max_xml_depth as u64,
                actual: depth as u64,
            },
        )
    } else {
        let s0 = SealState { depth, ..s };
        match anchor_open(s0, e, depth) {
            Err(f) => Err(f),
            Ok(s1) => match group_open(s1, e, depth) {
                Err(f) => Err(f),
                Ok(s2) => match shape_open(s2, e, depth) {
                    Err(f) => Err(f),
                    Ok(s3) => match body_open(s3, e) {
                        Err(f) => Err(f),
                        Ok(s4) => match text_open(s4, e, depth) {
                            Err(f) => Err(f),
                            Ok(s5) => if e.kind == XmlEventKind::Empty {
                                Ok(
                                    SealState {
                                        text_depth: if s5.text_depth == Some(depth) { None } else { s5.text_depth },
                                        depth: depth - 1,
                                        ..s5
                                    },
                                )
                            } else {
                                Ok(s5)
                            },
                        },
                    },
                },
            },
        }
    }
}

/// The reading after text: a position offset, or run text.
pub open spec fn seal_text(s: SealState, text: Seq<char>) -> SealState {
    match s.offset_capture {
        Some((_, horizontal)) => match parse_i64_spec(trimmed(text)) {
            Some(v) => if horizontal {
                SealState { h_offset: Some(v as i64), ..s }
            } else {
                SealState { v_offset: Some(v as i64), ..s }
            },
            None => s,
        },
        None => seal_run_text(s, text),
    }
}

/// The reading after run text (or CDATA).
pub open spec fn seal_run_text(s: SealState, text: Seq<char>) -> SealState {
    if s.text_depth is Some && s.run is Some {
        SealState { run: Some(RunView { text: s.run->0.text + text, ..s.run->0 }), ..s }
    } else {
        s
    }
}

/// The run-level part of a closing element at depth `d`: the end of run
/// text, of a run (kept in its line when it has text) and of paragraph
/// properties.
pub open spec fn run_close(s: SealState, e: XmlEvent, d: int) -> SealState {
    let word = spec_classify(e.namespace) == NamespaceKind::Word;
    let local = e.local@;
    let s1 = if s.text_depth == Some(d) && word && local == "t"@ {
        SealState { text_depth: None, ..s }
    } else {
        s
    };
    let s2 = if s1.run_depth == Some(d) && word && local == "r"@ {
        let line = match (s1.run, s1.line) {
            (Some(r), Some(l)) => if r.text.len() > 0 {
                Some(LineView { runs: l.runs.push(r), ..l })
            } else {
                s1.line
            },
            _ => s1.line,
        };
        SealState { run: None, run_depth: None, line, ..s1 }
    } else {
        s1
    };
    if s2.properties_depth == Some(d) && word && local == "pPr"@ {
        SealState { properties_depth: None, ..s2 }
    } else {
        s2
    }
}

/// The paragraph-level part of a closing element at depth `d`: the end of a
/// text box paragraph (kept as a line when it has runs) and of the text
/// box content.
pub open spec fn paragraph_close(s: SealState, e: XmlEvent, d: int) -> SealState {
    let word = spec_classify(e.namespace) == NamespaceKind::Word;
    let local = e.local@;
    let s1 = if s.paragraph_depth == Some(d) && word && local == "p"@ {
        let lines = match s.line {
            Some(l) => if l.runs.len() > 0 {
                s.lines.push(l)
            } else {
                s.lines
            },
            None => s.lines,
        };
        SealState { lines, line: None, paragraph_depth: None, ..s }
    } else {
        s
    };
    if s1.text_box_depth == Some(d) && word && local == "txbxContent"@ {
        SealState { text_box_depth: None, ..s1 }
    } else {
        s1
    }
}

/// `v`, or zero.
pub open spec fn or_zero(v: Option<i64>) -> i64 {
    match v {
        Some(x) => x,
        None => 0,
    }
}

/// Whether a finished shape is the cut line: a vertical `line` preset.
pub open spec fn is_cut_line(sh: ShapeView) -> bool {
    sh.preset == Some("line"@) && or_zero(sh.extent_y) > 0 && or_zero(sh.extent_x) == 0
}

/// The shape-level part of a closing element at depth `d`: a finished shape
/// gives its text direction (when it holds a text box) and, when it is the
/// cut line, the line's offset, width and dash.
pub open spec fn shape_close(s: SealState, e: XmlEvent, d: int) -> SealState {
    if s.shape_depth == Some(d) && bound_to(e.namespace, WORDPROCESSING_SHAPE_NS@) && e.local@ == "wsp"@ {
        match s.shape {
            Some(sh) => {
                let direction = if sh.contains_text_box && sh.text_direction is Some {
                    sh.text_direction
                } else {
                    s.text_direction
                };
                if is_cut_line(sh) {
                    SealState {
                        text_direction: direction,
                        line_x: sh.offset_x,
                        line_width: sh.line_width_emu,
                        line_dash: sh.line_dash,
                        shape: None,
                        shape_depth: None,
                        ..s
                    }
                } else {
                    SealState { text_direction: direction, shape: None, shape_depth: None, ..s }
                }
            },
            None => SealState { shape_depth: None, ..s },
        }
    } else {
        s
    }
}

/// The anchor-level part of a closing element at depth `d`.
pub open spec fn anchor_close(s: SealState, e: XmlEvent, d: int) -> SealState {
    let wpd = bound_to(e.namespace, WORDPROCESSING_DRAWING_NS@);
    let local = e.local@;
    let s1 = if s.group_depth == Some(d) && bound_to(e.namespace, WORDPROCESSING_GROUP_NS@) && local == "grpSpPr"@ {
        SealState { group_depth: None, ..s }
    } else {
        s
    };
    let s2 = if s1.h_position_depth == Some(d) && wpd && local == "positionH"@ {
        SealState { h_position_depth: None, ..s1 }
    } else {
        s1
    };
    let s3 = if s2.v_position_depth == Some(d) && wpd && local == "positionV"@ {
        SealState { v_position_depth: None, ..s2 }
    } else {
        s2
    };
    let s4 = if (s3.offset_capture matches Some((c, _)) && c == d) && wpd && local == "posOffset"@ {
        SealState { offset_capture: None, ..s3 }
    } else {
        s3
    };
    if s4.anchor_depth == Some(d) && wpd && local == "anchor"@ {
        SealState { anchor_depth: None, ..s4 }
    } else {
        s4
    }
}

/// The reading after a closing element.
pub open spec fn seal_close(s: SealState, e: XmlEvent) -> SealState {
    let d = s.depth;
    let s1 = anchor_close(shape_close(paragraph_close(run_close(s, e, d), e, d), e, d), e, d);
    SealState { depth: if d > 0 { d - 1 } else { 0 }, ..s1 }
}

/// The reading after one event, which starts at byte `start`.
pub open spec fn seal_step(s: SealState, e: XmlEvent, start: u64, limits: DocxLimits) -> Result<SealState, DocxFault> {
    if e.kind == XmlEventKind::Start || e.kind == XmlEventKind::Empty {
        seal_open(s, e, limits)
    } else if e.kind == XmlEventKind::Text {
        Ok(seal_text(s, e.text@))
    } else if e.kind == XmlEventKind::CData {
        Ok(seal_run_text(s, e.text@))
    } else if e.kind == XmlEventKind::End {
        Ok(seal_close(s, e))
    } else if e.kind == XmlEventKind::DocType {
        Err(DocxFault::Xml { part_name: DOCUMENT_PART@, position: start, message: "DOCTYPE declarations are not allowed"@ })
    } else {
        Ok(s)
    }
}

/// The state after the events from `i` on.
pub open spec fn seal_from(stream: XmlStream, i: int, s: SealState, limits: DocxLimits) -> Result<SealState, DocxFault>
    decreases stream.events@.len() - i,
{
    if i < 0 || i >= stream.events@.len() {
        match stream.read_error {
            Some((position, message)) => Err(DocxFault::Xml { part_name: DOCUMENT_PART@, position, message: message@ }),
            None => Ok(s),
        }
    } else {
        let e = stream.events@[i];
        if e.kind == XmlEventKind::Eof {
            Ok(s)
        } else {
            match seal_step(s, e, prior_position(stream, i), limits) {
                Err(f) => Err(f),
                Ok(next) => seal_from(stream, i + 1, next, limits),
            }
        }
    }
}

/// The layout a finished reading gives: none without a non-zero width and
/// height; otherwise the anchor's position, resolved against the page
/// margins, its size, text direction, cut line and text lines.
pub open spec fn seal_layout(s: SealState, paragraph_index: usize, margin_left: u32, margin_top: u32) -> Option<SealLayoutView> {
    match (s.width, s.height) {
        (Some(width), Some(height)) => if width == 0 || height == 0 {
            None
        } else {
            Some(
                SealLayoutView {
                    horizontal_relative_from: s.h_relative_from,
                    vertical_relative_from: s.v_relative_from,
                    horizontal_offset_emu: s.h_offset,
                    vertical_offset_emu: s.v_offset,
                    page_x_emu: spec_axis(s.h_relative_from, s.h_offset, margin_left, paragraph_index, true),
                    page_y_emu: spec_axis(s.v_relative_from, s.v_offset, margin_top, paragraph_index, false),
                    width_emu: width,
                    height_emu: height,
                    text_direction: s.text_direction,
                    line_x_emu: spec_line_x(s.line_x, s.group_x, s.group_width, width),
                    line_width_emu: s.line_width,
                    line_dash: s.line_dash,
                    lines: s.lines,
                },
            )
        },
        _ => None,
    }
}

/// The side-seal layout of a paragraph, given as the events of the
/// paragraph inside its namespace wrapper.
pub open spec fn spec_side_seal(
    stream: XmlStream,
    paragraph_index: usize,
    margin_left: u32,
    margin_top: u32,
    limits: DocxLimits,
) -> Result<Option<SealLayoutView>, DocxFault> {
    match seal_from(stream, 0, initial_seal_state(), limits) {
        Err(f) => Err(f),
        Ok(s) => Ok(seal_layout(s, paragraph_index, margin_left, margin_top)),
    }
}

/// A shape of the seal's group being read.
struct ShapeBuilder {
    preset: Option<String>,
    offset_x: Option<i64>,
    extent_x: Option<i64>,
    extent_y: Option<i64>,
    line_width_emu: Option<u64>,
    line_dash: Option<String>,
    contains_text_box: bool,
    text_direction: Option<String>,
}

impl ShapeBuilder {
    spec fn shape_view(&self) -> ShapeView {
        ShapeView {
            preset: opt_text(self.preset),
            offset_x: self.offset_x,
            extent_x: self.extent_x,
            extent_y: self.extent_y,
            line_width_emu: self.line_width_emu,
            line_dash: opt_text(self.line_dash),
            contains_text_box: self.contains_text_box,
            text_direction: opt_text(self.text_direction),
        }
    }
}

/// What the reading of a side-seal paragraph knows after some events.
struct SealScan {
    depth: usize,
    anchor_depth: Option<usize>,
    h_position_depth: Option<usize>,
    v_position_depth: Option<usize>,
    offset_capture: Option<(usize, bool)>,
    h_relative_from: Option<String>,
    v_relative_from: Option<String>,
    h_offset: Option<i64>,
    v_offset: Option<i64>,
    width: Option<u64>,
    height: Option<u64>,
    text_direction: Option<String>,
    text_box_depth: Option<usize>,
    paragraph_depth: Option<usize>,
    properties_depth: Option<usize>,
    line: Option<TemplateSideSealLine>,
    run_depth: Option<usize>,
    run: Option<TemplateSideSealRun>,
    text_depth: Option<usize>,
    lines: Vec<TemplateSideSealLine>,
    group_depth: Option<usize>,
    group_x: Option<i64>,
    group_width: Option<i64>,
    shape_depth: Option<usize>,
    shape: Option<ShapeBuilder>,
    line_x: Option<i64>,
    line_width: Option<u64>,
    line_dash: Option<String>,
}

/// A depth marker as an integer.
spec fn depth_of(d: Option<usize>) -> Option<int> {
    match d {
        Some(v) => Some(v as int),
        None => None,
    }
}

/// A line as plain values, if there is one.
spec fn line_of(l: Option<TemplateSideSealLine>) -> Option<LineView> {
    match l {
        Some(v) => Some(v@),
        None => None,
    }
}

/// A run as plain values, if there is one.
spec fn run_of(r: Option<TemplateSideSealRun>) -> Option<RunView> {
    match r {
        Some(v) => Some(v@),
        None => None,
    }
}

/// A shape as plain values, if there is one.
spec fn shape_of(sh: Option<ShapeBuilder>) -> Option<ShapeView> {
    match sh {
        Some(v) => Some(v.shape_view()),
        None => None,
    }
}

/// An offset capture with an integer depth.
spec fn capture_of(c: Option<(usize, bool)>) -> Option<(int, bool)> {
    match c {
        Some((d, h)) => Some((d as int, h)),
        None => None,
    }
}

/// Lines as plain values.
spec fn lines_of(lines: Seq<TemplateSideSealLine>) -> Seq<LineView> {
    lines.map_values(|l: TemplateSideSealLine| l@)
}

impl SealScan {
    spec fn state(&self) -> SealState {
        SealState {
            depth: self.depth as int,
            anchor_depth: depth_of(self.anchor_depth),
            h_position_depth: depth_of(self.h_position_depth),
            v_position_depth: depth_of(self.v_position_depth),
            offset_capture: capture_of(self.offset_capture),
            h_relative_from: opt_text(self.h_relative_from),
            v_relative_from: opt_text(self.v_relative_from),
            h_offset: self.h_offset,
            v_offset: self.v_offset,
            width: self.width,
            height: self.height,
            text_direction: opt_text(self.text_direction),
            text_box_depth: depth_of(self.text_box_depth),
            paragraph_depth: depth_of(self.paragraph_depth),
            properties_depth: depth_of(self.properties_depth),
            line: line_of(self.line),
            run_depth: depth_of(self.run_depth),
            run: run_of(self.run),
            text_depth: depth_of(self.text_depth),
            lines: lines_of(self.lines@),
            group_depth: depth_of(self.group_depth),
            group_x: self.group_x,
            group_width: self.group_width,
            shape_depth: depth_of(self.shape_depth),
            shape: shape_of(self.shape),
            line_x: self.line_x,
            line_width: self.line_width,
            line_dash: opt_text(self.line_dash),
        }
    }
}

/// The attribute `local` of `e`, in any namespace.
fn seal_attribute(e: &XmlEvent, local: &str) -> (result: DocxResult<Option<String>>)
    ensures
        match (result, seal_attr(*e, local@)) {
            (Ok(v), Ok(expected)) => opt_text(v) == expected,
            (Err(x), Err(fault)) => x@ == fault,
            _ => false,
        },
{
    attribute_value(e, local, None, DOCUMENT_PART)
}

/// The attribute `local` of `e` read as an `i64`.
fn i64_attribute(e: &XmlEvent, local: &str) -> (result: DocxResult<Option<i64>>)
    ensures
        match (result, i64_attr(*e, local@)) {
            (Ok(v), Ok(expected)) => v == expected,
            (Err(x), Err(fault)) => x@ == fault,
            _ => false,
        },
{
    match seal_attribute(e, local) {
        Err(x) => Err(x),
        Ok(None) => Ok(None),
        Ok(Some(v)) => Ok(parse_i64(v.as_str())),
    }
}

/// The attribute `local` of `e` read as a `u64`.
fn u64_attribute(e: &XmlEvent, local: &str) -> (result: DocxResult<Option<u64>>)
    ensures
        match (result, u64_attr(*e, local@)) {
            (Ok(v), Ok(expected)) => v == expected,
            (Err(x), Err(fault)) => x@ == fault,
            _ => false,
        },
{
    match seal_attribute(e, local) {
        Err(x) => Err(x),
        Ok(None) => Ok(None),
        Ok(Some(v)) => Ok(parse_u64(v.as_str())),
    }
}

/// The anchor part of an opening element at `depth`.
fn open_anchor(scan: &mut SealScan, e: &XmlEvent, depth: usize) -> (result: DocxResult<()>)
    ensures
        match (result, anchor_open(old(scan).state(), *e, depth as int)) {
            (Ok(_), Ok(next)) => final(scan).state() == next,
            (Err(x), Err(fault)) => x@ == fault,
            _ => false,
        },
{
    let wpd = namespace_matches(&e.namespace, WORDPROCESSING_DRAWING_NS);
    let local = e.local.as_str();
    if wpd && same_text(local, "anchor") {
        scan.anchor_depth = Some(depth);
    } else if scan.anchor_depth.is_some() && wpd && same_text(local, "positionH") {
        match seal_attribute(e, "relativeFrom") {
            Err(x) => return Err(x),
            Ok(v) => {
                scan.h_position_depth = Some(depth);
                scan.h_relative_from = v;
            },
        }
    } else if scan.anchor_depth.is_some() && wpd && same_text(local, "positionV") {
        match seal_attribute(e, "relativeFrom") {
            Err(x) => return Err(x),
            Ok(v) => {
                scan.v_position_depth = Some(depth);
                scan.v_relative_from = v;
            },
        }
    } else if scan.anchor_depth.is_some() && wpd && same_text(local, "posOffset") {
        if scan.h_position_depth.is_some() {
            scan.offset_capture = Some((depth, true));
        } else if scan.v_position_depth.is_some() {
            scan.offset_capture = Some((depth, false));
        }
    } else if scan.anchor_depth.is_some() && wpd && same_text(local, "extent") {
        let w = match u64_attribute(e, "cx") {
            Err(x) => return Err(x),
            Ok(v) => v,
        };
        let h = match u64_attribute(e, "cy") {
            Err(x) => return Err(x),
            Ok(v) => v,
        };
        scan.width = w;
        scan.height = h;
    }
    Ok(())
}

/// The group part of an opening element at `depth`.
fn open_group(scan: &mut SealScan, e: &XmlEvent, depth: usize) -> (result: DocxResult<()>)
    ensures
        match (result, group_open(old(scan).state(), *e, depth as int)) {
            (Ok(_), Ok(next)) => final(scan).state() == next,
            (Err(x), Err(fault)) => x@ == fault,
            _ => false,
        },
{
    let wpg = namespace_matches(&e.namespace, WORDPROCESSING_GROUP_NS);
    let drawing = classify_namespace(&e.namespace) == NamespaceKind::Drawing;
    let local = e.local.as_str();
    if wpg && same_text(local, "grpSpPr") {
        scan.group_depth = Some(depth);
    } else if scan.group_depth.is_some() && scan.shape_depth.is_none() && drawing && same_text(local, "chOff") {
        match i64_attribute(e, "x") {
            Err(x) => return Err(x),
            Ok(v) => scan.group_x = v,
        }
    } else if scan.group_depth.is_some() && scan.shape_depth.is_none() && drawing && same_text(local, "chExt") {
        match i64_attribute(e, "cx") {
            Err(x) => return Err(x),
            Ok(v) => scan.group_width = v,
        }
    }
    Ok(())
}

/// A shape before any of its properties has been read.
fn new_shape() -> (shape: ShapeBuilder)
    ensures
        shape.shape_view() == empty_shape(),
{
    ShapeBuilder {
        preset: None,
        offset_x: None,
        extent_x: None,
        extent_y: None,
        line_width_emu: None,
        line_dash: None,
        contains_text_box: false,
        text_direction: None,
    }
}

/// The shape part of an opening element at `depth`.
fn open_shape(scan: &mut SealScan, e: &XmlEvent, depth: usize) -> (result: DocxResult<()>)
    ensures
        match (result, shape_open(old(scan).state(), *e, depth as int)) {
            (Ok(_), Ok(next)) => final(scan).state() == next,
            (Err(x), Err(fault)) => x@ == fault,
            _ => false,
        },
{
    let wps = namespace_matches(&e.namespace, WORDPROCESSING_SHAPE_NS);
    let drawing = classify_namespace(&e.namespace) == NamespaceKind::Drawing;
    let local = e.local.as_str();
    if wps && same_text(local, "wsp") {
        scan.shape_depth = Some(depth);
        scan.shape = Some(new_shape());
        return Ok(());
    }
    let mut sh = match scan.shape.take() {
        None => return Ok(()),
        Some(sh) => sh,
    };
    let result = if drawing && same_text(local, "prstGeom") {
        match seal_attribute(e, "prst") {
            Err(x) => Err(x),
            Ok(v) => {
                sh.preset = v;
                Ok(())
            },
        }
    } else if drawing && same_text(local, "off") && sh.offset_x.is_none() {
        match i64_attribute(e, "x") {
            Err(x) => Err(x),
            Ok(v) => {
                sh.offset_x = v;
                Ok(())
            },
        }
    } else if drawing && same_text(local, "ext") && sh.extent_x.is_none() {
        match i64_attribute(e, "cx") {
            Err(x) => Err(x),
            Ok(cx) => match i64_attribute(e, "cy") {
                Err(x) => Err(x),
                Ok(cy) => {
                    sh.extent_x = cx;
                    sh.extent_y = cy;
                    Ok(())
                },
            },
        }
    } else if drawing && same_text(local, "ln") {
        match u64_attribute(e, "w") {
            Err(x) => Err(x),
            Ok(v) => {
                sh.line_width_emu = v;
                Ok(())
            },
        }
    } else if drawing && same_text(local, "prstDash") {
        match seal_attribute(e, "val") {
            Err(x) => Err(x),
            Ok(v) => {
                sh.line_dash = v;
                Ok(())
            },
        }
    } else if wps && same_text(local, "txbx") {
        sh.contains_text_box = true;
        Ok(())
    } else {
        Ok(())
    };
    scan.shape = Some(sh);
    result
}

/// The text direction a `wps:bodyPr` inside a shape gives it.
fn open_body(scan: &mut SealScan, e: &XmlEvent) -> (result: DocxResult<()>)
    ensures
        match (result, body_open(old(scan).state(), *e)) {
            (Ok(_), Ok(next)) => final(scan).state() == next,
            (Err(x), Err(fault)) => x@ == fault,
            _ => false,
        },
{
    if namespace_matches(&e.namespace, WORDPROCESSING_SHAPE_NS) && same_text(e.local.as_str(), "bodyPr")
        && scan.shape.is_some() {
        match seal_attribute(e, "vert") {
            Err(x) => Err(x),
            Ok(Some(direction)) => {
                let mut sh = scan.shape.take().unwrap();
                sh.text_direction = Some(direction);
                scan.shape = Some(sh);
                Ok(())
            },
            Ok(None) => Ok(()),
        }
    } else {
        Ok(())
    }
}

/// The text part of an opening element at `depth`.
fn open_text(scan: &mut SealScan, e: &XmlEvent, depth: usize) -> (result: DocxResult<()>)
    ensures
        match (result, text_open(old(scan).state(), *e, depth as int)) {
            (Ok(_), Ok(next)) => final(scan).state() == next,
            (Err(x), Err(fault)) => x@ == fault,
            _ => false,
        },
{
    let word = classify_namespace(&e.namespace) == NamespaceKind::Word;
    let local = e.local.as_str();
    if word && same_text(local, "txbxContent") {
        scan.text_box_depth = Some(depth);
    } else if scan.text_box_depth.is_some() && word && same_text(local, "p") && scan.paragraph_depth.is_none() {
        scan.paragraph_depth = Some(depth);
        scan.line = Some(TemplateSideSealLine { alignment: None, runs: Vec::new() });
        assert(scan.line->0@.runs =~= Seq::<RunView>::empty());
    } else if scan.paragraph_depth.is_some() && word && same_text(local, "pPr") && scan.properties_depth.is_none() {
        scan.properties_depth = Some(depth);
    } else if scan.properties_depth.is_some() && scan.run_depth.is_none() && word && same_text(local, "jc") {
        if scan.line.is_some() {
            match seal_attribute(e, "val") {
                Err(x) => return Err(x),
                Ok(v) => {
                    let mut l = scan.line.take().unwrap();
                    l.alignment = v;
                    scan.line = Some(l);
                },
            }
        }
    } else if scan.paragraph_depth.is_some() && scan.properties_depth.is_none() && word && same_text(local, "r")
        && scan.run_depth.is_none() {
        scan.run_depth = Some(depth);
        scan.run = Some(TemplateSideSealRun { text: String::new(), underline: false, size_half_points: None });
    } else if scan.run_depth.is_some() && word && same_text(local, "u") {
        if scan.run.is_some() {
            match seal_attribute(e, "val") {
                Err(x) => return Err(x),
                Ok(v) => {
                    let off = match &v {
                        Some(t) => {
                            let t = t.as_str();
                            same_text(t, "0") || same_text(t, "false") || same_text(t, "off") || same_text(t, "none")
                        },
                        None => false,
                    };
                    let mut r = scan.run.take().unwrap();
                    r.underline = !off;
                    scan.run = Some(r);
                },
            }
        }
    } else if scan.run_depth.is_some() && word && same_text(local, "sz") {
        if scan.run.is_some() {
            match seal_attribute(e, "val") {
                Err(x) => return Err(x),
                Ok(v) => {
                    let size = match &v {
                        Some(t) => parse_u32(t.as_str()),
                        None => None,
                    };
                    let mut r = scan.run.take().unwrap();
                    r.size_half_points = size;
                    scan.run = Some(r);
                },
            }
        }
    } else if scan.run_depth.is_some() && word && same_text(local, "t") {
        scan.text_depth = Some(depth);
    }
    Ok(())
}

/// The reading after an opening (or empty) element.
fn open_element(scan: &mut SealScan, e: &XmlEvent, limits: &DocxLimits, index: usize) -> (result: DocxResult<()>)
    requires
        old(scan).depth <= index,
        index < usize::MAX,
    ensures
        match (result, seal_open(old(scan).state(), *e, *limits)) {
            (Ok(_), Ok(next)) => final(scan).state() == next && final(scan).depth <= index + 1,
            (Err(x), Err(fault)) => x@ == fault,
            _ => false,
        },
{
    let depth = scan.depth + 1;
    if depth > limits.max_xml_depth {
        return Err(
            DocxError::LimitExceeded {
                resource: "XML depth in side-seal drawing".to_owned(),
                limit: limits.max_xml_depth as u64,
                actual: depth as u64,
            },
        );
    }
    scan.depth = depth;
    match open_anchor(scan, e, depth) {
        Err(x) => return Err(x),
        Ok(_) => {},
    }
    match open_group(scan, e, depth) {
        Err(x) => return Err(x),
        Ok(_) => {},
    }
    match open_shape(scan, e, depth) {
        Err(x) => return Err(x),
        Ok(_) => {},
    }
    match open_body(scan, e) {
        Err(x) => return Err(x),
        Ok(_) => {},
    }
    match open_text(scan, e, depth) {
        Err(x) => return Err(x),
        Ok(_) => {},
    }
    if e.kind == XmlEventKind::Empty {
        if scan.text_depth == Some(depth) {
            scan.text_depth = None;
        }
        scan.depth = depth - 1;
    }
    Ok(())
}

/// The reading after run text (or CDATA).
fn take_run_text(scan: &mut SealScan, text: &str)
    ensures
        final(scan).state() == seal_run_text(old(scan).state(), text@),
{
    if scan.text_depth.is_some() && scan.run.is_some() {
        let mut r = scan.run.take().unwrap();
        r.text.append(text);
        scan.run = Some(r);
    }
}

/// The reading after text.
fn take_text(scan: &mut SealScan, text: &str)
    ensures
        final(scan).state() == seal_text(old(scan).state(), text@),
{
    match scan.offset_capture {
        Some((_, horizontal)) => {
            let trimmed_text = trim_white_space(text);
            match parse_i64(trimmed_text.as_str()) {
                Some(v) => {
                    if horizontal {
                        scan.h_offset = Some(v);
                    } else {
                        scan.v_offset = Some(v);
                    }
                },
                None => {},
            }
        },
        None => take_run_text(scan, text),
    }
}

/// The run-level part of a closing element at depth `d`.
fn close_run(scan: &mut SealScan, e: &XmlEvent, d: usize)
    ensures
        final(scan).state() == run_close(old(scan).state(), *e, d as int),
{
    let word = classify_namespace(&e.namespace) == NamespaceKind::Word;
    let local = e.local.as_str();
    if scan.text_depth == Some(d) && word && same_text(local, "t") {
        scan.text_depth = None;
    }
    if scan.run_depth == Some(d) && word && same_text(local, "r") {
        let run = scan.run.take();
        match run {
            Some(r) => {
                if r.text.as_str().unicode_len() > 0 && scan.line.is_some() {
                    let mut l = scan.line.take().unwrap();
                    let ghost before = l.runs@;
                    l.runs.push(r);
                    assert(l.runs@.map_values(|x: TemplateSideSealRun| x@) =~= before.map_values(
                        |x: TemplateSideSealRun| x@,
                    ).push(r@));
                    scan.line = Some(l);
                }
            },
            None => {},
        }
        scan.run_depth = None;
    }
    if scan.properties_depth == Some(d) && word && same_text(local, "pPr") {
        scan.properties_depth = None;
    }
}

/// The paragraph-level part of a closing element at depth `d`.
fn close_paragraph(scan: &mut SealScan, e: &XmlEvent, d: usize)
    ensures
        final(scan).state() == paragraph_close(old(scan).state(), *e, d as int),
{
    let word = classify_namespace(&e.namespace) == NamespaceKind::Word;
    let local = e.local.as_str();
    if scan.paragraph_depth == Some(d) && word && same_text(local, "p") {
        let line = scan.line.take();
        match line {
            Some(l) => {
                if l.runs.len() > 0 {
                    let ghost before = scan.lines@;
                    let ghost lv = l@;
                    scan.lines.push(l);
                    assert(lines_of(scan.lines@) =~= lines_of(before).push(lv));
                }
            },
            None => {},
        }
        scan.paragraph_depth = None;
    }
    if scan.text_box_depth == Some(d) && word && same_text(local, "txbxContent") {
        scan.text_box_depth = None;
    }
}

/// The shape-level part of a closing element at depth `d`.
fn close_shape(scan: &mut SealScan, e: &XmlEvent, d: usize)
    ensures
        final(scan).state() == shape_close(old(scan).state(), *e, d as int),
{
    if scan.shape_depth == Some(d) && namespace_matches(&e.namespace, WORDPROCESSING_SHAPE_NS) && same_text(
        e.local.as_str(),
        "wsp",
    ) {
        match scan.shape.take() {
            Some(sh) => {
                let ghost v = sh.shape_view();
                let is_line = match &sh.preset {
                    Some(p) => same_text(p.as_str(), "line"),
                    None => false,
                } && (match sh.extent_y {
                    Some(y) => y,
                    None => 0,
                }) > 0 && (match sh.extent_x {
                    Some(x) => x,
                    None => 0,
                }) == 0;
                assert(is_line == is_cut_line(v));
                if sh.contains_text_box && sh.text_direction.is_some() {
                    scan.text_direction = sh.text_direction;
                }
                if is_line {
                    scan.line_x = sh.offset_x;
                    scan.line_width = sh.line_width_emu;
                    scan.line_dash = sh.line_dash;
                }
            },
            None => {},
        }
        scan.shape_depth = None;
    }
}

/// The anchor-level part of a closing element at depth `d`.
fn close_anchor(scan: &mut SealScan, e: &XmlEvent, d: usize)
    ensures
        final(scan).state() == anchor_close(old(scan).state(), *e, d as int),
{
    let wpd = namespace_matches(&e.namespace, WORDPROCESSING_DRAWING_NS);
    let local = e.local.as_str();
    if scan.group_depth == Some(d) && namespace_matches(&e.namespace, WORDPROCESSING_GROUP_NS) && same_text(
        local,
        "grpSpPr",
    ) {
        scan.group_depth = None;
    }
    if scan.h_position_depth == Some(d) && wpd && same_text(local, "positionH") {
        scan.h_position_depth = None;
    }
    if scan.v_position_depth == Some(d) && wpd && same_text(local, "positionV") {
        scan.v_position_depth = None;
    }
    let captured_here = match scan.offset_capture {
        Some((c, _)) => c == d,
        None => false,
    };
    if captured_here && wpd && same_text(local, "posOffset") {
        scan.offset_capture = None;
    }
    if scan.anchor_depth == Some(d) && wpd && same_text(local, "anchor") {
        scan.anchor_depth = None;
    }
}

/// The reading after a closing element.
fn close_element(scan: &mut SealScan, e: &XmlEvent)
    ensures
        final(scan).state() == seal_close(old(scan).state(), *e),
        final(scan).depth <= old(scan).depth,
{
    let d = scan.depth;
    close_run(scan, e, d);
    close_paragraph(scan, e, d);
    close_shape(scan, e, d);
    close_anchor(scan, e, d);
    scan.depth = if d > 0 {
        d - 1
    } else {
        0
    };
}

/// The state before the first event.
fn new_scan() -> (scan: SealScan)
    ensures
        scan.state() == initial_seal_state(),
{
    let scan = SealScan {
        depth: 0,
        anchor_depth: None,
        h_position_depth: None,
        v_position_depth: None,
        offset_capture: None,
        h_relative_from: None,
        v_relative_from: None,
        h_offset: None,
        v_offset: None,
        width: None,
        height: None,
        text_direction: None,
        text_box_depth: None,
        paragraph_depth: None,
        properties_depth: None,
        line: None,
        run_depth: None,
        run: None,
        text_depth: None,
        lines: Vec::new(),
        group_depth: None,
        group_x: None,
        group_width: None,
        shape_depth: None,
        shape: None,
        line_x: None,
        line_width: None,
        line_dash: None,
    };
    assert(lines_of(scan.lines@) =~= Seq::<LineView>::empty());
    scan
}

/// The layout a finished reading gives.
fn finish_layout(scan: SealScan, paragraph_index: usize, margin_left: u32, margin_top: u32) -> (layout: Option<
    TemplateSideSealLayout,
>)
    ensures
        match (layout, seal_layout(scan.state(), paragraph_index, margin_left, margin_top)) {
            (Some(l), Some(expected)) => l@ == expected,
            (None, None) => true,
            _ => false,
        },
{
    let (width, height) = match (scan.width, scan.height) {
        (Some(w), Some(h)) => (w, h),
        _ => return None,
    };
    if width == 0 || height == 0 {
        return None;
    }
    let page_x = resolved_side_seal_axis(&scan.h_relative_from, scan.h_offset, margin_left, paragraph_index, true);
    let page_y = resolved_side_seal_axis(&scan.v_relative_from, scan.v_offset, margin_top, paragraph_index, false);
    let line_x = scaled_line_x(scan.line_x, scan.group_x, scan.group_width, width);
    Some(
        TemplateSideSealLayout {
            horizontal_relative_from: scan.h_relative_from,
            vertical_relative_from: scan.v_relative_from,
            horizontal_offset_emu: scan.h_offset,
            vertical_offset_emu: scan.v_offset,
            page_x_emu: page_x,
            page_y_emu: page_y,
            width_emu: width,
            height_emu: height,
            text_direction: scan.text_direction,
            line_x_emu: line_x,
            line_width_emu: scan.line_width,
            line_dash: scan.line_dash,
            lines: scan.lines,
        },
    )
}

/// Reads the side-seal layout of a paragraph, given as the events of the
/// paragraph inside its namespace wrapper: the `wp:anchor` position (with
/// its `relativeFrom` bases resolved against the given left and top
/// margins) and extent, the text direction of the shape that holds the text
/// box, the text box lines with their alignment and runs, and the vertical
/// `line` shape scaled from the group's child coordinates. Without a
/// non-zero extent there is no layout.
pub fn side_seal_from_events(
    stream: &XmlStream,
    paragraph_index: usize,
    margin_left: u32,
    margin_top: u32,
    limits: &DocxLimits,
) -> (result: DocxResult<Option<TemplateSideSealLayout>>)
    ensures
        match (result, spec_side_seal(*stream, paragraph_index, margin_left, margin_top, *limits)) {
            (Ok(Some(l)), Ok(Some(expected))) => l@ == expected,
            (Ok(None), Ok(None)) => true,
            (Err(x), Err(fault)) => x@ == fault,
            _ => false,
        },
{
    let mut scan = new_scan();
    let events = stream.events.as_slice();
    let mut start: u64 = 0;
    let mut i: usize = 0;
    let mut ended = false;
    while i < events.len() && !ended
        invariant
            i <= events@.len(),
            events@ == stream.events@,
            scan.depth <= i,
            start == prior_position(*stream, i as int),
            ended ==> seal_from(*stream, 0, initial_seal_state(), *limits) == Ok::<SealState, DocxFault>(scan.state()),
            !ended ==> seal_from(*stream, 0, initial_seal_state(), *limits) == seal_from(
                *stream,
                i as int,
                scan.state(),
                *limits,
            ),
        decreases events@.len() - i + if ended { 0int } else { 1int },
    {
        let e = &events[i];
        if e.kind == XmlEventKind::Eof {
            ended = true;
        } else {
            if e.kind == XmlEventKind::Start || e.kind == XmlEventKind::Empty {
                match open_element(&mut scan, e, limits, i) {
                    Err(x) => return Err(x),
                    Ok(_) => {},
                }
            } else if e.kind == XmlEventKind::Text {
                take_text(&mut scan, e.text.as_str());
            } else if e.kind == XmlEventKind::CData {
                take_run_text(&mut scan, e.text.as_str());
            } else if e.kind == XmlEventKind::End {
                close_element(&mut scan, e);
            } else if e.kind == XmlEventKind::DocType {
                return Err(DocxError::xml(DOCUMENT_PART, start, "DOCTYPE declarations are not allowed"));
            }
            start = e.position;
            i = i + 1;
        }
    }
    if !ended {
        match &stream.read_error {
            Some((position, message)) => {
                return Err(DocxError::xml(DOCUMENT_PART, *position, message.as_str()));
            },
            None => {},
        }
    }
    Ok(finish_layout(scan, paragraph_index, margin_left, margin_top))
}

/// Reads the side-seal layout of a paragraph of `word/document.xml` from its
/// bytes, wrapped in a root that declares the side-seal namespaces (the
/// paragraph no longer inherits them from the document root): the outcome
/// of [`side_seal_from_events`] on the events the XML reader gives for the
/// wrapped bytes, with the page's left and top margins.
pub fn extract_side_seal_layout(
    paragraph_xml: &[u8],
    paragraph_index: usize,
    page: &TemplatePageSetup,
    limits: &DocxLimits,
) -> (result: DocxResult<Option<TemplateSideSealLayout>>)
    ensures
        exists|stream: XmlStream|
            stream.source_len == spec_seal_wrapper(paragraph_xml@).len() && match (
                result,
                #[trigger] spec_side_seal(stream, paragraph_index, page.margin_left_twips, page.margin_top_twips, *limits),
            ) {
                (Ok(Some(l)), Ok(Some(expected))) => l@ == expected,
                (Ok(None), Ok(None)) => true,
                (Err(x), Err(fault)) => x@ == fault,
                _ => false,
            },
{
    let wrapped = side_seal_namespace_wrapper(paragraph_xml);
    let stream = read_xml_stream(wrapped.as_slice());
    let result = side_seal_from_events(&stream, paragraph_index, page.margin_left_twips, page.margin_top_twips, limits);
    assert(spec_side_seal(stream, paragraph_index, page.margin_left_twips, page.margin_top_twips, *limits)
        == spec_side_seal(stream, paragraph_index, page.margin_left_twips, page.margin_top_twips, *limits));
    result
}

} // verus!
