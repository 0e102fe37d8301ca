//! The page geometry of a template, read from the section properties of
//! `word/document.xml`: size, margins, columns and document grid.
use vstd::prelude::*;
use crate::diagnostic::{Diagnostic, DiagnosticSeverity, DiagnosticView};
use crate::error::{DocxError, DocxFault, DocxResult};
use crate::limits::DocxLimits;
use crate::numbers::{parse_u32, parse_unsigned};
use crate::package::DOCUMENT_PART;
use crate::text::same_text;
use crate::xml::{
    NamespaceKind, XmlEvent, XmlEventKind, XmlStream, attribute_value, classify_namespace,
    opt_text, spec_attribute_value, spec_classify,
};
use crate::xml_reader::read_part_events;

verus! {

/// The largest page dimension or margin a preview accepts, in twips.
pub const MAX_PAGE_TWIPS: u32 = 100_000;

/// Page size, margins, columns and grid of a template, in twips.
#[derive(Clone, Debug, PartialEq, Eq)]
pub struct TemplatePageSetup {
    pub width_twips: u32,
    pub height_twips: u32,
    pub margin_top_twips: u32,
    pub margin_right_twips: u32,
    pub margin_bottom_twips: u32,
    pub margin_left_twips: u32,
    pub header_twips: u32,
    pub footer_twips: u32,
    pub column_count: u32,
    pub column_gap_twips: u32,
    pub column_separator: bool,
    pub document_grid_type: Option<String>,
    pub document_grid_line_pitch_twips: Option<u32>,
}

/// A page setup as plain values.
pub struct PageSetupView {
    pub width_twips: u32,
    pub height_twips: u32,
    pub margin_top_twips: u32,
    pub margin_right_twips: u32,
    pub margin_bottom_twips: u32,
    pub margin_left_twips: u32,
    pub header_twips: u32,
    pub footer_twips: u32,
    pub column_count: u32,
    pub column_gap_twips: u32,
    pub column_separator: bool,
    pub document_grid_type: Option<Seq<char>>,
    pub document_grid_line_pitch_twips: Option<u32>,
}

impl View for TemplatePageSetup {
    type V = PageSetupView;

    open spec fn view(&self) -> PageSetupView {
        PageSetupView {
            width_twips: self.width_twips,
            height_twips: self.height_twips,
            margin_top_twips: self.margin_top_twips,
            margin_right_twips: self.margin_right_twips,
            margin_bottom_twips: self.margin_bottom_twips,
            margin_left_twips: self.margin_left_twips,
            header_twips: self.header_twips,
            footer_twips: self.footer_twips,
            column_count: self.column_count,
            column_gap_twips: self.column_gap_twips,
            column_separator: self.column_separator,
            document_grid_type: opt_text(self.document_grid_type),
            document_grid_line_pitch_twips: self.document_grid_line_pitch_twips,
        }
    }
}

/// ISO A4 with one-inch margins, half-inch header and footer, one column.
pub open spec fn default_page_setup() -> PageSetupView {
    PageSetupView {
        width_twips: 11_906,
        height_twips: 16_838,
        margin_top_twips: 1_440,
        margin_right_twips: 1_440,
        margin_bottom_twips: 1_440,
        margin_left_twips: 1_440,
        header_twips: 720,
        footer_twips: 720,
        column_count: 1,
        column_gap_twips: 720,
        column_separator: false,
        document_grid_type: None,
        document_grid_line_pitch_twips: None,
    }
}

impl Default for TemplatePageSetup {
    fn default() -> (setup: Self)
        ensures
            setup@ == default_page_setup(),
    {
        TemplatePageSetup {
            width_twips: 11_906,
            height_twips: 16_838,
            margin_top_twips: 1_440,
            margin_right_twips: 1_440,
            margin_bottom_twips: 1_440,
            margin_left_twips: 1_440,
            header_twips: 720,
            footer_twips: 720,
            column_count: 1,
            column_gap_twips: 720,
            column_separator: false,
            document_grid_type: None,
            document_grid_line_pitch_twips: None,
        }
    }
}

/// The dimensions a twips attribute can set.
#[derive(Clone, Copy, PartialEq, Eq, Structural)]
pub enum PageField {
    Width,
    Height,
    MarginTop,
    MarginRight,
    MarginBottom,
    MarginLeft,
    Header,
    Footer,
    ColumnGap,
}

/// `s` with `field` set to `v`.
pub open spec fn set_field(s: PageSetupView, field: PageField, v: u32) -> PageSetupView {
    match field {
        PageField::Width => PageSetupView { width_twips: v, ..s },
        PageField::Height => PageSetupView { height_twips: v, ..s },
        PageField::MarginTop => PageSetupView { margin_top_twips: v, ..s },
        PageField::MarginRight => PageSetupView { margin_right_twips: v, ..s },
        PageField::MarginBottom => PageSetupView { margin_bottom_twips: v, ..s },
        PageField::MarginLeft => PageSetupView { margin_left_twips: v, ..s },
        PageField::Header => PageSetupView { header_twips: v, ..s },
        PageField::Footer => PageSetupView { footer_twips: v, ..s },
        PageField::ColumnGap => PageSetupView { column_gap_twips: v, ..s },
    }
}

/// The finding for a page setup attribute that is no number.
pub open spec fn invalid_value_finding(raw: Seq<char>) -> DiagnosticView {
    DiagnosticView {
        severity: DiagnosticSeverity::Error,
        code: "TEMPLATE_PAGE_SETUP_VALUE_INVALID"@,
        part_name: Some(DOCUMENT_PART@),
        message: "page setup attribute '"@ + raw + "' is not a valid non-negative integer"@,
        suggested_action: None,
    }
}

/// The finding for a page setup value beyond [`MAX_PAGE_TWIPS`].
pub open spec fn too_large_finding() -> DiagnosticView {
    DiagnosticView {
        severity: DiagnosticSeverity::Error,
        code: "TEMPLATE_PAGE_SETUP_VALUE_TOO_LARGE"@,
        part_name: Some(DOCUMENT_PART@),
        message: "page setup value exceeds the supported preview range"@,
        suggested_action: None,
    }
}

/// The twips value of the WordprocessingML attribute `local` of `e`: `None`
/// when it is absent; refused when it is no `u32` or exceeds
/// [`MAX_PAGE_TWIPS`].
pub open spec fn spec_twips(e: XmlEvent, local: Seq<char>) -> Result<Option<u32>, DocxFault> {
    match spec_attribute_value(e, local, Some(NamespaceKind::Word), DOCUMENT_PART@) {
        Err(f) => Err(f),
        Ok(None) => Ok(None),
        Ok(Some(raw)) => match parse_unsigned(raw, u32::MAX as nat) {
            None => Err(DocxFault::Rejected { diagnostics: seq![invalid_value_finding(raw)] }),
            Some(v) => if v > MAX_PAGE_TWIPS {
                Err(DocxFault::Rejected { diagnostics: seq![too_large_finding()] })
            } else {
                Ok(Some(v as u32))
            },
        },
    }
}

/// `r` with `field` set from the attribute `local` of `e`, where present.
pub open spec fn twips_into(r: Result<PageSetupView, DocxFault>, e: XmlEvent, local: Seq<char>, field: PageField) -> Result<
    PageSetupView,
    DocxFault,
> {
    match r {
        Err(f) => Err(f),
        Ok(s) => match spec_twips(e, local) {
            Err(f) => Err(f),
            Ok(None) => Ok(s),
            Ok(Some(v)) => Ok(set_field(s, field, v)),
        },
    }
}

/// `v` brought into `1..=8`.
pub open spec fn clamp_columns(v: u32) -> u32 {
    if v < 1 {
        1
    } else if v > 8 {
        8
    } else {
        v
    }
}

/// Whether a Word on/off value says off.
pub open spec fn is_off(value: Seq<char>) -> bool {
    value == "0"@ || value == "false"@ || value == "off"@ || value == "none"@
}

/// The setup after a `w:cols` element.
pub open spec fn columns_step(s: PageSetupView, e: XmlEvent) -> Result<PageSetupView, DocxFault> {
    let counted = match spec_twips(e, "num"@) {
        Err(f) => Err(f),
        Ok(None) => Ok(s),
        Ok(Some(v)) => Ok(PageSetupView { column_count: clamp_columns(v), ..s }),
    };
    match twips_into(counted, e, "space"@, PageField::ColumnGap) {
        Err(f) => Err(f),
        Ok(s2) => match spec_attribute_value(e, "sep"@, Some(NamespaceKind::Word), DOCUMENT_PART@) {
            Err(f) => Err(f),
            Ok(None) => Ok(s2),
            Ok(Some(value)) => Ok(PageSetupView { column_separator: !is_off(value), ..s2 }),
        },
    }
}

/// The setup, and whether a `w:col` has set the column gap, after one
/// WordprocessingML element.
pub open spec fn page_element(s: PageSetupView, from_child: bool, e: XmlEvent) -> Result<(PageSetupView, bool), DocxFault> {
    let local = e.local@;
    if local == "pgSz"@ {
        match twips_into(twips_into(Ok(s), e, "w"@, PageField::Width), e, "h"@, PageField::Height) {
            Err(f) => Err(f),
            Ok(s2) => Ok((s2, from_child)),
        }
    } else if local == "pgMar"@ {
        let r = twips_into(Ok(s), e, "top"@, PageField::MarginTop);
        let r = twips_into(r, e, "right"@, PageField::MarginRight);
        let r = twips_into(r, e, "bottom"@, PageField::MarginBottom);
        let r = twips_into(r, e, "left"@, PageField::MarginLeft);
        let r = twips_into(r, e, "header"@, PageField::Header);
        match twips_into(r, e, "footer"@, PageField::Footer) {
            Err(f) => Err(f),
            Ok(s2) => Ok((s2, from_child)),
        }
    } else if local == "cols"@ {
        match columns_step(s, e) {
            Err(f) => Err(f),
            Ok(s2) => Ok((s2, from_child)),
        }
    } else if local == "col"@ && !from_child {
        match spec_twips(e, "space"@) {
            Err(f) => Err(f),
            Ok(None) => Ok((s, from_child)),
            Ok(Some(v)) => Ok((PageSetupView { column_gap_twips: v, ..s }, true)),
        }
    } else if local == "docGrid"@ {
        match spec_attribute_value(e, "type"@, Some(NamespaceKind::Word), DOCUMENT_PART@) {
            Err(f) => Err(f),
            Ok(grid_type) => match spec_twips(e, "linePitch"@) {
                Err(f) => Err(f),
                Ok(pitch) => Ok(
                    (
                        PageSetupView {
                            document_grid_type: grid_type,
                            document_grid_line_pitch_twips: pitch,
                            ..s
                        },
                        from_child,
                    ),
                ),
            },
        }
    } else {
        Ok((s, from_child))
    }
}

/// What the reading knows after some events.
pub struct PageScan {
    pub setup: PageSetupView,
    pub depth: int,
    pub from_child: bool,
}

/// The depth error of `word/document.xml`.
pub open spec fn depth_fault(limits: DocxLimits, depth: int) -> DocxFault {
    DocxFault::LimitExceeded {
        resource: "XML depth in "@ + DOCUMENT_PART@,
        limit: limits.max_xml_depth as u64,
        actual: depth as u64,
    }
}

/// The reading after the event `e`, which starts at byte `start`.
pub open spec fn page_step(s: PageScan, e: XmlEvent, start: u64, limits: DocxLimits) -> Result<PageScan, DocxFault> {
    if e.kind == XmlEventKind::Start || e.kind == XmlEventKind::Empty {
        let depth = s.depth + 1;
        if depth > limits.max_xml_depth {
            Err(depth_fault(limits, depth))
        } else {
            let after = if e.kind == XmlEventKind::Empty {
                depth - 1
            } else {
                depth
            };
            if spec_classify(e.namespace) == NamespaceKind::Word {
                match page_element(s.setup, s.from_child, e) {
                    Err(f) => Err(f),
                    Ok((setup, from_child)) => Ok(PageScan { setup, depth: after, from_child }),
                }
            } else {
                Ok(PageScan { depth: after, ..s })
            }
        }
    } else if e.kind == XmlEventKind::End {
        Ok(PageScan { depth: if s.depth > 0 { s.depth - 1 } else { 0 }, ..s })
    } else if e.kind == XmlEventKind::DocType {
        Err(DocxFault::Xml { part_name: DOCUMENT_PART@, position: start, message: "DOCTYPE declarations are not allowed"@ })
    } else {
        Ok(s)
    }
}

/// Where event `i` starts: where the one before it ended.
pub open spec fn prior_position(stream: XmlStream, i: int) -> u64 {
    if i <= 0 {
        0
    } else {
        stream.events@[i - 1].position
    }
}

/// The page setup read from event `i` on.
pub open spec fn page_from(stream: XmlStream, i: int, s: PageScan, limits: DocxLimits) -> Result<PageSetupView, DocxFault>
    decreases stream.events@.len() - i,
{
    if i < 0 || i >= stream.events@.len() {
        match stream.read_error {
            Some((position, message)) => Err(DocxFault::Xml { part_name: DOCUMENT_PART@, position, message: message@ }),
            None => Ok(s.setup),
        }
    } else {
        let e = stream.events@[i];
        if e.kind == XmlEventKind::Eof {
            Ok(s.setup)
        } else {
            match page_step(s, e, prior_position(stream, i), limits) {
                Err(f) => Err(f),
                Ok(next) => page_from(stream, i + 1, next, limits),
            }
        }
    }
}

/// The page setup of `word/document.xml`, given as its events: the A4
/// defaults, overridden by every `w:pgSz`, `w:pgMar`, `w:cols`, the first
/// `w:col` with a spacing, and `w:docGrid`, in document order.
pub open spec fn spec_page_setup(stream: XmlStream, limits: DocxLimits) -> Result<PageSetupView, DocxFault> {
    page_from(stream, 0, PageScan { setup: default_page_setup(), depth: 0, from_child: false }, limits)
}

/// The twips value of the WordprocessingML attribute `local` of `e`.
fn twips_attribute(e: &XmlEvent, local: &str) -> (result: DocxResult<Option<u32>>)
    ensures
        match (result, spec_twips(*e, local@)) {
            (Ok(v), Ok(expected)) => v == expected,
            (Err(x), Err(fault)) => x@ == fault,
            _ => false,
        },
{
    let raw = match attribute_value(e, local, Some(NamespaceKind::Word), DOCUMENT_PART) {
        Err(x) => return Err(x),
        Ok(None) => return Ok(None),
        Ok(Some(raw)) => raw,
    };
    match parse_u32(raw.as_str()) {
        None => {
            let mut message = "page setup attribute '".to_owned();
            message.append(raw.as_str());
            message.append("' is not a valid non-negative integer");
            let d = Diagnostic::error("TEMPLATE_PAGE_SETUP_VALUE_INVALID", Some(DOCUMENT_PART.to_owned()), message);
            let found = vec![d];
            assert(crate::diagnostic::diagnostics_view(found@) =~= seq![invalid_value_finding(raw@)]);
            Err(DocxError::rejected(found))
        },
        Some(value) => {
            if value > MAX_PAGE_TWIPS {
                let d = Diagnostic::error(
                    "TEMPLATE_PAGE_SETUP_VALUE_TOO_LARGE",
                    Some(DOCUMENT_PART.to_owned()),
                    "page setup value exceeds the supported preview range".to_owned(),
                );
                let found = vec![d];
                assert(crate::diagnostic::diagnostics_view(found@) =~= seq![too_large_finding()]);
                Err(DocxError::rejected(found))
            } else {
                Ok(Some(value))
            }
        },
    }
}

/// Sets `field` of `setup` to `v`.
fn set_page_field(setup: &mut TemplatePageSetup, field: PageField, v: u32)
    ensures
        final(setup)@ == set_field(old(setup)@, field, v),
{
    match field {
        PageField::Width => setup.width_twips = v,
        PageField::Height => setup.height_twips = v,
        PageField::MarginTop => setup.margin_top_twips = v,
        PageField::MarginRight => setup.margin_right_twips = v,
        PageField::MarginBottom => setup.margin_bottom_twips = v,
        PageField::MarginLeft => setup.margin_left_twips = v,
        PageField::Header => setup.header_twips = v,
        PageField::Footer => setup.footer_twips = v,
        PageField::ColumnGap => setup.column_gap_twips = v,
    }
}

/// Sets `field` of `setup` from the attribute `local` of `e`, where present.
fn apply_twips(setup: &mut TemplatePageSetup, e: &XmlEvent, local: &str, field: PageField) -> (result: DocxResult<()>)
    ensures
        match (result, twips_into(Ok(old(setup)@), *e, local@, field)) {
            (Ok(_), Ok(expected)) => final(setup)@ == expected,
            (Err(x), Err(fault)) => x@ == fault,
            _ => false,
        },
{
    match twips_attribute(e, local) {
        Err(x) => Err(x),
        Ok(None) => Ok(()),
        Ok(Some(v)) => {
            set_page_field(setup, field, v);
            Ok(())
        },
    }
}

/// Whether a Word on/off value says off.
fn off_value(value: &str) -> (off: bool)
    ensures
        off == is_off(value@),
{
    same_text(value, "0") || same_text(value, "false") || same_text(value, "off") || same_text(value, "none")
}

/// Takes one WordprocessingML element into the setup.
fn read_page_element(setup: &mut TemplatePageSetup, from_child: &mut bool, e: &XmlEvent) -> (result: DocxResult<()>)
    ensures
        match (result, page_element(old(setup)@, *old(from_child), *e)) {
            (Ok(_), Ok((expected, child))) => final(setup)@ == expected && *final(from_child) == child,
            (Err(x), Err(fault)) => x@ == fault,
            _ => false,
        },
{
    let local = e.local.as_str();
    if same_text(local, "pgSz") {
        match apply_twips(setup, e, "w", PageField::Width) {
            Err(x) => return Err(x),
            Ok(_) => {},
        }
        apply_twips(setup, e, "h", PageField::Height)
    } else if same_text(local, "pgMar") {
        match apply_twips(setup, e, "top", PageField::MarginTop) {
            Err(x) => return Err(x),
            Ok(_) => {},
        }
        match apply_twips(setup, e, "right", PageField::MarginRight) {
            Err(x) => return Err(x),
            Ok(_) => {},
        }
        match apply_twips(setup, e, "bottom", PageField::MarginBottom) {
            Err(x) => return Err(x),
            Ok(_) => {},
        }
        match apply_twips(setup, e, "left", PageField::MarginLeft) {
            Err(x) => return Err(x),
            Ok(_) => {},
        }
        match apply_twips(setup, e, "header", PageField::Header) {
            Err(x) => return Err(x),
            Ok(_) => {},
        }
        apply_twips(setup, e, "footer", PageField::Footer)
    } else if same_text(local, "cols") {
        match twips_attribute(e, "num") {
            Err(x) => return Err(x),
            Ok(None) => {},
            Ok(Some(v)) => {
                setup.column_count = if v < 1 {
                    1
                } else if v > 8 {
                    8
                } else {
                    v
                };
            },
        }
        match apply_twips(setup, e, "space", PageField::ColumnGap) {
            Err(x) => return Err(x),
            Ok(_) => {},
        }
        match attribute_value(e, "sep", Some(NamespaceKind::Word), DOCUMENT_PART) {
            Err(x) => Err(x),
            Ok(None) => Ok(()),
            Ok(Some(value)) => {
                setup.column_separator = !off_value(value.as_str());
                Ok(())
            },
        }
    } else if same_text(local, "col") && !*from_child {
        match twips_attribute(e, "space") {
            Err(x) => Err(x),
            Ok(None) => Ok(()),
            Ok(Some(v)) => {
                setup.column_gap_twips = v;
                *from_child = true;
                Ok(())
            },
        }
    } else if same_text(local, "docGrid") {
        let grid_type = match attribute_value(e, "type", Some(NamespaceKind::Word), DOCUMENT_PART) {
            Err(x) => return Err(x),
            Ok(value) => value,
        };
        match twips_attribute(e, "linePitch") {
            Err(x) => Err(x),
            Ok(pitch) => {
                setup.document_grid_type = grid_type;
                setup.document_grid_line_pitch_twips = pitch;
                Ok(())
            },
        }
    } else {
        Ok(())
    }
}

/// Reads the page setup of `word/document.xml`, given as its events: the A4
/// defaults, overridden by every `w:pgSz`, `w:pgMar`, `w:cols`, the first
/// `w:col` with a spacing, and `w:docGrid`, in document order. A value that
/// is no number or exceeds [`MAX_PAGE_TWIPS`] is refused.
pub fn page_setup_from_events(stream: &XmlStream, limits: &DocxLimits) -> (result: DocxResult<TemplatePageSetup>)
    ensures
        match (result, spec_page_setup(*stream, *limits)) {
            (Ok(setup), Ok(expected)) => setup@ == expected,
            (Err(x), Err(fault)) => x@ == fault,
            _ => false,
        },
{
    let mut setup = TemplatePageSetup::default();
    let mut depth: usize = 0;
    let mut from_child = false;
    let events = stream.events.as_slice();
    let mut start: u64 = 0;
    let mut i: usize = 0;
    while i < events.len()
        invariant
            i <= events@.len(),
            events@ == stream.events@,
            depth <= i,
            start == prior_position(*stream, i as int),
            spec_page_setup(*stream, *limits) == page_from(
                *stream,
                i as int,
                PageScan { setup: setup@, depth: depth as int, from_child },
                *limits,
            ),
        decreases events@.len() - i,
    {
        let e = &events[i];
        if e.kind == XmlEventKind::Eof {
            return Ok(setup);
        }
        if e.kind == XmlEventKind::Start || e.kind == XmlEventKind::Empty {
            let next = depth + 1;
            if next > limits.max_xml_depth {
                let mut resource = "XML depth in ".to_owned();
                resource.append(DOCUMENT_PART);
                return Err(
                    DocxError::LimitExceeded { resource, limit: limits.max_xml_depth as u64, actual: next as u64 },
                );
            }
            if classify_namespace(&e.namespace) == NamespaceKind::Word {
                match read_page_element(&mut setup, &mut from_child, e) {
                    Err(x) => return Err(x),
                    Ok(_) => {},
                }
            }
            depth = if e.kind == XmlEventKind::Empty {
                depth
            } else {
                next
            };
        } else if e.kind == XmlEventKind::End {
            depth = if depth > 0 {
                depth - 1
            } else {
                0
            };
        } else if e.kind == XmlEventKind::DocType {
            return Err(DocxError::xml(DOCUMENT_PART, start, "DOCTYPE declarations are not allowed"));
        }
        start = e.position;
        i = i + 1;
    }
    match &stream.read_error {
        Some((position, message)) => Err(DocxError::xml(DOCUMENT_PART, *position, message.as_str())),
        None => Ok(setup),
    }
}

/// The page setup of `word/document.xml`, read from its bytes: the outcome
/// of [`page_setup_from_events`] on the events the XML reader gives.
pub fn read_page_setup(document_xml: &[u8], limits: &DocxLimits) -> (result: DocxResult<TemplatePageSetup>)
    ensures
        exists|stream: XmlStream|
            stream.source_len == document_xml@.len() && match (result, #[trigger] spec_page_setup(stream, *limits)) {
                (Ok(setup), Ok(expected)) => setup@ == expected,
                (Err(x), Err(fault)) => x@ == fault,
                _ => false,
            },
{
    let stream = read_part_events(document_xml, limits.max_xml_part_bytes);
    let result = page_setup_from_events(&stream, limits);
    assert(spec_page_setup(stream, *limits) == spec_page_setup(stream, *limits));
    result
}

} // verus!
