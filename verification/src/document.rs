//! The logical text of `word/document.xml`: its paragraphs, the exact bytes
//! of each outermost OMML expression, and its tables.
use vstd::prelude::*;
use crate::diagnostic::{Diagnostic, DiagnosticSeverity, DiagnosticView, diagnostics_view};
use crate::error::{DocxError, DocxFault, DocxResult};
use crate::limits::DocxLimits;
use crate::package::DOCUMENT_PART;
use crate::text::same_text;
use crate::types::ByteSpan;
use crate::xml::{
    NamespaceKind, XmlEvent, XmlEventKind, XmlStream, classify_namespace, decode_reference,
    spec_classify, spec_decode_reference,
};
use crate::xml_reader::read_part_events;
use vstd::string::StrSliceExecFns;

verus! {

/// Stable logical-text marker inserted where an OMML expression occurs.
pub const FORMULA_PLACEHOLDER: char = '\u{fffc}';

/// Whether an OMML expression stands inline (`m:oMath`) or as a display
/// paragraph (`m:oMathPara`).
#[derive(Clone, Copy, Debug, PartialEq, Eq, Structural)]
pub enum MathKind {
    Inline,
    Display,
}

/// Exact OMML bytes plus their location in the source XML and logical text.
#[derive(Clone, Debug, PartialEq, Eq)]
pub struct MathFragment {
    pub kind: MathKind,
    pub source_span: ByteSpan,
    pub raw_xml: Vec<u8>,
    pub paragraph_index: Option<usize>,
    pub text_char_offset: Option<usize>,
}

/// One paragraph of the body, with its visible text.
#[derive(Clone, Debug, PartialEq, Eq)]
pub struct Paragraph {
    pub index: usize,
    pub logical_text: String,
    pub source_span: ByteSpan,
    /// Indices into [`ParsedDocument::math_fragments`].
    pub math_fragment_indices: Vec<usize>,
}

/// One cell of a top-level table: the paragraphs it holds.
#[derive(Clone, Debug, PartialEq, Eq)]
pub struct DocumentTableCell {
    pub paragraph_indices: Vec<usize>,
}

/// One top-level table, row by row.
#[derive(Clone, Debug, PartialEq, Eq)]
pub struct DocumentTable {
    pub index: usize,
    pub rows: Vec<Vec<DocumentTableCell>>,
}

/// What [`parse_document_xml`] reads from the main document part.
#[derive(Clone, Debug, PartialEq, Eq)]
pub struct ParsedDocument {
    pub paragraphs: Vec<Paragraph>,
    pub math_fragments: Vec<MathFragment>,
    pub tables: Vec<DocumentTable>,
    pub diagnostics: Vec<Diagnostic>,
}

/// A paragraph as plain values.
pub struct ParagraphView {
    pub index: usize,
    pub text: Seq<char>,
    pub span: ByteSpan,
    pub fragments: Seq<usize>,
}

/// An OMML fragment as plain values.
pub struct FragmentView {
    pub kind: MathKind,
    pub span: ByteSpan,
    pub raw: Seq<u8>,
    pub paragraph_index: Option<usize>,
    pub text_char_offset: Option<usize>,
}

/// A table as plain values: rows of cells of paragraph indices.
pub struct TableView {
    pub index: usize,
    pub rows: Seq<Seq<Seq<usize>>>,
}

/// A parsed document as plain values.
pub struct DocumentView {
    pub paragraphs: Seq<ParagraphView>,
    pub fragments: Seq<FragmentView>,
    pub tables: Seq<TableView>,
    pub diagnostics: Seq<DiagnosticView>,
}

pub open spec fn paragraph_view(p: Paragraph) -> ParagraphView {
    ParagraphView {
        index: p.index,
        text: p.logical_text@,
        span: p.source_span,
        fragments: p.math_fragment_indices@,
    }
}

pub open spec fn fragment_view(f: MathFragment) -> FragmentView {
    FragmentView {
        kind: f.kind,
        span: f.source_span,
        raw: f.raw_xml@,
        paragraph_index: f.paragraph_index,
        text_char_offset: f.text_char_offset,
    }
}

/// The cells of a row as plain values.
pub open spec fn cells_view(row: Seq<DocumentTableCell>) -> Seq<Seq<usize>> {
    row.map_values(|c: DocumentTableCell| c.paragraph_indices@)
}

/// Rows as plain values.
pub open spec fn rows_view(rows: Seq<Vec<DocumentTableCell>>) -> Seq<Seq<Seq<usize>>> {
    rows.map_values(|r: Vec<DocumentTableCell>| cells_view(r@))
}

pub open spec fn table_view(t: DocumentTable) -> TableView {
    TableView { index: t.index, rows: rows_view(t.rows@) }
}

impl ParsedDocument {
    pub open spec fn view_document(&self) -> DocumentView {
        DocumentView {
            paragraphs: self.paragraphs@.map_values(|p: Paragraph| paragraph_view(p)),
            fragments: self.math_fragments@.map_values(|f: MathFragment| fragment_view(f)),
            tables: self.tables@.map_values(|t: DocumentTable| table_view(t)),
            diagnostics: diagnostics_view(self.diagnostics@),
        }
    }
}

/// An OMML expression being captured: its kind, where it starts, how deep
/// inside it the reader is, and where it stands in the logical text.
pub struct CaptureView {
    pub kind: MathKind,
    pub start: usize,
    pub depth: int,
    pub paragraph_index: Option<usize>,
    pub text_char_offset: Option<usize>,
}

/// The open paragraph: where it starts, its text so far and its fragments.
pub struct OpenParagraph {
    pub start: usize,
    pub text: Seq<char>,
    pub fragments: Seq<usize>,
}

/// What the reading knows after some events.
pub struct DocState {
    pub doc: DocumentView,
    pub paragraph: Option<OpenParagraph>,
    pub paragraph_depth: int,
    pub capture: Option<CaptureView>,
    pub xml_depth: int,
    pub excluded_depth: int,
    pub instruction_depth: int,
    pub text_depth: int,
    pub text_box_depth: int,
    pub table_depth: int,
    pub table: Option<Seq<Seq<Seq<usize>>>>,
    pub row: Option<Seq<Seq<usize>>>,
    pub cell: Option<Seq<usize>>,
    pub saw_root: bool,
}

/// The state before the first event.
pub open spec fn initial_doc_state() -> DocState {
    DocState {
        doc: DocumentView {
            paragraphs: Seq::empty(),
            fragments: Seq::empty(),
            tables: Seq::empty(),
            diagnostics: Seq::empty(),
        },
        paragraph: None,
        paragraph_depth: 0,
        capture: None,
        xml_depth: 0,
        excluded_depth: 0,
        instruction_depth: 0,
        text_depth: 0,
        text_box_depth: 0,
        table_depth: 0,
        table: None,
        row: None,
        cell: None,
        saw_root: false,
    }
}

/// An XML error in the main document part.
pub open spec fn doc_fault(position: int, message: Seq<char>) -> DocxFault {
    DocxFault::Xml { part_name: DOCUMENT_PART@, position: position as u64, message }
}

pub open spec fn sat_dec(value: int) -> int {
    if value > 0 {
        value - 1
    } else {
        0
    }
}

/// The kind of an OMML element, if it is one.
pub open spec fn math_kind(namespace: NamespaceKind, local: Seq<char>) -> Option<MathKind> {
    if namespace != NamespaceKind::Math {
        None
    } else if local == "oMath"@ {
        Some(MathKind::Inline)
    } else if local == "oMathPara"@ {
        Some(MathKind::Display)
    } else {
        None
    }
}

/// The open paragraph with the formula placeholder appended.
pub open spec fn with_placeholder(p: Option<OpenParagraph>) -> Option<OpenParagraph> {
    match p {
        Some(open) => Some(OpenParagraph { text: open.text.push(FORMULA_PLACEHOLDER), ..open }),
        None => None,
    }
}

/// Where an OMML expression opened now stands: the index the open paragraph
/// will get and the offset of its placeholder.
pub open spec fn math_position(s: DocState) -> (Option<usize>, Option<usize>) {
    match s.paragraph {
        Some(open) => (Some(s.doc.paragraphs.len() as usize), Some(open.text.len() as usize)),
        None => (None, None),
    }
}

/// The warning for an OMML expression outside any paragraph.
pub open spec fn math_outside_warning() -> DiagnosticView {
    DiagnosticView {
        severity: DiagnosticSeverity::Warning,
        code: "DOCX_MATH_OUTSIDE_PARAGRAPH"@,
        part_name: Some(DOCUMENT_PART@),
        message: "an OMML expression occurs outside a Word paragraph"@,
        suggested_action: None,
    }
}

/// The document with one more fragment, which the open paragraph (if any)
/// lists.
pub open spec fn add_fragment(s: DocState, f: FragmentView) -> DocState {
    let index = s.doc.fragments.len() as usize;
    DocState {
        doc: DocumentView { fragments: s.doc.fragments.push(f), ..s.doc },
        paragraph: match s.paragraph {
            Some(open) => Some(OpenParagraph { fragments: open.fragments.push(index), ..open }),
            None => None,
        },
        ..s
    }
}

/// The document with one more paragraph, which the open table cell (if any)
/// lists.
pub open spec fn add_paragraph(s: DocState, text: Seq<char>, span: ByteSpan, fragments: Seq<usize>) -> DocState {
    let index = s.doc.paragraphs.len() as usize;
    DocState {
        doc: DocumentView {
            paragraphs: s.doc.paragraphs.push(
                ParagraphView { index, text, span, fragments },
            ),
            ..s.doc
        },
        cell: if s.table_depth > 0 {
            match s.cell {
                Some(c) => Some(c.push(index)),
                None => None,
            }
        } else {
            s.cell
        },
        ..s
    }
}

/// The reading after a start tag from byte `start` to byte `end`.
pub open spec fn doc_start(s: DocState, e: XmlEvent, start: usize, limits: DocxLimits) -> Result<DocState, DocxFault> {
    let depth = s.xml_depth + 1;
    let ns = spec_classify(e.namespace);
    let local = e.local@;
    if depth > limits.max_xml_depth {
        Err(
            DocxFault::LimitExceeded {
                resource: "XML depth in "@ + DOCUMENT_PART@,
                limit: limits.max_xml_depth as u64,
                actual: depth as u64,
            },
        )
    } else {
        let s = DocState { xml_depth: depth, ..s };
        if ns == NamespaceKind::Word && local == "txbxContent"@ {
            Ok(DocState { text_box_depth: s.text_box_depth + 1, ..s })
        } else if s.text_box_depth > 0 {
            Ok(s)
        } else if s.capture is Some {
            Ok(DocState { capture: Some(CaptureView { depth: s.capture->0.depth + 1, ..s.capture->0 }), ..s })
        } else if math_kind(ns, local) is Some {
            let (paragraph_index, text_char_offset) = math_position(s);
            let s2 = DocState {
                paragraph: with_placeholder(s.paragraph),
                capture: Some(
                    CaptureView {
                        kind: math_kind(ns, local)->0,
                        start,
                        depth: 1,
                        paragraph_index,
                        text_char_offset,
                    },
                ),
                ..s
            };
            if paragraph_index is None {
                Ok(DocState { doc: DocumentView { diagnostics: s2.doc.diagnostics.push(math_outside_warning()), ..s2.doc }, ..s2 })
            } else {
                Ok(s2)
            }
        } else if ns == NamespaceKind::Word {
            if local == "document"@ {
                Ok(DocState { saw_root: true, ..s })
            } else if local == "tbl"@ {
                Ok(
                    DocState {
                        table_depth: s.table_depth + 1,
                        table: if s.table_depth + 1 == 1 { Some(Seq::empty()) } else { s.table },
                        ..s
                    },
                )
            } else if local == "tr"@ && s.table_depth == 1 {
                Ok(DocState { row: Some(Seq::empty()), ..s })
            } else if local == "tc"@ && s.table_depth == 1 {
                Ok(DocState { cell: Some(Seq::empty()), ..s })
            } else if local == "p"@ {
                if s.paragraph_depth != 0 || s.paragraph is Some {
                    Err(doc_fault(start as int, "nested w:p elements outside text boxes are not supported"@))
                } else {
                    Ok(
                        DocState {
                            paragraph: Some(OpenParagraph { start, text: Seq::empty(), fragments: Seq::empty() }),
                            paragraph_depth: 1,
                            ..s
                        },
                    )
                }
            } else if local == "del"@ || local == "moveFrom"@ {
                Ok(DocState { excluded_depth: s.excluded_depth + 1, ..s })
            } else if local == "instrText"@ {
                Ok(DocState { instruction_depth: s.instruction_depth + 1, ..s })
            } else if local == "t"@ {
                Ok(DocState { text_depth: s.text_depth + 1, ..s })
            } else if local == "altChunk"@ {
                Err(doc_fault(start as int, "w:altChunk is not allowed"@))
            } else {
                Ok(s)
            }
        } else {
            Ok(s)
        }
    }
}

/// The character an empty Word element adds to the text, if any.
pub open spec fn element_char(local: Seq<char>) -> Option<char> {
    if local == "tab"@ {
        Some('\t')
    } else if local == "br"@ || local == "cr"@ {
        Some('\n')
    } else if local == "noBreakHyphen"@ {
        Some('\u{2011}')
    } else if local == "softHyphen"@ {
        Some('\u{00ad}')
    } else {
        None
    }
}

/// The reading after an empty element spanning `xml[start..end]`.
pub open spec fn doc_empty(s: DocState, e: XmlEvent, xml: Seq<u8>, start: usize, end: usize) -> Result<DocState, DocxFault> {
    let ns = spec_classify(e.namespace);
    let local = e.local@;
    if s.text_box_depth > 0 || s.capture is Some {
        Ok(s)
    } else if math_kind(ns, local) is Some {
        let (paragraph_index, text_char_offset) = math_position(s);
        let s2 = DocState { paragraph: with_placeholder(s.paragraph), ..s };
        Ok(
            add_fragment(
                s2,
                FragmentView {
                    kind: math_kind(ns, local)->0,
                    span: ByteSpan { start, end },
                    raw: xml.subrange(start as int, end as int),
                    paragraph_index,
                    text_char_offset,
                },
            ),
        )
    } else if ns == NamespaceKind::Word {
        if local == "altChunk"@ {
            Err(doc_fault(start as int, "w:altChunk is not allowed"@))
        } else if local == "p"@ {
            if s.paragraph_depth != 0 || s.paragraph is Some {
                Err(doc_fault(start as int, "nested w:p elements outside text boxes are not supported"@))
            } else {
                Ok(add_paragraph(s, Seq::empty(), ByteSpan { start, end }, Seq::empty()))
            }
        } else if s.excluded_depth == 0 && s.instruction_depth == 0 && s.paragraph is Some
            && element_char(local) is Some {
            Ok(
                DocState {
                    paragraph: Some(
                        OpenParagraph {
                            text: s.paragraph->0.text.push(element_char(local)->0),
                            ..s.paragraph->0
                        },
                    ),
                    ..s
                },
            )
        } else {
            Ok(s)
        }
    } else {
        Ok(s)
    }
}

/// The reading after the end tag of a table structure or paragraph.
pub open spec fn doc_word_end(s: DocState, local: Seq<char>, start: usize, end: usize) -> Result<DocState, DocxFault> {
    if local == "t"@ {
        Ok(DocState { text_depth: sat_dec(s.text_depth), ..s })
    } else if local == "instrText"@ {
        Ok(DocState { instruction_depth: sat_dec(s.instruction_depth), ..s })
    } else if local == "del"@ || local == "moveFrom"@ {
        Ok(DocState { excluded_depth: sat_dec(s.excluded_depth), ..s })
    } else if local == "p"@ {
        if s.paragraph_depth == 0 || s.paragraph is None {
            Err(doc_fault(start as int, "w:p closing tag has no matching opening tag"@))
        } else {
            let open = s.paragraph->0;
            let s2 = DocState { paragraph: None, paragraph_depth: s.paragraph_depth - 1, ..s };
            Ok(add_paragraph(s2, open.text, ByteSpan { start: open.start, end }, open.fragments))
        }
    } else if local == "tc"@ && s.table_depth == 1 {
        match s.cell {
            None => Err(doc_fault(start as int, "w:tc closing tag has no matching opening tag"@)),
            Some(c) => match s.row {
                None => Err(doc_fault(start as int, "w:tc occurs outside a table row"@)),
                Some(r) => Ok(DocState { cell: None, row: Some(r.push(c)), ..s }),
            },
        }
    } else if local == "tr"@ && s.table_depth == 1 {
        match s.row {
            None => Err(doc_fault(start as int, "w:tr closing tag has no matching opening tag"@)),
            Some(r) => match s.table {
                None => Err(doc_fault(start as int, "w:tr occurs outside a table"@)),
                Some(t) => Ok(DocState { row: None, table: Some(t.push(r)), ..s }),
            },
        }
    } else if local == "tbl"@ {
        if s.table_depth == 0 {
            Err(doc_fault(start as int, "w:tbl closing tag has no matching opening tag"@))
        } else if s.table_depth == 1 {
            match s.table {
                None => Err(doc_fault(start as int, "w:tbl closing tag has no matching opening tag"@)),
                Some(t) => Ok(
                    DocState {
                        doc: DocumentView {
                            tables: s.doc.tables.push(
                                TableView { index: s.doc.tables.len() as usize, rows: t },
                            ),
                            ..s.doc
                        },
                        table: None,
                        table_depth: 0,
                        ..s
                    },
                ),
            }
        } else {
            Ok(DocState { table_depth: s.table_depth - 1, ..s })
        }
    } else {
        Ok(s)
    }
}

/// The reading after an end tag spanning `xml[start..end]`.
pub open spec fn doc_end(s: DocState, e: XmlEvent, xml: Seq<u8>, start: usize, end: usize) -> Result<DocState, DocxFault> {
    let ns = spec_classify(e.namespace);
    let local = e.local@;
    if s.text_box_depth > 0 {
        Ok(
            DocState {
                text_box_depth: if ns == NamespaceKind::Word && local == "txbxContent"@ {
                    s.text_box_depth - 1
                } else {
                    s.text_box_depth
                },
                xml_depth: sat_dec(s.xml_depth),
                ..s
            },
        )
    } else if s.capture is Some {
        let c = s.capture->0;
        let depth = sat_dec(c.depth);
        if depth == 0 {
            let s2 = DocState { capture: None, xml_depth: sat_dec(s.xml_depth), ..s };
            Ok(
                add_fragment(
                    s2,
                    FragmentView {
                        kind: c.kind,
                        span: ByteSpan { start: c.start, end },
                        raw: xml.subrange(c.start as int, end as int),
                        paragraph_index: c.paragraph_index,
                        text_char_offset: c.text_char_offset,
                    },
                ),
            )
        } else {
            Ok(
                DocState {
                    capture: Some(CaptureView { depth, ..c }),
                    xml_depth: sat_dec(s.xml_depth),
                    ..s
                },
            )
        }
    } else if ns == NamespaceKind::Word {
        match doc_word_end(s, local, start, end) {
            Err(f) => Err(f),
            Ok(s2) => Ok(DocState { xml_depth: sat_dec(s2.xml_depth), ..s2 }),
        }
    } else {
        Ok(DocState { xml_depth: sat_dec(s.xml_depth), ..s })
    }
}

/// Whether text at this point is visible paragraph text.
pub open spec fn takes_text(s: DocState) -> bool {
    s.capture is None && s.text_box_depth == 0 && s.text_depth > 0 && s.excluded_depth == 0
        && s.instruction_depth == 0 && s.paragraph is Some
}

/// The open paragraph with `more` appended to its text.
pub open spec fn append_text(s: DocState, more: Seq<char>) -> DocState {
    DocState {
        paragraph: Some(OpenParagraph { text: s.paragraph->0.text + more, ..s.paragraph->0 }),
        ..s
    }
}

/// The reading after one event other than the end of the part.
#[verifier::opaque]
pub open spec fn doc_step(s: DocState, e: XmlEvent, xml: Seq<u8>, start: usize, end: usize, limits: DocxLimits) -> Result<
    DocState,
    DocxFault,
> {
    match e.kind {
        XmlEventKind::Start => doc_start(s, e, start, limits),
        XmlEventKind::Empty => doc_empty(s, e, xml, start, end),
        XmlEventKind::End => doc_end(s, e, xml, start, end),
        XmlEventKind::Text | XmlEventKind::CData => if takes_text(s) {
            Ok(append_text(s, e.text@))
        } else {
            Ok(s)
        },
        XmlEventKind::GeneralRef => if takes_text(s) {
            match spec_decode_reference(e, DOCUMENT_PART@, start as u64) {
                Err(f) => Err(f),
                Ok(c) => Ok(append_text(s, seq![c])),
            }
        } else {
            Ok(s)
        },
        XmlEventKind::DocType => Err(doc_fault(start as int, "DOCTYPE declarations are not allowed"@)),
        _ => Ok(s),
    }
}

/// The document once the part ends at `position`: it must have had its
/// root, and nothing may still be open.
pub open spec fn doc_finish(s: DocState, position: u64) -> Result<DocumentView, DocxFault> {
    if !s.saw_root {
        Err(doc_fault(0, "missing WordprocessingML document root"@))
    } else if s.paragraph is Some || s.paragraph_depth != 0 || s.text_box_depth != 0 || s.capture is Some
        || s.table_depth != 0 || s.table is Some || s.row is Some || s.cell is Some {
        Err(doc_fault(position as int, "document ended inside a paragraph or OMML expression"@))
    } else {
        Ok(s.doc)
    }
}

/// Where event `i` starts: where the one before it ended.
pub open spec fn event_start(stream: XmlStream, i: int) -> usize {
    if i <= 0 {
        0
    } else {
        stream.events@[i - 1].position as usize
    }
}

/// The document read from event `i` on, from state `s`.
#[verifier::opaque]
pub open spec fn doc_from(stream: XmlStream, xml: Seq<u8>, i: int, s: DocState, limits: DocxLimits) -> Result<
    DocumentView,
    DocxFault,
>
    decreases stream.events@.len() - i,
{
    if i < 0 || i >= stream.events@.len() {
        match stream.read_error {
            Some((position, message)) => Err(doc_fault(position as int, message@)),
            None => doc_finish(s, stream.source_len),
        }
    } else {
        let e = stream.events@[i];
        if e.kind == XmlEventKind::Eof {
            doc_finish(s, e.position)
        } else {
            match doc_step(s, e, xml, event_start(stream, i), e.position as usize, limits) {
                Err(f) => Err(f),
                Ok(next) => doc_from(stream, xml, i + 1, next, limits),
            }
        }
    }
}

/// The document read from the events of `xml`, after its size check.
pub open spec fn spec_parse_document(stream: XmlStream, xml: Seq<u8>, limits: DocxLimits) -> Result<
    DocumentView,
    DocxFault,
> {
    if xml.len() > limits.max_xml_part_bytes {
        Err(
            DocxFault::LimitExceeded {
                resource: DOCUMENT_PART@,
                limit: limits.max_xml_part_bytes,
                actual: xml.len() as u64,
            },
        )
    } else {
        doc_from(stream, xml, 0, initial_doc_state(), limits)
    }
}

/// One step of [`doc_from`].
pub proof fn lemma_doc_from_unfold(stream: XmlStream, xml: Seq<u8>, i: int, s: DocState, limits: DocxLimits)
    ensures
        doc_from(stream, xml, i, s, limits) == if i < 0 || i >= stream.events@.len() {
            match stream.read_error {
                Some((position, message)) => Err(doc_fault(position as int, message@)),
                None => doc_finish(s, stream.source_len),
            }
        } else if stream.events@[i].kind == XmlEventKind::Eof {
            doc_finish(s, stream.events@[i].position)
        } else {
            match doc_step(
                s,
                stream.events@[i],
                xml,
                event_start(stream, i),
                stream.events@[i].position as usize,
                limits,
            ) {
                Err(f) => Err(f),
                Ok(next) => doc_from(stream, xml, i + 1, next, limits),
            }
        },
{
    reveal_with_fuel(doc_from, 1);
}

/// Event positions stay within the part and never go back.
pub open spec fn positions_fit(stream: XmlStream, len: int) -> bool {
    forall|i: int|
        0 <= i < stream.events@.len() ==> #[trigger] stream.events@[i].position <= len && (i > 0
            ==> stream.events@[i - 1].position <= stream.events@[i].position)
}

/// The paragraph being read.
struct ParagraphBuilder {
    start: usize,
    logical_text: String,
    math_fragment_indices: Vec<usize>,
}

/// The OMML expression being captured.
struct MathCapture {
    kind: MathKind,
    start: usize,
    depth: usize,
    paragraph_index: Option<usize>,
    text_char_offset: Option<usize>,
}

/// What the reading knows after some events.
struct DocumentScan {
    result: ParsedDocument,
    paragraph: Option<ParagraphBuilder>,
    paragraph_depth: usize,
    capture: Option<MathCapture>,
    xml_depth: usize,
    excluded_depth: usize,
    instruction_depth: usize,
    text_depth: usize,
    text_box_depth: usize,
    table_depth: usize,
    table: Option<Vec<Vec<DocumentTableCell>>>,
    row: Option<Vec<DocumentTableCell>>,
    cell: Option<DocumentTableCell>,
    saw_root: bool,
}

spec fn open_view(p: Option<ParagraphBuilder>) -> Option<OpenParagraph> {
    match p {
        Some(b) => Some(
            OpenParagraph { start: b.start, text: b.logical_text@, fragments: b.math_fragment_indices@ },
        ),
        None => None,
    }
}

spec fn capture_view(c: Option<MathCapture>) -> Option<CaptureView> {
    match c {
        Some(m) => Some(
            CaptureView {
                kind: m.kind,
                start: m.start,
                depth: m.depth as int,
                paragraph_index: m.paragraph_index,
                text_char_offset: m.text_char_offset,
            },
        ),
        None => None,
    }
}

impl DocumentScan {
    spec fn view_state(&self) -> DocState {
        DocState {
            doc: self.result.view_document(),
            paragraph: open_view(self.paragraph),
            paragraph_depth: self.paragraph_depth as int,
            capture: capture_view(self.capture),
            xml_depth: self.xml_depth as int,
            excluded_depth: self.excluded_depth as int,
            instruction_depth: self.instruction_depth as int,
            text_depth: self.text_depth as int,
            text_box_depth: self.text_box_depth as int,
            table_depth: self.table_depth as int,
            table: match self.table {
                Some(rows) => Some(rows_view(rows@)),
                None => None,
            },
            row: match self.row {
                Some(cells) => Some(cells_view(cells@)),
                None => None,
            },
            cell: match self.cell {
                Some(c) => Some(c.paragraph_indices@),
                None => None,
            },
            saw_root: self.saw_root,
        }
    }

    /// Every counter is at most `n`, the number of events read.
    spec fn bounded(&self, n: int) -> bool {
        &&& self.paragraph_depth <= n
        &&& self.xml_depth <= n
        &&& self.excluded_depth <= n
        &&& self.instruction_depth <= n
        &&& self.text_depth <= n
        &&& self.text_box_depth <= n
        &&& self.table_depth <= n
        &&& (self.capture matches Some(c) ==> c.depth <= n)
    }
}

/// Adds a finished OMML fragment, listed by the open paragraph if any.
fn push_fragment(scan: &mut DocumentScan, fragment: MathFragment)
    ensures
        final(scan).view_state() == add_fragment(old(scan).view_state(), fragment_view(fragment)),
{
    let index = scan.result.math_fragments.len();
    let ghost before = scan.result.math_fragments@;
    scan.result.math_fragments.push(fragment);
    proof {
        assert(scan.result.math_fragments@.map_values(|f: MathFragment| fragment_view(f))
            =~= before.map_values(|f: MathFragment| fragment_view(f)).push(fragment_view(fragment)));
    }
    match scan.paragraph.take() {
        Some(mut p) => {
            p.math_fragment_indices.push(index);
            scan.paragraph = Some(p);
        },
        None => {},
    }
}

/// Adds a finished paragraph, listed by the open table cell if any.
fn push_paragraph(scan: &mut DocumentScan, text: String, span: ByteSpan, fragments: Vec<usize>)
    ensures
        final(scan).view_state() == add_paragraph(old(scan).view_state(), text@, span, fragments@),
{
    let index = scan.result.paragraphs.len();
    let ghost before = scan.result.paragraphs@;
    let paragraph = Paragraph {
        index,
        logical_text: text,
        source_span: span,
        math_fragment_indices: fragments,
    };
    scan.result.paragraphs.push(paragraph);
    proof {
        assert(scan.result.paragraphs@.map_values(|p: Paragraph| paragraph_view(p)) =~= before.map_values(
            |p: Paragraph| paragraph_view(p),
        ).push(paragraph_view(paragraph)));
    }
    if scan.table_depth > 0 {
        match scan.cell.take() {
            Some(mut c) => {
                c.paragraph_indices.push(index);
                scan.cell = Some(c);
            },
            None => {},
        }
    }
}

/// The kind of an OMML element, if it is one.
fn math_kind_of(namespace: NamespaceKind, local: &str) -> (kind: Option<MathKind>)
    ensures
        kind == math_kind(namespace, local@),
{
    if namespace != NamespaceKind::Math {
        None
    } else if same_text(local, "oMath") {
        Some(MathKind::Inline)
    } else if same_text(local, "oMathPara") {
        Some(MathKind::Display)
    } else {
        None
    }
}

/// Appends the formula placeholder to the open paragraph, if any, and tells
/// where the expression stands.
fn place_formula(scan: &mut DocumentScan) -> (place: (Option<usize>, Option<usize>))
    ensures
        place == math_position(old(scan).view_state()),
        final(scan).view_state() == (DocState {
            paragraph: with_placeholder(old(scan).view_state().paragraph),
            ..old(scan).view_state()
        }),
{
    match scan.paragraph.take() {
        Some(mut p) => {
            let offset = p.logical_text.as_str().unicode_len();
            p.logical_text.push(FORMULA_PLACEHOLDER);
            scan.paragraph = Some(p);
            (Some(scan.result.paragraphs.len()), Some(offset))
        },
        None => (None, None),
    }
}

/// Takes a start tag, which begins at byte `start`, into the reading.
fn read_start(
    scan: &mut DocumentScan,
    e: &XmlEvent,
    start: usize,
    limits: &DocxLimits,
    index: usize,
) -> (result: DocxResult<()>)
    requires
        old(scan).bounded(index as int),
        index < usize::MAX,
    ensures
        match (result, doc_start(old(scan).view_state(), *e, start, *limits)) {
            (Ok(_), Ok(next)) => final(scan).view_state() == next && final(scan).bounded(index + 1),
            (Err(x), Err(fault)) => x@ == fault,
            _ => false,
        },
        result is Ok ==> (final(scan).capture matches Some(c) ==> (c.start == start || (old(
            scan,
        ).capture matches Some(o) && o.start == c.start))),
{
    let depth = scan.xml_depth + 1;
    if depth > limits.max_xml_depth {
        let mut resource = "XML depth in ".to_owned();
        resource.append(DOCUMENT_PART);
        return Err(
            DocxError::LimitExceeded { resource, limit: limits.max_xml_depth as u64, actual: depth as u64 },
        );
    }
    scan.xml_depth = depth;
    let ns = classify_namespace(&e.namespace);
    let local = e.local.as_str();
    if ns == NamespaceKind::Word && same_text(local, "txbxContent") {
        scan.text_box_depth = scan.text_box_depth + 1;
        return Ok(());
    }
    if scan.text_box_depth > 0 {
        return Ok(());
    }
    match scan.capture.take() {
        Some(mut c) => {
            c.depth = c.depth + 1;
            scan.capture = Some(c);
            return Ok(());
        },
        None => {},
    }
    match math_kind_of(ns, local) {
        Some(kind) => {
            let (paragraph_index, text_char_offset) = place_formula(scan);
            scan.capture = Some(MathCapture { kind, start, depth: 1, paragraph_index, text_char_offset });
            if paragraph_index.is_none() {
                let ghost before = scan.result.diagnostics@;
                let warning = Diagnostic::warning(
                    "DOCX_MATH_OUTSIDE_PARAGRAPH",
                    Some(DOCUMENT_PART.to_owned()),
                    "an OMML expression occurs outside a Word paragraph".to_owned(),
                );
                scan.result.diagnostics.push(warning);
                proof {
                    assert(diagnostics_view(scan.result.diagnostics@) =~= diagnostics_view(before).push(
                        math_outside_warning(),
                    ));
                }
            }
            return Ok(());
        },
        None => {},
    }
    if ns == NamespaceKind::Word {
        if same_text(local, "document") {
            scan.saw_root = true;
        } else if same_text(local, "tbl") {
            scan.table_depth = scan.table_depth + 1;
            if scan.table_depth == 1 {
                scan.table = Some(Vec::new());
                assert(rows_view(Seq::<Vec<DocumentTableCell>>::empty()) =~= Seq::empty());
            }
        } else if same_text(local, "tr") && scan.table_depth == 1 {
            scan.row = Some(Vec::new());
            assert(cells_view(Seq::<DocumentTableCell>::empty()) =~= Seq::empty());
        } else if same_text(local, "tc") && scan.table_depth == 1 {
            scan.cell = Some(DocumentTableCell { paragraph_indices: Vec::new() });
        } else if same_text(local, "p") {
            if scan.paragraph_depth != 0 || scan.paragraph.is_some() {
                return Err(
                    DocxError::xml(DOCUMENT_PART, start as u64, "nested w:p elements outside text boxes are not supported"),
                );
            }
            scan.paragraph = Some(
                ParagraphBuilder { start, logical_text: String::new(), math_fragment_indices: Vec::new() },
            );
            scan.paragraph_depth = 1;
        } else if same_text(local, "del") || same_text(local, "moveFrom") {
            scan.excluded_depth = scan.excluded_depth + 1;
        } else if same_text(local, "instrText") {
            scan.instruction_depth = scan.instruction_depth + 1;
        } else if same_text(local, "t") {
            scan.text_depth = scan.text_depth + 1;
        } else if same_text(local, "altChunk") {
            return Err(DocxError::xml(DOCUMENT_PART, start as u64, "w:altChunk is not allowed"));
        }
    }
    Ok(())
}

/// The character an empty Word element adds to the text, if any.
fn element_char_of(local: &str) -> (c: Option<char>)
    ensures
        c == element_char(local@),
{
    if same_text(local, "tab") {
        Some('\t')
    } else if same_text(local, "br") || same_text(local, "cr") {
        Some('\n')
    } else if same_text(local, "noBreakHyphen") {
        Some('\u{2011}')
    } else if same_text(local, "softHyphen") {
        Some('\u{00ad}')
    } else {
        None
    }
}

/// Takes an empty element, spanning `xml[start..end]`, into the reading.
fn read_empty(scan: &mut DocumentScan, e: &XmlEvent, xml: &[u8], start: usize, end: usize) -> (result:
    DocxResult<()>)
    requires
        start <= end <= xml@.len(),
    ensures
        match (result, doc_empty(old(scan).view_state(), *e, xml@, start, end)) {
            (Ok(_), Ok(next)) => final(scan).view_state() == next,
            (Err(x), Err(fault)) => x@ == fault,
            _ => false,
        },
        result is Ok ==> (final(scan).capture matches Some(c) ==> (old(scan).capture matches Some(
            o,
        ) && o.start == c.start)),
{
    if scan.text_box_depth > 0 || scan.capture.is_some() {
        return Ok(());
    }
    let ns = classify_namespace(&e.namespace);
    let local = e.local.as_str();
    match math_kind_of(ns, local) {
        Some(kind) => {
            let (paragraph_index, text_char_offset) = place_formula(scan);
            let raw_xml = vstd::slice::slice_to_vec(vstd::slice::slice_subrange(xml, start, end));
            push_fragment(
                scan,
                MathFragment {
                    kind,
                    source_span: ByteSpan::new(start, end),
                    raw_xml,
                    paragraph_index,
                    text_char_offset,
                },
            );
            return Ok(());
        },
        None => {},
    }
    if ns == NamespaceKind::Word {
        if same_text(local, "altChunk") {
            return Err(DocxError::xml(DOCUMENT_PART, start as u64, "w:altChunk is not allowed"));
        } else if same_text(local, "p") {
            if scan.paragraph_depth != 0 || scan.paragraph.is_some() {
                return Err(
                    DocxError::xml(DOCUMENT_PART, start as u64, "nested w:p elements outside text boxes are not supported"),
                );
            }
            push_paragraph(scan, String::new(), ByteSpan::new(start, end), Vec::new());
        } else if scan.excluded_depth == 0 && scan.instruction_depth == 0 {
            match element_char_of(local) {
                Some(c) => match scan.paragraph.take() {
                    Some(mut p) => {
                        p.logical_text.push(c);
                        scan.paragraph = Some(p);
                    },
                    None => {},
                },
                None => {},
            }
        }
    }
    Ok(())
}

/// Takes the end tag of a Word element into the reading.
fn read_word_end(scan: &mut DocumentScan, local: &str, start: usize, end: usize) -> (result: DocxResult<()>)
    ensures
        match (result, doc_word_end(old(scan).view_state(), local@, start, end)) {
            (Ok(_), Ok(next)) => final(scan).view_state() == next,
            (Err(x), Err(fault)) => x@ == fault,
            _ => false,
        },
{
    if same_text(local, "t") {
        scan.text_depth = scan.text_depth.saturating_sub(1);
    } else if same_text(local, "instrText") {
        scan.instruction_depth = scan.instruction_depth.saturating_sub(1);
    } else if same_text(local, "del") || same_text(local, "moveFrom") {
        scan.excluded_depth = scan.excluded_depth.saturating_sub(1);
    } else if same_text(local, "p") {
        if scan.paragraph_depth == 0 {
            return Err(DocxError::xml(DOCUMENT_PART, start as u64, "w:p closing tag has no matching opening tag"));
        }
        match scan.paragraph.take() {
            None => {
                return Err(
                    DocxError::xml(DOCUMENT_PART, start as u64, "w:p closing tag has no matching opening tag"),
                );
            },
            Some(p) => {
                scan.paragraph_depth = scan.paragraph_depth - 1;
                push_paragraph(scan, p.logical_text, ByteSpan::new(p.start, end), p.math_fragment_indices);
            },
        }
    } else if same_text(local, "tc") && scan.table_depth == 1 {
        match scan.cell.take() {
            None => {
                return Err(
                    DocxError::xml(DOCUMENT_PART, start as u64, "w:tc closing tag has no matching opening tag"),
                );
            },
            Some(c) => match scan.row.take() {
                None => {
                    return Err(DocxError::xml(DOCUMENT_PART, start as u64, "w:tc occurs outside a table row"));
                },
                Some(mut r) => {
                    let ghost before = r@;
                    r.push(c);
                    proof {
                        assert(cells_view(r@) =~= cells_view(before).push(c.paragraph_indices@));
                    }
                    scan.row = Some(r);
                },
            },
        }
    } else if same_text(local, "tr") && scan.table_depth == 1 {
        match scan.row.take() {
            None => {
                return Err(
                    DocxError::xml(DOCUMENT_PART, start as u64, "w:tr closing tag has no matching opening tag"),
                );
            },
            Some(r) => match scan.table.take() {
                None => {
                    return Err(DocxError::xml(DOCUMENT_PART, start as u64, "w:tr occurs outside a table"));
                },
                Some(mut t) => {
                    let ghost before = t@;
                    let ghost row = cells_view(r@);
                    t.push(r);
                    proof {
                        assert(rows_view(t@) =~= rows_view(before).push(row));
                    }
                    scan.table = Some(t);
                },
            },
        }
    } else if same_text(local, "tbl") {
        if scan.table_depth == 0 {
            return Err(DocxError::xml(DOCUMENT_PART, start as u64, "w:tbl closing tag has no matching opening tag"));
        }
        if scan.table_depth == 1 {
            match scan.table.take() {
                None => {
                    return Err(
                        DocxError::xml(DOCUMENT_PART, start as u64, "w:tbl closing tag has no matching opening tag"),
                    );
                },
                Some(rows) => {
                    let ghost before = scan.result.tables@;
                    let table = DocumentTable { index: scan.result.tables.len(), rows };
                    scan.result.tables.push(table);
                    proof {
                        assert(scan.result.tables@.map_values(|t: DocumentTable| table_view(t))
                            =~= before.map_values(|t: DocumentTable| table_view(t)).push(
                            table_view(table),
                        ));
                    }
                },
            }
        }
        scan.table_depth = scan.table_depth - 1;
    }
    Ok(())
}

/// Takes an end tag, spanning `xml[start..end]`, into the reading.
fn read_end(scan: &mut DocumentScan, e: &XmlEvent, xml: &[u8], start: usize, end: usize) -> (result:
    DocxResult<()>)
    requires
        end <= xml@.len(),
        start <= end,
        old(scan).capture matches Some(c) ==> c.start <= start,
    ensures
        match (result, doc_end(old(scan).view_state(), *e, xml@, start, end)) {
            (Ok(_), Ok(next)) => final(scan).view_state() == next,
            (Err(x), Err(fault)) => x@ == fault,
            _ => false,
        },
        result is Ok ==> (final(scan).capture matches Some(c) ==> (old(scan).capture matches Some(
            o,
        ) && o.start == c.start)),
{
    let ns = classify_namespace(&e.namespace);
    let local = e.local.as_str();
    if scan.text_box_depth > 0 {
        if ns == NamespaceKind::Word && same_text(local, "txbxContent") {
            scan.text_box_depth = scan.text_box_depth - 1;
        }
        scan.xml_depth = scan.xml_depth.saturating_sub(1);
        return Ok(());
    }
    match scan.capture.take() {
        Some(mut c) => {
            c.depth = c.depth.saturating_sub(1);
            scan.xml_depth = scan.xml_depth.saturating_sub(1);
            if c.depth == 0 {
                let raw_xml = vstd::slice::slice_to_vec(vstd::slice::slice_subrange(xml, c.start, end));
                push_fragment(
                    scan,
                    MathFragment {
                        kind: c.kind,
                        source_span: ByteSpan::new(c.start, end),
                        raw_xml,
                        paragraph_index: c.paragraph_index,
                        text_char_offset: c.text_char_offset,
                    },
                );
            } else {
                scan.capture = Some(c);
            }
            return Ok(());
        },
        None => {},
    }
    if ns == NamespaceKind::Word {
        match read_word_end(scan, local, start, end) {
            Err(x) => return Err(x),
            Ok(_) => {},
        }
    }
    scan.xml_depth = scan.xml_depth.saturating_sub(1);
    Ok(())
}

/// The document of a finished reading, unless something is still open.
fn finish_document(scan: DocumentScan, position: u64) -> (result: DocxResult<ParsedDocument>)
    ensures
        match (result, doc_finish(scan.view_state(), position)) {
            (Ok(d), Ok(v)) => d.view_document() == v,
            (Err(x), Err(fault)) => x@ == fault,
            _ => false,
        },
{
    if !scan.saw_root {
        return Err(DocxError::xml(DOCUMENT_PART, 0, "missing WordprocessingML document root"));
    }
    if scan.paragraph.is_some() || scan.paragraph_depth != 0 || scan.text_box_depth != 0
        || scan.capture.is_some() || scan.table_depth != 0 || scan.table.is_some() || scan.row.is_some()
        || scan.cell.is_some() {
        return Err(
            DocxError::xml(DOCUMENT_PART, position, "document ended inside a paragraph or OMML expression"),
        );
    }
    Ok(scan.result)
}

/// Appends `more` to the open paragraph's text.
fn append_to_paragraph(scan: &mut DocumentScan, more: &str)
    requires
        old(scan).paragraph is Some,
    ensures
        final(scan).view_state() == append_text(old(scan).view_state(), more@),
{
    match scan.paragraph.take() {
        Some(mut p) => {
            p.logical_text.append(more);
            scan.paragraph = Some(p);
        },
        None => {},
    }
}

/// Whether text at this point is visible paragraph text.
fn takes_text_now(scan: &DocumentScan) -> (takes: bool)
    ensures
        takes == takes_text(scan.view_state()),
{
    scan.capture.is_none() && scan.text_box_depth == 0 && scan.text_depth > 0 && scan.excluded_depth
        == 0 && scan.instruction_depth == 0 && scan.paragraph.is_some()
}

/// Takes one event other than the end of the part, spanning
/// `xml[start..end]`, into the reading.
fn read_doc_event(
    scan: &mut DocumentScan,
    e: &XmlEvent,
    xml: &[u8],
    start: usize,
    end: usize,
    limits: &DocxLimits,
    index: usize,
) -> (result: DocxResult<()>)
    requires
        old(scan).bounded(index as int),
        index < usize::MAX,
        start <= end <= xml@.len(),
        old(scan).capture matches Some(c) ==> c.start <= start,
    ensures
        match (result, doc_step(old(scan).view_state(), *e, xml@, start, end, *limits)) {
            (Ok(_), Ok(next)) => final(scan).view_state() == next && final(scan).bounded(index + 1)
                && (final(scan).capture matches Some(c) ==> c.start <= end),
            (Err(x), Err(fault)) => x@ == fault,
            _ => false,
        },
{
    proof {
        reveal(doc_step);
    }
    match e.kind {
        XmlEventKind::Start => read_start(scan, e, start, limits, index),
        XmlEventKind::Empty => read_empty(scan, e, xml, start, end),
        XmlEventKind::End => read_end(scan, e, xml, start, end),
        XmlEventKind::Text | XmlEventKind::CData => {
            if takes_text_now(scan) {
                append_to_paragraph(scan, e.text.as_str());
            }
            Ok(())
        },
        XmlEventKind::GeneralRef => {
            if takes_text_now(scan) {
                match decode_reference(e, DOCUMENT_PART, start as u64) {
                    Err(x) => return Err(x),
                    Ok(c) => {
                        let mut one = String::new();
                        one.push(c);
                        append_to_paragraph(scan, one.as_str());
                    },
                }
            }
            Ok(())
        },
        XmlEventKind::DocType => Err(
            DocxError::xml(DOCUMENT_PART, start as u64, "DOCTYPE declarations are not allowed"),
        ),
        _ => Ok(()),
    }
}

/// Reads the paragraphs, OMML fragments and tables of `word/document.xml`
/// from its events and bytes. Text split over many runs is joined; text in
/// deleted or moved-away runs, in field instructions and in text boxes is
/// left out; each outermost OMML expression becomes a placeholder character
/// in the text and a fragment holding its exact source bytes. A document
/// type declaration, `w:altChunk`, nested paragraphs, unbalanced paragraph
/// or table tags, nesting deeper than the limit and a missing document root
/// are refused.
pub fn parse_document_events(stream: &XmlStream, xml: &[u8], limits: &DocxLimits) -> (result:
    DocxResult<ParsedDocument>)
    requires
        positions_fit(*stream, xml@.len() as int),
    ensures
        match (result, spec_parse_document(*stream, xml@, *limits)) {
            (Ok(d), Ok(v)) => d.view_document() == v,
            (Err(x), Err(fault)) => x@ == fault,
            _ => false,
        },
{
    if xml.len() as u64 > limits.max_xml_part_bytes {
        return Err(
            DocxError::LimitExceeded {
                resource: DOCUMENT_PART.to_owned(),
                limit: limits.max_xml_part_bytes,
                actual: xml.len() as u64,
            },
        );
    }
    let mut scan = DocumentScan {
        result: ParsedDocument {
            paragraphs: Vec::new(),
            math_fragments: Vec::new(),
            tables: Vec::new(),
            diagnostics: Vec::new(),
        },
        paragraph: None,
        paragraph_depth: 0,
        capture: None,
        xml_depth: 0,
        excluded_depth: 0,
        instruction_depth: 0,
        text_depth: 0,
        text_box_depth: 0,
        table_depth: 0,
        table: None,
        row: None,
        cell: None,
        saw_root: false,
    };
    proof {
        assert(scan.result.view_document().paragraphs =~= Seq::<ParagraphView>::empty());
        assert(scan.result.view_document().fragments =~= Seq::<FragmentView>::empty());
        assert(scan.result.view_document().tables =~= Seq::<TableView>::empty());
        assert(scan.result.view_document().diagnostics =~= Seq::<DiagnosticView>::empty());
        assert(scan.view_state() == initial_doc_state());
    }
    let events = stream.events.as_slice();
    let xml_len = xml.len();
    let mut start: usize = 0;
    let mut i: usize = 0;
    while i < events.len()
        invariant
            xml_len == xml@.len(),
            i <= events@.len(),
            events@ == stream.events@,
            positions_fit(*stream, xml@.len() as int),
            xml@.len() <= limits.max_xml_part_bytes,
            start == event_start(*stream, i as int),
            start <= xml@.len(),
            scan.bounded(i as int),
            scan.capture matches Some(c) ==> c.start <= start,
            doc_from(*stream, xml@, 0, initial_doc_state(), *limits) == doc_from(
                *stream,
                xml@,
                i as int,
                scan.view_state(),
                *limits,
            ),
        decreases events@.len() - i,
    {
        let e = &events[i];
        assert(e.position <= xml@.len() && (i > 0 ==> stream.events@[i - 1].position <= e.position));
        let end = e.position as usize;
        assert(start <= end) by {
            if i > 0 {
                let prior = stream.events@[i - 1].position;
                assert(prior <= xml@.len());
                assert(start == prior as usize);
            }
        }
        proof {
            lemma_doc_from_unfold(*stream, xml@, i as int, scan.view_state(), *limits);
        }
        if e.kind == XmlEventKind::Eof {
            return finish_document(scan, e.position);
        }
        match read_doc_event(&mut scan, e, xml, start, end, limits, i) {
            Err(x) => return Err(x),
            Ok(_) => {},
        }
        start = end;
        i = i + 1;
    }
    proof {
        lemma_doc_from_unfold(*stream, xml@, i as int, scan.view_state(), *limits);
    }
    match &stream.read_error {
        Some((position, message)) => Err(DocxError::xml(DOCUMENT_PART, *position, message.as_str())),
        None => finish_document(scan, stream.source_len),
    }
}

/// Whether the reader's event positions stay within a part of `len` bytes
/// and never go back.
pub fn positions_within(stream: &XmlStream, len: usize) -> (fit: bool)
    ensures
        fit == positions_fit(*stream, len as int),
{
    let events = stream.events.as_slice();
    let mut i: usize = 0;
    while i < events.len()
        invariant
            i <= events@.len(),
            events@ == stream.events@,
            forall|j: int|
                0 <= j < i ==> #[trigger] stream.events@[j].position <= len && (j > 0
                    ==> stream.events@[j - 1].position <= stream.events@[j].position),
        decreases events@.len() - i,
    {
        if events[i].position > len as u64 {
            return false;
        }
        if i > 0 && events[i - 1].position > events[i].position {
            return false;
        }
        i = i + 1;
    }
    true
}

/// The message when the reader's positions do not fit the part.
pub open spec fn msg_positions() -> Seq<char> {
    "the XML reader reported positions outside the part"@
}

/// Whether `result` is what reading the events `stream` of `xml` gives:
/// the outcome of [`parse_document_events`] when their positions fit the
/// part, the positions error otherwise.
pub open spec fn document_outcome(
    result: DocxResult<ParsedDocument>,
    stream: XmlStream,
    xml: Seq<u8>,
    limits: DocxLimits,
) -> bool {
    if positions_fit(stream, xml.len() as int) {
        match (result, spec_parse_document(stream, xml, limits)) {
            (Ok(d), Ok(v)) => d.view_document() == v,
            (Err(x), Err(fault)) => x@ == fault,
            _ => false,
        }
    } else {
        result matches Err(x) && x@ == doc_fault(0, msg_positions())
    }
}

/// Reads the paragraphs, OMML fragments and tables of `word/document.xml`
/// from its bytes: the outcome of [`parse_document_events`] on the events
/// the XML reader gives for them, once their positions are checked to lie
/// within the part.
pub fn parse_document_xml(xml: &[u8], limits: &DocxLimits) -> (result: DocxResult<ParsedDocument>)
    ensures
        xml@.len() > limits.max_xml_part_bytes ==> (result matches Err(x) && x@ == (
        DocxFault::LimitExceeded {
            resource: DOCUMENT_PART@,
            limit: limits.max_xml_part_bytes,
            actual: xml@.len() as u64,
        })),
        exists|stream: XmlStream|
            stream.source_len == xml@.len() && #[trigger] document_outcome(result, stream, xml@, *limits),
{
    let stream = read_part_events(xml, limits.max_xml_part_bytes);
    if !positions_within(&stream, xml.len()) {
        let result = Err(DocxError::xml(DOCUMENT_PART, 0, "the XML reader reported positions outside the part"));
        assert(document_outcome(result, stream, xml@, *limits));
        return result;
    }
    let result = parse_document_events(&stream, xml, limits);
    assert(document_outcome(result, stream, xml@, *limits));
    result
}

/// Every paragraph knows its own position, and lists only fragments that
/// exist.
pub open spec fn paragraphs_indexed(doc: DocumentView) -> bool {
    &&& forall|k: int| 0 <= k < doc.paragraphs.len() ==> (#[trigger] doc.paragraphs[k]).index == k
    &&& forall|k: int, j: int|
        0 <= k < doc.paragraphs.len() && 0 <= j < doc.paragraphs[k].fragments.len()
            ==> (#[trigger] doc.paragraphs[k].fragments[j]) < doc.fragments.len()
}

/// What every state of the reading keeps, while fewer than `bound`
/// paragraphs and fragments have been made.
pub open spec fn doc_sound(s: DocState, bound: int) -> bool {
    &&& paragraphs_indexed(s.doc)
    &&& s.doc.paragraphs.len() <= bound
    &&& s.doc.fragments.len() <= bound
    &&& s.paragraph matches Some(open) ==> forall|j: int|
        0 <= j < open.fragments.len() ==> (#[trigger] open.fragments[j]) < s.doc.fragments.len()
}

proof fn lemma_add_paragraph_sound(s: DocState, text: Seq<char>, span: ByteSpan, fragments: Seq<usize>, bound: int)
    requires
        doc_sound(s, bound),
        s.doc.paragraphs.len() < bound,
        bound <= usize::MAX,
        forall|j: int| 0 <= j < fragments.len() ==> (#[trigger] fragments[j]) < s.doc.fragments.len(),
    ensures
        doc_sound(add_paragraph(s, text, span, fragments), bound),
{
    let n = add_paragraph(s, text, span, fragments);
    assert forall|k: int| 0 <= k < n.doc.paragraphs.len() implies (#[trigger] n.doc.paragraphs[k]).index == k by {
        if k < s.doc.paragraphs.len() {
            assert(n.doc.paragraphs[k] == s.doc.paragraphs[k]);
        }
    }
    assert forall|k: int, j: int|
        0 <= k < n.doc.paragraphs.len() && 0 <= j < n.doc.paragraphs[k].fragments.len()
            implies (#[trigger] n.doc.paragraphs[k].fragments[j]) < n.doc.fragments.len() by {
        if k < s.doc.paragraphs.len() {
            assert(n.doc.paragraphs[k] == s.doc.paragraphs[k]);
        }
    }
}

proof fn lemma_add_fragment_sound(s: DocState, f: FragmentView, bound: int)
    requires
        doc_sound(s, bound),
        s.doc.fragments.len() < bound,
        bound <= usize::MAX,
    ensures
        doc_sound(add_fragment(s, f), bound),
{
    let n = add_fragment(s, f);
    assert forall|k: int, j: int|
        0 <= k < n.doc.paragraphs.len() && 0 <= j < n.doc.paragraphs[k].fragments.len()
            implies (#[trigger] n.doc.paragraphs[k].fragments[j]) < n.doc.fragments.len() by {
        assert(n.doc.paragraphs[k] == s.doc.paragraphs[k]);
    }
    if let Some(open) = n.paragraph {
        assert forall|j: int| 0 <= j < open.fragments.len() implies (#[trigger] open.fragments[j]) < n.doc.fragments.len() by {
            if j < s.paragraph->0.fragments.len() {
                assert(open.fragments[j] == s.paragraph->0.fragments[j]);
            }
        }
    }
}

proof fn lemma_doc_step_sound(s: DocState, e: XmlEvent, xml: Seq<u8>, start: usize, end: usize, limits: DocxLimits, k: int)
    requires
        doc_sound(s, k),
        k + 1 <= usize::MAX,
        doc_step(s, e, xml, start, end, limits) is Ok,
    ensures
        doc_sound(doc_step(s, e, xml, start, end, limits)->Ok_0, k + 1),
{
    reveal(doc_step);
    let n = doc_step(s, e, xml, start, end, limits)->Ok_0;
    match e.kind {
        XmlEventKind::Empty => {
            let ns = spec_classify(e.namespace);
            let local = e.local@;
            if s.text_box_depth > 0 || s.capture is Some {
            } else if math_kind(ns, local) is Some {
                let s2 = DocState { paragraph: with_placeholder(s.paragraph), ..s };
                assert(doc_sound(s2, k));
                lemma_add_fragment_sound(s2, n.doc.fragments.last(), k + 1);
            } else if ns == NamespaceKind::Word && local == "p"@ && !(local == "altChunk"@) {
                lemma_add_paragraph_sound(s, Seq::empty(), ByteSpan { start, end }, Seq::empty(), k + 1);
            }
        },
        XmlEventKind::End => {
            let ns = spec_classify(e.namespace);
            let local = e.local@;
            if s.text_box_depth > 0 {
            } else if s.capture is Some {
                let c = s.capture->0;
                if sat_dec(c.depth) == 0 {
                    let s2 = DocState { capture: None, xml_depth: sat_dec(s.xml_depth), ..s };
                    lemma_add_fragment_sound(s2, n.doc.fragments.last(), k + 1);
                }
            } else if ns == NamespaceKind::Word && local == "p"@ {
                let open = s.paragraph->0;
                let s2 = DocState { paragraph: None, paragraph_depth: s.paragraph_depth - 1, ..s };
                reveal_strlit("p");
                reveal_strlit("t");
                reveal_strlit("instrText");
                reveal_strlit("del");
                reveal_strlit("moveFrom");
                assert("p"@[0] != "t"@[0]);
                assert(s.paragraph is Some);
                assert forall|j: int| 0 <= j < open.fragments.len() implies (#[trigger] open.fragments[j]) < s2.doc.fragments.len() by {
                    assert(s.paragraph matches Some(o) && o == open);
                }
                lemma_add_paragraph_sound(s2, open.text, ByteSpan { start: open.start, end }, open.fragments, k + 1);
            }
        },
        _ => {},
    }
}

proof fn lemma_doc_from_sound(stream: XmlStream, xml: Seq<u8>, i: int, s: DocState, limits: DocxLimits)
    requires
        0 <= i <= stream.events@.len(),
        stream.events@.len() < usize::MAX,
        doc_sound(s, i),
    ensures
        doc_from(stream, xml, i, s, limits) matches Ok(doc) ==> paragraphs_indexed(doc),
    decreases stream.events@.len() - i,
{
    lemma_doc_from_unfold(stream, xml, i, s, limits);
    if i < stream.events@.len() {
        let e = stream.events@[i];
        if e.kind != XmlEventKind::Eof {
            let start = event_start(stream, i);
            let end = e.position as usize;
            if doc_step(s, e, xml, start, end, limits) is Ok {
                lemma_doc_step_sound(s, e, xml, start, end, limits, i);
                lemma_doc_from_sound(stream, xml, i + 1, doc_step(s, e, xml, start, end, limits)->Ok_0, limits);
            }
        }
    }
}

/// A document read from `word/document.xml` numbers its paragraphs by their
/// position: paragraph `k` has index `k`, and every fragment index that a
/// paragraph lists names one of the document's OMML fragments.
pub proof fn lemma_paragraphs_indexed(stream: XmlStream, xml: Seq<u8>, limits: DocxLimits)
    requires
        stream.events@.len() < usize::MAX,
    ensures
        spec_parse_document(stream, xml, limits) matches Ok(doc) ==> paragraphs_indexed(doc),
{
    lemma_doc_from_sound(stream, xml, 0, initial_doc_state(), limits);
}

/// Every OMML fragment of `doc` holds exactly the bytes of `xml` at its
/// span, and every table knows its own position.
pub open spec fn fragments_exact(doc: DocumentView, xml: Seq<u8>) -> bool {
    &&& forall|f: int|
        0 <= f < doc.fragments.len() ==> (#[trigger] doc.fragments[f]).raw == xml.subrange(
            doc.fragments[f].span.start as int,
            doc.fragments[f].span.end as int,
        )
    &&& forall|t: int| 0 <= t < doc.tables.len() ==> (#[trigger] doc.tables[t]).index == t
}

proof fn lemma_doc_step_exact(s: DocState, e: XmlEvent, xml: Seq<u8>, start: usize, end: usize, limits: DocxLimits)
    requires
        fragments_exact(s.doc, xml),
        s.doc.tables.len() < usize::MAX,
        doc_step(s, e, xml, start, end, limits) is Ok,
    ensures
        fragments_exact(doc_step(s, e, xml, start, end, limits)->Ok_0.doc, xml),
        doc_step(s, e, xml, start, end, limits)->Ok_0.doc.tables.len() <= s.doc.tables.len() + 1,
{
    reveal(doc_step);
    let n = doc_step(s, e, xml, start, end, limits)->Ok_0;
    assert forall|f: int| 0 <= f < n.doc.fragments.len() implies (#[trigger] n.doc.fragments[f]).raw == xml.subrange(
        n.doc.fragments[f].span.start as int,
        n.doc.fragments[f].span.end as int,
    ) by {
        if f < s.doc.fragments.len() && n.doc.fragments.len() >= s.doc.fragments.len() {
            assert(n.doc.fragments.subrange(0, s.doc.fragments.len() as int) == s.doc.fragments || n.doc.fragments
                == s.doc.fragments);
        }
    }
    assert forall|t: int| 0 <= t < n.doc.tables.len() implies (#[trigger] n.doc.tables[t]).index == t by {
        if t < s.doc.tables.len() {
            assert(n.doc.tables == s.doc.tables || n.doc.tables.subrange(0, s.doc.tables.len() as int) == s.doc.tables);
        }
    }
}

proof fn lemma_doc_from_exact(stream: XmlStream, xml: Seq<u8>, i: int, s: DocState, limits: DocxLimits)
    requires
        0 <= i <= stream.events@.len(),
        stream.events@.len() < usize::MAX,
        s.doc.tables.len() <= i,
        fragments_exact(s.doc, xml),
    ensures
        doc_from(stream, xml, i, s, limits) matches Ok(doc) ==> fragments_exact(doc, xml),
    decreases stream.events@.len() - i,
{
    lemma_doc_from_unfold(stream, xml, i, s, limits);
    if i < stream.events@.len() {
        let e = stream.events@[i];
        if e.kind != XmlEventKind::Eof {
            let start = event_start(stream, i);
            let end = e.position as usize;
            if doc_step(s, e, xml, start, end, limits) is Ok {
                lemma_doc_step_exact(s, e, xml, start, end, limits);
                lemma_doc_from_exact(stream, xml, i + 1, doc_step(s, e, xml, start, end, limits)->Ok_0, limits);
            }
        }
    }
}

/// A document read from `word/document.xml` keeps, for every OMML
/// fragment, exactly the bytes of the part at the fragment's span, and
/// numbers its tables by their position.
pub proof fn lemma_fragments_exact(stream: XmlStream, xml: Seq<u8>, limits: DocxLimits)
    requires
        stream.events@.len() < usize::MAX,
    ensures
        spec_parse_document(stream, xml, limits) matches Ok(doc) ==> fragments_exact(doc, xml),
{
    lemma_doc_from_exact(stream, xml, 0, initial_doc_state(), limits);
}

/// Every paragraph span of `doc` lies within `len` bytes, in order.
pub open spec fn spans_in(doc: DocumentView, len: int) -> bool {
    forall|k: int|
        0 <= k < doc.paragraphs.len() ==> #[trigger] doc.paragraphs[k].span.start <= doc.paragraphs[k].span.end <= len
}

/// Every paragraph span lies within `len` bytes, in order, and the open
/// paragraph started at or before `pos`.
pub open spec fn spans_fit(s: DocState, len: int, pos: int) -> bool {
    &&& forall|k: int|
        0 <= k < s.doc.paragraphs.len() ==> #[trigger] s.doc.paragraphs[k].span.start <= s.doc.paragraphs[k].span.end
            <= len
    &&& s.paragraph matches Some(open) ==> open.start <= pos
}

proof fn lemma_doc_step_spans(
    s: DocState,
    e: XmlEvent,
    xml: Seq<u8>,
    start: usize,
    end: usize,
    limits: DocxLimits,
    len: int,
)
    requires
        spans_fit(s, len, start as int),
        start <= end <= len,
        doc_step(s, e, xml, start, end, limits) is Ok,
    ensures
        spans_fit(doc_step(s, e, xml, start, end, limits)->Ok_0, len, end as int),
{
    reveal(doc_step);
    let n = doc_step(s, e, xml, start, end, limits)->Ok_0;
    assert forall|k: int|
        0 <= k < n.doc.paragraphs.len() implies #[trigger] n.doc.paragraphs[k].span.start
            <= n.doc.paragraphs[k].span.end <= len by {
        if k < s.doc.paragraphs.len() {
            assert(n.doc.paragraphs[k] == s.doc.paragraphs[k]);
        }
    }
}

proof fn lemma_doc_from_spans(stream: XmlStream, xml: Seq<u8>, i: int, s: DocState, limits: DocxLimits)
    requires
        0 <= i <= stream.events@.len(),
        positions_fit(stream, xml.len() as int),
        xml.len() <= usize::MAX,
        spans_fit(s, xml.len() as int, event_start(stream, i) as int),
        event_start(stream, i) <= xml.len(),
    ensures
        doc_from(stream, xml, i, s, limits) is Ok ==> spans_in(doc_from(stream, xml, i, s, limits)->Ok_0, xml.len() as int),
    decreases stream.events@.len() - i,
{
    lemma_doc_from_unfold(stream, xml, i, s, limits);
    if i < stream.events@.len() {
        let e = stream.events@[i];
        if e.kind != XmlEventKind::Eof {
            let start = event_start(stream, i);
            let end = e.position as usize;
            assert(e.position <= xml.len());
            assert(start <= end) by {
                if i > 0 {
                    assert(stream.events@[i - 1].position <= stream.events@[i].position);
                    assert(stream.events@[i - 1].position <= xml.len());
                }
            }
            if doc_step(s, e, xml, start, end, limits) is Ok {
                lemma_doc_step_spans(s, e, xml, start, end, limits, xml.len() as int);
                assert(event_start(stream, i + 1) == end);
                let next = doc_step(s, e, xml, start, end, limits)->Ok_0;
                lemma_doc_from_spans(stream, xml, i + 1, next, limits);
                assert(doc_from(stream, xml, i, s, limits) == doc_from(stream, xml, i + 1, next, limits));
            }
        } else {
            assert(doc_from(stream, xml, i, s, limits) == doc_finish(s, e.position));
            lemma_finish_spans(s, e.position, xml.len() as int, event_start(stream, i) as int);
        }
    } else {
        assert(stream.read_error is None ==> doc_from(stream, xml, i, s, limits) == doc_finish(s, stream.source_len));
        lemma_finish_spans(s, stream.source_len, xml.len() as int, event_start(stream, i) as int);
    }
}

proof fn lemma_finish_spans(s: DocState, position: u64, len: int, pos: int)
    requires
        spans_fit(s, len, pos),
    ensures
        doc_finish(s, position) is Ok ==> spans_in(doc_finish(s, position)->Ok_0, len),
{
    if doc_finish(s, position) is Ok {
        assert(doc_finish(s, position) == Ok::<DocumentView, DocxFault>(s.doc));
    }
}

/// A document read from `word/document.xml`, with reader positions that fit
/// the part, places every paragraph within the part: its span runs forward
/// and ends at or before the part's end.
pub proof fn lemma_paragraph_spans_within(stream: XmlStream, xml: Seq<u8>, limits: DocxLimits)
    requires
        positions_fit(stream, xml.len() as int),
        xml.len() <= usize::MAX,
    ensures
        spec_parse_document(stream, xml, limits) is Ok ==> spans_in(
            spec_parse_document(stream, xml, limits)->Ok_0,
            xml.len() as int,
        ),
{
    lemma_doc_from_spans(stream, xml, 0, initial_doc_state(), limits);
}

} // verus!
