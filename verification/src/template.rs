//! Template anchors: named places in a Word template where exported content
//! goes, either tagged content controls or whole-paragraph markers.
use vstd::prelude::*;
use crate::diagnostic::{Diagnostic, DiagnosticView, any_error, diagnostics_view, has_error};
use crate::package::{DOCUMENT_PART, PackageKind, error_view};
use crate::text::{chars_of, has_prefix, has_suffix, string_from_chars, trim_white_space, trimmed};
use crate::types::ByteSpan;

verus! {

/// How an anchor is written in the template.
#[derive(Clone, Copy, Debug, PartialEq, Eq, Structural)]
pub enum AnchorKind {
    /// A tagged Word content control (`w:sdt`).
    ContentControl,
    /// A whole paragraph whose visible text is `{{ZT_NAME}}`.
    ParagraphMarker,
}

/// One anchor found in a template.
#[derive(Clone, Debug, PartialEq, Eq)]
pub struct TemplateAnchor {
    pub name: String,
    pub kind: AnchorKind,
    pub part_name: String,
    /// Bytes to replace while keeping the content-control wrapper when present.
    pub replacement_span: ByteSpan,
    /// Complete `w:sdt` or `w:p` source range.
    pub container_span: ByteSpan,
    pub paragraph_index: Option<usize>,
}

/// The anchors of a template and the findings about them.
#[derive(Clone, Debug, PartialEq, Eq)]
pub struct TemplateAnchorReport {
    pub anchors: Vec<TemplateAnchor>,
    pub diagnostics: Vec<Diagnostic>,
}

impl TemplateAnchorReport {
    /// Whether no finding is an error.
    pub fn is_valid(&self) -> (valid: bool)
        ensures
            valid == !has_error(diagnostics_view(self.diagnostics@)),
    {
        !any_error(self.diagnostics.as_slice())
    }
}

/// A character allowed in an anchor name.
pub open spec fn is_anchor_char(c: char) -> bool {
    ('a' <= c && c <= 'z') || ('A' <= c && c <= 'Z') || ('0' <= c && c <= '9') || c == '_' || c
        == '-' || c == '.'
}

/// `text` without one enclosing `{{` ... `}}`, when it has them.
pub open spec fn without_braces(text: Seq<char>) -> Seq<char> {
    if text.len() >= 4 && has_prefix(text, "{{"@) && has_suffix(text, "}}"@) {
        text.subrange(2, text.len() - 2)
    } else {
        text
    }
}

/// The anchor name that `value` spells, braces and surrounding white space
/// removed: `ZT_` followed by at least one more ASCII letter, digit, `_`, `-`
/// or `.`.
pub open spec fn spec_anchor_name(value: Seq<char>) -> Option<Seq<char>> {
    let name = trimmed(without_braces(trimmed(value)));
    if has_prefix(name, "ZT_"@) && name.len() > 3 && forall|i: int| 0 <= i < name.len() ==> is_anchor_char(#[trigger] name[i]) {
        Some(name)
    } else {
        None
    }
}

/// The anchor name of a paragraph whose whole visible text is `{{NAME}}`.
pub open spec fn spec_marker_name(text: Seq<char>) -> Option<Seq<char>> {
    let t = trimmed(text);
    if t.len() >= 4 && has_prefix(t, "{{"@) && has_suffix(t, "}}"@) {
        spec_anchor_name(t.subrange(2, t.len() - 2))
    } else {
        None
    }
}

/// `chars` without one enclosing `{{` ... `}}`, when it has them.
fn strip_braces(chars: &[char]) -> (inner: Option<Vec<char>>)
    ensures
        match inner {
            Some(v) => chars@.len() >= 4 && has_prefix(chars@, "{{"@) && has_suffix(chars@, "}}"@)
                && v@ == chars@.subrange(2, chars@.len() - 2),
            None => !(chars@.len() >= 4 && has_prefix(chars@, "{{"@) && has_suffix(chars@, "}}"@)),
        },
{
    proof {
        reveal_strlit("{{");
        reveal_strlit("}}");
    }
    let n = chars.len();
    if n >= 4 && chars[0] == '{' && chars[1] == '{' && chars[n - 2] == '}' && chars[n - 1] == '}' {
        assert(chars@.subrange(0, 2) =~= "{{"@);
        assert(chars@.subrange(n - 2, n as int) =~= "}}"@);
        let mut v: Vec<char> = Vec::new();
        let mut i: usize = 2;
        while i < n - 2
            invariant
                n == chars@.len(),
                n >= 4,
                2 <= i <= n - 2,
                v@ == chars@.subrange(2, i as int),
            decreases n - 2 - i,
        {
            v.push(chars[i]);
            assert(chars@.subrange(2, i + 1) =~= chars@.subrange(2, i as int).push(chars@[i as int]));
            i = i + 1;
        }
        Some(v)
    } else {
        proof {
            if n >= 4 && has_prefix(chars@, "{{"@) && has_suffix(chars@, "}}"@) {
                assert(chars@.subrange(0, 2)[0] == '{');
                assert(chars@.subrange(0, 2)[1] == '{');
                assert(chars@.subrange(n - 2, n as int)[0] == '}');
                assert(chars@.subrange(n - 2, n as int)[1] == '}');
            }
        }
        None
    }
}

/// The anchor name that `value` spells, if it spells one.
pub fn normalize_anchor_name(value: &str) -> (name: Option<String>)
    ensures
        match name {
            Some(text) => spec_anchor_name(value@) == Some(text@),
            None => spec_anchor_name(value@) is None,
        },
{
    proof {
        reveal_strlit("ZT_");
    }
    let outer = trim_white_space(value);
    let outer_chars = chars_of(outer.as_str());
    let unwrapped = match strip_braces(outer_chars.as_slice()) {
        Some(inner) => string_from_chars(inner.as_slice()),
        None => outer,
    };
    let name = trim_white_space(unwrapped.as_str());
    let chars = chars_of(name.as_str());
    let n = chars.len();
    if n <= 3 || chars[0] != 'Z' || chars[1] != 'T' || chars[2] != '_' {
        proof {
            if n > 3 && has_prefix(chars@, "ZT_"@) {
                assert(chars@.subrange(0, 3)[0] == 'Z');
                assert(chars@.subrange(0, 3)[1] == 'T');
                assert(chars@.subrange(0, 3)[2] == '_');
            }
        }
        return None;
    }
    assert(chars@.subrange(0, 3) =~= "ZT_"@);
    assert(chars@ == trimmed(without_braces(trimmed(value@))));
    let mut i: usize = 0;
    while i < n
        invariant
            chars@ == trimmed(without_braces(trimmed(value@))),
            has_prefix(chars@, "ZT_"@),
            n > 3,
            n == chars@.len(),
            i <= n,
            forall|j: int| 0 <= j < i ==> is_anchor_char(#[trigger] chars@[j]),
        decreases n - i,
    {
        let c = chars[i];
        if !(('a' <= c && c <= 'z') || ('A' <= c && c <= 'Z') || ('0' <= c && c <= '9') || c == '_'
            || c == '-' || c == '.') {
            assert(!is_anchor_char(chars@[i as int]));
            return None;
        }
        i = i + 1;
    }
    Some(name)
}

/// The anchor name of a paragraph whose whole visible text is `{{NAME}}`.
pub fn marker_name(text: &str) -> (name: Option<String>)
    ensures
        match name {
            Some(n) => spec_marker_name(text@) == Some(n@),
            None => spec_marker_name(text@) is None,
        },
{
    let t = trim_white_space(text);
    let chars = chars_of(t.as_str());
    match strip_braces(chars.as_slice()) {
        Some(inner) => {
            let inner_text = string_from_chars(inner.as_slice());
            normalize_anchor_name(inner_text.as_str())
        },
        None => None,
    }
}

/// A `w:sdt` content control being read: where it starts, its tag, how deep
/// inside its properties the reader is, and where its content starts and ends.
#[derive(Debug)]
pub struct SdtBuilder {
    pub start: usize,
    pub tag: Option<String>,
    pub properties_depth: usize,
    pub content_start: Option<usize>,
    pub content_end: Option<usize>,
}

/// The finding for a tagged content control without usable content.
pub open spec fn malformed_control(name: Seq<char>) -> DiagnosticView {
    error_view(
        "DOCX_TEMPLATE_ANCHOR_MALFORMED"@,
        Some(DOCUMENT_PART@),
        "content control tagged '"@ + name + "' has no usable w:sdtContent"@,
    )
}

/// Records a finished content control ending at `end`: an anchor when its
/// tag names one and its content is well placed, a finding when the content
/// is not, nothing when the tag names no anchor.
pub fn finish_control(control: SdtBuilder, end: usize, report: &mut TemplateAnchorReport)
    ensures
        match control.tag {
            None => *final(report) == *old(report),
            Some(tag) => match spec_anchor_name(tag@) {
                None => *final(report) == *old(report),
                Some(name) => match (control.content_start, control.content_end) {
                    (Some(s), Some(e)) if s <= e => {
                        &&& final(report).diagnostics@ == old(report).diagnostics@
                        &&& final(report).anchors@.len() == old(report).anchors@.len() + 1
                        &&& final(report).anchors@.subrange(0, old(report).anchors@.len() as int)
                            == old(report).anchors@
                        &&& ({
                            let a = final(report).anchors@.last();
                            &&& a.name@ == name
                            &&& a.kind == AnchorKind::ContentControl
                            &&& a.part_name@ == DOCUMENT_PART@
                            &&& a.replacement_span == ByteSpan { start: s, end: e }
                            &&& a.container_span == ByteSpan { start: control.start, end }
                            &&& a.paragraph_index.is_none()
                        })
                    },
                    _ => {
                        &&& final(report).anchors@ == old(report).anchors@
                        &&& diagnostics_view(final(report).diagnostics@) == diagnostics_view(
                            old(report).diagnostics@,
                        ).push(malformed_control(name))
                    },
                },
            },
        },
{
    let raw_tag = match control.tag {
        Some(tag) => tag,
        None => return,
    };
    let name = match normalize_anchor_name(raw_tag.as_str()) {
        Some(name) => name,
        None => return,
    };
    match (control.content_start, control.content_end) {
        (Some(content_start), Some(content_end)) if content_start <= content_end => {
            let ghost before = report.anchors@;
            report.anchors.push(
                TemplateAnchor {
                    name,
                    kind: AnchorKind::ContentControl,
                    part_name: DOCUMENT_PART.to_owned(),
                    replacement_span: ByteSpan::new(content_start, content_end),
                    container_span: ByteSpan::new(control.start, end),
                    paragraph_index: None,
                },
            );
            assert(report.anchors@.subrange(0, before.len() as int) =~= before);
        },
        _ => {
            let mut message = "content control tagged '".to_owned();
            message.append(name.as_str());
            message.append("' has no usable w:sdtContent");
            let d = Diagnostic::error("DOCX_TEMPLATE_ANCHOR_MALFORMED", Some(DOCUMENT_PART.to_owned()), message);
            let ghost before = report.diagnostics@;
            report.diagnostics.push(d);
            assert(diagnostics_view(report.diagnostics@) =~= diagnostics_view(before).push(d@));
        },
    }
}

/// A template package checked once: its container, its document and anchors.
#[derive(Clone, Debug, PartialEq, Eq)]
pub struct TemplatePackageAnalysis {
    pub package_kind: PackageKind,
    pub archive_bytes: u64,
    pub part_count: usize,
    pub total_uncompressed_bytes: u64,
    pub document_xml: Option<Vec<u8>>,
    pub anchors: Vec<TemplateAnchor>,
    pub diagnostics: Vec<Diagnostic>,
}

impl TemplatePackageAnalysis {
    /// Whether the document was read and no finding is an error.
    pub fn is_acceptable(&self) -> (acceptable: bool)
        ensures
            acceptable == (self.document_xml.is_some() && !has_error(
                diagnostics_view(self.diagnostics@),
            )),
    {
        self.document_xml.is_some() && !any_error(self.diagnostics.as_slice())
    }

    /// The anchors called `name`, in order, each once.
    pub fn anchors_named<'a>(&'a self, name: &str) -> (found: Vec<&'a TemplateAnchor>)
        ensures
            found@.map_values(|r: &TemplateAnchor| *r) == self.anchors@.filter(|a: TemplateAnchor| a.name@ == name@),
            found@.len() <= self.anchors@.len(),
            forall|k: int| 0 <= k < found@.len() ==> (#[trigger] found@[k]).name@ == name@,
            forall|k: int| 0 <= k < found@.len() ==> self.anchors@.contains(*#[trigger] found@[k]),
            forall|i: int| 0 <= i < self.anchors@.len() && (#[trigger] self.anchors@[i]).name@
                == name@ ==> found@.contains(&self.anchors@[i]),
    {
        let target = name.to_owned();
        let mut found: Vec<&'a TemplateAnchor> = Vec::new();
        let mut i: usize = 0;
        proof {
            reveal(Seq::filter);
            assert(self.anchors@.subrange(0, 0).filter(|a: TemplateAnchor| a.name@ == name@) =~= Seq::<TemplateAnchor>::empty());
            assert(found@.map_values(|r: &TemplateAnchor| *r) =~= Seq::<TemplateAnchor>::empty());
        }
        while i < self.anchors.len()
            invariant
                i <= self.anchors@.len(),
                target@ == name@,
                found@.len() <= i,
                found@.map_values(|r: &TemplateAnchor| *r) == self.anchors@.subrange(0, i as int).filter(
                    |a: TemplateAnchor| a.name@ == name@,
                ),
                forall|k: int| 0 <= k < found@.len() ==> (#[trigger] found@[k]).name@ == name@,
                forall|k: int| 0 <= k < found@.len() ==> self.anchors@.contains(*#[trigger] found@[k]),
                forall|j: int| 0 <= j < i && (#[trigger] self.anchors@[j]).name@ == name@
                    ==> found@.contains(&self.anchors@[j]),
            decreases self.anchors@.len() - i,
        {
            let anchor = &self.anchors[i];
            assert(self.anchors@.subrange(0, i + 1).drop_last() =~= self.anchors@.subrange(0, i as int));
            assert(self.anchors@.subrange(0, i + 1).last() == self.anchors@[i as int]);
            let ghost before_view = found@.map_values(|r: &TemplateAnchor| *r);
            if anchor.name == target {
                let ghost before = found@;
                found.push(anchor);
                assert(found@[found@.len() - 1] == anchor);
                assert forall|j: int| 0 <= j < i + 1 && (#[trigger] self.anchors@[j]).name@ == name@
                    implies found@.contains(&self.anchors@[j]) by {
                    if j < i {
                        let k = choose|k: int| 0 <= k < before.len() && before[k] == &self.anchors@[j];
                        assert(found@[k] == before[k]);
                    } else {
                        assert(found@[found@.len() - 1] == &self.anchors@[j]);
                    }
                }
                assert(found@.map_values(|r: &TemplateAnchor| *r) =~= before_view.push(self.anchors@[i as int]));
                assert(self.anchors@.subrange(0, i + 1).filter(|a: TemplateAnchor| a.name@ == name@) == self.anchors@.subrange(
                    0,
                    i as int,
                ).filter(|a: TemplateAnchor| a.name@ == name@).push(self.anchors@[i as int])) by {
                    reveal(Seq::filter);
                }
            } else {
                assert(found@.map_values(|r: &TemplateAnchor| *r) =~= before_view);
                assert(self.anchors@.subrange(0, i + 1).filter(|a: TemplateAnchor| a.name@ == name@) == self.anchors@.subrange(
                    0,
                    i as int,
                ).filter(|a: TemplateAnchor| a.name@ == name@)) by {
                    reveal(Seq::filter);
                }
            }
            i = i + 1;
        }
        assert(self.anchors@.subrange(0, self.anchors@.len() as int) =~= self.anchors@);
        found
    }
}

} // verus!
