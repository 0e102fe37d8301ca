//! The checks an inspection makes inside the XML parts of a package: the
//! main content type, the targets and types of every relationship part, and
//! `w:altChunk` in the main document.
use vstd::prelude::*;
use crate::diagnostic::{Diagnostic, DiagnosticView, diagnostics_view};
use crate::error::{DocxError, DocxFault, DocxResult};
use crate::limits::DocxLimits;
use crate::package::{
    CONTENT_TYPES_PART, DOCUMENT_PART, PackageKind, ROOT_RELS_PART, error_view,
    is_active_content_type, spec_is_active_content_type,
};
use crate::text::{ascii_lower, ascii_lower_chars, chars_of, ends_with_chars, has_suffix, same_chars, same_text};
use crate::xml::{
    NamespaceKind, XmlEvent, XmlEventKind, XmlStream, attribute_value, classify_namespace,
    opt_text, spec_attribute_value, spec_classify, spec_validate_safe_xml, validate_safe_xml,
};
use crate::xml_reader::read_part_events;

verus! {

/// The content type of a WordprocessingML document's main part.
pub const DOCUMENT_CONTENT_TYPE: &'static str = "application/vnd.openxmlformats-officedocument.wordprocessingml.document.main+xml";

/// The content type of a WordprocessingML template's main part.
pub const TEMPLATE_CONTENT_TYPE: &'static str = "application/vnd.openxmlformats-officedocument.wordprocessingml.template.main+xml";

/// Whether an event opens an element of `namespace` called `local`.
pub open spec fn opens(e: XmlEvent, namespace: NamespaceKind, local: Seq<char>) -> bool {
    (e.kind == XmlEventKind::Start || e.kind == XmlEventKind::Empty) && spec_classify(e.namespace)
        == namespace && e.local@ == local
}

/// Whether `e` opens an element of `namespace` called `local`.
fn opens_element(e: &XmlEvent, namespace: NamespaceKind, local: &str) -> (found: bool)
    ensures
        found == opens(*e, namespace, local@),
{
    (e.kind == XmlEventKind::Start || e.kind == XmlEventKind::Empty) && classify_namespace(&e.namespace)
        == namespace && same_text(e.local.as_str(), local)
}

/// The main document's content type so far, after one `Default` or
/// `Override` element; an active content type is refused.
pub open spec fn content_type_step(main: Option<Seq<char>>, e: XmlEvent, limits: DocxLimits) -> Result<
    Option<Seq<char>>,
    DocxFault,
> {
    match spec_attribute_value(e, "ContentType"@, None, CONTENT_TYPES_PART@) {
        Err(f) => Err(f),
        Ok(content_type) => if content_type matches Some(v) && spec_is_active_content_type(v, limits) {
            Err(
                DocxFault::Xml {
                    part_name: CONTENT_TYPES_PART@,
                    position: e.position,
                    message: "active or macro-enabled content type is not allowed: "@
                        + content_type->0,
                },
            )
        } else if e.local@ == "Override"@ {
            match spec_attribute_value(e, "PartName"@, None, CONTENT_TYPES_PART@) {
                Err(f) => Err(f),
                Ok(part_name) => if part_name == Some("/word/document.xml"@) {
                    Ok(content_type)
                } else {
                    Ok(main)
                },
            }
        } else {
            Ok(main)
        },
    }
}

/// Whether an event is a `Default` or `Override` element of the content types.
pub open spec fn is_content_type_element(e: XmlEvent) -> bool {
    opens(e, NamespaceKind::ContentTypes, "Override"@) || opens(e, NamespaceKind::ContentTypes, "Default"@)
}

/// The main document's content type read from event `i` on.
pub open spec fn content_types_from(stream: XmlStream, i: int, main: Option<Seq<char>>, limits: DocxLimits) -> Result<
    Option<Seq<char>>,
    DocxFault,
>
    decreases stream.events@.len() - i,
{
    if i < 0 || i >= stream.events@.len() {
        match stream.read_error {
            Some((position, message)) => Err(
                DocxFault::Xml { part_name: CONTENT_TYPES_PART@, position, message: message@ },
            ),
            None => Ok(main),
        }
    } else {
        let e = stream.events@[i];
        if e.kind == XmlEventKind::Eof {
            Ok(main)
        } else if is_content_type_element(e) {
            match content_type_step(main, e, limits) {
                Err(f) => Err(f),
                Ok(next) => content_types_from(stream, i + 1, next, limits),
            }
        } else {
            content_types_from(stream, i + 1, main, limits)
        }
    }
}

/// The kind of package `[Content_Types].xml` declares: a document or a
/// template by the content type of `/word/document.xml`.
pub open spec fn spec_content_types(stream: XmlStream, limits: DocxLimits) -> Result<PackageKind, DocxFault> {
    match spec_validate_safe_xml(stream, CONTENT_TYPES_PART@, limits) {
        Err(f) => Err(f),
        Ok(_) => match content_types_from(stream, 0, None, limits) {
            Err(f) => Err(f),
            Ok(None) => Err(
                DocxFault::Xml {
                    part_name: CONTENT_TYPES_PART@,
                    position: 0,
                    message: "missing content type override for /word/document.xml"@,
                },
            ),
            Ok(Some(t)) => if t == DOCUMENT_CONTENT_TYPE@ {
                Ok(PackageKind::Document)
            } else if t == TEMPLATE_CONTENT_TYPE@ {
                Ok(PackageKind::Template)
            } else {
                Err(
                    DocxFault::Xml {
                        part_name: CONTENT_TYPES_PART@,
                        position: 0,
                        message: "unsupported main document content type: "@ + t,
                    },
                )
            },
        },
    }
}

/// Takes one `Default` or `Override` element into the main content type.
fn read_content_type(main: Option<String>, e: &XmlEvent, limits: &DocxLimits) -> (result: DocxResult<
    Option<String>,
>)
    ensures
        match (result, content_type_step(opt_text(main), *e, *limits)) {
            (Ok(m), Ok(expected)) => opt_text(m) == expected,
            (Err(x), Err(fault)) => x@ == fault,
            _ => false,
        },
{
    let content_type = match attribute_value(e, "ContentType", None, CONTENT_TYPES_PART) {
        Err(x) => return Err(x),
        Ok(value) => value,
    };
    match &content_type {
        Some(v) => {
            if is_active_content_type(v.as_str(), limits) {
                let mut message = "active or macro-enabled content type is not allowed: ".to_owned();
                message.append(v.as_str());
                return Err(DocxError::xml(CONTENT_TYPES_PART, e.position, message.as_str()));
            }
        },
        None => {},
    }
    if same_text(e.local.as_str(), "Override") {
        match attribute_value(e, "PartName", None, CONTENT_TYPES_PART) {
            Err(x) => Err(x),
            Ok(part_name) => {
                let names_document = match &part_name {
                    Some(n) => same_text(n.as_str(), "/word/document.xml"),
                    None => false,
                };
                if names_document {
                    Ok(content_type)
                } else {
                    Ok(main)
                }
            },
        }
    } else {
        Ok(main)
    }
}

/// Reads the kind of package that `[Content_Types].xml` declares, given as
/// its reader events: the content type of the `/word/document.xml`
/// override must be that of a document or a template, and no declared
/// content type may be active or macro-enabled.
pub fn content_types_kind(stream: &XmlStream, limits: &DocxLimits) -> (result: DocxResult<PackageKind>)
    ensures
        match (result, spec_content_types(*stream, *limits)) {
            (Ok(kind), Ok(expected)) => kind == expected,
            (Err(x), Err(fault)) => x@ == fault,
            _ => false,
        },
{
    match validate_safe_xml(stream, CONTENT_TYPES_PART, limits) {
        Err(x) => return Err(x),
        Ok(_) => {},
    }
    let events = stream.events.as_slice();
    let mut main: Option<String> = None;
    let mut i: usize = 0;
    let mut ended = false;
    while i < events.len() && !ended
        invariant
            i <= events@.len(),
            events@ == stream.events@,
            spec_validate_safe_xml(*stream, CONTENT_TYPES_PART@, *limits) is Ok,
            ended ==> content_types_from(*stream, 0, None, *limits) == Ok::<Option<Seq<char>>, DocxFault>(opt_text(main)),
            !ended ==> content_types_from(*stream, 0, None, *limits) == content_types_from(
                *stream,
                i as int,
                opt_text(main),
                *limits,
            ),
        decreases events@.len() - i + if ended { 0int } else { 1int },
    {
        let e = &events[i];
        if e.kind == XmlEventKind::Eof {
            ended = true;
        } else {
            if opens_element(e, NamespaceKind::ContentTypes, "Override") || opens_element(
                e,
                NamespaceKind::ContentTypes,
                "Default",
            ) {
                match read_content_type(main, e, limits) {
                    Err(x) => return Err(x),
                    Ok(next) => main = next,
                }
            }
            i = i + 1;
        }
    }
    if !ended {
        match &stream.read_error {
            Some((position, message)) => {
                return Err(DocxError::xml(CONTENT_TYPES_PART, *position, message.as_str()));
            },
            None => {},
        }
    }
    match main {
        None => Err(
            DocxError::xml(CONTENT_TYPES_PART, 0, "missing content type override for /word/document.xml"),
        ),
        Some(t) => {
            if same_text(t.as_str(), DOCUMENT_CONTENT_TYPE) {
                Ok(PackageKind::Document)
            } else if same_text(t.as_str(), TEMPLATE_CONTENT_TYPE) {
                Ok(PackageKind::Template)
            } else {
                let mut message = "unsupported main document content type: ".to_owned();
                message.append(t.as_str());
                Err(DocxError::xml(CONTENT_TYPES_PART, 0, message.as_str()))
            }
        },
    }
}

/// `s` without its leading slashes.
pub open spec fn without_leading_slashes(s: Seq<char>) -> Seq<char>
    decreases s.len(),
{
    if s.len() > 0 && s[0] == '/' {
        without_leading_slashes(s.subrange(1, s.len() as int))
    } else {
        s
    }
}

/// Whether a `TargetMode` value says `External`, in any case.
pub open spec fn is_external(mode: Option<Seq<char>>) -> bool {
    mode matches Some(m) && ascii_lower(m) == ascii_lower("External"@)
}

/// Whether a relationship type (lower-cased) may import active content.
pub open spec fn is_forbidden_type(lower: Seq<char>, limits: DocxLimits) -> bool {
    has_suffix(lower, "/package"@) || has_suffix(lower, "/afchunk"@) || has_suffix(lower, "/attachedtemplate"@)
        || has_suffix(lower, "/vbaproject"@) || has_suffix(lower, "/control"@) || (has_suffix(
        lower,
        "/oleobject"@,
    ) && !limits.allow_mathtype_ole)
}

/// The findings one `Relationship` element of `part_name` adds, and whether
/// the root relationships now point to the main document.
pub open spec fn relationship_check(
    part_name: Seq<char>,
    limits: DocxLimits,
    root_ok: bool,
    e: XmlEvent,
) -> Result<(Seq<DiagnosticView>, bool), DocxFault> {
    match spec_attribute_value(e, "Type"@, None, part_name) {
        Err(f) => Err(f),
        Ok(kind_of) => match spec_attribute_value(e, "Target"@, None, part_name) {
            Err(f) => Err(f),
            Ok(target) => match spec_attribute_value(e, "TargetMode"@, None, part_name) {
                Err(f) => Err(f),
                Ok(mode) => {
                    let kind_of = if kind_of is Some { kind_of->0 } else { Seq::empty() };
                    let target = if target is Some { target->0 } else { Seq::empty() };
                    let lower = ascii_lower(kind_of);
                    let root = if part_name == ROOT_RELS_PART@ && has_suffix(lower, "/officedocument"@) {
                        without_leading_slashes(target) == DOCUMENT_PART@ && !is_external(mode)
                    } else {
                        root_ok
                    };
                    let external = if is_external(mode) {
                        seq![
                            error_view(
                                "DOCX_EXTERNAL_RELATIONSHIP"@,
                                Some(part_name),
                                "external target is not allowed: "@ + target,
                            ),
                        ]
                    } else {
                        Seq::empty()
                    };
                    let active = if is_forbidden_type(lower, limits) {
                        seq![
                            error_view(
                                "DOCX_ACTIVE_RELATIONSHIP"@,
                                Some(part_name),
                                "active relationship type is not allowed: "@ + kind_of,
                            ),
                        ]
                    } else {
                        Seq::empty()
                    };
                    Ok((external + active, root))
                },
            },
        },
    }
}

/// The findings once a relationship part ends.
pub open spec fn relationships_end(part_name: Seq<char>, found: Seq<DiagnosticView>, root_ok: bool) -> Seq<
    DiagnosticView,
> {
    if part_name == ROOT_RELS_PART@ && !root_ok {
        found.push(
            error_view(
                "DOCX_OFFICE_DOCUMENT_RELATIONSHIP_MISSING"@,
                Some(part_name),
                "root relationships do not point to word/document.xml"@,
            ),
        )
    } else {
        found
    }
}

/// The findings of a relationship part from event `i` on, and the error
/// that stopped the reading, if any.
pub open spec fn relationship_checks_from(
    stream: XmlStream,
    i: int,
    part_name: Seq<char>,
    limits: DocxLimits,
    found: Seq<DiagnosticView>,
    root_ok: bool,
) -> (Seq<DiagnosticView>, Option<DocxFault>)
    decreases stream.events@.len() - i,
{
    if i < 0 || i >= stream.events@.len() {
        match stream.read_error {
            Some((position, message)) => (found, Some(DocxFault::Xml { part_name, position, message: message@ })),
            None => (relationships_end(part_name, found, root_ok), None),
        }
    } else {
        let e = stream.events@[i];
        let (found, root_ok, stop) = if opens(e, NamespaceKind::Relationships, "Relationship"@) {
            match relationship_check(part_name, limits, root_ok, e) {
                Err(f) => (found, root_ok, Some(f)),
                Ok((more, root)) => (found + more, root, None),
            }
        } else {
            (found, root_ok, None)
        };
        if stop is Some {
            (found, stop)
        } else if e.kind == XmlEventKind::Eof {
            (relationships_end(part_name, found, root_ok), None)
        } else {
            relationship_checks_from(stream, i + 1, part_name, limits, found, root_ok)
        }
    }
}

/// The findings of the relationship part `part_name` and the error that
/// stopped its reading, if any.
pub open spec fn spec_scan_relationships(stream: XmlStream, part_name: Seq<char>, limits: DocxLimits) -> (
    Seq<DiagnosticView>,
    Option<DocxFault>,
) {
    match spec_validate_safe_xml(stream, part_name, limits) {
        Err(f) => (Seq::empty(), Some(f)),
        Ok(_) => relationship_checks_from(stream, 0, part_name, limits, Seq::empty(), false),
    }
}

/// Appends a finding to `diagnostics`.
fn push_diagnostic(diagnostics: &mut Vec<Diagnostic>, d: Diagnostic)
    ensures
        diagnostics_view(final(diagnostics)@) == diagnostics_view(old(diagnostics)@).push(d@),
{
    let ghost before = diagnostics@;
    diagnostics.push(d);
    assert(diagnostics_view(diagnostics@) =~= diagnostics_view(before).push(d@));
}

/// Whether a `TargetMode` value says `External`, in any case.
fn external_mode(mode: &Option<String>) -> (external: bool)
    ensures
        external == is_external(opt_text(*mode)),
{
    match mode {
        Some(m) => {
            let lower = ascii_lower_chars(chars_of(m.as_str()).as_slice());
            let external = ascii_lower_chars(chars_of("External").as_slice());
            same_chars(lower.as_slice(), external.as_slice())
        },
        None => false,
    }
}

/// `s` without its leading slashes.
fn strip_leading_slashes(s: &str) -> (stripped: Vec<char>)
    ensures
        stripped@ == without_leading_slashes(s@),
{
    let chars = chars_of(s);
    let c = chars.as_slice();
    let mut k: usize = 0;
    assert(c@.subrange(0, c@.len() as int) =~= c@);
    while k < c.len() && c[k] == '/'
        invariant
            k <= c@.len(),
            without_leading_slashes(c@) == without_leading_slashes(c@.subrange(k as int, c@.len() as int)),
        decreases c@.len() - k,
    {
        assert(c@.subrange(k as int, c@.len() as int).subrange(1, c@.len() - k) =~= c@.subrange(
            k + 1,
            c@.len() as int,
        ));
        k = k + 1;
    }
    vstd::slice::slice_to_vec(vstd::slice::slice_subrange(c, k, c.len()))
}

/// Whether `lower` ends with `suffix`.
fn ends_with_text(lower: &[char], suffix: &str) -> (found: bool)
    ensures
        found == has_suffix(lower@, suffix@),
{
    ends_with_chars(lower, chars_of(suffix).as_slice())
}

/// Checks one `Relationship` element, appending its findings.
fn check_relationship(
    part_name: &str,
    limits: &DocxLimits,
    root_ok: bool,
    e: &XmlEvent,
    diagnostics: &mut Vec<Diagnostic>,
) -> (result: DocxResult<bool>)
    ensures
        match (result, relationship_check(part_name@, *limits, root_ok, *e)) {
            (Ok(root), Ok((more, expected_root))) => root == expected_root && diagnostics_view(
                final(diagnostics)@,
            ) == diagnostics_view(old(diagnostics)@) + more,
            (Err(x), Err(fault)) => x@ == fault && final(diagnostics)@ == old(diagnostics)@,
            _ => false,
        },
{
    let kind_of = match attribute_value(e, "Type", None, part_name) {
        Err(x) => return Err(x),
        Ok(Some(v)) => v,
        Ok(None) => String::new(),
    };
    let target = match attribute_value(e, "Target", None, part_name) {
        Err(x) => return Err(x),
        Ok(Some(v)) => v,
        Ok(None) => String::new(),
    };
    let mode = match attribute_value(e, "TargetMode", None, part_name) {
        Err(x) => return Err(x),
        Ok(m) => m,
    };
    let lower_vec = ascii_lower_chars(chars_of(kind_of.as_str()).as_slice());
    let lower = lower_vec.as_slice();
    let external = external_mode(&mode);
    let mut root = root_ok;
    if same_text(part_name, ROOT_RELS_PART) && ends_with_text(lower, "/officedocument") {
        let stripped = strip_leading_slashes(target.as_str());
        root = same_chars(stripped.as_slice(), chars_of(DOCUMENT_PART).as_slice()) && !external;
    }
    let ghost before = diagnostics_view(diagnostics@);
    if external {
        let mut message = "external target is not allowed: ".to_owned();
        message.append(target.as_str());
        push_diagnostic(
            diagnostics,
            Diagnostic::error("DOCX_EXTERNAL_RELATIONSHIP", Some(part_name.to_owned()), message),
        );
    }
    let ghost middle = diagnostics_view(diagnostics@);
    let forbidden = ends_with_text(lower, "/package") || ends_with_text(lower, "/afchunk")
        || ends_with_text(lower, "/attachedtemplate") || ends_with_text(lower, "/vbaproject")
        || ends_with_text(lower, "/control") || (ends_with_text(lower, "/oleobject")
        && !limits.allow_mathtype_ole);
    if forbidden {
        let mut message = "active relationship type is not allowed: ".to_owned();
        message.append(kind_of.as_str());
        push_diagnostic(
            diagnostics,
            Diagnostic::error("DOCX_ACTIVE_RELATIONSHIP", Some(part_name.to_owned()), message),
        );
    }
    proof {
        let (more, _) = relationship_check(part_name@, *limits, root_ok, *e)->Ok_0;
        assert(diagnostics_view(diagnostics@) =~= before + more);
    }
    Ok(root)
}

/// Checks the relationship part `part_name`, given as its reader events:
/// appends a finding for each external target and each relationship type
/// that can import active content, and, for the root relationships, one
/// when none points to `word/document.xml`. A malformed part stops the
/// check with its error, after the findings made so far.
pub fn scan_relationships(
    stream: &XmlStream,
    part_name: &str,
    limits: &DocxLimits,
    diagnostics: &mut Vec<Diagnostic>,
) -> (result: DocxResult<()>)
    ensures
        diagnostics_view(final(diagnostics)@) == diagnostics_view(old(diagnostics)@) + spec_scan_relationships(
            *stream,
            part_name@,
            *limits,
        ).0,
        match (result, spec_scan_relationships(*stream, part_name@, *limits).1) {
            (Ok(_), None) => true,
            (Err(x), Some(fault)) => x@ == fault,
            _ => false,
        },
{
    let ghost start = diagnostics_view(diagnostics@);
    match validate_safe_xml(stream, part_name, limits) {
        Err(x) => {
            assert(start + Seq::<DiagnosticView>::empty() =~= start);
            return Err(x);
        },
        Ok(_) => {},
    }
    let events = stream.events.as_slice();
    let mut root_ok = false;
    let mut i: usize = 0;
    let ghost mut found: Seq<DiagnosticView> = Seq::empty();
    assert(start + found =~= start);
    while i < events.len()
        invariant
            i <= events@.len(),
            events@ == stream.events@,
            spec_validate_safe_xml(*stream, part_name@, *limits) is Ok,
            start == diagnostics_view(old(diagnostics)@),
            diagnostics_view(diagnostics@) == start + found,
            relationship_checks_from(*stream, 0, part_name@, *limits, Seq::empty(), false)
                == relationship_checks_from(*stream, i as int, part_name@, *limits, found, root_ok),
        decreases events@.len() - i,
    {
        let e = &events[i];
        let ghost found_before = found;
        let ghost root_before = root_ok;
        if opens_element(e, NamespaceKind::Relationships, "Relationship") {
            match check_relationship(part_name, limits, root_ok, e, diagnostics) {
                Err(x) => {
                    assert(relationship_checks_from(*stream, i as int, part_name@, *limits, found, root_ok)
                        == (found, Some(x@)));
                    return Err(x);
                },
                Ok(root) => {
                    let ghost more = relationship_check(part_name@, *limits, root_ok, *e)->Ok_0.0;
                    proof {
                        assert(diagnostics_view(diagnostics@) =~= start + (found + more));
                        found = found + more;
                    }
                    root_ok = root;
                },
            }
        }
        if e.kind == XmlEventKind::Eof {
            if same_text(part_name, ROOT_RELS_PART) && !root_ok {
                push_diagnostic(
                    diagnostics,
                    Diagnostic::error(
                        "DOCX_OFFICE_DOCUMENT_RELATIONSHIP_MISSING",
                        Some(part_name.to_owned()),
                        "root relationships do not point to word/document.xml".to_owned(),
                    ),
                );
                assert(diagnostics_view(diagnostics@) =~= start + relationships_end(part_name@, found, root_ok));
            }
            assert(relationship_checks_from(*stream, i as int, part_name@, *limits, found_before, root_before)
                == (relationships_end(part_name@, found, root_ok), None::<DocxFault>));
            return Ok(());
        }
        i = i + 1;
    }
    match &stream.read_error {
        Some((position, message)) => Err(DocxError::xml(part_name, *position, message.as_str())),
        None => {
            if same_text(part_name, ROOT_RELS_PART) && !root_ok {
                push_diagnostic(
                    diagnostics,
                    Diagnostic::error(
                        "DOCX_OFFICE_DOCUMENT_RELATIONSHIP_MISSING",
                        Some(part_name.to_owned()),
                        "root relationships do not point to word/document.xml".to_owned(),
                    ),
                );
                assert(diagnostics_view(diagnostics@) =~= start + relationships_end(part_name@, found, root_ok));
            }
            Ok(())
        },
    }
}

/// The finding for a `w:altChunk` in the main document.
pub open spec fn alt_chunk_finding() -> DiagnosticView {
    error_view(
        "DOCX_ALT_CHUNK"@,
        Some(DOCUMENT_PART@),
        "altChunk can import external HTML or document content and is not allowed"@,
    )
}

/// The findings of the main document from event `i` on, and the error that
/// stopped its reading, if any.
pub open spec fn security_from(stream: XmlStream, i: int, found: Seq<DiagnosticView>) -> (
    Seq<DiagnosticView>,
    Option<DocxFault>,
)
    decreases stream.events@.len() - i,
{
    if i < 0 || i >= stream.events@.len() {
        match stream.read_error {
            Some((position, message)) => (
                found,
                Some(DocxFault::Xml { part_name: DOCUMENT_PART@, position, message: message@ }),
            ),
            None => (found, None),
        }
    } else {
        let e = stream.events@[i];
        let found = if opens(e, NamespaceKind::Word, "altChunk"@) {
            found.push(alt_chunk_finding())
        } else {
            found
        };
        if e.kind == XmlEventKind::Eof {
            (found, None)
        } else {
            security_from(stream, i + 1, found)
        }
    }
}

/// The findings of the main document's security check and the error that
/// stopped its reading, if any.
pub open spec fn spec_scan_document_security(stream: XmlStream, limits: DocxLimits) -> (
    Seq<DiagnosticView>,
    Option<DocxFault>,
) {
    match spec_validate_safe_xml(stream, DOCUMENT_PART@, limits) {
        Err(f) => (Seq::empty(), Some(f)),
        Ok(_) => security_from(stream, 0, Seq::empty()),
    }
}

/// Checks `word/document.xml`, given as its reader events, for `w:altChunk`
/// elements, which can import external content: appends one finding for
/// each.
pub fn scan_document_security(stream: &XmlStream, limits: &DocxLimits, diagnostics: &mut Vec<Diagnostic>) -> (result:
    DocxResult<()>)
    ensures
        diagnostics_view(final(diagnostics)@) == diagnostics_view(old(diagnostics)@)
            + spec_scan_document_security(*stream, *limits).0,
        match (result, spec_scan_document_security(*stream, *limits).1) {
            (Ok(_), None) => true,
            (Err(x), Some(fault)) => x@ == fault,
            _ => false,
        },
{
    let ghost start = diagnostics_view(diagnostics@);
    assert(start + Seq::<DiagnosticView>::empty() =~= start);
    match validate_safe_xml(stream, DOCUMENT_PART, limits) {
        Err(x) => return Err(x),
        Ok(_) => {},
    }
    let events = stream.events.as_slice();
    let mut i: usize = 0;
    let ghost mut found: Seq<DiagnosticView> = Seq::empty();
    while i < events.len()
        invariant
            i <= events@.len(),
            events@ == stream.events@,
            spec_validate_safe_xml(*stream, DOCUMENT_PART@, *limits) is Ok,
            start == diagnostics_view(old(diagnostics)@),
            diagnostics_view(diagnostics@) == start + found,
            security_from(*stream, 0, Seq::empty()) == security_from(*stream, i as int, found),
        decreases events@.len() - i,
    {
        let e = &events[i];
        let ghost found_before = found;
        if opens_element(e, NamespaceKind::Word, "altChunk") {
            push_diagnostic(
                diagnostics,
                Diagnostic::error(
                    "DOCX_ALT_CHUNK",
                    Some(DOCUMENT_PART.to_owned()),
                    "altChunk can import external HTML or document content and is not allowed".to_owned(),
                ),
            );
            proof {
                found = found.push(alt_chunk_finding());
                assert(diagnostics_view(diagnostics@) =~= start + found);
            }
        }
        if e.kind == XmlEventKind::Eof {
            assert(security_from(*stream, i as int, found_before) == (found, None::<DocxFault>));
            return Ok(());
        }
        i = i + 1;
    }
    match &stream.read_error {
        Some((position, message)) => Err(DocxError::xml(DOCUMENT_PART, *position, message.as_str())),
        None => Ok(()),
    }
}

/// The kind of package `[Content_Types].xml` declares, read from its bytes:
/// the outcome of [`content_types_kind`] on the events the XML reader gives.
pub fn parse_content_types(xml: &[u8], limits: &DocxLimits) -> (result: DocxResult<PackageKind>)
    ensures
        exists|stream: XmlStream|
            stream.source_len == xml@.len() && match (result, #[trigger] spec_content_types(stream, *limits)) {
                (Ok(kind), Ok(expected)) => kind == expected,
                (Err(x), Err(fault)) => x@ == fault,
                _ => false,
            },
{
    let stream = read_part_events(xml, limits.max_xml_part_bytes);
    let result = content_types_kind(&stream, limits);
    assert(spec_content_types(stream, *limits) == spec_content_types(stream, *limits));
    result
}

} // verus!
