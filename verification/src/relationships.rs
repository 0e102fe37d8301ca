//! The relationships of the main document part: which package part each
//! MathType object or picture points to, with the checks that keep every
//! target inside the package directory it belongs to.
use vstd::prelude::*;
use crate::error::{DocxError, DocxFault, DocxResult};
use crate::limits::DocxLimits;
use crate::markers::MarkerKind;
use crate::mathtype::{spec_resolve_target, resolve_mathtype_target, valid_relationship_id, validate_relationship_id};
use crate::mtef::{invalid_mathtype, mathtype_fault};
use crate::text::{ascii_lower, ascii_lower_chars, ends_with_chars, has_suffix, same_chars};
use crate::xml_reader::read_part_events;
use crate::xml::{NamespaceKind, XmlEvent, XmlEventKind, XmlStream, attribute_value, classify_namespace, spec_attribute_value, spec_classify, spec_validate_safe_xml, validate_safe_xml};

use crate::mathtype::{any_control, has_control};
use crate::package::{find_bad_segment, has_bad_segment};
use crate::text::{chars_of, has_prefix, same_text, starts_with_chars, trim_white_space, trimmed};

verus! {

/// The relationship part of the main document.
pub const DOCUMENT_RELS_PART: &'static str = "word/_rels/document.xml.rels";

/// An error about the main document's relationships.
pub open spec fn relationships_fault(message: Seq<char>) -> DocxFault {
    DocxFault::Xml { part_name: DOCUMENT_RELS_PART@, position: 0, message }
}

/// An error about the main document's relationships, carrying `message`.
pub fn invalid_relationships(message: &str) -> (error: DocxError)
    ensures
        error@ == relationships_fault(message@),
{
    DocxError::xml(DOCUMENT_RELS_PART, 0, message)
}

/// Why a relationship target is refused.
#[derive(Clone, Copy, Debug, PartialEq, Eq, Structural)]
pub enum TargetRefusal {
    /// Empty, too long, padded, with control or forbidden characters, or absolute.
    Unsafe,
    /// Not a path of proper segments under the expected directory.
    Outside,
}

/// A character never allowed in a relationship target.
pub open spec fn is_forbidden_target_char(c: char) -> bool {
    c == '\\' || c == ':' || c == '?' || c == '#' || c == '%'
}

/// The part under `word/` that `target` names, when it lies under the
/// directory `prefix` (written with its closing slash).
pub open spec fn spec_target_under(target: Seq<char>, prefix: Seq<char>) -> Result<Seq<char>, TargetRefusal> {
    if target.len() == 0 || target.len() > MAX_RELATIONSHIP_TARGET_CHARS || trimmed(target) != target
        || has_control(target) || (exists|i: int| 0 <= i < target.len() && is_forbidden_target_char(
        #[trigger] target[i],
    )) || (target.len() > 0 && target[0] == '/') {
        Err(TargetRefusal::Unsafe)
    } else if !has_prefix(target, prefix) || has_bad_segment(target) {
        Err(TargetRefusal::Outside)
    } else {
        Ok("word/"@ + target)
    }
}

/// Longest relationship target, in characters.
pub const MAX_RELATIONSHIP_TARGET_CHARS: usize = 1024;

/// Resolves a relationship target that must lie under the directory `prefix`.
pub fn target_under(target: &str, prefix: &str) -> (result: Result<String, TargetRefusal>)
    ensures
        match (result, spec_target_under(target@, prefix@)) {
            (Ok(part), Ok(expected)) => part@ == expected,
            (Err(r), Err(expected)) => r == expected,
            _ => false,
        },
{
    let chars = chars_of(target);
    let c = chars.as_slice();
    let trimmed_target = trim_white_space(target);
    let mut forbidden = false;
    let mut i: usize = 0;
    while i < c.len()
        invariant
            i <= c@.len(),
            forbidden == exists|j: int| 0 <= j < i && is_forbidden_target_char(#[trigger] c@[j]),
        decreases c@.len() - i,
    {
        let ch = c[i];
        if ch == '\\' || ch == ':' || ch == '?' || ch == '#' || ch == '%' {
            forbidden = true;
        }
        i = i + 1;
    }
    if c.len() == 0 || c.len() > MAX_RELATIONSHIP_TARGET_CHARS || !same_text(
        trimmed_target.as_str(),
        target,
    ) || any_control(c) || forbidden || c[0] == '/' {
        return Err(TargetRefusal::Unsafe);
    }
    if !starts_with_chars(c, chars_of(prefix).as_slice()) || find_bad_segment(c) {
        return Err(TargetRefusal::Outside);
    }
    let mut part = "word/".to_owned();
    part.append(target);
    Ok(part)
}

/// The package part an image relationship target names, or why it is refused.
pub open spec fn spec_resolve_image_target(target: Seq<char>) -> Result<Seq<char>, Seq<char>> {
    match spec_target_under(target, "media/"@) {
        Ok(part) => Ok(part),
        Err(TargetRefusal::Unsafe) => Err("image relationship target is unsafe"@),
        Err(TargetRefusal::Outside) => Err("image relationship must stay under word/media"@),
    }
}

/// Resolves an image relationship target to the package part it names,
/// which must lie under `word/media`.
pub fn resolve_image_target(target: &str) -> (result: DocxResult<String>)
    ensures
        match spec_resolve_image_target(target@) {
            Ok(part) => result matches Ok(p) && p@ == part,
            Err(m) => result matches Err(e) && e@ == relationships_fault(m),
        },
{
    match target_under(target, "media/") {
        Ok(part) => Ok(part),
        Err(TargetRefusal::Unsafe) => Err(invalid_relationships("image relationship target is unsafe")),
        Err(TargetRefusal::Outside) => Err(
            invalid_relationships("image relationship must stay under word/media"),
        ),
    }
}

/// A relationship of the main document that the readers follow: its id,
/// the package part it points to and, for a picture, that part's file name.
#[derive(Clone, Debug, PartialEq, Eq)]
pub struct PartRelationship {
    pub id: String,
    pub target_part: String,
    pub original_filename: Option<String>,
}

/// A relationship as plain values.
pub open spec fn relationship_view(r: PartRelationship) -> (Seq<char>, Seq<char>, Option<Seq<char>>) {
    (
        r.id@,
        r.target_part@,
        match r.original_filename {
            Some(name) => Some(name@),
            None => None,
        },
    )
}

/// The characters after the last `/` of `path` (all of it when it has none).
pub open spec fn after_last_slash(path: Seq<char>) -> Seq<char>
    decreases path.len(),
{
    if path.len() == 0 {
        path
    } else if path.last() == '/' {
        Seq::empty()
    } else {
        after_last_slash(path.drop_last()).push(path.last())
    }
}

/// The file name of a part: its last path segment, when not empty.
pub open spec fn file_name(path: Seq<char>) -> Option<Seq<char>> {
    if after_last_slash(path).len() > 0 {
        Some(after_last_slash(path))
    } else {
        None
    }
}

/// An error about a relationship, in the terms of the reader of `kind`.
pub open spec fn relationship_fault(kind: MarkerKind, message: Seq<char>) -> DocxFault {
    match kind {
        MarkerKind::MathType => mathtype_fault(message),
        MarkerKind::Image => relationships_fault(message),
    }
}

/// The message for an invalid relationship id.
pub open spec fn invalid_id_message(kind: MarkerKind) -> Seq<char> {
    match kind {
        MarkerKind::MathType => "MathType relationship Id is invalid"@,
        MarkerKind::Image => "relationship Id is invalid"@,
    }
}

/// The value of attribute `local` of a relationship element.
pub open spec fn rel_attribute(e: XmlEvent, local: Seq<char>) -> Result<Option<Seq<char>>, DocxFault> {
    spec_attribute_value(e, local, None, DOCUMENT_RELS_PART@)
}

/// Whether a `TargetMode` value is other than `Internal`, in any case.
pub open spec fn is_external_mode(mode: Option<Seq<char>>) -> bool {
    match mode {
        Some(m) => ascii_lower(m) != ascii_lower("internal"@),
        None => false,
    }
}

/// What an OLE-object relationship adds once its id is known: the embedded
/// part it points to, for relationships of the OLE object type only.
pub open spec fn mathtype_relationship(e: XmlEvent, id: Seq<char>, kind_of: Seq<char>) -> Result<
    Option<(Seq<char>, Seq<char>, Option<Seq<char>>)>,
    DocxFault,
> {
    if !has_suffix(ascii_lower(kind_of), "/oleobject"@) {
        Ok(None)
    } else {
        match rel_attribute(e, "Target"@) {
            Err(f) => Err(f),
            Ok(None) => Err(mathtype_fault("OLE relationship is missing Target"@)),
            Ok(Some(target)) => match rel_attribute(e, "TargetMode"@) {
                Err(f) => Err(f),
                Ok(mode) => if is_external_mode(mode) {
                    Err(mathtype_fault("external MathType relationship targets are not allowed"@))
                } else {
                    match spec_resolve_target(target) {
                        Err(m) => Err(mathtype_fault(m)),
                        Ok(part) => Ok(Some((id, part, None))),
                    }
                },
            },
        }
    }
}

/// What a relationship adds to the images once its id is known: the media
/// part it points to and that part's file name, for image relationships only.
pub open spec fn image_relationship(e: XmlEvent, id: Seq<char>, kind_of: Seq<char>) -> Result<
    Option<(Seq<char>, Seq<char>, Option<Seq<char>>)>,
    DocxFault,
> {
    match rel_attribute(e, "Target"@) {
        Err(f) => Err(f),
        Ok(None) => Err(relationships_fault("Relationship is missing Target"@)),
        Ok(Some(target)) => match rel_attribute(e, "TargetMode"@) {
            Err(f) => Err(f),
            Ok(mode) => if is_external_mode(mode) {
                Err(relationships_fault("relationship "@ + id + " uses a non-internal target mode"@))
            } else if !has_suffix(ascii_lower(kind_of), "/image"@) {
                Ok(None)
            } else {
                match spec_resolve_image_target(target) {
                    Err(m) => Err(relationships_fault(m)),
                    Ok(part) => Ok(Some((id, part, file_name(part)))),
                }
            },
        },
    }
}

/// One `Relationship` element: its id must be valid and new; what it adds
/// to the relationships of `kind`, if anything.
pub open spec fn relationship_step(
    kind: MarkerKind,
    ids: Seq<Seq<char>>,
    e: XmlEvent,
) -> Result<(Seq<char>, Option<(Seq<char>, Seq<char>, Option<Seq<char>>)>), DocxFault> {
    match rel_attribute(e, "Id"@) {
        Err(f) => Err(f),
        Ok(None) => Err(relationship_fault(kind, "Relationship is missing Id"@)),
        Ok(Some(id)) => if !valid_relationship_id(id) {
            Err(relationship_fault(kind, invalid_id_message(kind)))
        } else if ids.contains(id) {
            Err(relationship_fault(kind, "duplicate relationship Id "@ + id))
        } else {
            match rel_attribute(e, "Type"@) {
                Err(f) => Err(f),
                Ok(None) => Err(relationship_fault(kind, "Relationship is missing Type"@)),
                Ok(Some(kind_of)) => match kind {
                    MarkerKind::MathType => match mathtype_relationship(e, id, kind_of) {
                        Err(f) => Err(f),
                        Ok(found) => Ok((id, found)),
                    },
                    MarkerKind::Image => match image_relationship(e, id, kind_of) {
                        Err(f) => Err(f),
                        Ok(found) => Ok((id, found)),
                    },
                },
            }
        },
    }
}

/// Whether an event opens a `Relationship` element.
pub open spec fn is_relationship_element(e: XmlEvent) -> bool {
    (e.kind == XmlEventKind::Start || e.kind == XmlEventKind::Empty) && spec_classify(e.namespace)
        == NamespaceKind::Relationships && e.local@ == "Relationship"@
}

/// The relationships of `kind` read from event `i` on, after the ids `ids`
/// and the relationships `found`.
pub open spec fn relationships_from(
    kind: MarkerKind,
    stream: XmlStream,
    i: int,
    ids: Seq<Seq<char>>,
    found: Seq<(Seq<char>, Seq<char>, Option<Seq<char>>)>,
) -> Result<Seq<(Seq<char>, Seq<char>, Option<Seq<char>>)>, DocxFault>
    decreases stream.events@.len() - i,
{
    if i < 0 || i >= stream.events@.len() {
        match stream.read_error {
            Some((position, message)) => Err(
                DocxFault::Xml { part_name: DOCUMENT_RELS_PART@, position, message: message@ },
            ),
            None => Ok(found),
        }
    } else {
        let e = stream.events@[i];
        if e.kind == XmlEventKind::Eof {
            Ok(found)
        } else if is_relationship_element(e) {
            match relationship_step(kind, ids, e) {
                Err(f) => Err(f),
                Ok((id, None)) => relationships_from(kind, stream, i + 1, ids.push(id), found),
                Ok((id, Some(r))) => relationships_from(kind, stream, i + 1, ids.push(id), found.push(r)),
            }
        } else {
            relationships_from(kind, stream, i + 1, ids, found)
        }
    }
}

/// The relationships of `kind` in `word/_rels/document.xml.rels`, after its
/// safety check.
pub open spec fn spec_relationships(kind: MarkerKind, stream: XmlStream, limits: DocxLimits) -> Result<
    Seq<(Seq<char>, Seq<char>, Option<Seq<char>>)>,
    DocxFault,
> {
    match spec_validate_safe_xml(stream, DOCUMENT_RELS_PART@, limits) {
        Err(f) => Err(f),
        Ok(_) => relationships_from(kind, stream, 0, Seq::empty(), Seq::empty()),
    }
}

proof fn lemma_after_last_slash(path: Seq<char>, k: int)
    requires
        -1 <= k < path.len(),
        k == -1 || path[k] == '/',
        forall|j: int| k < j < path.len() ==> path[j] != '/',
    ensures
        after_last_slash(path) == path.subrange(k + 1, path.len() as int),
    decreases path.len(),
{
    if path.len() == k + 1 {
        assert(path.subrange(k + 1, path.len() as int) =~= Seq::<char>::empty());
        if path.len() > 0 {
            assert(path.last() == '/');
        }
    } else {
        let shorter = path.drop_last();
        assert(path.last() != '/');
        lemma_after_last_slash(shorter, k);
        assert(shorter.subrange(k + 1, shorter.len() as int).push(path.last()) =~= path.subrange(
            k + 1,
            path.len() as int,
        ));
    }
}

/// The file name of the part `path`: its last segment, when not empty.
pub fn part_file_name(path: &str) -> (name: Option<String>)
    ensures
        match name {
            Some(n) => file_name(path@) == Some(n@),
            None => file_name(path@) is None,
        },
{
    let chars = chars_of(path);
    let c = chars.as_slice();
    let mut start: usize = c.len();
    while start > 0 && c[start - 1] != '/'
        invariant
            start <= c@.len(),
            forall|j: int| start <= j < c@.len() ==> c@[j] != '/',
        decreases start,
    {
        start = start - 1;
    }
    proof {
        lemma_after_last_slash(c@, start - 1);
    }
    if start == c.len() {
        return None;
    }
    let tail = vstd::slice::slice_subrange(c, start, c.len());
    Some(crate::text::string_from_chars(tail))
}

/// Whether `ids` holds `id`.
fn holds_id(ids: &Vec<String>, id: &str) -> (found: bool)
    ensures
        found == ids@.map_values(|s: String| s@).contains(id@),
{
    let ghost view = ids@.map_values(|s: String| s@);
    let mut i: usize = 0;
    while i < ids.len()
        invariant
            i <= ids@.len(),
            view == ids@.map_values(|s: String| s@),
            forall|j: int| 0 <= j < i ==> view[j] != id@,
        decreases ids@.len() - i,
    {
        if same_text(ids[i].as_str(), id) {
            assert(view[i as int] == id@);
            return true;
        }
        i = i + 1;
    }
    false
}

/// Whether a `TargetMode` value is other than `Internal`, in any case.
fn external_mode(mode: &Option<String>) -> (external: bool)
    ensures
        external == is_external_mode(
            match mode {
                Some(m) => Some(m@),
                None => None,
            },
        ),
{
    match mode {
        Some(m) => {
            let lower = ascii_lower_chars(chars_of(m.as_str()).as_slice());
            let internal = ascii_lower_chars(chars_of("internal").as_slice());
            !same_chars(lower.as_slice(), internal.as_slice())
        },
        None => false,
    }
}

/// Whether `kind_of`, lowered, ends with `suffix`.
fn type_ends_with(kind_of: &str, suffix: &str) -> (found: bool)
    ensures
        found == has_suffix(ascii_lower(kind_of@), suffix@),
{
    let lower = ascii_lower_chars(chars_of(kind_of).as_slice());
    ends_with_chars(lower.as_slice(), chars_of(suffix).as_slice())
}

/// The value of attribute `local` of a relationship element.
fn rel_value(e: &XmlEvent, local: &str) -> (result: DocxResult<Option<String>>)
    ensures
        match (result, rel_attribute(*e, local@)) {
            (Ok(value), Ok(expected)) => match value {
                Some(v) => expected == Some(v@),
                None => expected is None,
            },
            (Err(err), Err(fault)) => err@ == fault,
            _ => false,
        },
{
    attribute_value(e, local, None, DOCUMENT_RELS_PART)
}

/// A relationship as plain values, when there is one.
pub open spec fn found_view(found: Option<PartRelationship>) -> Option<(Seq<char>, Seq<char>, Option<Seq<char>>)> {
    match found {
        Some(r) => Some(relationship_view(r)),
        None => None,
    }
}

fn mathtype_relationship_of(e: &XmlEvent, id: &str, kind_of: &str) -> (result: DocxResult<
    Option<PartRelationship>,
>)
    ensures
        match (result, mathtype_relationship(*e, id@, kind_of@)) {
            (Ok(found), Ok(expected)) => found_view(found) == expected,
            (Err(err), Err(fault)) => err@ == fault,
            _ => false,
        },
{
    if !type_ends_with(kind_of, "/oleobject") {
        return Ok(None);
    }
    let target = match rel_value(e, "Target") {
        Err(err) => return Err(err),
        Ok(None) => return Err(invalid_mathtype("OLE relationship is missing Target".to_owned())),
        Ok(Some(t)) => t,
    };
    let mode = match rel_value(e, "TargetMode") {
        Err(err) => return Err(err),
        Ok(m) => m,
    };
    if external_mode(&mode) {
        return Err(
            invalid_mathtype("external MathType relationship targets are not allowed".to_owned()),
        );
    }
    match resolve_mathtype_target(target.as_str()) {
        Err(err) => Err(err),
        Ok(part) => Ok(
            Some(PartRelationship { id: id.to_owned(), target_part: part, original_filename: None }),
        ),
    }
}

fn image_relationship_of(e: &XmlEvent, id: &str, kind_of: &str) -> (result: DocxResult<
    Option<PartRelationship>,
>)
    ensures
        match (result, image_relationship(*e, id@, kind_of@)) {
            (Ok(found), Ok(expected)) => found_view(found) == expected,
            (Err(err), Err(fault)) => err@ == fault,
            _ => false,
        },
{
    let target = match rel_value(e, "Target") {
        Err(err) => return Err(err),
        Ok(None) => return Err(invalid_relationships("Relationship is missing Target")),
        Ok(Some(t)) => t,
    };
    let mode = match rel_value(e, "TargetMode") {
        Err(err) => return Err(err),
        Ok(m) => m,
    };
    if external_mode(&mode) {
        let mut message = "relationship ".to_owned();
        message.append(id);
        message.append(" uses a non-internal target mode");
        return Err(invalid_relationships(message.as_str()));
    }
    if !type_ends_with(kind_of, "/image") {
        return Ok(None);
    }
    match resolve_image_target(target.as_str()) {
        Err(err) => Err(err),
        Ok(part) => {
            let original_filename = part_file_name(part.as_str());
            Ok(Some(PartRelationship { id: id.to_owned(), target_part: part, original_filename }))
        },
    }
}

/// An error about a relationship, in the terms of the reader of `kind`.
fn relationship_error(kind: MarkerKind, message: &str) -> (error: DocxError)
    ensures
        error@ == relationship_fault(kind, message@),
{
    match kind {
        MarkerKind::MathType => invalid_mathtype(message.to_owned()),
        MarkerKind::Image => invalid_relationships(message),
    }
}

/// Reads one `Relationship` element: its id, and what it adds, if anything.
fn read_relationship(kind: MarkerKind, ids: &Vec<String>, e: &XmlEvent) -> (result: DocxResult<
    (String, Option<PartRelationship>),
>)
    ensures
        match (result, relationship_step(kind, ids@.map_values(|s: String| s@), *e)) {
            (Ok((id, found)), Ok((expected_id, expected))) => id@ == expected_id && found_view(found)
                == expected,
            (Err(err), Err(fault)) => err@ == fault,
            _ => false,
        },
{
    let id = match rel_value(e, "Id") {
        Err(err) => return Err(err),
        Ok(None) => return Err(relationship_error(kind, "Relationship is missing Id")),
        Ok(Some(id)) => id,
    };
    if validate_relationship_id(id.as_str()).is_err() {
        return match kind {
            MarkerKind::MathType => Err(relationship_error(kind, "MathType relationship Id is invalid")),
            MarkerKind::Image => Err(relationship_error(kind, "relationship Id is invalid")),
        };
    }
    if holds_id(ids, id.as_str()) {
        let mut message = "duplicate relationship Id ".to_owned();
        message.append(id.as_str());
        return Err(relationship_error(kind, message.as_str()));
    }
    let kind_of = match rel_value(e, "Type") {
        Err(err) => return Err(err),
        Ok(None) => return Err(relationship_error(kind, "Relationship is missing Type")),
        Ok(Some(t)) => t,
    };
    let found = match kind {
        MarkerKind::MathType => mathtype_relationship_of(e, id.as_str(), kind_of.as_str()),
        MarkerKind::Image => image_relationship_of(e, id.as_str(), kind_of.as_str()),
    };
    match found {
        Err(err) => Err(err),
        Ok(found) => Ok((id, found)),
    }
}

/// Reads the relationships of `kind` from `word/_rels/document.xml.rels`,
/// given as its reader events: for MathType, those of the OLE object type,
/// which must point under `word/embeddings`; for images, those of the image
/// type, which must point under `word/media`. Every relationship needs a
/// valid, unique id and a type; none may point outside the package.
pub fn read_relationships(kind: MarkerKind, stream: &XmlStream, limits: &DocxLimits) -> (result:
    DocxResult<Vec<PartRelationship>>)
    ensures
        match (result, spec_relationships(kind, *stream, *limits)) {
            (Ok(found), Ok(expected)) => found@.map_values(|r: PartRelationship| relationship_view(r))
                == expected,
            (Err(err), Err(fault)) => err@ == fault,
            _ => false,
        },
{
    match validate_safe_xml(stream, DOCUMENT_RELS_PART, limits) {
        Err(err) => return Err(err),
        Ok(_) => {},
    }
    let mut ids: Vec<String> = Vec::new();
    let mut found: Vec<PartRelationship> = Vec::new();
    let events = stream.events.as_slice();
    let mut i: usize = 0;
    proof {
        assert(ids@.map_values(|s: String| s@) =~= Seq::<Seq<char>>::empty());
        assert(found@.map_values(|r: PartRelationship| relationship_view(r)) =~= Seq::<
            (Seq<char>, Seq<char>, Option<Seq<char>>),
        >::empty());
    }
    while i < events.len()
        invariant
            i <= events@.len(),
            events@ == stream.events@,
            spec_validate_safe_xml(*stream, DOCUMENT_RELS_PART@, *limits) is Ok,
            relationships_from(kind, *stream, 0, Seq::empty(), Seq::empty()) == relationships_from(
                kind,
                *stream,
                i as int,
                ids@.map_values(|s: String| s@),
                found@.map_values(|r: PartRelationship| relationship_view(r)),
            ),
        decreases events@.len() - i,
    {
        let e = &events[i];
        if e.kind == XmlEventKind::Eof {
            return Ok(found);
        }
        if (e.kind == XmlEventKind::Start || e.kind == XmlEventKind::Empty) && classify_namespace(
            &e.namespace,
        ) == NamespaceKind::Relationships && same_text(e.local.as_str(), "Relationship") {
            match read_relationship(kind, &ids, e) {
                Err(err) => return Err(err),
                Ok((id, relationship)) => {
                    let ghost ids_before = ids@;
                    let ghost found_before = found@;
                    ids.push(id);
                    proof {
                        assert(ids@.map_values(|s: String| s@) =~= ids_before.map_values(
                            |s: String| s@,
                        ).push(id@));
                    }
                    match relationship {
                        Some(r) => {
                            found.push(r);
                            proof {
                                assert(found@.map_values(|r: PartRelationship| relationship_view(r))
                                    =~= found_before.map_values(
                                    |r: PartRelationship| relationship_view(r),
                                ).push(relationship_view(r)));
                            }
                        },
                        None => {},
                    }
                },
            }
        }
        i = i + 1;
    }
    match &stream.read_error {
        Some((position, message)) => Err(DocxError::xml(DOCUMENT_RELS_PART, *position, message.as_str())),
        None => Ok(found),
    }
}

/// Whether `result` is the outcome `expected`: the same relationships, or
/// the same error.
pub open spec fn relationships_outcome(
    result: DocxResult<Vec<PartRelationship>>,
    expected: Result<Seq<(Seq<char>, Seq<char>, Option<Seq<char>>)>, DocxFault>,
) -> bool {
    match (result, expected) {
        (Ok(found), Ok(all)) => found@.map_values(|r: PartRelationship| relationship_view(r)) == all,
        (Err(e), Err(fault)) => e@ == fault,
        _ => false,
    }
}

/// The MathType relationships of `word/_rels/document.xml.rels`, read from
/// its bytes: the outcome of [`read_relationships`] on the events the XML
/// reader gives for them.
pub fn parse_mathtype_relationships(xml: &[u8], limits: &DocxLimits) -> (result: DocxResult<
    Vec<PartRelationship>,
>)
    ensures
        exists|stream: XmlStream|
            stream.source_len == xml@.len() && relationships_outcome(
                result,
                #[trigger] spec_relationships(MarkerKind::MathType, stream, *limits),
            ),
{
    let stream = read_part_events(xml, limits.max_xml_part_bytes);
    let result = read_relationships(MarkerKind::MathType, &stream, limits);
    assert(relationships_outcome(result, spec_relationships(MarkerKind::MathType, stream, *limits)));
    result
}

/// The image relationships of `word/_rels/document.xml.rels`, read from its
/// bytes: the outcome of [`read_relationships`] on the events the XML reader
/// gives for them.
pub fn parse_image_relationships(xml: &[u8], limits: &DocxLimits) -> (result: DocxResult<
    Vec<PartRelationship>,
>)
    ensures
        exists|stream: XmlStream|
            stream.source_len == xml@.len() && relationships_outcome(
                result,
                #[trigger] spec_relationships(MarkerKind::Image, stream, *limits),
            ),
{
    let stream = read_part_events(xml, limits.max_xml_part_bytes);
    let result = read_relationships(MarkerKind::Image, &stream, limits);
    assert(relationships_outcome(result, spec_relationships(MarkerKind::Image, stream, *limits)));
    result
}

/// No two relationships in `found` share an id.
pub open spec fn distinct_ids(found: Seq<(Seq<char>, Seq<char>, Option<Seq<char>>)>) -> bool {
    forall|a: int, b: int| 0 <= a < b < found.len() ==> found[a].0 != found[b].0
}

/// The directory, under `word/`, that the parts of `kind` lie in.
pub open spec fn part_directory(kind: MarkerKind) -> Seq<char> {
    match kind {
        MarkerKind::MathType => "word/embeddings/"@,
        MarkerKind::Image => "word/media/"@,
    }
}

/// Every relationship in `found` has a valid id and a part in the directory
/// of `kind`.
pub open spec fn sound_relationships(kind: MarkerKind, found: Seq<(Seq<char>, Seq<char>, Option<Seq<char>>)>) -> bool {
    forall|k: int|
        0 <= k < found.len() ==> valid_relationship_id(#[trigger] found[k].0) && has_prefix(
            found[k].1,
            part_directory(kind),
        )
}

proof fn lemma_prefixed_part(target: Seq<char>, prefix: Seq<char>)
    requires
        has_prefix(target, prefix),
    ensures
        has_prefix("word/"@ + target, "word/"@ + prefix),
{
    let w = "word/"@;
    assert(("word/"@ + target).subrange(0, (w + prefix).len() as int) =~= w + prefix);
}

proof fn lemma_step_sound(kind: MarkerKind, ids: Seq<Seq<char>>, e: XmlEvent)
    ensures
        relationship_step(kind, ids, e) matches Ok((id, found)) ==> {
            &&& !ids.contains(id)
            &&& valid_relationship_id(id)
            &&& (found matches Some(r) ==> r.0 == id && has_prefix(r.1, part_directory(kind)))
        },
{
    reveal_strlit("embeddings/");
    reveal_strlit("media/");
    reveal_strlit("word/");
    reveal_strlit("word/embeddings/");
    reveal_strlit("word/media/");
    if let Ok((id, Some(r))) = relationship_step(kind, ids, e) {
        match rel_attribute(e, "Target"@) {
            Ok(Some(target)) => {
                match kind {
                    MarkerKind::MathType => {
                        if let Ok(_) = spec_target_under(target, "embeddings/"@) {
                            lemma_prefixed_part(target, "embeddings/"@);
                            assert("word/"@ + "embeddings/"@ =~= "word/embeddings/"@);
                        }
                    },
                    MarkerKind::Image => {
                        if let Ok(_) = spec_target_under(target, "media/"@) {
                            lemma_prefixed_part(target, "media/"@);
                            assert("word/"@ + "media/"@ =~= "word/media/"@);
                        }
                    },
                }
            },
            _ => {},
        }
    }
}

proof fn lemma_relationships_from_sound(
    kind: MarkerKind,
    stream: XmlStream,
    i: int,
    ids: Seq<Seq<char>>,
    found: Seq<(Seq<char>, Seq<char>, Option<Seq<char>>)>,
)
    requires
        forall|k: int| 0 <= k < found.len() ==> ids.contains(#[trigger] found[k].0),
        distinct_ids(found),
        sound_relationships(kind, found),
    ensures
        relationships_from(kind, stream, i, ids, found) matches Ok(all) ==> distinct_ids(all)
            && sound_relationships(kind, all),
    decreases stream.events@.len() - i,
{
    if 0 <= i < stream.events@.len() {
        let e = stream.events@[i];
        if e.kind != XmlEventKind::Eof && is_relationship_element(e) {
            lemma_step_sound(kind, ids, e);
            match relationship_step(kind, ids, e) {
                Ok((id, None)) => {
                    assert forall|k: int| 0 <= k < found.len() implies ids.push(id).contains(
                        #[trigger] found[k].0,
                    ) by {
                        let w = choose|w: int| 0 <= w < ids.len() && ids[w] == found[k].0;
                        assert(ids.push(id)[w] == found[k].0);
                    }
                    lemma_relationships_from_sound(kind, stream, i + 1, ids.push(id), found);
                },
                Ok((id, Some(r))) => {
                    let more = found.push(r);
                    assert forall|k: int| 0 <= k < more.len() implies ids.push(id).contains(
                        #[trigger] more[k].0,
                    ) by {
                        if k < found.len() {
                            let w = choose|w: int| 0 <= w < ids.len() && ids[w] == found[k].0;
                            assert(ids.push(id)[w] == more[k].0);
                        } else {
                            assert(ids.push(id)[ids.len() as int] == more[k].0);
                        }
                    }
                    assert forall|a: int, b: int| 0 <= a < b < more.len() implies more[a].0
                        != more[b].0 by {
                        if b == found.len() {
                            assert(ids.contains(found[a].0));
                        }
                    }
                    lemma_relationships_from_sound(kind, stream, i + 1, ids.push(id), more);
                },
                Err(_) => {},
            }
        } else if e.kind != XmlEventKind::Eof {
            lemma_relationships_from_sound(kind, stream, i + 1, ids, found);
        }
    }
}

/// The relationships a reader returns have distinct, valid ids, and each
/// points to a part inside `word/embeddings/` (MathType) or `word/media/`
/// (images).
pub proof fn lemma_relationships_sound(kind: MarkerKind, stream: XmlStream, limits: DocxLimits)
    ensures
        spec_relationships(kind, stream, limits) matches Ok(found) ==> distinct_ids(found)
            && sound_relationships(kind, found),
{
    lemma_relationships_from_sound(kind, stream, 0, Seq::empty(), Seq::empty());
}

} // verus!
