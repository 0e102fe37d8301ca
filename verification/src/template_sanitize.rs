//! Making a template free of embedded MathType objects once their question
//! region is gone: which relationships the main document's objects use, and
//! the relationship and content-type parts without the removed objects.
use vstd::prelude::*;
use crate::diagnostic::{Diagnostic, DiagnosticSeverity, DiagnosticView, any_error, diagnostics_view, has_error};
use crate::document::{msg_positions, positions_fit, positions_within};
use crate::error::{DocxError, DocxFault, DocxResult};
use crate::limits::DocxLimits;
use crate::opc::{parse_content_types, scan_relationships, spec_content_types, spec_scan_relationships};
use crate::package::{CONTENT_TYPES_PART, DOCUMENT_PART};
use crate::page_setup::prior_position;
use crate::relationships::DOCUMENT_RELS_PART;
use crate::text::{ascii_lower, ascii_lower_chars, chars_of, has_infix, has_prefix, contains_chars, same_text, starts_with_chars};
use crate::xml::{
    NamespaceKind, XmlEvent, XmlEventKind, XmlStream, attribute_value, classify_namespace, opt_text,
    spec_attribute_value, spec_classify,
};
use crate::xml_reader::{read_part_events, read_xml_stream};
use crate::archive::{archive_len, entry_name_facts, open_archive, read_part_limited};
use crate::template_styles::kept_bytes;
use crate::anchors::{names_view, sort_name_list, sort_names};
use crate::template_config::{comma_joined, push_joined};

verus! {

/// The relationships the embedded objects of the main document use: those
/// of OLE objects, and all the resources (OLE object and preview image) of
/// the objects that hold one.
pub struct ObjectRelationships {
    pub ole_ids: Vec<String>,
    pub resource_ids: Vec<String>,
}

/// The names of a list as a set.
pub open spec fn id_set(ids: Seq<String>) -> Set<Seq<char>> {
    ids.map_values(|s: String| s@).to_set()
}

/// Whether no name occurs twice.
pub open spec fn distinct_ids(ids: Seq<String>) -> bool {
    forall|i: int, j: int| 0 <= i < j < ids.len() ==> #[trigger] ids[i]@ != #[trigger] ids[j]@
}

/// The object being read: its depth and the ids it uses so far.
pub struct ObjectView {
    pub depth: int,
    pub ole: Set<Seq<char>>,
    pub resources: Set<Seq<char>>,
}

/// What the reading knows: the open object, and the ids of finished objects
/// that hold an OLE object.
pub struct ObjectScan {
    pub current: Option<ObjectView>,
    pub ole: Set<Seq<char>>,
    pub resources: Set<Seq<char>>,
}

/// The object after an element inside it: its `r:id` is a resource, and
/// that of an `o:OLEObject` an OLE object.
pub open spec fn object_element(current: Option<ObjectView>, e: XmlEvent) -> Result<Option<ObjectView>, DocxFault> {
    match current {
        None => Ok(None),
        Some(o) => match spec_attribute_value(e, "id"@, Some(NamespaceKind::OfficeRelationships), DOCUMENT_PART@) {
            Err(f) => Err(f),
            Ok(None) => Ok(Some(o)),
            Ok(Some(id)) => Ok(
                Some(
                    ObjectView {
                        resources: o.resources.insert(id),
                        ole: if spec_classify(e.namespace) == NamespaceKind::Office && e.local@ == "OLEObject"@ {
                            o.ole.insert(id)
                        } else {
                            o.ole
                        },
                        ..o
                    },
                ),
            ),
        },
    }
}

/// The reading after one event.
pub open spec fn object_step(s: ObjectScan, e: XmlEvent) -> Result<ObjectScan, DocxFault> {
    if e.kind == XmlEventKind::Start {
        let opened = if s.current is None && spec_classify(e.namespace) == NamespaceKind::Word && e.local@
            == "object"@ {
            Some(ObjectView { depth: 1, ole: Set::empty(), resources: Set::empty() })
        } else {
            match s.current {
                Some(o) => Some(ObjectView { depth: o.depth + 1, ..o }),
                None => None,
            }
        };
        match object_element(opened, e) {
            Err(f) => Err(f),
            Ok(current) => Ok(ObjectScan { current, ..s }),
        }
    } else if e.kind == XmlEventKind::Empty {
        match object_element(s.current, e) {
            Err(f) => Err(f),
            Ok(current) => Ok(ObjectScan { current, ..s }),
        }
    } else if e.kind == XmlEventKind::End {
        match s.current {
            None => Ok(s),
            Some(o) => if o.depth <= 1 {
                if o.ole.len() > 0 {
                    Ok(ObjectScan { current: None, ole: s.ole + o.ole, resources: s.resources + o.resources })
                } else {
                    Ok(ObjectScan { current: None, ..s })
                }
            } else {
                Ok(ObjectScan { current: Some(ObjectView { depth: o.depth - 1, ..o }), ..s })
            },
        }
    } else {
        Ok(s)
    }
}

/// The reading from event `i` on.
pub open spec fn objects_from(stream: XmlStream, i: int, s: ObjectScan) -> Result<ObjectScan, DocxFault>
    decreases stream.events@.len() - i,
{
    if i < 0 || i >= stream.events@.len() {
        match stream.read_error {
            Some((position, message)) => Err(DocxFault::Xml { part_name: DOCUMENT_PART@, position, message: message@ }),
            None => Ok(s),
        }
    } else {
        let e = stream.events@[i];
        if e.kind == XmlEventKind::Eof {
            Ok(s)
        } else {
            match object_step(s, e) {
                Err(f) => Err(f),
                Ok(next) => objects_from(stream, i + 1, next),
            }
        }
    }
}

/// The OLE and resource ids of the main document's embedded objects, read
/// from its events; a part over the XML limit is refused first.
pub open spec fn spec_object_relationships(stream: XmlStream, limits: DocxLimits) -> Result<
    (Set<Seq<char>>, Set<Seq<char>>),
    DocxFault,
> {
    if stream.source_len > limits.max_xml_part_bytes {
        Err(
            DocxFault::LimitExceeded {
                resource: DOCUMENT_PART@,
                limit: limits.max_xml_part_bytes,
                actual: stream.source_len,
            },
        )
    } else {
        match objects_from(stream, 0, ObjectScan { current: None, ole: Set::empty(), resources: Set::empty() }) {
            Err(f) => Err(f),
            Ok(s) => Ok((s.ole, s.resources)),
        }
    }
}

/// Distinct names make a set of the same size.
pub proof fn lemma_id_set_len(ids: Seq<String>)
    requires
        distinct_ids(ids),
    ensures
        id_set(ids).len() == ids.len(),
        id_set(ids).finite(),
{
    let names = ids.map_values(|s: String| s@);
    assert(names.no_duplicates()) by {
        assert forall|i: int, j: int| 0 <= i < names.len() && 0 <= j < names.len() && i != j implies names[i]
            != names[j] by {
            if i < j {
                assert(ids[i]@ != ids[j]@);
            } else {
                assert(ids[j]@ != ids[i]@);
            }
        }
    }
    names.unique_seq_to_set();
    vstd::seq_lib::seq_to_set_is_finite(names);
}

/// Adds `id` to `ids` unless it is there.
fn insert_id(ids: &mut Vec<String>, id: &str)
    requires
        distinct_ids(old(ids)@),
    ensures
        distinct_ids(final(ids)@),
        id_set(final(ids)@) == id_set(old(ids)@).insert(id@),
{
    let mut k: usize = 0;
    while k < ids.len()
        invariant
            k <= ids@.len(),
            ids@ == old(ids)@,
            distinct_ids(ids@),
            forall|j: int| 0 <= j < k ==> #[trigger] ids@[j]@ != id@,
        decreases ids@.len() - k,
    {
        if same_text(ids[k].as_str(), id) {
            assert(ids@.map_values(|s: String| s@)[k as int] == id@);
            assert(id_set(ids@) =~= id_set(ids@).insert(id@));
            return;
        }
        k = k + 1;
    }
    let ghost before = ids@;
    ids.push(id.to_owned());
    assert(ids@.map_values(|s: String| s@) =~= before.map_values(|s: String| s@).push(id@));
    proof {
        before.map_values(|s: String| s@).lemma_push_to_set_commute(id@);
    }
}

/// Adds every id of `more` to `ids`.
fn extend_ids(ids: &mut Vec<String>, more: &Vec<String>)
    requires
        distinct_ids(old(ids)@),
    ensures
        distinct_ids(final(ids)@),
        id_set(final(ids)@) == id_set(old(ids)@) + id_set(more@),
{
    let mut k: usize = 0;
    assert(more@.subrange(0, 0).map_values(|s: String| s@).to_set() =~= Set::<Seq<char>>::empty());
    assert(id_set(ids@) =~= id_set(old(ids)@) + id_set(more@.subrange(0, 0)));
    while k < more.len()
        invariant
            k <= more@.len(),
            distinct_ids(ids@),
            id_set(ids@) == id_set(old(ids)@) + id_set(more@.subrange(0, k as int)),
        decreases more@.len() - k,
    {
        insert_id(ids, more[k].as_str());
        assert(more@.subrange(0, k + 1).map_values(|s: String| s@) =~= more@.subrange(0, k as int).map_values(
            |s: String| s@,
        ).push(more@[k as int]@));
        proof {
            more@.subrange(0, k as int).map_values(|s: String| s@).lemma_push_to_set_commute(more@[k as int]@);
        }
        assert(id_set(ids@) =~= id_set(old(ids)@) + id_set(more@.subrange(0, k + 1)));
        k = k + 1;
    }
    assert(more@.subrange(0, more@.len() as int) =~= more@);
}

/// The object being read.
struct ObjectBuilder {
    depth: usize,
    ole: Vec<String>,
    resources: Vec<String>,
}

spec fn builder_view(b: Option<ObjectBuilder>) -> Option<ObjectView> {
    match b {
        Some(o) => Some(ObjectView { depth: o.depth as int, ole: id_set(o.ole@), resources: id_set(o.resources@) }),
        None => None,
    }
}

spec fn builder_ok(b: Option<ObjectBuilder>) -> bool {
    b matches Some(o) ==> distinct_ids(o.ole@) && distinct_ids(o.resources@)
}

/// Takes the ids an element inside the open object names.
fn take_object_element(current: &mut Option<ObjectBuilder>, e: &XmlEvent) -> (result: DocxResult<()>)
    requires
        builder_ok(*old(current)),
    ensures
        builder_ok(*final(current)),
        match (result, object_element(builder_view(*old(current)), *e)) {
            (Ok(_), Ok(expected)) => builder_view(*final(current)) == expected,
            (Err(x), Err(fault)) => x@ == fault,
            _ => false,
        },
{
    if current.is_none() {
        return Ok(());
    }
    let id = match attribute_value(e, "id", Some(NamespaceKind::OfficeRelationships), DOCUMENT_PART) {
        Err(x) => return Err(x),
        Ok(None) => return Ok(()),
        Ok(Some(id)) => id,
    };
    let mut o = current.take().unwrap();
    insert_id(&mut o.resources, id.as_str());
    if classify_namespace(&e.namespace) == NamespaceKind::Office && same_text(e.local.as_str(), "OLEObject") {
        insert_id(&mut o.ole, id.as_str());
    }
    *current = Some(o);
    Ok(())
}

/// The relationships the embedded objects of `word/document.xml`, given as
/// its events, use: the ids of OLE objects, and every id an object holding
/// an OLE object uses.
pub fn object_relationships_from_events(stream: &XmlStream, limits: &DocxLimits) -> (result: DocxResult<ObjectRelationships>)
    ensures
        match (result, spec_object_relationships(*stream, *limits)) {
            (Ok(r), Ok((ole, resources))) => id_set(r.ole_ids@) == ole && id_set(r.resource_ids@) == resources
                && distinct_ids(r.ole_ids@) && distinct_ids(r.resource_ids@),
            (Err(x), Err(fault)) => x@ == fault,
            _ => false,
        },
{
    if stream.source_len > limits.max_xml_part_bytes {
        return Err(
            DocxError::LimitExceeded {
                resource: DOCUMENT_PART.to_owned(),
                limit: limits.max_xml_part_bytes,
                actual: stream.source_len,
            },
        );
    }
    let mut current: Option<ObjectBuilder> = None;
    let mut ole: Vec<String> = Vec::new();
    let mut resources: Vec<String> = Vec::new();
    assert(id_set(ole@) =~= Set::<Seq<char>>::empty());
    assert(id_set(resources@) =~= Set::<Seq<char>>::empty());
    let events = stream.events.as_slice();
    let mut i: usize = 0;
    let mut ended = false;
    while i < events.len() && !ended
        invariant
            i <= events@.len(),
            events@ == stream.events@,
            builder_ok(current),
            current matches Some(o) ==> o.depth <= i,
            distinct_ids(ole@),
            distinct_ids(resources@),
            stream.source_len <= limits.max_xml_part_bytes,
            ({
                let s = ObjectScan { current: builder_view(current), ole: id_set(ole@), resources: id_set(resources@) };
                &&& ended ==> objects_from(
                    *stream,
                    0,
                    ObjectScan { current: None, ole: Set::empty(), resources: Set::empty() },
                ) == Ok::<ObjectScan, DocxFault>(s)
                &&& !ended ==> objects_from(
                    *stream,
                    0,
                    ObjectScan { current: None, ole: Set::empty(), resources: Set::empty() },
                ) == objects_from(*stream, i as int, s)
            }),
        decreases events@.len() - i + if ended { 0int } else { 1int },
    {
        let e = &events[i];
        if e.kind == XmlEventKind::Eof {
            ended = true;
        } else {
            if e.kind == XmlEventKind::Start {
                if current.is_none() && classify_namespace(&e.namespace) == NamespaceKind::Word && same_text(
                    e.local.as_str(),
                    "object",
                ) {
                    current = Some(ObjectBuilder { depth: 1, ole: Vec::new(), resources: Vec::new() });
                    assert(id_set(current->0.ole@) =~= Set::<Seq<char>>::empty());
                    assert(id_set(current->0.resources@) =~= Set::<Seq<char>>::empty());
                } else {
                    match current.take() {
                        Some(mut o) => {
                            o.depth = o.depth + 1;
                            current = Some(o);
                        },
                        None => {},
                    }
                }
                match take_object_element(&mut current, e) {
                    Err(x) => return Err(x),
                    Ok(_) => {},
                }
            } else if e.kind == XmlEventKind::Empty {
                match take_object_element(&mut current, e) {
                    Err(x) => return Err(x),
                    Ok(_) => {},
                }
            } else if e.kind == XmlEventKind::End {
                match current.take() {
                    Some(mut o) => {
                        if o.depth <= 1 {
                            if o.ole.len() > 0 {
                                proof {
                                    lemma_id_set_len(o.ole@);
                                }
                                extend_ids(&mut ole, &o.ole);
                                extend_ids(&mut resources, &o.resources);
                            } else {
                                proof {
                                    lemma_id_set_len(o.ole@);
                                }
                            }
                        } else {
                            o.depth = o.depth - 1;
                            current = Some(o);
                        }
                    },
                    None => {},
                }
            }
            i = i + 1;
        }
    }
    if !ended {
        match &stream.read_error {
            Some((position, message)) => {
                return Err(DocxError::xml(DOCUMENT_PART, *position, message.as_str()));
            },
            None => {},
        }
    }
    Ok(ObjectRelationships { ole_ids: ole, resource_ids: resources })
}

/// The relationships the embedded objects of `word/document.xml`, read from
/// its bytes, use: the outcome of [`object_relationships_from_events`] on
/// the events the XML reader gives.
pub fn collect_mathtype_object_relationships(document_xml: &[u8], limits: &DocxLimits) -> (result: DocxResult<
    ObjectRelationships,
>)
    ensures
        exists|stream: XmlStream|
            stream.source_len == document_xml@.len() && match (result, #[trigger] spec_object_relationships(stream, *limits)) {
                (Ok(r), Ok((ole, resources))) => id_set(r.ole_ids@) == ole && id_set(r.resource_ids@) == resources
                    && distinct_ids(r.ole_ids@) && distinct_ids(r.resource_ids@),
                (Err(x), Err(fault)) => x@ == fault,
                _ => false,
            },
{
    let stream = read_part_events(document_xml, limits.max_xml_part_bytes);
    let result = object_relationships_from_events(&stream, limits);
    assert(spec_object_relationships(stream, *limits) == spec_object_relationships(stream, *limits));
    result
}

/// Which elements a filter removes.
#[derive(Clone, Copy, PartialEq, Eq, Structural)]
pub enum FilterMode {
    /// `Relationship` elements whose `Id` is one of the given ids.
    Relationships,
    /// `Default` and `Override` elements for OLE objects or embedded parts.
    OleContentTypes,
}

/// The part a filter reads.
pub open spec fn filter_part(mode: FilterMode) -> Seq<char> {
    match mode {
        FilterMode::Relationships => DOCUMENT_RELS_PART@,
        FilterMode::OleContentTypes => CONTENT_TYPES_PART@,
    }
}

/// The attribute `local` of `e`, or empty.
pub open spec fn attr_or_empty(r: Result<Option<Seq<char>>, DocxFault>) -> Result<Seq<char>, DocxFault> {
    match r {
        Err(f) => Err(f),
        Ok(None) => Ok(Seq::empty()),
        Ok(Some(v)) => Ok(v),
    }
}

/// Whether the filter removes the element `e`, and the removed id.
pub open spec fn removal(e: XmlEvent, mode: FilterMode, ids: Set<Seq<char>>) -> Result<Option<Seq<char>>, DocxFault> {
    let ns = spec_classify(e.namespace);
    match mode {
        FilterMode::Relationships => if ns == NamespaceKind::Relationships && e.local@ == "Relationship"@ {
            match attr_or_empty(spec_attribute_value(e, "Id"@, None, DOCUMENT_RELS_PART@)) {
                Err(f) => Err(f),
                Ok(id) => if ids.contains(id) {
                    Ok(Some(id))
                } else {
                    Ok(None)
                },
            }
        } else {
            Ok(None)
        },
        FilterMode::OleContentTypes => if ns == NamespaceKind::ContentTypes && (e.local@ == "Default"@ || e.local@
            == "Override"@) {
            match attr_or_empty(spec_attribute_value(e, "ContentType"@, None, CONTENT_TYPES_PART@)) {
                Err(f) => Err(f),
                Ok(content_type) => match attr_or_empty(spec_attribute_value(e, "PartName"@, None, CONTENT_TYPES_PART@)) {
                    Err(f) => Err(f),
                    Ok(part) => if crate::text::has_infix(ascii_lower(content_type), "oleobject"@) || has_prefix(
                        ascii_lower(part),
                        "/word/embeddings/"@,
                    ) {
                        Ok(Some(part))
                    } else {
                        Ok(None)
                    },
                },
            }
        } else {
            Ok(None)
        },
    }
}

/// What the filter knows: how deep inside a removed element it is, the
/// spans of the events it keeps, and the ids it removed.
pub struct FilterScan {
    pub skipped: int,
    pub kept: Seq<(int, int)>,
    pub removed: Set<Seq<char>>,
}

/// The filter after the event `e`, which spans `start..end`.
pub open spec fn filter_step(s: FilterScan, e: XmlEvent, start: int, end: int, mode: FilterMode, ids: Set<Seq<char>>) -> Result<
    FilterScan,
    DocxFault,
> {
    if s.skipped > 0 {
        if e.kind == XmlEventKind::Start {
            Ok(FilterScan { skipped: s.skipped + 1, ..s })
        } else if e.kind == XmlEventKind::End {
            Ok(FilterScan { skipped: s.skipped - 1, ..s })
        } else {
            Ok(s)
        }
    } else if e.kind == XmlEventKind::Start || e.kind == XmlEventKind::Empty {
        match removal(e, mode, ids) {
            Err(f) => Err(f),
            Ok(Some(id)) => Ok(
                FilterScan {
                    skipped: if e.kind == XmlEventKind::Start { 1 } else { 0 },
                    removed: s.removed.insert(id),
                    ..s
                },
            ),
            Ok(None) => Ok(FilterScan { kept: s.kept.push((start, end)), ..s }),
        }
    } else {
        Ok(FilterScan { kept: s.kept.push((start, end)), ..s })
    }
}

/// The filter from event `i` on.
pub open spec fn filter_from(stream: XmlStream, i: int, s: FilterScan, mode: FilterMode, ids: Set<Seq<char>>) -> Result<
    FilterScan,
    DocxFault,
>
    decreases stream.events@.len() - i,
{
    if i < 0 || i >= stream.events@.len() {
        match stream.read_error {
            Some((position, message)) => Err(DocxFault::Xml { part_name: filter_part(mode), position, message: message@ }),
            None => Ok(s),
        }
    } else {
        let e = stream.events@[i];
        if e.kind == XmlEventKind::Eof {
            Ok(s)
        } else {
            match filter_step(s, e, prior_position(stream, i) as int, e.position as int, mode, ids) {
                Err(f) => Err(f),
                Ok(next) => filter_from(stream, i + 1, next, mode, ids),
            }
        }
    }
}

/// The bytes the filter keeps of `xml`, given as its events, and the ids it
/// removed: every event outside a removed element, byte for byte.
pub open spec fn spec_filter(stream: XmlStream, xml: Seq<u8>, mode: FilterMode, ids: Set<Seq<char>>) -> Result<
    (Seq<u8>, Set<Seq<char>>),
    DocxFault,
> {
    match filter_from(stream, 0, FilterScan { skipped: 0, kept: Seq::empty(), removed: Set::empty() }, mode, ids) {
        Err(f) => Err(f),
        Ok(s) => Ok((kept_bytes(xml, s.kept), s.removed)),
    }
}

/// The attribute `local` of `e`, or empty.
fn attribute_or_empty(e: &XmlEvent, local: &str, part_name: &str) -> (result: DocxResult<String>)
    ensures
        match (result, attr_or_empty(spec_attribute_value(*e, local@, None, part_name@))) {
            (Ok(v), Ok(expected)) => v@ == expected,
            (Err(x), Err(fault)) => x@ == fault,
            _ => false,
        },
{
    match attribute_value(e, local, None, part_name) {
        Err(x) => Err(x),
        Ok(None) => Ok(String::new()),
        Ok(Some(v)) => Ok(v),
    }
}

/// Whether `ids` holds `id`.
fn holds_id(ids: &[String], id: &str) -> (found: bool)
    ensures
        found == id_set(ids@).contains(id@),
{
    let mut k: usize = 0;
    while k < ids.len()
        invariant
            k <= ids@.len(),
            forall|j: int| 0 <= j < k ==> #[trigger] ids@[j]@ != id@,
        decreases ids@.len() - k,
    {
        if same_text(ids[k].as_str(), id) {
            assert(ids@.map_values(|s: String| s@)[k as int] == id@);
            return true;
        }
        k = k + 1;
    }
    proof {
        if id_set(ids@).contains(id@) {
            let names = ids@.map_values(|s: String| s@);
            let j = choose|j: int| 0 <= j < names.len() && #[trigger] names[j] == id@;
            assert(ids@[j]@ == id@);
        }
    }
    false
}

/// Whether the filter removes the element `e`, and the removed id.
fn removal_of(e: &XmlEvent, mode: FilterMode, ids: &[String]) -> (result: DocxResult<Option<String>>)
    ensures
        match (result, removal(*e, mode, id_set(ids@))) {
            (Ok(v), Ok(expected)) => opt_text(v) == expected,
            (Err(x), Err(fault)) => x@ == fault,
            _ => false,
        },
{
    let ns = classify_namespace(&e.namespace);
    let local = e.local.as_str();
    match mode {
        FilterMode::Relationships => {
            if ns == NamespaceKind::Relationships && same_text(local, "Relationship") {
                let id = match attribute_or_empty(e, "Id", DOCUMENT_RELS_PART) {
                    Err(x) => return Err(x),
                    Ok(v) => v,
                };
                if holds_id(ids, id.as_str()) {
                    Ok(Some(id))
                } else {
                    Ok(None)
                }
            } else {
                Ok(None)
            }
        },
        FilterMode::OleContentTypes => {
            if ns == NamespaceKind::ContentTypes && (same_text(local, "Default") || same_text(local, "Override")) {
                let content_type = match attribute_or_empty(e, "ContentType", CONTENT_TYPES_PART) {
                    Err(x) => return Err(x),
                    Ok(v) => v,
                };
                let part = match attribute_or_empty(e, "PartName", CONTENT_TYPES_PART) {
                    Err(x) => return Err(x),
                    Ok(v) => v,
                };
                let ole = contains_chars(
                    ascii_lower_chars(chars_of(content_type.as_str()).as_slice()).as_slice(),
                    chars_of("oleobject").as_slice(),
                );
                let embedded = starts_with_chars(
                    ascii_lower_chars(chars_of(part.as_str()).as_slice()).as_slice(),
                    chars_of("/word/embeddings/").as_slice(),
                );
                if ole || embedded {
                    Ok(Some(part))
                } else {
                    Ok(None)
                }
            } else {
                Ok(None)
            }
        },
    }
}

/// The bytes of an XML part, given as its events, without the elements the
/// filter removes, and the ids it removed.
pub fn filter_elements(stream: &XmlStream, xml: &[u8], mode: FilterMode, ids: &[String]) -> (result: DocxResult<
    (Vec<u8>, Vec<String>),
>)
    requires
        positions_fit(*stream, xml@.len() as int),
    ensures
        match (result, spec_filter(*stream, xml@, mode, id_set(ids@))) {
            (Ok((bytes, removed)), Ok((expected, removed_ids))) => bytes@ == expected && id_set(removed@)
                == removed_ids && distinct_ids(removed@),
            (Err(x), Err(fault)) => x@ == fault,
            _ => false,
        },
{
    let events = stream.events.as_slice();
    let mut skipped: usize = 0;
    let mut out: Vec<u8> = Vec::new();
    let ghost mut kept: Seq<(int, int)> = Seq::empty();
    let mut removed: Vec<String> = Vec::new();
    assert(id_set(removed@) =~= Set::<Seq<char>>::empty());
    let mut start: u64 = 0;
    let mut i: usize = 0;
    let mut ended = false;
    let xml_len = xml.len();
    while i < events.len() && !ended
        invariant
            xml_len == xml@.len(),
            i <= events@.len(),
            events@ == stream.events@,
            positions_fit(*stream, xml@.len() as int),
            skipped <= i,
            start == prior_position(*stream, i as int),
            start <= xml@.len(),
            out@ == kept_bytes(xml@, kept),
            distinct_ids(removed@),
            ({
                let s = FilterScan { skipped: skipped as int, kept, removed: id_set(removed@) };
                &&& ended ==> filter_from(
                    *stream,
                    0,
                    FilterScan { skipped: 0, kept: Seq::empty(), removed: Set::empty() },
                    mode,
                    id_set(ids@),
                ) == Ok::<FilterScan, DocxFault>(s)
                &&& !ended ==> filter_from(
                    *stream,
                    0,
                    FilterScan { skipped: 0, kept: Seq::empty(), removed: Set::empty() },
                    mode,
                    id_set(ids@),
                ) == filter_from(*stream, i as int, s, mode, id_set(ids@))
            }),
        decreases events@.len() - i + if ended { 0int } else { 1int },
    {
        let e = &events[i];
        assert(e.position <= xml@.len() && (i > 0 ==> stream.events@[i - 1].position <= e.position));
        assert(start <= e.position) by {
            if i > 0 {
                assert(stream.events@[i - 1].position <= stream.events@[i as int].position);
            }
        }
        let s_pos = start as usize;
        let e_pos = e.position as usize;
        if e.kind == XmlEventKind::Eof {
            ended = true;
        } else {
            let keep = if skipped > 0 {
                if e.kind == XmlEventKind::Start {
                    skipped = skipped + 1;
                } else if e.kind == XmlEventKind::End {
                    skipped = skipped - 1;
                }
                false
            } else if e.kind == XmlEventKind::Start || e.kind == XmlEventKind::Empty {
                match removal_of(e, mode, ids) {
                    Err(x) => return Err(x),
                    Ok(Some(id)) => {
                        if e.kind == XmlEventKind::Start {
                            skipped = 1;
                        }
                        insert_id(&mut removed, id.as_str());
                        false
                    },
                    Ok(None) => true,
                }
            } else {
                true
            };
            if keep {
                crate::template_styles::push_bytes_range(&mut out, xml, s_pos, e_pos);
                proof {
                    let next = kept.push((s_pos as int, e_pos as int));
                    assert(next.drop_last() =~= kept);
                    kept = next;
                }
            }
            start = e.position;
            i = i + 1;
        }
    }
    if !ended {
        match &stream.read_error {
            Some((position, message)) => {
                let part = match mode {
                    FilterMode::Relationships => DOCUMENT_RELS_PART,
                    FilterMode::OleContentTypes => CONTENT_TYPES_PART,
                };
                return Err(DocxError::xml(part, *position, message.as_str()));
            },
            None => {},
        }
    }
    Ok((out, removed))
}

/// The limits of a check that allows no OLE object.
pub open spec fn strict(limits: DocxLimits) -> DocxLimits {
    DocxLimits { allow_mathtype_ole: false, ..limits }
}

/// The limits of a check that allows no OLE object.
pub fn strict_limits(limits: &DocxLimits) -> (result: DocxLimits)
    ensures
        result == strict(*limits),
{
    DocxLimits {
        allow_mathtype_ole: false,
        max_archive_bytes: limits.max_archive_bytes,
        max_entries: limits.max_entries,
        max_total_uncompressed_bytes: limits.max_total_uncompressed_bytes,
        max_part_uncompressed_bytes: limits.max_part_uncompressed_bytes,
        max_xml_part_bytes: limits.max_xml_part_bytes,
        max_media_part_bytes: limits.max_media_part_bytes,
        max_xml_depth: limits.max_xml_depth,
        suspicious_compression_ratio: limits.suspicious_compression_ratio,
    }
}

/// The names of `names` that `removed` lacks, each once, in the order of
/// their first occurrence.
pub open spec fn missing_names(names: Seq<Seq<char>>, removed: Set<Seq<char>>) -> Seq<Seq<char>>
    decreases names.len(),
{
    if names.len() == 0 {
        Seq::empty()
    } else {
        let before = missing_names(names.drop_last(), removed);
        let name = names.last();
        if removed.contains(name) || before.contains(name) {
            before
        } else {
            before.push(name)
        }
    }
}

/// A missing name is one of the given names that was not removed.
proof fn lemma_missing_names(names: Seq<Seq<char>>, removed: Set<Seq<char>>)
    ensures
        forall|n: Seq<char>| #[trigger] missing_names(names, removed).contains(n) <==> (names.contains(n) && !removed.contains(n)),
    decreases names.len(),
{
    if names.len() > 0 {
        lemma_missing_names(names.drop_last(), removed);
        assert forall|n: Seq<char>| names.contains(n) <==> (names.drop_last().contains(n) || n == names.last()) by {
            if names.contains(n) {
                let k = choose|k: int| 0 <= k < names.len() && names[k] == n;
                if k < names.len() - 1 {
                    assert(names.drop_last()[k] == n);
                }
            }
            if names.drop_last().contains(n) {
                let k = choose|k: int| 0 <= k < names.len() - 1 && names.drop_last()[k] == n;
                assert(names[k] == n);
            }
            if n == names.last() {
                assert(names[names.len() - 1] == n);
            }
        }
        let before = missing_names(names.drop_last(), removed);
        let name = names.last();
        if !(removed.contains(name) || before.contains(name)) {
            assert forall|n: Seq<char>| #[trigger] before.push(name).contains(n) <==> (before.contains(n) || n == name) by {
                if before.push(name).contains(n) {
                    let k = choose|k: int| 0 <= k < before.len() + 1 && before.push(name)[k] == n;
                    if k < before.len() {
                        assert(before[k] == n);
                    }
                }
                if before.contains(n) {
                    let k = choose|k: int| 0 <= k < before.len() && before[k] == n;
                    assert(before.push(name)[k] == n);
                }
                if n == name {
                    assert(before.push(name)[before.len() as int] == n);
                }
            }
        }
    }
}

/// The ids of `ids` that `removed` lacks, each once, in the order of their
/// first occurrence.
fn missing_ids(ids: &[String], removed: &[String]) -> (missing: Vec<String>)
    ensures
        names_view(missing@) == missing_names(names_view(ids@), id_set(removed@)),
{
    let ghost names = names_view(ids@);
    let mut missing: Vec<String> = Vec::new();
    let mut k: usize = 0;
    assert(names.subrange(0, 0) =~= Seq::<Seq<char>>::empty());
    while k < ids.len()
        invariant
            k <= ids@.len(),
            names == names_view(ids@),
            names_view(missing@) == missing_names(names.subrange(0, k as int), id_set(removed@)),
        decreases ids@.len() - k,
    {
        assert(names.subrange(0, k + 1).drop_last() =~= names.subrange(0, k as int));
        assert(names.subrange(0, k + 1).last() == ids@[k as int]@);
        if !holds_id(removed, ids[k].as_str()) && !holds_id(missing.as_slice(), ids[k].as_str()) {
            let ghost before = missing@;
            missing.push(ids[k].clone());
            proof {
                assert(names_view(missing@) =~= names_view(before).push(ids@[k as int]@));
                assert(id_set(before) =~= names_view(before).to_set());
            }
        } else {
            proof {
                assert(id_set(missing@) =~= names_view(missing@).to_set());
            }
        }
        k = k + 1;
    }
    assert(names.subrange(0, ids@.len() as int) =~= names);
    missing
}

/// The refusal when some of the relationships to remove were not found.
pub open spec fn relationships_missing_fault(missing: Seq<Seq<char>>) -> DocxFault {
    DocxFault::Rejected {
        diagnostics: seq![
            DiagnosticView {
                severity: DiagnosticSeverity::Error,
                code: "TEMPLATE_MATHTYPE_RELATIONSHIP_MISSING"@,
                part_name: Some(DOCUMENT_RELS_PART@),
                message: "无法找到需要清理的公式关系："@ + comma_joined(sort_names(missing)),
                suggested_action: None,
            }
        ],
    }
}

/// Whether `result` is what removing the relationships `ids` from `xml`
/// gives, when the XML reader gives the events `read` for it and `check`
/// for the filtered part: the positions error when `read` does not fit the
/// part; the filter's error; the refusal naming the ids not found; the
/// error or findings of checking the filtered part under a policy that
/// allows no OLE object; else the filtered part.
pub open spec fn relationships_outcome(
    result: DocxResult<Vec<u8>>,
    read: XmlStream,
    check: XmlStream,
    xml: Seq<u8>,
    ids: Seq<Seq<char>>,
    limits: DocxLimits,
) -> bool {
    if positions_fit(read, xml.len() as int) {
        match spec_filter(read, xml, FilterMode::Relationships, ids.to_set()) {
            Err(fault) => result matches Err(x) && x@ == fault,
            Ok((out, removed)) => if missing_names(ids, removed).len() > 0 {
                result matches Err(x) && x@ == relationships_missing_fault(missing_names(ids, removed))
            } else {
                &&& check.source_len == out.len()
                &&& (out.len() > limits.max_xml_part_bytes ==> check.events@.len() == 0 && check.read_error is None)
                &&& match spec_scan_relationships(check, DOCUMENT_RELS_PART@, strict(limits)) {
                    (_, Some(fault)) => result matches Err(x) && x@ == fault,
                    (found, None) => if has_error(found) {
                        result matches Err(x) && x@ == DocxFault::Rejected { diagnostics: found }
                    } else {
                        result matches Ok(o) && o@ == out && removed == ids.to_set()
                    },
                }
            },
        }
    } else {
        result matches Err(x) && x@ == DocxFault::Xml {
            part_name: DOCUMENT_RELS_PART@,
            position: 0,
            message: msg_positions(),
        }
    }
}

/// The relationship part without the relationships named in
/// `relationship_ids` (and their content); refused when one of them is not
/// found, or when the result holds active or external relationships under a
/// policy that allows no OLE object.
pub fn remove_relationships(relationships_xml: &[u8], relationship_ids: &[String], limits: &DocxLimits) -> (result:
    DocxResult<Vec<u8>>)
    ensures
        exists|read: XmlStream, check: XmlStream|
            read.source_len == relationships_xml@.len() && #[trigger] relationships_outcome(
                result,
                read,
                check,
                relationships_xml@,
                names_view(relationship_ids@),
                *limits,
            ),
{
    let ghost names = names_view(relationship_ids@);
    proof {
        assert(id_set(relationship_ids@) =~= names.to_set());
    }
    let stream = read_xml_stream(relationships_xml);
    if !positions_within(&stream, relationships_xml.len()) {
        let result = Err(DocxError::xml(DOCUMENT_RELS_PART, 0, "the XML reader reported positions outside the part"));
        assert(relationships_outcome(result, stream, stream, relationships_xml@, names, *limits));
        return result;
    }
    let (output, removed) = match filter_elements(&stream, relationships_xml, FilterMode::Relationships, relationship_ids) {
        Err(x) => {
            let result = Err(x);
            assert(relationships_outcome(result, stream, stream, relationships_xml@, names, *limits));
            return result;
        },
        Ok(pair) => pair,
    };
    let missing = missing_ids(relationship_ids, removed.as_slice());
    if missing.len() > 0 {
        let sorted = sort_name_list(missing);
        let mut message = "无法找到需要清理的公式关系：".to_owned();
        push_joined(&mut message, &sorted);
        let d = Diagnostic::error("TEMPLATE_MATHTYPE_RELATIONSHIP_MISSING", Some(DOCUMENT_RELS_PART.to_owned()), message);
        let ghost dv = d@;
        let found = vec![d];
        assert(diagnostics_view(found@) =~= seq![dv]);
        let result = Err(DocxError::rejected(found));
        assert(relationships_outcome(result, stream, stream, relationships_xml@, names, *limits));
        return result;
    }
    proof {
        lemma_missing_names(names, id_set(removed@));
        lemma_removed_within(stream, relationships_xml@, FilterMode::Relationships, id_set(relationship_ids@));
        assert(id_set(removed@) =~= names.to_set()) by {
            assert forall|x: Seq<char>| names.to_set().contains(x) implies id_set(removed@).contains(x) by {
                if !id_set(removed@).contains(x) {
                    assert(missing_names(names, id_set(removed@)).contains(x));
                }
            }
        }
    }
    let strict = strict_limits(limits);
    let check = read_part_events(output.as_slice(), strict.max_xml_part_bytes);
    let mut diagnostics: Vec<Diagnostic> = Vec::new();
    assert(diagnostics_view(diagnostics@) =~= Seq::<DiagnosticView>::empty());
    match scan_relationships(&check, DOCUMENT_RELS_PART, &strict, &mut diagnostics) {
        Err(x) => {
            let result = Err(x);
            assert(relationships_outcome(result, stream, check, relationships_xml@, names, *limits));
            return result;
        },
        Ok(_) => {},
    }
    if any_error(diagnostics.as_slice()) {
        let result = Err(DocxError::rejected(diagnostics));
        assert(relationships_outcome(result, stream, check, relationships_xml@, names, *limits));
        return result;
    }
    let result = Ok(output);
    assert(relationships_outcome(result, stream, check, relationships_xml@, names, *limits));
    result
}

/// The ids a relationship filter removes are among those it was given.
proof fn lemma_removed_within(stream: XmlStream, xml: Seq<u8>, mode: FilterMode, ids: Set<Seq<char>>)
    requires
        mode == FilterMode::Relationships,
    ensures
        spec_filter(stream, xml, mode, ids) matches Ok((_, removed)) ==> removed.subset_of(ids),
{
    lemma_filter_from_within(stream, 0, FilterScan { skipped: 0, kept: Seq::empty(), removed: Set::empty() }, mode, ids);
}

proof fn lemma_filter_from_within(stream: XmlStream, i: int, s: FilterScan, mode: FilterMode, ids: Set<Seq<char>>)
    requires
        mode == FilterMode::Relationships,
        s.removed.subset_of(ids),
    ensures
        filter_from(stream, i, s, mode, ids) is Ok ==> filter_from(stream, i, s, mode, ids)->Ok_0.removed.subset_of(ids),
    decreases stream.events@.len() - i,
{
    if 0 <= i < stream.events@.len() {
        let e = stream.events@[i];
        if e.kind != XmlEventKind::Eof {
            let r = filter_step(s, e, prior_position(stream, i) as int, e.position as int, mode, ids);
            if r is Ok {
                lemma_filter_from_within(stream, i + 1, r->Ok_0, mode, ids);
            }
        }
    }
}

/// Whether `result` is what removing the OLE entries from the content
/// types `xml` gives, when the XML reader gives the events `read` for it and
/// `check` for the filtered part: the positions error when `read` does not
/// fit the part; the filter's error; the error of reading the filtered part
/// as content types under a policy that allows no OLE object; else the
/// filtered part.
pub open spec fn content_types_outcome(
    result: DocxResult<Vec<u8>>,
    read: XmlStream,
    check: XmlStream,
    xml: Seq<u8>,
    limits: DocxLimits,
) -> bool {
    if positions_fit(read, xml.len() as int) {
        match spec_filter(read, xml, FilterMode::OleContentTypes, Set::empty()) {
            Err(fault) => result matches Err(x) && x@ == fault,
            Ok((out, _)) => check.source_len == out.len() && match (result, spec_content_types(check, strict(limits))) {
                (Ok(o), Ok(_)) => o@ == out,
                (Err(x), Err(fault)) => x@ == fault,
                _ => false,
            },
        }
    } else {
        result matches Err(x) && x@ == DocxFault::Xml {
            part_name: CONTENT_TYPES_PART@,
            position: 0,
            message: msg_positions(),
        }
    }
}

/// The content types part without the `Default` and `Override` entries for
/// OLE objects or parts under `/word/embeddings/`; refused when the result
/// is not acceptable content types under a policy that allows no OLE
/// object.
pub fn remove_ole_content_types(content_types_xml: &[u8], limits: &DocxLimits) -> (result: DocxResult<Vec<u8>>)
    ensures
        exists|read: XmlStream, check: XmlStream|
            read.source_len == content_types_xml@.len() && #[trigger] content_types_outcome(
                result,
                read,
                check,
                content_types_xml@,
                *limits,
            ),
{
    let stream = read_xml_stream(content_types_xml);
    if !positions_within(&stream, content_types_xml.len()) {
        let result = Err(DocxError::xml(CONTENT_TYPES_PART, 0, "the XML reader reported positions outside the part"));
        assert(content_types_outcome(result, stream, stream, content_types_xml@, *limits));
        return result;
    }
    let none: Vec<String> = Vec::new();
    assert(id_set(none@) =~= Set::<Seq<char>>::empty());
    let (output, _) = match filter_elements(&stream, content_types_xml, FilterMode::OleContentTypes, none.as_slice()) {
        Err(x) => {
            let result = Err(x);
            assert(content_types_outcome(result, stream, stream, content_types_xml@, *limits));
            return result;
        },
        Ok(pair) => pair,
    };
    let strict = strict_limits(limits);
    let checked = parse_content_types(output.as_slice(), &strict);
    let ghost check = choose|c: XmlStream|
        c.source_len == output@.len() && match (checked, #[trigger] spec_content_types(c, strict)) {
            (Ok(kind), Ok(expected)) => kind == expected,
            (Err(x), Err(fault)) => x@ == fault,
            _ => false,
        };
    let result = match checked {
        Err(x) => Err(x),
        Ok(_) => Ok(output),
    };
    assert(content_types_outcome(result, stream, check, content_types_xml@, *limits));
    result
}

/// Whether a part lies under `word/embeddings/`, in any ASCII case.
fn embedded_part(name: &str) -> (found: bool)
    ensures
        found == has_prefix(ascii_lower(name@), "word/embeddings/"@),
{
    starts_with_chars(ascii_lower_chars(chars_of(name).as_slice()).as_slice(), chars_of("word/embeddings/").as_slice())
}

/// The refusal of a package whose MathType relationships have no embedded
/// part.
pub open spec fn parts_missing_fault() -> DocxFault {
    DocxFault::Rejected {
        diagnostics: seq![
            DiagnosticView {
                severity: DiagnosticSeverity::Error,
                code: "TEMPLATE_MATHTYPE_PARTS_MISSING"@,
                part_name: Some("word/embeddings"@),
                message: "MathType 公式关系存在，但没有找到对应的嵌入对象部件。"@,
                suggested_action: None,
            }
        ],
    }
}

/// Whether `types_out` and `rels_out` are what removing the OLE entries
/// from the content types `types` and the relationships `ids` from the
/// relationships `rels` give, when the XML reader gives the events shown.
pub open spec fn sanitized_from(
    types_out: Vec<u8>,
    rels_out: Vec<u8>,
    types: Seq<u8>,
    rels: Seq<u8>,
    read_types: XmlStream,
    check_types: XmlStream,
    read_rels: XmlStream,
    check_rels: XmlStream,
    ids: Seq<Seq<char>>,
    limits: DocxLimits,
) -> bool {
    &&& read_types.source_len == types.len()
    &&& read_rels.source_len == rels.len()
    &&& content_types_outcome(Ok::<Vec<u8>, DocxError>(types_out), read_types, check_types, types, limits)
    &&& relationships_outcome(Ok::<Vec<u8>, DocxError>(rels_out), read_rels, check_rels, rels, ids, limits)
}

/// The edits that make a package free of MathType objects: its content
/// types and main document relationships without them (as
/// [`remove_ole_content_types`] and [`remove_relationships`] give them), in
/// character order of part name, and the parts under `word/embeddings/` to
/// leave out, each once, in character order.
pub fn sanitize_mathtype_package_parts(
    package_bytes: &[u8],
    references: &ObjectRelationships,
    limits: &DocxLimits,
) -> (result: DocxResult<(Vec<(String, Vec<u8>)>, Vec<String>)>)
    ensures
        result matches Ok((replacements, removals)) ==> replacements@.len() == 2 && replacements@[0].0@
            == CONTENT_TYPES_PART@ && replacements@[1].0@ == DOCUMENT_RELS_PART@ && removals@.len() > 0
            && forall|k: int| 0 <= k < removals@.len() ==> has_prefix(ascii_lower(#[trigger] removals@[k]@), "word/embeddings/"@),
        result matches Ok((replacements, removals)) ==> exists|types: Seq<u8>, rels: Seq<u8>, read_types: XmlStream,
            check_types: XmlStream, read_rels: XmlStream, check_rels: XmlStream|
            #[trigger] sanitized_from(
                replacements@[0].1,
                replacements@[1].1,
                types,
                rels,
                read_types,
                check_types,
                read_rels,
                check_rels,
                names_view(references.resource_ids@),
                *limits,
            ),
{
    let mut archive = match open_archive(package_bytes) {
        Err(error) => return Err(DocxError::Zip(error)),
        Ok(archive) => archive,
    };
    let relationships_xml = match read_part_limited(&mut archive, DOCUMENT_RELS_PART, limits.max_xml_part_bytes) {
        Err(x) => return Err(x),
        Ok(bytes) => bytes,
    };
    let removed_relationships = remove_relationships(relationships_xml.as_slice(), references.resource_ids.as_slice(), limits);
    let ghost (read_rels, check_rels) = choose|read: XmlStream, check: XmlStream|
        read.source_len == relationships_xml@.len() && #[trigger] relationships_outcome(
            removed_relationships,
            read,
            check,
            relationships_xml@,
            names_view(references.resource_ids@),
            *limits,
        );
    let relationships = match removed_relationships {
        Err(x) => return Err(x),
        Ok(bytes) => bytes,
    };
    let content_types_xml = match read_part_limited(&mut archive, CONTENT_TYPES_PART, limits.max_xml_part_bytes) {
        Err(x) => return Err(x),
        Ok(bytes) => bytes,
    };
    let removed_types = remove_ole_content_types(content_types_xml.as_slice(), limits);
    let ghost (read_types, check_types) = choose|read: XmlStream, check: XmlStream|
        read.source_len == content_types_xml@.len() && #[trigger] content_types_outcome(
            removed_types,
            read,
            check,
            content_types_xml@,
            *limits,
        );
    let content_types = match removed_types {
        Err(x) => return Err(x),
        Ok(bytes) => bytes,
    };
    let n = archive_len(&archive);
    let mut embedded: Vec<String> = Vec::new();
    let mut index: usize = 0;
    while index < n
        invariant
            index <= n,
            distinct_ids(embedded@),
            forall|k: int| 0 <= k < embedded@.len() ==> has_prefix(ascii_lower(#[trigger] embedded@[k]@), "word/embeddings/"@),
        decreases n - index,
    {
        let name = match entry_name_facts(&mut archive, index) {
            Err(error) => return Err(DocxError::Zip(error)),
            Ok((name, _, _)) => name,
        };
        if embedded_part(name.as_str()) && !holds_id(embedded.as_slice(), name.as_str()) {
            let ghost before = embedded@;
            embedded.push(name);
            assert forall|i: int, j: int| 0 <= i < j < embedded@.len() implies #[trigger] embedded@[i]@
                != #[trigger] embedded@[j]@ by {
                if j == embedded@.len() - 1 {
                    assert(before.map_values(|s: String| s@)[i] == embedded@[i]@);
                }
            }
        }
        index = index + 1;
    }
    if embedded.len() == 0 {
        let d = Diagnostic::error(
            "TEMPLATE_MATHTYPE_PARTS_MISSING",
            Some("word/embeddings".to_owned()),
            "MathType 公式关系存在，但没有找到对应的嵌入对象部件。".to_owned(),
        );
        return Err(DocxError::rejected(vec![d]));
    }
    let ghost unsorted = embedded@;
    let removals = sort_name_list(embedded);
    proof {
        lemma_sort_names_members(names_view(unsorted));
        assert forall|k: int| 0 <= k < removals@.len() implies has_prefix(ascii_lower(#[trigger] removals@[k]@), "word/embeddings/"@) by {
            assert(names_view(removals@)[k] == removals@[k]@);
            assert(names_view(unsorted).contains(removals@[k]@));
            let j = choose|j: int| 0 <= j < names_view(unsorted).len() && names_view(unsorted)[j] == removals@[k]@;
            assert(unsorted[j]@ == removals@[k]@);
        }
        assert(names_view(removals@).len() == names_view(unsorted).len());
    }
    let replacements = vec![(CONTENT_TYPES_PART.to_owned(), content_types), (DOCUMENT_RELS_PART.to_owned(), relationships)];
    proof {
        assert(content_types_outcome(
            Ok::<Vec<u8>, DocxError>(replacements@[0].1),
            read_types,
            check_types,
            content_types_xml@,
            *limits,
        ));
        assert(relationships_outcome(
            Ok::<Vec<u8>, DocxError>(replacements@[1].1),
            read_rels,
            check_rels,
            relationships_xml@,
            names_view(references.resource_ids@),
            *limits,
        ));
        assert(sanitized_from(
            replacements@[0].1,
            replacements@[1].1,
            content_types_xml@,
            relationships_xml@,
            read_types,
            check_types,
            read_rels,
            check_rels,
            names_view(references.resource_ids@),
            *limits,
        ));
    }
    let result: DocxResult<(Vec<(String, Vec<u8>)>, Vec<String>)> = Ok((replacements, removals));
    assert(result matches Ok((r, m)) && sanitized_from(
        r@[0].1,
        r@[1].1,
        content_types_xml@,
        relationships_xml@,
        read_types,
        check_types,
        read_rels,
        check_rels,
        names_view(references.resource_ids@),
        *limits,
    ));
    result
}

/// Sorting keeps the names: the sorted list has the same length, and each
/// of its names is one of the list's.
pub proof fn lemma_sort_names_members(names: Seq<Seq<char>>)
    ensures
        sort_names(names).len() == names.len(),
        forall|k: int| 0 <= k < sort_names(names).len() ==> names.contains(#[trigger] sort_names(names)[k]),
    decreases names.len(),
{
    if names.len() > 0 {
        let rest = names.drop_last();
        lemma_sort_names_members(rest);
        lemma_insert_name_members(sort_names(rest), names.last());
        assert forall|k: int| 0 <= k < sort_names(names).len() implies names.contains(#[trigger] sort_names(names)[k]) by {
            let x = sort_names(names)[k];
            if x != names.last() {
                assert(sort_names(rest).contains(x));
                let j = choose|j: int| 0 <= j < sort_names(rest).len() && sort_names(rest)[j] == x;
                assert(rest.contains(x));
                let m = choose|m: int| 0 <= m < rest.len() && rest[m] == x;
                assert(names[m] == x);
            } else {
                assert(names[names.len() - 1] == x);
            }
        }
    }
}

/// Inserting a name keeps the others and adds it.
pub proof fn lemma_insert_name_members(sorted: Seq<Seq<char>>, name: Seq<char>)
    ensures
        crate::anchors::insert_name(sorted, name).len() == sorted.len() + 1,
        forall|k: int|
            0 <= k < crate::anchors::insert_name(sorted, name).len() ==> #[trigger] crate::anchors::insert_name(
                sorted,
                name,
            )[k] == name || sorted.contains(crate::anchors::insert_name(sorted, name)[k]),
    decreases sorted.len(),
{
    if sorted.len() > 0 && crate::anchors::text_before(name, sorted.last()) {
        lemma_insert_name_members(sorted.drop_last(), name);
        let r = crate::anchors::insert_name(sorted, name);
        assert forall|k: int| 0 <= k < r.len() implies #[trigger] r[k] == name || sorted.contains(r[k]) by {
            if k == r.len() - 1 {
                assert(r[k] == sorted.last());
                assert(sorted[sorted.len() - 1] == sorted.last());
            } else {
                let inner = crate::anchors::insert_name(sorted.drop_last(), name);
                assert(r[k] == inner[k]);
                if inner[k] != name {
                    assert(sorted.drop_last().contains(inner[k]));
                    let m = choose|m: int| 0 <= m < sorted.drop_last().len() && sorted.drop_last()[m] == inner[k];
                    assert(sorted[m] == inner[k]);
                }
            }
        }
    }
}

} // verus!
