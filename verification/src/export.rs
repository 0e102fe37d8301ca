//! Writing a new package from a source package with some parts replaced,
//! removed or added. Every edit is checked before the first byte is
//! written; untouched parts are copied in their compressed form.
use vstd::prelude::*;
use std::io::Cursor;
use zip::ZipArchive;
use zip::ZipWriter;
use zip::result::ZipError;
use crate::archive::{
    central_directory_shown, entries_listed, inspect_archive, open_archive, package_parts, zip_entries,
    zip_package_entries,
};
use crate::package::ZipEntryFacts;
use crate::diagnostic::{Diagnostic, DiagnosticSeverity, DiagnosticView, any_error, diagnostics_view, has_error};
use crate::document::{doc_fault, document_outcome, msg_positions, parse_document_xml, positions_fit, spec_parse_document};
use crate::error::{DocxError, DocxFault, DocxResult};
use crate::limits::{DocxLimits, spec_part_limit};
use crate::opc::{parse_content_types, scan_relationships, spec_content_types, spec_scan_relationships};
use crate::package::{DOCUMENT_PART, PartInfo, archive_size_diagnostic, spec_archive_size_diagnostic};
use crate::text::{ascii_lower, ascii_lower_chars, chars_of, ends_with_chars, has_suffix, same_text};
use crate::xml::{XmlStream, spec_validate_safe_xml, validate_safe_xml};
use crate::xml_reader::read_part_events;

verus! {

/// A package being written: a ZIP writer of the `zip` crate over a buffer,
/// held opaque (the writer's own declaration carries `Write` and `Seek`
/// bounds that cannot be named here).
#[verifier::external_body]
pub struct PackageWriter {
    writer: ZipWriter<Cursor<Vec<u8>>>,
}

/// The entries written so far into a package writer, in order: each
/// entry's name and, for an entry copied raw, the compressed size, size,
/// CRC-32 and compression method it was copied with.
pub uninterp spec fn written_entries(writer: PackageWriter) -> Seq<(Seq<char>, Option<(u64, u64, u32, Seq<char>)>)>;

/// The bytes of the entries written so far into a package writer, in
/// order: what each written entry holds, `None` for an entry copied raw.
pub uninterp spec fn written_contents(writer: PackageWriter) -> Seq<Option<Seq<u8>>>;

/// What each entry of the archive held in `bytes` decompresses to, in the
/// order its central directory lists them; `None` where it cannot be read.
pub uninterp spec fn zip_package_contents(bytes: Seq<u8>) -> Seq<Option<Seq<u8>>>;

/// A new package writer over an empty buffer (`ZipWriter::new`), with no
/// entry written.
#[verifier::external_body]
fn new_package_writer() -> (writer: PackageWriter)
    ensures
        written_entries(writer) == Seq::<(Seq<char>, Option<(u64, u64, u32, Seq<char>)>)>::empty(),
        written_contents(writer) == Seq::<Option<Seq<u8>>>::empty(),
{
    PackageWriter { writer: ZipWriter::new(Cursor::new(Vec::new())) }
}

/// Copies entry `index` of `archive` to the package in its compressed form
/// (`by_index_raw`, `raw_copy_file`).
#[verifier::external_body]
fn copy_raw_entry(target: &mut PackageWriter, archive: &mut ZipArchive<Cursor<&[u8]>>, index: usize) -> (result:
    Result<(), ZipError>)
    ensures
        zip_entries(*final(archive)) == zip_entries(*old(archive)),
        result is Ok ==> index < zip_entries(*old(archive)).len() && zip_entries(*old(archive))[index as int] is Some
            && written_entries(*final(target)) == written_entries(*old(target)).push(
            (
                zip_entries(*old(archive))[index as int]->Some_0.0.0,
                Some(zip_entries(*old(archive))[index as int]->Some_0.1),
            ),
        ) && written_contents(*final(target)) == written_contents(*old(target)).push(None),
{
    let file = archive.by_index_raw(index)?;
    target.writer.raw_copy_file(file)
}

/// Writes `bytes` as a new entry named and set up like entry `index` of
/// `archive` (`by_index_raw`, `options`, `name`, `start_file`, `write_all`).
#[verifier::external_body]
fn write_replacement_entry(
    target: &mut PackageWriter,
    archive: &mut ZipArchive<Cursor<&[u8]>>,
    index: usize,
    bytes: &[u8],
) -> (result: Result<Result<(), std::io::Error>, ZipError>)
    ensures
        zip_entries(*final(archive)) == zip_entries(*old(archive)),
        result matches Ok(Ok(_)) ==> index < zip_entries(*old(archive)).len() && zip_entries(*old(archive))[index as int]
            is Some && written_entries(*final(target)) == written_entries(*old(target)).push(
            (zip_entries(*old(archive))[index as int]->Some_0.0.0, None),
        ) && written_contents(*final(target)) == written_contents(*old(target)).push(Some(bytes@)),
{
    let file = archive.by_index_raw(index)?;
    let options = file.options();
    let name = file.name()?.into_owned();
    drop(file);
    target.writer.start_file(name, options)?;
    Ok(std::io::Write::write_all(&mut target.writer, bytes))
}

/// How an added part is compressed.
#[derive(Clone, Copy, Debug, PartialEq, Eq, Structural)]
pub enum AddedCompression {
    Stored,
    Deflated,
}

/// The compression the export gives every added part.
pub fn added_part_compression() -> (method: AddedCompression)
    ensures
        method == AddedCompression::Deflated,
{
    AddedCompression::Deflated
}

/// Writes `bytes` as a new entry `name` compressed by `method`
/// (`SimpleFileOptions::compression_method`, `start_file`, `write_all`).
#[verifier::external_body]
fn write_added_entry(target: &mut PackageWriter, name: &str, bytes: &[u8], method: AddedCompression) -> (result:
    Result<Result<(), std::io::Error>, ZipError>)
    ensures
        result matches Ok(Ok(_)) ==> written_entries(*final(target)) == written_entries(*old(target)).push((name@, None))
            && written_contents(*final(target)) == written_contents(*old(target)).push(Some(bytes@)),
{
    let method = match method {
        AddedCompression::Stored => zip::CompressionMethod::Stored,
        AddedCompression::Deflated => zip::CompressionMethod::Deflated,
    };
    let options = zip::write::SimpleFileOptions::default().compression_method(method);
    target.writer.start_file(name, options)?;
    Ok(std::io::Write::write_all(&mut target.writer, bytes))
}

/// Whether the archive held in `bytes` lists the entries `written`, in
/// order: each with its name and, for a raw copy, the sizes, CRC-32 and
/// method it was copied with.
pub open spec fn package_written(bytes: Seq<u8>, written: Seq<(Seq<char>, Option<(u64, u64, u32, Seq<char>)>)>) -> bool {
    let listed = zip_package_entries(bytes);
    &&& listed.len() == written.len()
    &&& forall|i: int|
        0 <= i < written.len() ==> (#[trigger] listed[i]) is Some && listed[i]->Some_0.0.0 == written[i].0 && (
        written[i].1 matches Some(facts) ==> listed[i]->Some_0.1 == facts)
}

/// Whether the entries of the archive held in `bytes` hold the contents
/// `written`, where one is given.
pub open spec fn contents_written(bytes: Seq<u8>, written: Seq<Option<Seq<u8>>>) -> bool {
    forall|i: int|
        0 <= i < written.len() && (#[trigger] written[i]) is Some ==> i < zip_package_contents(bytes).len()
            && zip_package_contents(bytes)[i] == written[i]
}

/// Finishes the archive and gives its bytes (`finish`); read back, the
/// archive lists the entries written, in order, and each entry written from
/// bytes holds those bytes.
#[verifier::external_body]
fn finish_package(target: PackageWriter) -> (result: Result<Vec<u8>, ZipError>)
    ensures
        result matches Ok(bytes) ==> package_written(bytes@, written_entries(target)) && forall|i: int|
            0 <= i < written_contents(target).len() && (#[trigger] written_contents(target)[i]) is Some ==> i
                < zip_package_contents(bytes@).len() && zip_package_contents(bytes@)[i] == written_contents(target)[i],
{
    Ok(target.writer.finish()?.into_inner())
}

/// What an export did.
#[derive(Clone, Debug, PartialEq, Eq)]
pub struct ExportSummary {
    pub input_parts: usize,
    pub raw_copied_parts: usize,
    pub rewritten_parts: Vec<String>,
    pub output_bytes: u64,
}

/// The finished package and what the export did.
#[derive(Clone, Debug, PartialEq, Eq)]
pub struct RawCopyExport {
    pub output: Vec<u8>,
    pub summary: ExportSummary,
}

/// Whether a part name may be given to an added part: non-empty, relative,
/// without backslashes or NUL, and without empty, `.` or `..` segments.
pub open spec fn safe_added_name(value: Seq<char>) -> bool {
    &&& value.len() > 0
    &&& value[0] != '/'
    &&& forall|i: int| 0 <= i < value.len() ==> value[i] != '\\' && value[i] != '\0'
    &&& value[value.len() - 1] != '/'
    &&& forall|i: int| 0 <= i < value.len() - 1 ==> !(#[trigger] value[i] == '/' && value[i + 1] == '/')
    &&& !bad_dot_segment(value)
}

/// Whether the segment starting at `i` of `value` is `.` or `..`.
pub open spec fn dot_segment_at(value: Seq<char>, i: int) -> bool {
    &&& 0 <= i < value.len()
    &&& i == 0 || value[i - 1] == '/'
    &&& value[i] == '.'
    &&& (i + 1 == value.len() || value[i + 1] == '/') || (i + 1 < value.len() && value[i + 1] == '.' && (i + 2
        == value.len() || value[i + 2] == '/'))
}

/// Whether some segment of `value` between slashes is `.` or `..`.
pub open spec fn bad_dot_segment(value: Seq<char>) -> bool {
    exists|i: int| #[trigger] dot_segment_at(value, i)
}

/// Whether a part name may be given to an added part.
pub fn safe_added_part_name(value: &str) -> (safe: bool)
    ensures
        safe == safe_added_name(value@),
{
    let c = chars_of(value);
    let n = c.len();
    if n == 0 || c[0] == '/' || c[n - 1] == '/' {
        return false;
    }
    let mut k: usize = 0;
    while k < n
        invariant
            n == c@.len(),
            c@ == value@,
            k <= n,
            forall|i: int| 0 <= i < k ==> c@[i] != '\\' && c@[i] != '\0',
            forall|i: int| 0 <= i < k && i < n - 1 ==> !(#[trigger] c@[i] == '/' && c@[i + 1] == '/'),
            forall|i: int| 0 <= i < k ==> !#[trigger] dot_segment_at(c@, i),
        decreases n - k,
    {
        if c[k] == '\\' || c[k] == '\0' {
            return false;
        }
        if k + 1 < n && c[k] == '/' && c[k + 1] == '/' {
            return false;
        }
        let starts = k == 0 || c[k - 1] == '/';
        if starts && c[k] == '.' {
            let single = k + 1 == n || c[k + 1] == '/';
            let double = k + 1 < n && c[k + 1] == '.' && (k + 2 == n || c[k + 2] == '/');
            if single || double {
                assert(dot_segment_at(c@, k as int));
                return false;
            }
        }
        k = k + 1;
    }
    true
}

/// The position of the last part called `name`.
pub open spec fn part_named(parts: Seq<PartInfo>, name: Seq<char>) -> Option<int>
    decreases parts.len(),
{
    if parts.len() == 0 {
        None
    } else if parts.last().name@ == name {
        Some(parts.len() - 1)
    } else {
        part_named(parts.drop_last(), name)
    }
}

/// The position of the first edit called `name`.
pub open spec fn edit_named(edits: Seq<(String, Vec<u8>)>, name: Seq<char>) -> Option<int> {
    if exists|k: int| 0 <= k < edits.len() && #[trigger] edits[k].0@ == name {
        Some(choose|k: int| 0 <= k < edits.len() && #[trigger] edits[k].0@ == name && forall|j: int| 0 <= j < k ==> edits[j].0@ != name)
    } else {
        None
    }
}

/// An error finding about the part `name` of the exported package.
pub open spec fn export_finding(code: Seq<char>, name: Seq<char>, message: Seq<char>) -> DiagnosticView {
    DiagnosticView { severity: DiagnosticSeverity::Error, code, part_name: Some(name), message, suggested_action: None }
}

/// The findings about the removals, in order.
pub open spec fn removal_findings(parts: Seq<PartInfo>, removals: Seq<String>, replacements: Seq<(String, Vec<u8>)>) -> Seq<
    DiagnosticView,
>
    decreases removals.len(),
{
    if removals.len() == 0 {
        Seq::empty()
    } else {
        let before = removal_findings(parts, removals.drop_last(), replacements);
        let name = removals.last()@;
        if part_named(parts, name) is None {
            before.push(
                export_finding(
                    "DOCX_EXPORT_REMOVAL_PART_NOT_FOUND"@,
                    name,
                    "removal refers to a part that is absent from the source package"@,
                ),
            )
        } else if edit_named(replacements, name) is Some {
            before.push(
                export_finding(
                    "DOCX_EXPORT_PART_EDIT_CONFLICT"@,
                    name,
                    "the same package part cannot be both replaced and removed"@,
                ),
            )
        } else {
            before
        }
    }
}

/// The finding a replacement of part `name` by `bytes` gets, given what
/// validating the bytes said (`invalid`).
pub open spec fn replacement_finding(
    parts: Seq<PartInfo>,
    name: Seq<char>,
    bytes: Seq<u8>,
    limits: DocxLimits,
    invalid: Option<Seq<char>>,
) -> Option<DiagnosticView> {
    match part_named(parts, name) {
        None => Some(
            export_finding(
                "DOCX_EXPORT_PART_NOT_FOUND"@,
                name,
                "replacement refers to a part that is absent from the source package"@,
            ),
        ),
        Some(k) => if parts[k].is_directory {
            Some(
                export_finding(
                    "DOCX_EXPORT_DIRECTORY_REPLACEMENT"@,
                    name,
                    "a ZIP directory entry cannot be replaced with file bytes"@,
                ),
            )
        } else if bytes.len() > spec_part_limit(limits, name) {
            Some(
                export_finding(
                    "DOCX_EXPORT_REPLACEMENT_TOO_LARGE"@,
                    name,
                    "replacement is "@ + crate::text::decimal(bytes.len()) + " bytes; this part is limited to "@
                        + crate::text::decimal(spec_part_limit(limits, name) as nat) + " bytes"@,
                ),
            )
        } else {
            match invalid {
                Some(message) => Some(export_finding("DOCX_EXPORT_REPLACEMENT_INVALID"@, name, message)),
                None => None,
            }
        }
    }
}

/// The finding an addition of part `name` with `bytes` gets, given what
/// validating the bytes said (`invalid`).
pub open spec fn addition_finding(
    parts: Seq<PartInfo>,
    name: Seq<char>,
    bytes: Seq<u8>,
    limits: DocxLimits,
    invalid: Option<Seq<char>>,
) -> Option<DiagnosticView> {
    if part_named(parts, name) is Some {
        Some(
            export_finding(
                "DOCX_EXPORT_ADDITION_ALREADY_EXISTS"@,
                name,
                "an added package part must not shadow a source package member"@,
            ),
        )
    } else if !safe_added_name(name) {
        Some(export_finding("DOCX_EXPORT_ADDITION_NAME_INVALID"@, name, "added package part has an unsafe or invalid name"@))
    } else if bytes.len() > spec_part_limit(limits, name) {
        Some(
            export_finding(
                "DOCX_EXPORT_ADDITION_TOO_LARGE"@,
                name,
                "added package part exceeds its configured size limit"@,
            ),
        )
    } else {
        match invalid {
            Some(message) => Some(export_finding("DOCX_EXPORT_ADDITION_INVALID"@, name, message)),
            None => None,
        }
    }
}

/// The findings of a sequence of edits, each with what validating its bytes
/// said.
pub open spec fn edit_findings(
    parts: Seq<PartInfo>,
    edits: Seq<(String, Vec<u8>)>,
    limits: DocxLimits,
    invalid: Seq<Option<Seq<char>>>,
    added: bool,
) -> Seq<DiagnosticView>
    decreases edits.len(),
{
    if edits.len() == 0 {
        Seq::empty()
    } else {
        let before = edit_findings(parts, edits.drop_last(), limits, invalid, added);
        let (name, bytes) = edits.last();
        let found = if added {
            addition_finding(parts, name@, bytes@, limits, invalid[edits.len() - 1])
        } else {
            replacement_finding(parts, name@, bytes@, limits, invalid[edits.len() - 1])
        };
        match found {
            Some(d) => before.push(d),
            None => before,
        }
    }
}

/// The finding for more parts than the package may hold.
pub open spec fn too_many_parts_finding() -> DiagnosticView {
    DiagnosticView {
        severity: DiagnosticSeverity::Error,
        code: "DOCX_EXPORT_TOO_MANY_PARTS"@,
        part_name: None,
        message: "adding generated package parts would exceed the configured ZIP entry limit"@,
        suggested_action: None,
    }
}

/// All findings about a set of edits, in the order they are checked.
pub open spec fn all_edit_findings(
    parts: Seq<PartInfo>,
    replacements: Seq<(String, Vec<u8>)>,
    removals: Seq<String>,
    additions: Seq<(String, Vec<u8>)>,
    limits: DocxLimits,
    replacement_invalid: Seq<Option<Seq<char>>>,
    addition_invalid: Seq<Option<Seq<char>>>,
) -> Seq<DiagnosticView> {
    removal_findings(parts, removals, replacements) + edit_findings(
        parts,
        replacements,
        limits,
        replacement_invalid,
        false,
    ) + if parts.len() + additions.len() > limits.max_entries {
        seq![too_many_parts_finding()]
    } else {
        Seq::empty()
    } + edit_findings(parts, additions, limits, addition_invalid, true)
}

/// The position of the last part called `name`.
fn find_part(parts: &[PartInfo], name: &str) -> (found: Option<usize>)
    ensures
        match (found, part_named(parts@, name@)) {
            (Some(k), Some(expected)) => k == expected,
            (None, None) => true,
            _ => false,
        },
        found matches Some(k) ==> k < parts@.len(),
{
    let mut k: usize = parts.len();
    assert(parts@.subrange(0, parts@.len() as int) =~= parts@);
    while k > 0
        invariant
            k <= parts@.len(),
            part_named(parts@, name@) == part_named(parts@.subrange(0, k as int), name@),
        decreases k,
    {
        assert(parts@.subrange(0, k as int).drop_last() =~= parts@.subrange(0, k - 1));
        if same_text(parts[k - 1].name.as_str(), name) {
            return Some(k - 1);
        }
        k = k - 1;
    }
    None
}

/// The position of the first edit called `name`.
fn find_edit(edits: &[(String, Vec<u8>)], name: &str) -> (found: Option<usize>)
    ensures
        match (found, edit_named(edits@, name@)) {
            (Some(k), Some(expected)) => k == expected,
            (None, None) => true,
            _ => false,
        },
        found matches Some(k) ==> k < edits@.len(),
{
    let mut k: usize = 0;
    while k < edits.len()
        invariant
            k <= edits@.len(),
            forall|j: int| 0 <= j < k ==> #[trigger] edits@[j].0@ != name@,
        decreases edits@.len() - k,
    {
        if same_text(edits[k].0.as_str(), name) {
            proof {
                let c = choose|c: int|
                    0 <= c < edits@.len() && #[trigger] edits@[c].0@ == name@ && forall|j: int|
                        0 <= j < c ==> edits@[j].0@ != name@;
                if c < k {
                    assert(edits@[c].0@ != name@);
                }
                if c > k {
                    assert(edits@[k as int].0@ != name@);
                }
            }
            return Some(k);
        }
        k = k + 1;
    }
    None
}

/// The text of a validation failure of part bytes: `None` when they pass.
fn validation_message(result: DocxResult<()>) -> (message: Option<String>)
    ensures
        result is Ok ==> message is None,
        result is Err ==> message is Some,
{
    match result {
        Ok(_) => None,
        Err(error) => Some(error.message()),
    }
}

/// Whether `result` is what checking the bytes `bytes` of the part
/// `part_name` gives, when the XML reader gives the events `stream` for
/// them: the content types are read as content types; a relationship part
/// (by its name's ASCII lower-case `.rels` ending) is scanned and refused
/// with its findings when one is an error; the main document (where
/// `document` is set) is read as the main document; another XML part is
/// checked for safe XML; any other part passes.
pub open spec fn part_check(
    result: DocxResult<()>,
    stream: XmlStream,
    part_name: Seq<char>,
    bytes: Seq<u8>,
    limits: DocxLimits,
    document: bool,
) -> bool {
    let lower = ascii_lower(part_name);
    &&& stream.source_len == bytes.len()
    &&& (bytes.len() > limits.max_xml_part_bytes && part_name != "[Content_Types].xml"@ && !(document && part_name
        == "word/document.xml"@) ==> stream.events@.len() == 0 && stream.read_error is None)
    &&& if part_name == "[Content_Types].xml"@ {
        match (result, spec_content_types(stream, limits)) {
            (Ok(_), Ok(_)) => true,
            (Err(x), Err(fault)) => x@ == fault,
            _ => false,
        }
    } else if has_suffix(lower, ".rels"@) {
        match spec_scan_relationships(stream, part_name, limits) {
            (_, Some(fault)) => result matches Err(x) && x@ == fault,
            (found, None) => if has_error(found) {
                result matches Err(x) && x@ == DocxFault::Rejected { diagnostics: found }
            } else {
                result is Ok
            },
        }
    } else if document && part_name == "word/document.xml"@ {
        &&& (bytes.len() > limits.max_xml_part_bytes ==> (result matches Err(x) && x@ == DocxFault::LimitExceeded {
            resource: DOCUMENT_PART@,
            limit: limits.max_xml_part_bytes,
            actual: bytes.len() as u64,
        }))
        &&& if positions_fit(stream, bytes.len() as int) {
            match (result, spec_parse_document(stream, bytes, limits)) {
                (Ok(_), Ok(_)) => true,
                (Err(x), Err(fault)) => x@ == fault,
                _ => false,
            }
        } else {
            result matches Err(x) && x@ == doc_fault(0, msg_positions())
        }
    } else if has_suffix(lower, ".xml"@) {
        match (result, spec_validate_safe_xml(stream, part_name, limits)) {
            (Ok(_), Ok(_)) => true,
            (Err(x), Err(fault)) => x@ == fault,
            _ => false,
        }
    } else {
        result is Ok
    }
}

/// Checks the bytes of a new or replaced part by its name: the content
/// types, a relationship part (refused with its findings when one is an
/// error), the main document (where `document` is set), or another XML
/// part for safe XML.
fn validate_part(part_name: &str, bytes: &[u8], limits: &DocxLimits, document: bool) -> (result: DocxResult<()>)
    ensures
        exists|stream: XmlStream| #[trigger] part_check(result, stream, part_name@, bytes@, *limits, document),
{
    let lower = ascii_lower_chars(chars_of(part_name).as_slice());
    let rels = chars_of(".rels");
    let xml = chars_of(".xml");
    if same_text(part_name, "[Content_Types].xml") {
        let parsed = parse_content_types(bytes, limits);
        let ghost stream = choose|stream: XmlStream|
            stream.source_len == bytes@.len() && match (parsed, #[trigger] spec_content_types(stream, *limits)) {
                (Ok(kind), Ok(expected)) => kind == expected,
                (Err(x), Err(fault)) => x@ == fault,
                _ => false,
            };
        let result = match parsed {
            Err(x) => Err(x),
            Ok(_) => Ok(()),
        };
        assert(part_check(result, stream, part_name@, bytes@, *limits, document));
        result
    } else if ends_with_chars(lower.as_slice(), rels.as_slice()) {
        let stream = read_part_events(bytes, limits.max_xml_part_bytes);
        let mut diagnostics: Vec<Diagnostic> = Vec::new();
        assert(diagnostics_view(diagnostics@) =~= Seq::<DiagnosticView>::empty());
        match scan_relationships(&stream, part_name, limits, &mut diagnostics) {
            Err(x) => {
                let result = Err(x);
                assert(part_check(result, stream, part_name@, bytes@, *limits, document));
                return result;
            },
            Ok(_) => {},
        }
        let result = if any_error(diagnostics.as_slice()) {
            Err(DocxError::rejected(diagnostics))
        } else {
            Ok(())
        };
        assert(part_check(result, stream, part_name@, bytes@, *limits, document));
        result
    } else if document && same_text(part_name, "word/document.xml") {
        let parsed = parse_document_xml(bytes, limits);
        let ghost stream = choose|stream: XmlStream|
            stream.source_len == bytes@.len() && #[trigger] document_outcome(parsed, stream, bytes@, *limits);
        let result = match parsed {
            Err(x) => Err(x),
            Ok(_) => Ok(()),
        };
        assert(part_check(result, stream, part_name@, bytes@, *limits, document));
        result
    } else if ends_with_chars(lower.as_slice(), xml.as_slice()) {
        let stream = read_part_events(bytes, limits.max_xml_part_bytes);
        let result = validate_safe_xml(&stream, part_name, limits);
        assert(part_check(result, stream, part_name@, bytes@, *limits, document));
        result
    } else {
        let stream = read_part_events(bytes, limits.max_xml_part_bytes);
        let result = Ok(());
        assert(part_check(result, stream, part_name@, bytes@, *limits, document));
        result
    }
}

/// Appends the finding `d`, if any.
fn push_finding(findings: &mut Vec<Diagnostic>, d: Option<Diagnostic>)
    ensures
        diagnostics_view(final(findings)@) == match d {
            Some(x) => diagnostics_view(old(findings)@).push(x@),
            None => diagnostics_view(old(findings)@),
        },
{
    match d {
        Some(x) => {
            let ghost before = findings@;
            findings.push(x);
            assert(diagnostics_view(findings@) =~= diagnostics_view(before).push(x@));
        },
        None => {},
    }
}

/// An error finding about the part `name`.
fn finding(code: &'static str, name: &str, message: String) -> (d: Diagnostic)
    ensures
        d@ == export_finding(code@, name@, message@),
{
    Diagnostic::error(code, Some(name.to_owned()), message)
}

/// The finding of one replacement, with the validation message it got.
fn check_replacement(parts: &[PartInfo], name: &str, bytes: &[u8], limits: &DocxLimits) -> (result: (
    Option<Diagnostic>,
    Ghost<Option<Seq<char>>>,
))
    ensures
        match (result.0, replacement_finding(parts@, name@, bytes@, *limits, result.1@)) {
            (Some(d), Some(expected)) => d@ == expected,
            (None, None) => true,
            _ => false,
        },
{
    let k = match find_part(parts, name) {
        None => {
            return (
                Some(
                    finding(
                        "DOCX_EXPORT_PART_NOT_FOUND",
                        name,
                        "replacement refers to a part that is absent from the source package".to_owned(),
                    ),
                ),
                Ghost(None),
            );
        },
        Some(k) => k,
    };
    if parts[k].is_directory {
        return (
            Some(
                finding(
                    "DOCX_EXPORT_DIRECTORY_REPLACEMENT",
                    name,
                    "a ZIP directory entry cannot be replaced with file bytes".to_owned(),
                ),
            ),
            Ghost(None),
        );
    }
    let limit = limits.part_limit(name);
    if bytes.len() as u64 > limit {
        let mut message = "replacement is ".to_owned();
        crate::text::push_decimal(&mut message, bytes.len() as u64);
        message.append(" bytes; this part is limited to ");
        crate::text::push_decimal(&mut message, limit);
        message.append(" bytes");
        return (Some(finding("DOCX_EXPORT_REPLACEMENT_TOO_LARGE", name, message)), Ghost(None));
    }
    match validation_message(validate_part(name, bytes, limits, true)) {
        Some(message) => {
            let ghost m = message@;
            (Some(finding("DOCX_EXPORT_REPLACEMENT_INVALID", name, message)), Ghost(Some(m)))
        },
        None => (None, Ghost(None)),
    }
}

/// The finding of one addition, with the validation message it got.
fn check_addition(parts: &[PartInfo], name: &str, bytes: &[u8], limits: &DocxLimits) -> (result: (
    Option<Diagnostic>,
    Ghost<Option<Seq<char>>>,
))
    ensures
        match (result.0, addition_finding(parts@, name@, bytes@, *limits, result.1@)) {
            (Some(d), Some(expected)) => d@ == expected,
            (None, None) => true,
            _ => false,
        },
{
    if find_part(parts, name).is_some() {
        return (
            Some(
                finding(
                    "DOCX_EXPORT_ADDITION_ALREADY_EXISTS",
                    name,
                    "an added package part must not shadow a source package member".to_owned(),
                ),
            ),
            Ghost(None),
        );
    }
    if !safe_added_part_name(name) {
        return (
            Some(
                finding(
                    "DOCX_EXPORT_ADDITION_NAME_INVALID",
                    name,
                    "added package part has an unsafe or invalid name".to_owned(),
                ),
            ),
            Ghost(None),
        );
    }
    if bytes.len() as u64 > limits.part_limit(name) {
        return (
            Some(
                finding(
                    "DOCX_EXPORT_ADDITION_TOO_LARGE",
                    name,
                    "added package part exceeds its configured size limit".to_owned(),
                ),
            ),
            Ghost(None),
        );
    }
    match validation_message(validate_part(name, bytes, limits, false)) {
        Some(message) => {
            let ghost m = message@;
            (Some(finding("DOCX_EXPORT_ADDITION_INVALID", name, message)), Ghost(Some(m)))
        },
        None => (None, Ghost(None)),
    }
}

/// Appends the findings of a sequence of edits.
fn check_edits(
    findings: &mut Vec<Diagnostic>,
    parts: &[PartInfo],
    edits: &[(String, Vec<u8>)],
    limits: &DocxLimits,
    added: bool,
) -> (invalid: Ghost<Seq<Option<Seq<char>>>>)
    ensures
        invalid@.len() == edits@.len(),
        diagnostics_view(final(findings)@) == diagnostics_view(old(findings)@) + edit_findings(
            parts@,
            edits@,
            *limits,
            invalid@,
            added,
        ),
{
    let ghost mut invalid: Seq<Option<Seq<char>>> = Seq::empty();
    let mut k: usize = 0;
    assert(edits@.subrange(0, 0) =~= Seq::<(String, Vec<u8>)>::empty());
    assert(diagnostics_view(findings@) =~= diagnostics_view(old(findings)@) + Seq::<DiagnosticView>::empty());
    while k < edits.len()
        invariant
            k <= edits@.len(),
            invalid.len() == k,
            diagnostics_view(findings@) == diagnostics_view(old(findings)@) + edit_findings(
                parts@,
                edits@.subrange(0, k as int),
                *limits,
                invalid,
                added,
            ),
        decreases edits@.len() - k,
    {
        let (name, bytes) = (&edits[k].0, &edits[k].1);
        let (d, Ghost(m)) = if added {
            check_addition(parts, name.as_str(), bytes.as_slice(), limits)
        } else {
            check_replacement(parts, name.as_str(), bytes.as_slice(), limits)
        };
        let ghost before = findings@;
        push_finding(findings, d);
        proof {
            let prefix = edits@.subrange(0, k + 1);
            assert(prefix.drop_last() =~= edits@.subrange(0, k as int));
            lemma_edit_findings_extend(parts@, edits@.subrange(0, k as int), *limits, invalid, added, invalid.push(m));
            invalid = invalid.push(m);
            assert(prefix.last() == edits@[k as int]);
            assert(diagnostics_view(findings@) =~= diagnostics_view(old(findings)@) + edit_findings(
                parts@,
                prefix,
                *limits,
                invalid,
                added,
            ));
        }
        k = k + 1;
    }
    assert(edits@.subrange(0, edits@.len() as int) =~= edits@);
    Ghost(invalid)
}

/// The findings of a prefix of edits do not depend on the validation
/// messages of later edits.
proof fn lemma_edit_findings_extend(
    parts: Seq<PartInfo>,
    edits: Seq<(String, Vec<u8>)>,
    limits: DocxLimits,
    invalid: Seq<Option<Seq<char>>>,
    added: bool,
    more: Seq<Option<Seq<char>>>,
)
    requires
        edits.len() <= invalid.len(),
        invalid.len() <= more.len(),
        forall|i: int| 0 <= i < invalid.len() ==> more[i] == invalid[i],
    ensures
        edit_findings(parts, edits, limits, invalid, added) == edit_findings(parts, edits, limits, more, added),
    decreases edits.len(),
{
    if edits.len() > 0 {
        lemma_edit_findings_extend(parts, edits.drop_last(), limits, invalid, added, more);
    }
}

/// Whether `names` holds `name`.
fn holds_name(names: &[String], name: &str) -> (found: bool)
    ensures
        found == exists|k: int| 0 <= k < names@.len() && #[trigger] names@[k]@ == name@,
{
    let mut k: usize = 0;
    while k < names.len()
        invariant
            k <= names@.len(),
            forall|j: int| 0 <= j < k ==> #[trigger] names@[j]@ != name@,
        decreases names@.len() - k,
    {
        if same_text(names[k].as_str(), name) {
            return true;
        }
        k = k + 1;
    }
    false
}

/// The names of the parts the export rewrites, in order: each part not
/// removed that has a replacement, in the source order, then each
/// addition.
pub open spec fn rewritten_names(
    parts: Seq<PartInfo>,
    replacements: Seq<(String, Vec<u8>)>,
    removals: Seq<String>,
) -> Seq<Seq<char>>
    decreases parts.len(),
{
    if parts.len() == 0 {
        Seq::empty()
    } else {
        let before = rewritten_names(parts.drop_last(), replacements, removals);
        let name = parts.last().name@;
        if !(exists|k: int| 0 <= k < removals.len() && #[trigger] removals[k]@ == name) && edit_named(
            replacements,
            name,
        ) is Some {
            before.push(name)
        } else {
            before
        }
    }
}

/// The entries the export writes for the source parts, in order: each
/// part not removed, a replaced one with its name alone, any other copied
/// raw with its sizes, CRC-32 and method.
pub open spec fn written_plan(
    parts: Seq<PartInfo>,
    replacements: Seq<(String, Vec<u8>)>,
    removals: Seq<String>,
) -> Seq<(Seq<char>, Option<(u64, u64, u32, Seq<char>)>)>
    decreases parts.len(),
{
    if parts.len() == 0 {
        Seq::empty()
    } else {
        let before = written_plan(parts.drop_last(), replacements, removals);
        let p = parts.last();
        if exists|k: int| 0 <= k < removals.len() && #[trigger] removals[k]@ == p.name@ {
            before
        } else if edit_named(replacements, p.name@) is Some {
            before.push((p.name@, None))
        } else {
            before.push((p.name@, Some((p.compressed_size, p.uncompressed_size, p.crc32, p.compression_method@))))
        }
    }
}

/// What the entries the export writes for the source parts hold, in
/// order: a replaced part its new bytes, a part copied raw nothing given.
pub open spec fn written_contents_plan(
    parts: Seq<PartInfo>,
    replacements: Seq<(String, Vec<u8>)>,
    removals: Seq<String>,
) -> Seq<Option<Seq<u8>>>
    decreases parts.len(),
{
    if parts.len() == 0 {
        Seq::empty()
    } else {
        let before = written_contents_plan(parts.drop_last(), replacements, removals);
        let p = parts.last();
        if exists|k: int| 0 <= k < removals.len() && #[trigger] removals[k]@ == p.name@ {
            before
        } else {
            match edit_named(replacements, p.name@) {
                Some(k) => before.push(Some(replacements[k].1@)),
                None => before.push(None),
            }
        }
    }
}

/// What the entries the export writes for the additions hold, in order.
pub open spec fn added_contents(additions: Seq<(String, Vec<u8>)>) -> Seq<Option<Seq<u8>>> {
    additions.map_values(|a: (String, Vec<u8>)| Some(a.1@))
}

/// The entries the export writes for the additions, in order.
pub open spec fn added_plan(additions: Seq<(String, Vec<u8>)>) -> Seq<(Seq<char>, Option<(u64, u64, u32, Seq<char>)>)> {
    additions.map_values(|a: (String, Vec<u8>)| (a.0@, None::<(u64, u64, u32, Seq<char>)>))
}

/// Whether the parts are those the archive lists, entry by entry.
pub open spec fn parts_in_archive(
    parts: Seq<PartInfo>,
    listed: Seq<Option<((Seq<char>, bool, bool), (u64, u64, u32, Seq<char>), (bool, bool, bool))>>,
) -> bool {
    forall|i: int|
        0 <= i < parts.len() ==> {
            &&& (#[trigger] parts[i]).index == i
            &&& i < listed.len()
            &&& listed[i] is Some
            &&& listed[i]->Some_0.0.0 == parts[i].name@
            &&& listed[i]->Some_0.1 == (
                parts[i].compressed_size,
                parts[i].uncompressed_size,
                parts[i].crc32,
                parts[i].compression_method@,
            )
        }
}

/// How many parts the export copies in their compressed form.
pub open spec fn raw_copied_count(
    parts: Seq<PartInfo>,
    replacements: Seq<(String, Vec<u8>)>,
    removals: Seq<String>,
) -> nat
    decreases parts.len(),
{
    if parts.len() == 0 {
        0
    } else {
        let before = raw_copied_count(parts.drop_last(), replacements, removals);
        let name = parts.last().name@;
        if !(exists|k: int| 0 <= k < removals.len() && #[trigger] removals[k]@ == name) && edit_named(
            replacements,
            name,
        ) is None {
            before + 1
        } else {
            before
        }
    }
}

/// What an export of a package whose parts are `parts` shows: the edits
/// had no finding (with the validation messages the new bytes got), every
/// source part was counted, the rewritten parts are named in order, the
/// raw copies are counted and the output's length is recorded.
pub open spec fn export_shown(
    export: RawCopyExport,
    parts: Seq<PartInfo>,
    replacements: Seq<(String, Vec<u8>)>,
    removals: Seq<String>,
    additions: Seq<(String, Vec<u8>)>,
    limits: DocxLimits,
    replacement_invalid: Seq<Option<Seq<char>>>,
    addition_invalid: Seq<Option<Seq<char>>>,
) -> bool {
    &&& all_edit_findings(parts, replacements, removals, additions, limits, replacement_invalid, addition_invalid).len() == 0
    &&& export.summary.input_parts == parts.len()
    &&& export.summary.rewritten_parts@.map_values(|n: String| n@) == rewritten_names(parts, replacements, removals)
        + additions.map_values(|a: (String, Vec<u8>)| a.0@)
    &&& export.summary.raw_copied_parts == raw_copied_count(parts, replacements, removals)
    &&& export.summary.output_bytes == export.output@.len()
    &&& package_written(export.output@, written_plan(parts, replacements, removals) + added_plan(additions))
    &&& contents_written(
        export.output@,
        written_contents_plan(parts, replacements, removals) + added_contents(additions),
    )
}

/// Builds a new package from the one held in `source`, in the source's
/// entry order: parts named in `removals` are left out, parts named in
/// `replacements` are written anew with their new bytes (keeping the source
/// entry's name, method and metadata), every other part is copied in its
/// compressed form; then each of `additions` is written as a new deflated
/// part. The source is inspected (and refused with its findings when they
/// hold an error) and every edit is checked before anything is written;
/// the edits are refused together with all their findings.
pub fn raw_copy_with_part_edits(
    source: &[u8],
    replacements: &[(String, Vec<u8>)],
    removals: &[String],
    additions: &[(String, Vec<u8>)],
    limits: &DocxLimits,
) -> (result: DocxResult<RawCopyExport>)
    ensures
        source@.len() > limits.max_archive_bytes ==> (result matches Err(x) && x@ == DocxFault::Rejected {
            diagnostics: seq![spec_archive_size_diagnostic(source@.len() as u64, *limits)->0],
        }),
        result matches Ok(export) ==> exists|parts: Seq<PartInfo>,
            replacement_invalid: Seq<Option<Seq<char>>>,
            addition_invalid: Seq<Option<Seq<char>>>|
            package_parts(parts, source@) && #[trigger] export_shown(
                export,
                parts,
                replacements@,
                removals@,
                additions@,
                *limits,
                replacement_invalid,
                addition_invalid,
            ),
        result matches Err(x) ==> (x@ is Rejected || x@ is Zip || x@ is Io || x@ is Xml || x@ is LimitExceeded),
{
    let archive_bytes = source.len() as u64;
    match archive_size_diagnostic(archive_bytes, limits) {
        Some(d) => {
            let ghost dv = d@;
            let found = vec![d];
            assert(diagnostics_view(found@) =~= seq![dv]);
            return Err(DocxError::rejected(found));
        },
        None => {},
    }
    let mut archive = match open_archive(source) {
        Err(error) => return Err(DocxError::Zip(error)),
        Ok(archive) => archive,
    };
    let inspection = match inspect_archive(&mut archive, Some(archive_bytes), None, limits) {
        Err(x) => return Err(x),
        Ok(inspection) => inspection,
    };
    proof {
        let (entries, offset, overlapping) = choose|entries: Seq<ZipEntryFacts>, offset: u64, overlapping: bool|
            entries_listed(entries, zip_package_entries(source@)) && #[trigger] central_directory_shown(
                inspection,
                entries,
                Some(archive_bytes),
                None,
                offset,
                overlapping,
                *limits,
            );
        assert(package_parts(inspection.parts@, source@));
    }
    match inspection.ensure_acceptable() {
        Err(x) => return Err(x),
        Ok(_) => {},
    }
    let parts = inspection.parts.as_slice();
    let (findings, Ghost(replacement_invalid), Ghost(addition_invalid)) = check_part_edits(
        parts,
        replacements,
        removals,
        additions,
        limits,
    );
    if findings.len() > 0 {
        return Err(DocxError::rejected(findings));
    }
    let result = write_edited_package(&mut archive, parts, replacements, removals, additions);
    assert(result matches Ok(export) ==> export_shown(
        export,
        parts@,
        replacements@,
        removals@,
        additions@,
        *limits,
        replacement_invalid,
        addition_invalid,
    ));
    result
}

/// All findings about a set of edits of a package whose parts are
/// `parts`, with the validation messages the new bytes got.
pub fn check_part_edits(
    parts: &[PartInfo],
    replacements: &[(String, Vec<u8>)],
    removals: &[String],
    additions: &[(String, Vec<u8>)],
    limits: &DocxLimits,
) -> (result: (Vec<Diagnostic>, Ghost<Seq<Option<Seq<char>>>>, Ghost<Seq<Option<Seq<char>>>>))
    ensures
        diagnostics_view(result.0@) == all_edit_findings(
            parts@,
            replacements@,
            removals@,
            additions@,
            *limits,
            result.1@,
            result.2@,
        ),
{
    let mut findings: Vec<Diagnostic> = Vec::new();
    let mut r: usize = 0;
    assert(removals@.subrange(0, 0) =~= Seq::<String>::empty());
    assert(diagnostics_view(findings@) =~= Seq::<DiagnosticView>::empty());
    while r < removals.len()
        invariant
            r <= removals@.len(),
            diagnostics_view(findings@) == removal_findings(parts@, removals@.subrange(0, r as int), replacements@),
        decreases removals@.len() - r,
    {
        let name = removals[r].as_str();
        assert(removals@.subrange(0, r + 1).drop_last() =~= removals@.subrange(0, r as int));
        assert(removals@.subrange(0, r + 1).last() == removals@[r as int]);
        if find_part(parts, name).is_none() {
            push_finding(
                &mut findings,
                Some(
                    finding(
                        "DOCX_EXPORT_REMOVAL_PART_NOT_FOUND",
                        name,
                        "removal refers to a part that is absent from the source package".to_owned(),
                    ),
                ),
            );
        } else if find_edit(replacements, name).is_some() {
            push_finding(
                &mut findings,
                Some(
                    finding(
                        "DOCX_EXPORT_PART_EDIT_CONFLICT",
                        name,
                        "the same package part cannot be both replaced and removed".to_owned(),
                    ),
                ),
            );
        }
        r = r + 1;
    }
    assert(removals@.subrange(0, removals@.len() as int) =~= removals@);
    let ghost after_removals = diagnostics_view(findings@);
    let Ghost(replacement_invalid) = check_edits(&mut findings, parts, replacements, limits, false);
    let ghost after_replacements = diagnostics_view(findings@);
    if parts.len() > limits.max_entries || additions.len() > limits.max_entries - parts.len() {
        let d = Diagnostic::error(
            "DOCX_EXPORT_TOO_MANY_PARTS",
            None,
            "adding generated package parts would exceed the configured ZIP entry limit".to_owned(),
        );
        push_finding(&mut findings, Some(d));
    }
    let ghost after_count = diagnostics_view(findings@);
    let Ghost(addition_invalid) = check_edits(&mut findings, parts, additions, limits, true);
    proof {
        assert(diagnostics_view(findings@) =~= all_edit_findings(
            parts@,
            replacements@,
            removals@,
            additions@,
            *limits,
            replacement_invalid,
            addition_invalid,
        ));
    }
    (findings, Ghost(replacement_invalid), Ghost(addition_invalid))
}

/// Writes the edited package: in the source's entry order, removed parts
/// left out, replaced parts written anew, other parts copied raw; then the
/// additions.
fn write_edited_package(
    archive: &mut ZipArchive<Cursor<&[u8]>>,
    parts: &[PartInfo],
    replacements: &[(String, Vec<u8>)],
    removals: &[String],
    additions: &[(String, Vec<u8>)],
) -> (result: DocxResult<RawCopyExport>)
    requires
        parts_in_archive(parts@, zip_entries(*old(archive))),
    ensures
        result matches Ok(export) ==> package_written(
            export.output@,
            written_plan(parts@, replacements@, removals@) + added_plan(additions@),
        ) && contents_written(
            export.output@,
            written_contents_plan(parts@, replacements@, removals@) + added_contents(additions@),
        ),
        result matches Ok(export) ==> export.summary.input_parts == parts@.len()
            && export.summary.rewritten_parts@.map_values(|n: String| n@) == rewritten_names(parts@, replacements@, removals@)
                + additions@.map_values(|a: (String, Vec<u8>)| a.0@)
            && export.summary.raw_copied_parts == raw_copied_count(parts@, replacements@, removals@)
            && export.summary.output_bytes == export.output@.len(),
        result matches Err(x) ==> (x@ is Zip || x@ is Io),
{
    let mut target = new_package_writer();
    let mut rewritten: Vec<String> = Vec::new();
    let mut raw_copied: usize = 0;
    let mut p: usize = 0;
    assert(parts@.subrange(0, 0) =~= Seq::<PartInfo>::empty());
    while p < parts.len()
        invariant
            p <= parts@.len(),
            raw_copied <= p,
            rewritten@.map_values(|n: String| n@) == rewritten_names(parts@.subrange(0, p as int), replacements@, removals@),
            raw_copied == raw_copied_count(parts@.subrange(0, p as int), replacements@, removals@),
            zip_entries(*archive) == zip_entries(*old(archive)),
            parts_in_archive(parts@, zip_entries(*old(archive))),
            written_entries(target) == written_plan(parts@.subrange(0, p as int), replacements@, removals@),
            written_contents(target) == written_contents_plan(parts@.subrange(0, p as int), replacements@, removals@),
        decreases parts@.len() - p,
    {
        let part = &parts[p];
        let name = part.name.as_str();
        assert(parts@.subrange(0, p + 1).drop_last() =~= parts@.subrange(0, p as int));
        assert(parts@.subrange(0, p + 1).last() == parts@[p as int]);
        if !holds_name(removals, name) {
            match find_edit(replacements, name) {
                Some(k) => {
                    match write_replacement_entry(&mut target, archive, part.index, replacements[k].1.as_slice()) {
                        Err(error) => return Err(DocxError::Zip(error)),
                        Ok(Err(error)) => return Err(DocxError::Io(error)),
                        Ok(Ok(_)) => {},
                    }
                    let ghost before = rewritten@;
                    rewritten.push(name.to_owned());
                    assert(rewritten@.map_values(|n: String| n@) =~= before.map_values(|n: String| n@).push(name@));
                },
                None => {
                    match copy_raw_entry(&mut target, archive, part.index) {
                        Err(error) => return Err(DocxError::Zip(error)),
                        Ok(_) => {},
                    }
                    raw_copied = raw_copied + 1;
                },
            }
        }
        p = p + 1;
    }
    assert(parts@.subrange(0, parts@.len() as int) =~= parts@);
    let ghost replaced = rewritten@.map_values(|n: String| n@);
    assert(added_plan(additions@.subrange(0, 0)) =~= Seq::<(Seq<char>, Option<(u64, u64, u32, Seq<char>)>)>::empty());
    assert(added_contents(additions@.subrange(0, 0)) =~= Seq::<Option<Seq<u8>>>::empty());
    let mut a: usize = 0;
    while a < additions.len()
        invariant
            a <= additions@.len(),
            rewritten@.map_values(|n: String| n@) == replaced + additions@.subrange(0, a as int).map_values(
                |x: (String, Vec<u8>)| x.0@,
            ),
            written_entries(target) == written_plan(parts@, replacements@, removals@) + added_plan(
                additions@.subrange(0, a as int),
            ),
            written_contents(target) == written_contents_plan(parts@, replacements@, removals@) + added_contents(
                additions@.subrange(0, a as int),
            ),
        decreases additions@.len() - a,
    {
        let (name, bytes) = (&additions[a].0, &additions[a].1);
        match write_added_entry(&mut target, name.as_str(), bytes.as_slice(), added_part_compression()) {
            Err(error) => return Err(DocxError::Zip(error)),
            Ok(Err(error)) => return Err(DocxError::Io(error)),
            Ok(Ok(_)) => {},
        }
        let ghost before = rewritten@;
        rewritten.push(name.clone());
        assert(rewritten@.map_values(|n: String| n@) =~= before.map_values(|n: String| n@).push(name@));
        assert(additions@.subrange(0, a + 1).map_values(|x: (String, Vec<u8>)| x.0@) =~= additions@.subrange(
            0,
            a as int,
        ).map_values(|x: (String, Vec<u8>)| x.0@).push(name@));
        assert(added_plan(additions@.subrange(0, a + 1)) =~= added_plan(additions@.subrange(0, a as int)).push(
            (name@, None),
        ));
        assert(added_contents(additions@.subrange(0, a + 1)) =~= added_contents(additions@.subrange(0, a as int)).push(
            Some(bytes@),
        ));
        a = a + 1;
    }
    assert(additions@.subrange(0, additions@.len() as int) =~= additions@);
    let ghost written = written_entries(target);
    let output = match finish_package(target) {
        Err(error) => return Err(DocxError::Zip(error)),
        Ok(bytes) => bytes,
    };
    let summary = ExportSummary {
        input_parts: parts.len(),
        raw_copied_parts: raw_copied,
        rewritten_parts: rewritten,
        output_bytes: output.len() as u64,
    };
    Ok(RawCopyExport { output, summary })
}

/// Builds a new package with the parts named in `replacements` written
/// anew and every other part copied.
pub fn raw_copy_with_replacements(source: &[u8], replacements: &[(String, Vec<u8>)], limits: &DocxLimits) -> (result:
    DocxResult<RawCopyExport>)
    ensures
        source@.len() > limits.max_archive_bytes ==> (result matches Err(x) && x@ == DocxFault::Rejected {
            diagnostics: seq![spec_archive_size_diagnostic(source@.len() as u64, *limits)->0],
        }),
        result matches Ok(export) ==> exists|parts: Seq<PartInfo>,
            replacement_invalid: Seq<Option<Seq<char>>>,
            addition_invalid: Seq<Option<Seq<char>>>|
            package_parts(parts, source@) && #[trigger] export_shown(
                export,
                parts,
                replacements@,
                Seq::<String>::empty(),
                Seq::<(String, Vec<u8>)>::empty(),
                *limits,
                replacement_invalid,
                addition_invalid,
            ),
        result matches Err(x) ==> (x@ is Rejected || x@ is Zip || x@ is Io || x@ is Xml || x@ is LimitExceeded),
{
    let removals: Vec<String> = Vec::new();
    let additions: Vec<(String, Vec<u8>)> = Vec::new();
    assert(removals@ =~= Seq::<String>::empty());
    assert(additions@ =~= Seq::<(String, Vec<u8>)>::empty());
    raw_copy_with_part_edits(source, replacements, removals.as_slice(), additions.as_slice(), limits)
}

/// Builds a new package with parts replaced and new bounded parts added;
/// an addition may never shadow a source part.
pub fn raw_copy_with_replacements_and_additions(
    source: &[u8],
    replacements: &[(String, Vec<u8>)],
    additions: &[(String, Vec<u8>)],
    limits: &DocxLimits,
) -> (result: DocxResult<RawCopyExport>)
    ensures
        source@.len() > limits.max_archive_bytes ==> (result matches Err(x) && x@ == DocxFault::Rejected {
            diagnostics: seq![spec_archive_size_diagnostic(source@.len() as u64, *limits)->0],
        }),
        result matches Ok(export) ==> exists|parts: Seq<PartInfo>,
            replacement_invalid: Seq<Option<Seq<char>>>,
            addition_invalid: Seq<Option<Seq<char>>>|
            package_parts(parts, source@) && #[trigger] export_shown(
                export,
                parts,
                replacements@,
                Seq::<String>::empty(),
                additions@,
                *limits,
                replacement_invalid,
                addition_invalid,
            ),
        result matches Err(x) ==> (x@ is Rejected || x@ is Zip || x@ is Io || x@ is Xml || x@ is LimitExceeded),
{
    let removals: Vec<String> = Vec::new();
    assert(removals@ =~= Seq::<String>::empty());
    raw_copy_with_part_edits(source, replacements, removals.as_slice(), additions, limits)
}

/// Builds a new package with parts replaced and the parts named in
/// `removals` left out.
pub fn raw_copy_with_replacements_and_removals(
    source: &[u8],
    replacements: &[(String, Vec<u8>)],
    removals: &[String],
    limits: &DocxLimits,
) -> (result: DocxResult<RawCopyExport>)
    ensures
        source@.len() > limits.max_archive_bytes ==> (result matches Err(x) && x@ == DocxFault::Rejected {
            diagnostics: seq![spec_archive_size_diagnostic(source@.len() as u64, *limits)->0],
        }),
        result matches Ok(export) ==> exists|parts: Seq<PartInfo>,
            replacement_invalid: Seq<Option<Seq<char>>>,
            addition_invalid: Seq<Option<Seq<char>>>|
            package_parts(parts, source@) && #[trigger] export_shown(
                export,
                parts,
                replacements@,
                removals@,
                Seq::<(String, Vec<u8>)>::empty(),
                *limits,
                replacement_invalid,
                addition_invalid,
            ),
        result matches Err(x) ==> (x@ is Rejected || x@ is Zip || x@ is Io || x@ is Xml || x@ is LimitExceeded),
{
    let additions: Vec<(String, Vec<u8>)> = Vec::new();
    assert(additions@ =~= Seq::<(String, Vec<u8>)>::empty());
    raw_copy_with_part_edits(source, replacements, removals, additions.as_slice(), limits)
}

} // verus!
