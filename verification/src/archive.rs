//! A DOCX package held in memory, read with the `zip` crate: the facts of
//! its central directory, the full decompression of its members and bounded
//! reads of single parts.
use vstd::prelude::*;
use std::io::{Cursor, Read};
use zip::ZipArchive;
use zip::result::ZipError;
use crate::diagnostic::{Diagnostic, diagnostics_view, has_error};
use crate::error::{DocxError, DocxFault, DocxResult};
use crate::limits::DocxLimits;
use crate::opc::{parse_content_types, scan_document_security, scan_relationships};
use crate::package::{CONTENT_TYPES_PART, DOCUMENT_PART, PackageInspection, PackageKind, PartInfo, ZipEntryFacts, ZIP_END_OF_CENTRAL_DIRECTORY_BYTES, archive_size_diagnostic, declared_entry_count_in_tail, inspect_central_directory, inspection_findings, is_part_of, size_total, spec_declared_entries};
use crate::text::{ascii_lower, ascii_lower_chars, chars_of, ends_with_chars, has_suffix};
use crate::xml_reader::read_part_events;

verus! {

/// A ZIP archive opened by the `zip` crate.
#[verifier::external_type_specification]
#[verifier::external_body]
#[verifier::reject_recursive_types(R)]
pub struct ExZipArchive<R>(ZipArchive<R>);

/// What the central directory of an opened archive lists, entry by entry,
/// as `by_index_raw` reads each: the entry's name facts (name, raw name is
/// UTF-8, name is enclosed), size facts (compressed size, size, CRC-32,
/// compression method) and kind facts (directory, encrypted, symbolic
/// link); `None` where the entry's local header cannot be found.
pub uninterp spec fn zip_entries(archive: ZipArchive<Cursor<&[u8]>>) -> Seq<
    Option<((Seq<char>, bool, bool), (u64, u64, u32, Seq<char>), (bool, bool, bool))>,
>;

/// What `ZipArchive::new` lists for the archive held in `bytes`, as
/// [`zip_entries`] gives it.
pub uninterp spec fn zip_package_entries(bytes: Seq<u8>) -> Seq<
    Option<((Seq<char>, bool, bool), (u64, u64, u32, Seq<char>), (bool, bool, bool))>,
>;

/// Opens the archive held in `bytes` (`ZipArchive::new` over a cursor); the
/// opened archive lists what the bytes hold.
#[verifier::external_body]
pub fn open_archive(bytes: &[u8]) -> (archive: Result<ZipArchive<Cursor<&[u8]>>, ZipError>)
    ensures
        archive matches Ok(a) ==> zip_entries(a) == zip_package_entries(bytes@),
{
    ZipArchive::new(Cursor::new(bytes))
}

/// The number of entries the archive lists (`ZipArchive::len`).
#[verifier::external_body]
pub fn archive_len(archive: &ZipArchive<Cursor<&[u8]>>) -> (n: usize)
    ensures
        n == zip_entries(*archive).len(),
{
    archive.len()
}

/// The number of bytes before the archive proper (`ZipArchive::offset`).
#[verifier::external_body]
pub fn archive_offset(archive: &ZipArchive<Cursor<&[u8]>>) -> u64 {
    archive.offset()
}

/// Whether two entries share compressed data (`has_overlapping_files`).
#[verifier::external_body]
fn overlapping_entries(archive: &mut ZipArchive<Cursor<&[u8]>>) -> (result: Result<bool, ZipError>)
    ensures
        zip_entries(*final(archive)) == zip_entries(*old(archive)),
{
    archive.has_overlapping_files()
}

/// The name of entry `index`, whether its raw name bytes are UTF-8 and
/// whether it stays inside the package root (`by_index_raw`, `name`,
/// `name_raw`, `enclosed_name`); an undecodable name is read lossily.
#[verifier::external_body]
pub(crate) fn entry_name_facts(archive: &mut ZipArchive<Cursor<&[u8]>>, index: usize) -> (result: Result<
    (String, bool, bool),
    ZipError,
>)
    ensures
        zip_entries(*final(archive)) == zip_entries(*old(archive)),
        match result {
            Ok((name, utf8, enclosed)) => index < zip_entries(*old(archive)).len() && zip_entries(*old(archive))[index as int]
                is Some && zip_entries(*old(archive))[index as int]->Some_0.0 == (name@, utf8, enclosed),
            Err(_) => index >= zip_entries(*old(archive)).len() || zip_entries(*old(archive))[index as int] is None,
        },
{
    let file = archive.by_index_raw(index)?;
    let utf8 = std::str::from_utf8(file.name_raw()).is_ok();
    let name = match file.name() {
        Ok(name) => name.into_owned(),
        Err(_) => String::from_utf8_lossy(file.name_raw()).into_owned(),
    };
    Ok((name, utf8, file.enclosed_name().is_some()))
}

/// The compressed size, size, CRC-32 and compression method of entry
/// `index` as the central directory records them.
#[verifier::external_body]
fn entry_size_facts(archive: &mut ZipArchive<Cursor<&[u8]>>, index: usize) -> (result: Result<
    (u64, u64, u32, String),
    ZipError,
>)
    ensures
        zip_entries(*final(archive)) == zip_entries(*old(archive)),
        match result {
            Ok((compressed, size, crc, method)) => index < zip_entries(*old(archive)).len() && zip_entries(
                *old(archive),
            )[index as int] is Some && zip_entries(*old(archive))[index as int]->Some_0.1 == (compressed, size, crc, method@),
            Err(_) => index >= zip_entries(*old(archive)).len() || zip_entries(*old(archive))[index as int] is None,
        },
{
    let file = archive.by_index_raw(index)?;
    Ok((file.compressed_size(), file.size(), file.crc32(), format!("{:?}", file.compression())))
}

/// Whether entry `index` is a directory, encrypted, or a symbolic link.
#[verifier::external_body]
fn entry_kind_facts(archive: &mut ZipArchive<Cursor<&[u8]>>, index: usize) -> (result: Result<
    (bool, bool, bool),
    ZipError,
>)
    ensures
        zip_entries(*final(archive)) == zip_entries(*old(archive)),
        match result {
            Ok(kind) => index < zip_entries(*old(archive)).len() && zip_entries(*old(archive))[index as int] is Some
                && zip_entries(*old(archive))[index as int]->Some_0.2 == kind,
            Err(_) => index >= zip_entries(*old(archive)).len() || zip_entries(*old(archive))[index as int] is None,
        },
{
    let file = archive.by_index_raw(index)?;
    Ok((file.is_dir(), file.encrypted(), file.is_symlink()))
}

/// Decompresses entry `index` to the end, checking its CRC-32 (`by_index`,
/// `io::copy` into a sink); the number of bytes it held.
#[verifier::external_body]
fn drain_entry(archive: &mut ZipArchive<Cursor<&[u8]>>, index: usize) -> (result: Result<
    Result<u64, std::io::Error>,
    ZipError,
>)
    ensures
        zip_entries(*final(archive)) == zip_entries(*old(archive)),
{
    let mut file = archive.by_index(index)?;
    Ok(std::io::copy(&mut file, &mut std::io::sink()))
}

/// The size the central directory records for the part `name` (`by_name`).
#[verifier::external_body]
fn named_entry_size(archive: &mut ZipArchive<Cursor<&[u8]>>, name: &str) -> (result: Result<u64, ZipError>)
    ensures
        zip_entries(*final(archive)) == zip_entries(*old(archive)),
{
    Ok(archive.by_name(name)?.size())
}

/// At most `max` decompressed bytes of the part `name` (`by_name`, then
/// `Read::take` and `read_to_end`).
#[verifier::external_body]
fn read_named_entry(archive: &mut ZipArchive<Cursor<&[u8]>>, name: &str, max: u64) -> (result: Result<
    Result<Vec<u8>, std::io::Error>,
    ZipError,
>)
    ensures
        zip_entries(*final(archive)) == zip_entries(*old(archive)),
{
    let file = archive.by_name(name)?;
    let mut bytes = Vec::new();
    Ok(file.take(max).read_to_end(&mut bytes).map(|_| bytes))
}

/// An error of the archive itself with the text `message`
/// (`ZipError::InvalidArchive`).
#[verifier::external_body]
fn invalid_archive_error(message: &'static str) -> ZipError {
    ZipError::InvalidArchive(message.into())
}

/// Whether `facts` are the listed facts `entry` of an entry.
pub open spec fn facts_match(
    facts: ZipEntryFacts,
    entry: ((Seq<char>, bool, bool), (u64, u64, u32, Seq<char>), (bool, bool, bool)),
) -> bool {
    &&& entry.0 == (facts.name@, facts.utf8_name, facts.enclosed)
    &&& entry.1 == (facts.compressed_size, facts.uncompressed_size, facts.crc32, facts.compression_method@)
    &&& entry.2 == (facts.is_directory, facts.encrypted, facts.is_symlink)
}

/// Whether `entries` are the facts of every entry the archive lists, in
/// order.
pub open spec fn entries_listed(
    entries: Seq<ZipEntryFacts>,
    listed: Seq<Option<((Seq<char>, bool, bool), (u64, u64, u32, Seq<char>), (bool, bool, bool))>>,
) -> bool {
    &&& entries.len() == listed.len()
    &&& forall|i: int| 0 <= i < listed.len() ==> (#[trigger] listed[i]) is Some && facts_match(entries[i], listed[i]->Some_0)
}

/// Whether `parts` are the parts of the archive held in `bytes`: one per
/// entry its central directory lists, in order, with that entry's facts.
pub open spec fn package_parts(parts: Seq<PartInfo>, bytes: Seq<u8>) -> bool {
    exists|entries: Seq<ZipEntryFacts>|
        #[trigger] entries_listed(entries, zip_package_entries(bytes)) && parts.len() == entries.len() && forall|i: int|
            0 <= i < parts.len() ==> is_part_of(#[trigger] parts[i], entries[i], i)
}

/// The central-directory facts of every entry of `archive`, in order; an
/// error of the archive when the local header of one cannot be found.
pub fn read_entry_facts(archive: &mut ZipArchive<Cursor<&[u8]>>) -> (result: DocxResult<Vec<ZipEntryFacts>>)
    ensures
        zip_entries(*final(archive)) == zip_entries(*old(archive)),
        match result {
            Ok(entries) => entries_listed(entries@, zip_entries(*old(archive))),
            Err(e) => e@ is Zip && exists|i: int|
                0 <= i < zip_entries(*old(archive)).len() && #[trigger] zip_entries(*old(archive))[i] is None,
        },
{
    let ghost listed = zip_entries(*archive);
    let count = archive_len(archive);
    let mut entries: Vec<ZipEntryFacts> = Vec::new();
    let mut index: usize = 0;
    while index < count
        invariant
            index <= count,
            count == listed.len(),
            zip_entries(*archive) == listed,
            listed == zip_entries(*old(archive)),
            entries@.len() == index,
            forall|i: int| 0 <= i < index ==> (#[trigger] listed[i]) is Some && facts_match(entries@[i], listed[i]->Some_0),
        decreases count - index,
    {
        let (name, utf8_name, enclosed) = match entry_name_facts(archive, index) {
            Err(error) => return Err(DocxError::Zip(error)),
            Ok(facts) => facts,
        };
        let (compressed_size, uncompressed_size, crc32, compression_method) = match entry_size_facts(
            archive,
            index,
        ) {
            Err(error) => return Err(DocxError::Zip(error)),
            Ok(facts) => facts,
        };
        let (is_directory, encrypted, is_symlink) = match entry_kind_facts(archive, index) {
            Err(error) => return Err(DocxError::Zip(error)),
            Ok(facts) => facts,
        };
        entries.push(
            ZipEntryFacts {
                name,
                compressed_size,
                uncompressed_size,
                crc32,
                compression_method,
                is_directory,
                encrypted,
                is_symlink,
                enclosed,
                utf8_name,
            },
        );
        index = index + 1;
    }
    Ok(entries)
}

/// Whether two entries share compressed data.
pub fn has_overlapping_entries(archive: &mut ZipArchive<Cursor<&[u8]>>) -> (result: DocxResult<bool>)
    ensures
        zip_entries(*final(archive)) == zip_entries(*old(archive)),
        result matches Err(e) ==> e@ is Zip,
{
    match overlapping_entries(archive) {
        Ok(found) => Ok(found),
        Err(error) => Err(DocxError::Zip(error)),
    }
}

/// Checks that a member that decompressed to `copied` bytes holds the
/// `expected` bytes the central directory says: a different length is an
/// error of the archive.
pub fn member_length_check(copied: u64, expected: u64) -> (result: DocxResult<()>)
    ensures
        result is Ok <==> copied == expected,
        result matches Err(e) ==> e@ is Zip,
{
    if copied != expected {
        Err(DocxError::Zip(invalid_archive_error("uncompressed size does not match the central directory")))
    } else {
        Ok(())
    }
}

/// Decompresses member `index`, which the central directory says holds
/// `expected` bytes: a different length is an error of the archive.
pub fn verify_member(archive: &mut ZipArchive<Cursor<&[u8]>>, index: usize, expected: u64) -> (result:
    DocxResult<()>)
    ensures
        zip_entries(*final(archive)) == zip_entries(*old(archive)),
        result matches Err(e) ==> (e@ is Zip || e@ is Io),
{
    match drain_entry(archive, index) {
        Err(error) => Err(DocxError::Zip(error)),
        Ok(Err(error)) => Err(DocxError::Io(error)),
        Ok(Ok(copied)) => member_length_check(copied, expected),
    }
}

/// Reads the part `part_name`, refusing it when the central directory or
/// its decompressed content says it is larger than `limit` bytes.
pub fn read_part_limited(archive: &mut ZipArchive<Cursor<&[u8]>>, part_name: &str, limit: u64) -> (result:
    DocxResult<Vec<u8>>)
    ensures
        zip_entries(*final(archive)) == zip_entries(*old(archive)),
        match result {
            Ok(bytes) => bytes@.len() <= limit,
            Err(e) => e@ is Zip || e@ is Io || (e@ matches DocxFault::LimitExceeded {
                resource,
                limit: l,
                actual,
            } && resource == part_name@ && l == limit && actual > limit),
        },
{
    let size = match named_entry_size(archive, part_name) {
        Err(error) => return Err(DocxError::Zip(error)),
        Ok(size) => size,
    };
    if size > limit {
        return Err(DocxError::LimitExceeded { resource: part_name.to_owned(), limit, actual: size });
    }
    let max = limit.saturating_add(1);
    let bytes = match read_named_entry(archive, part_name, max) {
        Err(error) => return Err(DocxError::Zip(error)),
        Ok(Err(error)) => return Err(DocxError::Io(error)),
        Ok(Ok(bytes)) => bytes,
    };
    if bytes.len() as u64 > limit {
        return Err(
            DocxError::LimitExceeded { resource: part_name.to_owned(), limit, actual: bytes.len() as u64 },
        );
    }
    Ok(bytes)
}

/// Whether `inspection` holds what the central directory `entries` gives:
/// one part per entry, the size totals, and the central-directory findings
/// first among its findings, alone when one of them is an error.
pub open spec fn central_directory_shown(
    inspection: PackageInspection,
    entries: Seq<ZipEntryFacts>,
    archive_bytes: Option<u64>,
    declared_entries: Option<usize>,
    offset: u64,
    overlapping: bool,
    limits: DocxLimits,
) -> bool {
    let findings = inspection_findings(entries, archive_bytes, declared_entries, offset, overlapping, limits);
    let shown = diagnostics_view(inspection.diagnostics@);
    &&& inspection.archive_bytes == archive_bytes
    &&& inspection.parts@.len() == entries.len()
    &&& forall|i: int| 0 <= i < entries.len() ==> is_part_of(#[trigger] inspection.parts@[i], entries[i], i)
    &&& inspection.total_compressed_bytes == size_total(entries, entries.len() as int, true)
    &&& inspection.total_uncompressed_bytes == size_total(entries, entries.len() as int, false)
    &&& findings.len() <= shown.len()
    &&& shown.subrange(0, findings.len() as int) == findings
    &&& has_error(findings) ==> shown == findings && inspection.package_kind == PackageKind::Unknown
}

/// Appends an error finding about `part_name` carrying `error`'s text.
fn push_part_error(inspection: &mut PackageInspection, code: &'static str, part_name: &str, error: &DocxError)
    ensures
        final(inspection).archive_bytes == old(inspection).archive_bytes,
        final(inspection).parts == old(inspection).parts,
        final(inspection).total_compressed_bytes == old(inspection).total_compressed_bytes,
        final(inspection).total_uncompressed_bytes == old(inspection).total_uncompressed_bytes,
        final(inspection).package_kind == old(inspection).package_kind,
        diagnostics_view(final(inspection).diagnostics@).len() == diagnostics_view(old(inspection).diagnostics@).len() + 1,
        diagnostics_view(final(inspection).diagnostics@).subrange(0, old(inspection).diagnostics@.len() as int)
            == diagnostics_view(old(inspection).diagnostics@),
{
    let ghost before = inspection.diagnostics@;
    let d = Diagnostic::error(code, Some(part_name.to_owned()), error.message());
    inspection.diagnostics.push(d);
    assert(diagnostics_view(inspection.diagnostics@).subrange(0, before.len() as int) =~= diagnostics_view(
        before,
    ));
}

/// Whether `name`, in ASCII lower case, ends with `.rels`.
fn is_relationship_part(name: &str) -> (found: bool)
    ensures
        found == has_suffix(ascii_lower(name@), ".rels"@),
{
    let lower = ascii_lower_chars(chars_of(name).as_slice());
    ends_with_chars(lower.as_slice(), chars_of(".rels").as_slice())
}

/// Inspects a package opened in memory: the container and every entry of
/// its central directory; then, when none of that is an error, it
/// decompresses every member to check its length and CRC, reads the main
/// content type, and checks every relationship part and the main document
/// for active or external content.
pub fn inspect_archive(
    archive: &mut ZipArchive<Cursor<&[u8]>>,
    archive_bytes: Option<u64>,
    declared_entries: Option<usize>,
    limits: &DocxLimits,
) -> (result: DocxResult<PackageInspection>)
    ensures
        zip_entries(*final(archive)) == zip_entries(*old(archive)),
        result matches Ok(inspection) ==> exists|entries: Seq<ZipEntryFacts>, offset: u64, overlapping: bool|
            entries_listed(entries, zip_entries(*old(archive))) && #[trigger] central_directory_shown(
                inspection,
                entries,
                archive_bytes,
                declared_entries,
                offset,
                overlapping,
                *limits,
            ),
{
    let ghost listed = zip_entries(*archive);
    let overlapping = match has_overlapping_entries(archive) {
        Err(error) => return Err(error),
        Ok(found) => found,
    };
    let entries = match read_entry_facts(archive) {
        Err(error) => return Err(error),
        Ok(entries) => entries,
    };
    let offset = archive_offset(archive);
    let mut inspection = inspect_central_directory(
        entries.as_slice(),
        archive_bytes,
        declared_entries,
        offset,
        overlapping,
        limits,
    );
    let ghost findings = inspection_findings(entries@, archive_bytes, declared_entries, offset, overlapping, *limits);
    assert(diagnostics_view(inspection.diagnostics@).subrange(0, findings.len() as int) =~= findings);
    if !inspection.is_acceptable() {
        assert(central_directory_shown(inspection, entries@, archive_bytes, declared_entries, offset, overlapping, *limits));
        assert(entries_listed(entries@, listed));
        return Ok(inspection);
    }
    let mut i: usize = 0;
    while i < inspection.parts.len()
        invariant
            i <= inspection.parts@.len(),
            zip_entries(*archive) == listed,
            listed == zip_entries(*old(archive)),
        decreases inspection.parts@.len() - i,
    {
        let part = &inspection.parts[i];
        if !part.is_directory {
            match verify_member(archive, part.index, part.uncompressed_size) {
                Err(error) => return Err(error),
                Ok(_) => {},
            }
        }
        i = i + 1;
    }
    let content_types = match read_part_limited(archive, CONTENT_TYPES_PART, limits.max_xml_part_bytes) {
        Err(error) => return Err(error),
        Ok(bytes) => bytes,
    };
    let ghost shown_before = inspection;
    match parse_content_types(content_types.as_slice(), limits) {
        Ok(kind) => inspection.package_kind = kind,
        Err(error) => push_part_error(&mut inspection, "DOCX_CONTENT_TYPES_INVALID", CONTENT_TYPES_PART, &error),
    }
    let count = inspection.parts.len();
    let mut k: usize = 0;
    while k < count
        invariant
            k <= count,
            zip_entries(*archive) == listed,
            listed == zip_entries(*old(archive)),
            count == inspection.parts@.len(),
            inspection.archive_bytes == archive_bytes,
            inspection.parts == shown_before.parts,
            inspection.total_compressed_bytes == shown_before.total_compressed_bytes,
            inspection.total_uncompressed_bytes == shown_before.total_uncompressed_bytes,
            findings.len() <= diagnostics_view(inspection.diagnostics@).len(),
            diagnostics_view(inspection.diagnostics@).subrange(0, findings.len() as int) == findings,
        decreases count - k,
    {
        let is_rels = !inspection.parts[k].is_directory && is_relationship_part(inspection.parts[k].name.as_str());
        if is_rels {
            let part_name = inspection.parts[k].name.clone();
            let rels = match read_part_limited(archive, part_name.as_str(), limits.max_xml_part_bytes) {
                Err(error) => return Err(error),
                Ok(bytes) => bytes,
            };
            let stream = read_part_events(rels.as_slice(), limits.max_xml_part_bytes);
            let ghost before = diagnostics_view(inspection.diagnostics@);
            match scan_relationships(&stream, part_name.as_str(), limits, &mut inspection.diagnostics) {
                Ok(_) => {},
                Err(error) => push_part_error(&mut inspection, "DOCX_RELATIONSHIPS_INVALID", part_name.as_str(), &error),
            }
            assert(diagnostics_view(inspection.diagnostics@).subrange(0, findings.len() as int) =~= before.subrange(0, findings.len() as int));
        }
        k = k + 1;
    }
    let document = match read_part_limited(archive, DOCUMENT_PART, limits.max_xml_part_bytes) {
        Err(error) => return Err(error),
        Ok(bytes) => bytes,
    };
    let stream = read_part_events(document.as_slice(), limits.max_xml_part_bytes);
    let ghost before = diagnostics_view(inspection.diagnostics@);
    match scan_document_security(&stream, limits, &mut inspection.diagnostics) {
        Ok(_) => {},
        Err(error) => push_part_error(&mut inspection, "DOCX_DOCUMENT_XML_INVALID", DOCUMENT_PART, &error),
    }
    assert(diagnostics_view(inspection.diagnostics@).subrange(0, findings.len() as int) =~= before.subrange(0, findings.len() as int));
    assert(central_directory_shown(inspection, entries@, archive_bytes, declared_entries, offset, overlapping, *limits));
    assert(entries_listed(entries@, listed));
    Ok(inspection)
}

/// The entry count the end-of-central-directory record in the last
/// 65557 bytes of `bytes` declares.
pub open spec fn declared_entry_count_spec(bytes: Seq<u8>) -> Option<usize> {
    spec_declared_entries(
        bytes.subrange(
            bytes.len() - if bytes.len() < 65557 {
                bytes.len() as int
            } else {
                65557int
            },
            bytes.len() as int,
        ),
    )
}

/// The entry count declared by the end-of-central-directory record in the
/// last bytes of `package_bytes`, where the record and its comment must lie.
pub fn declared_entry_count(package_bytes: &[u8]) -> (count: Option<usize>)
    ensures
        count == declared_entry_count_spec(package_bytes@),
{
    let len = package_bytes.len();
    let search = if len < ZIP_END_OF_CENTRAL_DIRECTORY_BYTES + 65535 {
        len
    } else {
        ZIP_END_OF_CENTRAL_DIRECTORY_BYTES + 65535
    };
    declared_entry_count_in_tail(vstd::slice::slice_subrange(package_bytes, len - search, len))
}

/// Inspects the DOCX package held in `package_bytes`. A package over the
/// archive limit gets only that finding, with nothing read; otherwise the
/// entry count its end record declares and its central directory are
/// checked as [`inspect_archive`] does.
pub fn inspect_docx(package_bytes: &[u8], limits: &DocxLimits) -> (result: DocxResult<PackageInspection>)
    ensures
        package_bytes@.len() > limits.max_archive_bytes ==> (result matches Ok(inspection) && has_error(diagnostics_view(inspection.diagnostics@))
            && inspection.parts@.len() == 0 && inspection.diagnostics@.len() == 1),
        result matches Ok(inspection) ==> inspection.archive_bytes == Some(package_bytes@.len() as u64),
        package_bytes@.len() <= limits.max_archive_bytes ==> (result matches Ok(inspection) ==> exists|
            entries: Seq<ZipEntryFacts>,
            offset: u64,
            overlapping: bool,
        |
            entries_listed(entries, zip_package_entries(package_bytes@)) && #[trigger] central_directory_shown(
                inspection,
                entries,
                Some(package_bytes@.len() as u64),
                declared_entry_count_spec(package_bytes@),
                offset,
                overlapping,
                *limits,
            )),
{
    let archive_bytes = package_bytes.len() as u64;
    match archive_size_diagnostic(archive_bytes, limits) {
        Some(diagnostic) => {
            let inspection = PackageInspection {
                package_kind: PackageKind::Unknown,
                archive_bytes: Some(archive_bytes),
                total_compressed_bytes: 0,
                total_uncompressed_bytes: 0,
                parts: Vec::new(),
                diagnostics: vec![diagnostic],
            };
            assert(diagnostics_view(inspection.diagnostics@)[0].severity == crate::diagnostic::DiagnosticSeverity::Error);
            return Ok(inspection);
        },
        None => {},
    }
    let declared_entries = declared_entry_count(package_bytes);
    let mut archive = match open_archive(package_bytes) {
        Err(error) => return Err(DocxError::Zip(error)),
        Ok(archive) => archive,
    };
    let result = inspect_archive(&mut archive, Some(archive_bytes), declared_entries, limits);
    match result {
        Ok(inspection) => Ok(inspection),
        Err(error) => Err(error),
    }
}

} // verus!
