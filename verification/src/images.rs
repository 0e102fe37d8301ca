//! Embedded PNG and JPEG pictures of a package in memory, each occurrence
//! with its place in the logical text and its decoded dimensions.
use vstd::prelude::*;
use crate::archive::{inspect_archive, open_archive, read_part_limited};
use crate::error::{DocxError, DocxFault, DocxResult};
use crate::limits::DocxLimits;
use crate::markers::{parse_image_markers};
use crate::package::DOCUMENT_PART;
use crate::raster::{inspect_raster_image, spec_dimensions_ok, spec_inspect_raster};
use crate::relationships::{DOCUMENT_RELS_PART, PartRelationship, invalid_relationships, parse_image_relationships, relationships_fault};
use crate::text::same_text;

verus! {

/// Largest single picture, in bytes.
pub const MAX_IMAGE_BYTES: u64 = 8388608;

/// Largest sum of the bytes of all occurrences, in bytes.
pub const MAX_TOTAL_OCCURRENCE_BYTES: u64 = 33554432;

/// A safe, decoded occurrence of a raster image in `word/document.xml`.
///
/// `text_char_offset` is the insertion offset among the paragraph's visible
/// text characters (including the single placeholder used for an OMML
/// expression, but excluding image occurrences themselves). Repeated uses of
/// the same relationship remain separate entries.
#[derive(Clone, Debug, PartialEq, Eq)]
pub struct ExtractedImageOccurrence {
    pub paragraph_index: usize,
    pub text_char_offset: usize,
    pub relationship_id: String,
    pub original_filename: Option<String>,
    pub mime_type: String,
    pub byte_size: u64,
    pub width_px: u32,
    pub height_px: u32,
    pub bytes: Vec<u8>,
}

/// A picture part read and decoded once.
struct DecodedImage {
    target_part: String,
    original_filename: Option<String>,
    mime_type: &'static str,
    width_px: u32,
    height_px: u32,
    bytes: Vec<u8>,
}

/// The sum of the byte sizes of `occurrences`.
pub open spec fn total_bytes(occurrences: Seq<ExtractedImageOccurrence>) -> int
    decreases occurrences.len(),
{
    if occurrences.len() == 0 {
        0
    } else {
        total_bytes(occurrences.drop_last()) + occurrences.last().byte_size
    }
}

/// What every returned occurrence satisfies: its size is that of its bytes
/// and at most [`MAX_IMAGE_BYTES`], it is a PNG or JPEG whose dimensions
/// pass the limits, and all sizes together stay within
/// [`MAX_TOTAL_OCCURRENCE_BYTES`].
pub open spec fn occurrences_bounded(occurrences: Seq<ExtractedImageOccurrence>) -> bool {
    &&& total_bytes(occurrences) <= MAX_TOTAL_OCCURRENCE_BYTES
    &&& forall|i: int|
        0 <= i < occurrences.len() ==> {
            let o = #[trigger] occurrences[i];
            &&& o.byte_size == o.bytes@.len()
            &&& o.byte_size <= MAX_IMAGE_BYTES
            &&& (o.mime_type@ == "image/png"@ || o.mime_type@ == "image/jpeg"@)
            &&& spec_dimensions_ok(o.width_px, o.height_px)
        }
}

/// The first relationship with id `id`, if any.
fn find_relationship<'a>(relationships: &'a Vec<PartRelationship>, id: &str) -> (found: Option<&'a PartRelationship>)
    ensures
        match found {
            Some(r) => exists|k: int|
                0 <= k < relationships@.len() && #[trigger] relationships@[k] == *r && r.id@ == id@ && forall|j: int|
                    0 <= j < k ==> #[trigger] relationships@[j].id@ != id@,
            None => forall|k: int| 0 <= k < relationships@.len() ==> #[trigger] relationships@[k].id@ != id@,
        },
{
    let mut i: usize = 0;
    while i < relationships.len()
        invariant
            i <= relationships@.len(),
            forall|j: int| 0 <= j < i ==> #[trigger] relationships@[j].id@ != id@,
        decreases relationships@.len() - i,
    {
        if same_text(relationships[i].id.as_str(), id) {
            return Some(&relationships[i]);
        }
        i = i + 1;
    }
    None
}

/// The position of the first decoded picture of part `target`, if it was
/// read.
fn find_decoded(decoded: &Vec<DecodedImage>, target: &str) -> (found: Option<usize>)
    ensures
        match found {
            Some(k) => k < decoded@.len() && decoded@[k as int].target_part@ == target@ && forall|j: int|
                0 <= j < k ==> #[trigger] decoded@[j].target_part@ != target@,
            None => forall|j: int| 0 <= j < decoded@.len() ==> #[trigger] decoded@[j].target_part@ != target@,
        },
{
    let mut i: usize = 0;
    while i < decoded.len()
        invariant
            i <= decoded@.len(),
            forall|j: int| 0 <= j < i ==> #[trigger] decoded@[j].target_part@ != target@,
        decreases decoded@.len() - i,
    {
        if same_text(decoded[i].target_part.as_str(), target) {
            return Some(i);
        }
        i = i + 1;
    }
    None
}

/// Every decoded picture fits the per-picture limits.
spec fn decoded_bounded(decoded: Seq<DecodedImage>) -> bool {
    forall|i: int|
        0 <= i < decoded.len() ==> {
            let d = #[trigger] decoded[i];
            &&& d.bytes@.len() <= MAX_IMAGE_BYTES
            &&& (d.mime_type@ == "image/png"@ || d.mime_type@ == "image/jpeg"@)
            &&& spec_dimensions_ok(d.width_px, d.height_px)
        }
}

/// Reads and decodes the picture part of `relationship`.
fn decode_picture(
    archive: &mut zip::ZipArchive<std::io::Cursor<&[u8]>>,
    relationship: &PartRelationship,
    marker_id: &str,
) -> (result: DocxResult<DecodedImage>)
    ensures
        result matches Ok(d) ==> d.bytes@.len() <= MAX_IMAGE_BYTES && (d.mime_type@ == "image/png"@
            || d.mime_type@ == "image/jpeg"@) && spec_dimensions_ok(d.width_px, d.height_px)
            && d.target_part@ == relationship.target_part@,
        result matches Ok(d) ==> spec_inspect_raster(d.bytes@) == Ok::<(Seq<char>, u32, u32), DocxFault>(
            (d.mime_type@, d.width_px, d.height_px),
        ) && d.original_filename == relationship.original_filename,
        result matches Err(e) ==> (e@ == DocxFault::LimitExceeded {
            resource: relationship.target_part@,
            limit: MAX_IMAGE_BYTES,
            actual: e@->LimitExceeded_actual,
        } && e@->LimitExceeded_actual > MAX_IMAGE_BYTES) || e@ == relationships_fault(
            "image relationship "@ + marker_id@ + " points to a missing or unreadable part "@
                + relationship.target_part@,
        ) || exists|bytes: Seq<u8>| bytes.len() <= MAX_IMAGE_BYTES && #[trigger] spec_inspect_raster(bytes) == Err::<
            (Seq<char>, u32, u32),
            DocxFault,
        >(e@),
{
    let bytes = match read_part_limited(archive, relationship.target_part.as_str(), MAX_IMAGE_BYTES) {
        Ok(bytes) => bytes,
        Err(DocxError::LimitExceeded { actual, .. }) => {
            return Err(
                DocxError::LimitExceeded {
                    resource: relationship.target_part.clone(),
                    limit: MAX_IMAGE_BYTES,
                    actual,
                },
            );
        },
        Err(_) => {
            let mut message = "image relationship ".to_owned();
            message.append(marker_id);
            message.append(" points to a missing or unreadable part ");
            message.append(relationship.target_part.as_str());
            assert(message@ =~= "image relationship "@ + marker_id@ + " points to a missing or unreadable part "@
                + relationship.target_part@);
            return Err(invalid_relationships(message.as_str()));
        },
    };
    let (mime_type, width_px, height_px) = match inspect_raster_image(bytes.as_slice()) {
        Err(error) => {
            assert(spec_inspect_raster(bytes@) == Err::<(Seq<char>, u32, u32), DocxFault>(error@));
            return Err(error);
        },
        Ok(found) => found,
    };
    Ok(
        DecodedImage {
            target_part: relationship.target_part.clone(),
            original_filename: relationship.original_filename.clone(),
            mime_type,
            width_px,
            height_px,
            bytes,
        },
    )
}

/// Whether the inspected package has a file named `name`.
fn has_part(parts: &Vec<crate::package::PartInfo>, name: &str) -> (found: bool)
    ensures
        found == exists|k: int| 0 <= k < parts@.len() && !(#[trigger] parts@[k]).is_directory && parts@[k].name@ == name@,
{
    let mut i: usize = 0;
    while i < parts.len()
        invariant
            i <= parts@.len(),
            forall|j: int| 0 <= j < i ==> (#[trigger] parts@[j]).is_directory || parts@[j].name@ != name@,
        decreases parts@.len() - i,
    {
        if !parts[i].is_directory && same_text(parts[i].name.as_str(), name) {
            return true;
        }
        i = i + 1;
    }
    false
}

/// The error for a package larger than the archive limit.
pub open spec fn archive_too_large(limits: DocxLimits, actual: u64) -> DocxFault {
    DocxFault::LimitExceeded { resource: "DOCX archive"@, limit: limits.max_archive_bytes, actual }
}

/// Validates the package held in `package_bytes` as a DOCX/OPC package and
/// extracts the embedded PNG and JPEG occurrences of its main document, in
/// document order. Each picture part is read and decoded once; every
/// occurrence carries its own copy of the bytes.
pub fn read_images_from_docx(package_bytes: &[u8], limits: &DocxLimits) -> (result: DocxResult<
    Vec<ExtractedImageOccurrence>,
>)
    ensures
        package_bytes@.len() > limits.max_archive_bytes ==> (result matches Err(e) && e@
            == archive_too_large(*limits, package_bytes@.len() as u64)),
        result matches Ok(occurrences) ==> occurrences_bounded(occurrences@),
{
    let archive_size = package_bytes.len() as u64;
    if archive_size > limits.max_archive_bytes {
        return Err(
            DocxError::LimitExceeded {
                resource: "DOCX archive".to_owned(),
                limit: limits.max_archive_bytes,
                actual: archive_size,
            },
        );
    }
    let mut archive = match open_archive(package_bytes) {
        Err(error) => return Err(DocxError::Zip(error)),
        Ok(archive) => archive,
    };
    let inspection = match inspect_archive(&mut archive, Some(archive_size), None, limits) {
        Err(error) => return Err(error),
        Ok(inspection) => inspection,
    };
    match inspection.ensure_acceptable() {
        Err(error) => return Err(error),
        Ok(_) => {},
    }
    let document_xml = match read_part_limited(&mut archive, DOCUMENT_PART, limits.max_xml_part_bytes) {
        Err(error) => return Err(error),
        Ok(bytes) => bytes,
    };
    let markers = match parse_image_markers(document_xml.as_slice(), limits) {
        Err(error) => return Err(error),
        Ok(markers) => markers,
    };
    let has_relationships = has_part(&inspection.parts, DOCUMENT_RELS_PART);
    if markers.len() == 0 && !has_relationships {
        return Ok(Vec::new());
    }
    let relationships_xml = match read_part_limited(
        &mut archive,
        DOCUMENT_RELS_PART,
        limits.max_xml_part_bytes,
    ) {
        Err(_) => return Err(
            invalid_relationships(
                "word/document.xml contains an image, but its relationship part is missing",
            ),
        ),
        Ok(bytes) => bytes,
    };
    let relationships = match parse_image_relationships(relationships_xml.as_slice(), limits) {
        Err(error) => return Err(error),
        Ok(relationships) => relationships,
    };
    if markers.len() == 0 {
        return Ok(Vec::new());
    }
    let mut decoded: Vec<DecodedImage> = Vec::new();
    let mut total: u64 = 0;
    let mut output: Vec<ExtractedImageOccurrence> = Vec::new();
    let mut m: usize = 0;
    while m < markers.len()
        invariant
            m <= markers@.len(),
            package_bytes@.len() <= limits.max_archive_bytes,
            decoded_bounded(decoded@),
            total == total_bytes(output@),
            occurrences_bounded(output@),
        decreases markers@.len() - m,
    {
        let marker = &markers[m];
        let relationship = match find_relationship(&relationships, marker.relationship_id.as_str()) {
            None => {
                let mut message = "image occurrence references missing relationship ".to_owned();
                message.append(marker.relationship_id.as_str());
                return Err(invalid_relationships(message.as_str()));
            },
            Some(r) => r,
        };
        let k = match find_decoded(&decoded, relationship.target_part.as_str()) {
            Some(k) => k,
            None => {
                let picture = match decode_picture(&mut archive, relationship, marker.relationship_id.as_str()) {
                    Err(error) => return Err(error),
                    Ok(picture) => picture,
                };
                decoded.push(picture);
                decoded.len() - 1
            },
        };
        let picture = &decoded[k];
        let byte_size = picture.bytes.len() as u64;
        if byte_size > MAX_TOTAL_OCCURRENCE_BYTES - total {
            return Err(
                DocxError::LimitExceeded {
                    resource: "DOCX image occurrence bytes".to_owned(),
                    limit: MAX_TOTAL_OCCURRENCE_BYTES,
                    actual: total + byte_size,
                },
            );
        }
        let occurrence = ExtractedImageOccurrence {
            paragraph_index: marker.paragraph_index,
            text_char_offset: marker.text_char_offset,
            relationship_id: marker.relationship_id.clone(),
            original_filename: picture.original_filename.clone(),
            mime_type: picture.mime_type.to_owned(),
            byte_size,
            width_px: picture.width_px,
            height_px: picture.height_px,
            bytes: picture.bytes.clone(),
        };
        let ghost before = output@;
        output.push(occurrence);
        assert(output@.drop_last() =~= before);
        total = total + byte_size;
        m = m + 1;
    }
    Ok(output)
}

} // verus!
