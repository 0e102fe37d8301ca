//! Resource limits applied before and while a DOCX package is parsed.
use vstd::prelude::*;
use crate::text::{ascii_lower, chars_of, ascii_lower_chars, ends_with_chars, starts_with_chars, contains_chars, has_infix, has_prefix, has_suffix};

verus! {

/// Resource limits applied before and while a DOCX package is parsed.
///
/// The defaults are much larger than an ordinary worksheet but finite, so a
/// corrupt or hostile ZIP cannot consume unbounded memory, disk or CPU time.
#[derive(Clone, Debug, PartialEq, Eq, Structural)]
pub struct DocxLimits {
    /// Allows the Word-import path to inspect embedded MathType OLE objects.
    pub allow_mathtype_ole: bool,
    /// Maximum size of the complete `.docx` file.
    pub max_archive_bytes: u64,
    /// Maximum number of ZIP central-directory entries.
    pub max_entries: usize,
    /// Maximum sum of all declared uncompressed entry sizes.
    pub max_total_uncompressed_bytes: u64,
    /// Maximum declared size of any non-media entry.
    pub max_part_uncompressed_bytes: u64,
    /// Tighter maximum for XML and relationship parts.
    pub max_xml_part_bytes: u64,
    /// Tighter maximum for entries under common media directories.
    pub max_media_part_bytes: u64,
    /// Maximum XML element nesting depth.
    pub max_xml_depth: usize,
    /// Compression ratios above this value are diagnosed as suspicious.
    pub suspicious_compression_ratio: u64,
}

/// The default limits.
pub open spec fn default_limits() -> DocxLimits {
    DocxLimits {
        allow_mathtype_ole: false,
        max_archive_bytes: 104857600,
        max_entries: 4096,
        max_total_uncompressed_bytes: 536870912,
        max_part_uncompressed_bytes: 134217728,
        max_xml_part_bytes: 67108864,
        max_media_part_bytes: 67108864,
        max_xml_depth: 256,
        suspicious_compression_ratio: 200,
    }
}

impl Default for DocxLimits {
    fn default() -> (limits: Self)
        ensures
            limits == default_limits(),
    {
        DocxLimits {
            allow_mathtype_ole: false,
            max_archive_bytes: 104857600,
            max_entries: 4096,
            max_total_uncompressed_bytes: 536870912,
            max_part_uncompressed_bytes: 134217728,
            max_xml_part_bytes: 67108864,
            max_media_part_bytes: 67108864,
            max_xml_depth: 256,
            suspicious_compression_ratio: 200,
        }
    }
}

/// The declared-size limit of the part called `name`: XML and relationship
/// parts, then media parts, then every other part.
pub open spec fn spec_part_limit(limits: DocxLimits, name: Seq<char>) -> u64 {
    let lower = ascii_lower(name);
    if has_suffix(lower, ".xml"@) || has_suffix(lower, ".rels"@) {
        limits.max_xml_part_bytes
    } else if has_infix(lower, "/media/"@) || has_prefix(lower, "word/media/"@) {
        limits.max_media_part_bytes
    } else {
        limits.max_part_uncompressed_bytes
    }
}

impl DocxLimits {
    /// The declared-size limit of the part called `name`.
    pub fn part_limit(&self, name: &str) -> (limit: u64)
        ensures
            limit == spec_part_limit(*self, name@),
    {
        let lower = ascii_lower_chars(chars_of(name).as_slice());
        let xml = chars_of(".xml");
        let rels = chars_of(".rels");
        let media = chars_of("/media/");
        let word_media = chars_of("word/media/");
        if ends_with_chars(lower.as_slice(), xml.as_slice()) || ends_with_chars(
            lower.as_slice(),
            rels.as_slice(),
        ) {
            self.max_xml_part_bytes
        } else if contains_chars(lower.as_slice(), media.as_slice()) || starts_with_chars(
            lower.as_slice(),
            word_media.as_slice(),
        ) {
            self.max_media_part_bytes
        } else {
            self.max_part_uncompressed_bytes
        }
    }
}

} // verus!
