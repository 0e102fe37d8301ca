//! Policy checks on a DOCX package's ZIP container, made from the central
//! directory before any part is decompressed.
use vstd::prelude::*;
use crate::diagnostic::{
    Diagnostic, DiagnosticSeverity, DiagnosticView, any_error, diagnostics_view, has_error,
};
use crate::error::{DocxError, DocxFault, DocxResult};
use crate::limits::{DocxLimits, spec_part_limit};
use crate::text::{
    ascii_lower, ascii_lower_chars, chars_of, contains_chars, decimal, ends_with_chars, has_infix,
    has_prefix, has_suffix, push_decimal, same_chars, starts_with_chars,
};

verus! {

pub const CONTENT_TYPES_PART: &'static str = "[Content_Types].xml";
pub const ROOT_RELS_PART: &'static str = "_rels/.rels";
pub const DOCUMENT_PART: &'static str = "word/document.xml";
/// Length of a ZIP end-of-central-directory record without its comment.
pub const ZIP_END_OF_CENTRAL_DIRECTORY_BYTES: usize = 22;

/// Which kind of Word package the content types declare.
#[derive(Clone, Copy, Debug, PartialEq, Eq, Structural)]
pub enum PackageKind {
    Document,
    Template,
    Unknown,
}

impl Default for PackageKind {
    fn default() -> (kind: Self)
        ensures
            kind == PackageKind::Unknown,
    {
        PackageKind::Unknown
    }
}

/// One entry of the ZIP central directory.
#[derive(Clone, Debug, PartialEq, Eq)]
pub struct PartInfo {
    pub index: usize,
    pub name: String,
    pub compressed_size: u64,
    pub uncompressed_size: u64,
    pub crc32: u32,
    pub compression_method: String,
    pub is_directory: bool,
}

/// The findings about a package's container.
#[derive(Clone, Debug, PartialEq, Eq)]
pub struct PackageInspection {
    pub package_kind: PackageKind,
    pub archive_bytes: Option<u64>,
    pub total_compressed_bytes: u64,
    pub total_uncompressed_bytes: u64,
    pub parts: Vec<PartInfo>,
    pub diagnostics: Vec<Diagnostic>,
}

impl PackageInspection {
    /// Whether no finding is an error.
    pub fn is_acceptable(&self) -> (acceptable: bool)
        ensures
            acceptable == !has_error(diagnostics_view(self.diagnostics@)),
    {
        !any_error(self.diagnostics.as_slice())
    }

    /// The package, refused with all its findings when one is an error.
    pub fn ensure_acceptable(&self) -> (result: DocxResult<()>)
        ensures
            !has_error(diagnostics_view(self.diagnostics@)) ==> result is Ok,
            has_error(diagnostics_view(self.diagnostics@)) ==> (result matches Err(e) && e@
                == (DocxFault::Rejected { diagnostics: diagnostics_view(self.diagnostics@) })),
    {
        if self.is_acceptable() {
            Ok(())
        } else {
            let diagnostics = clone_diagnostics(&self.diagnostics);
            Err(DocxError::rejected(diagnostics))
        }
    }
}

/// A copy of each finding.
fn clone_diagnostics(diagnostics: &Vec<Diagnostic>) -> (copy: Vec<Diagnostic>)
    ensures
        diagnostics_view(copy@) == diagnostics_view(diagnostics@),
{
    let mut copy: Vec<Diagnostic> = Vec::new();
    let mut i: usize = 0;
    while i < diagnostics.len()
        invariant
            i <= diagnostics@.len(),
            diagnostics_view(copy@) == diagnostics_view(diagnostics@.subrange(0, i as int)),
        decreases diagnostics@.len() - i,
    {
        let d = &diagnostics[i];
        let item = Diagnostic::new(
            d.severity,
            d.code,
            clone_opt(&d.part_name),
            d.message.clone(),
            clone_opt(&d.suggested_action),
        );
        let ghost before = copy@;
        copy.push(item);
        assert(diagnostics_view(copy@) =~= diagnostics_view(before).push(item@));
        assert(diagnostics_view(diagnostics@.subrange(0, i + 1)) =~= diagnostics_view(
            diagnostics@.subrange(0, i as int),
        ).push(diagnostics@[i as int]@));
        i = i + 1;
    }
    assert(diagnostics@.subrange(0, diagnostics@.len() as int) =~= diagnostics@);
    copy
}

fn clone_opt(value: &Option<String>) -> (copy: Option<String>)
    ensures
        copy == *value,
{
    match value {
        Some(text) => Some(text.clone()),
        None => None,
    }
}

/// An error finding about the container.
pub open spec fn error_view(code: Seq<char>, part_name: Option<Seq<char>>, message: Seq<char>) -> DiagnosticView {
    DiagnosticView {
        severity: DiagnosticSeverity::Error,
        code,
        part_name,
        message,
        suggested_action: None,
    }
}

/// The finding for a package larger than the limit, if it is.
pub open spec fn spec_archive_size_diagnostic(archive_bytes: u64, limits: DocxLimits) -> Option<DiagnosticView> {
    if archive_bytes > limits.max_archive_bytes {
        Some(
            error_view(
                "DOCX_ARCHIVE_TOO_LARGE"@,
                None,
                "package is "@ + decimal(archive_bytes as nat) + " bytes; the configured limit is "@
                    + decimal(limits.max_archive_bytes as nat) + " bytes"@,
            ),
        )
    } else {
        None
    }
}

/// The finding for a package larger than the limit, if it is.
pub fn archive_size_diagnostic(archive_bytes: u64, limits: &DocxLimits) -> (diagnostic: Option<
    Diagnostic,
>)
    ensures
        match diagnostic {
            Some(d) => spec_archive_size_diagnostic(archive_bytes, *limits) == Some(d@),
            None => spec_archive_size_diagnostic(archive_bytes, *limits) is None,
        },
{
    if archive_bytes > limits.max_archive_bytes {
        let mut message = "package is ".to_owned();
        push_decimal(&mut message, archive_bytes);
        message.append(" bytes; the configured limit is ");
        push_decimal(&mut message, limits.max_archive_bytes);
        message.append(" bytes");
        Some(Diagnostic::error("DOCX_ARCHIVE_TOO_LARGE", None, message))
    } else {
        None
    }
}

/// Why a part called `name` carries active content, if it does.
pub open spec fn spec_active_part_reason(name: Seq<char>, limits: DocxLimits) -> Option<Seq<char>> {
    let lower = ascii_lower(name);
    if has_suffix(lower, "vbaproject.bin"@) || has_infix(lower, "/vba/"@) {
        Some("VBA macro projects are not allowed"@)
    } else if has_prefix(lower, "word/activex/"@) || has_infix(lower, "/activex/"@) {
        Some("ActiveX controls are not allowed"@)
    } else if (has_prefix(lower, "word/embeddings/"@) || has_infix(lower, "/embeddings/"@))
        && !limits.allow_mathtype_ole {
        Some("embedded OLE/package objects are not allowed"@)
    } else if has_prefix(lower, "_xmlsignatures/"@) || has_suffix(lower, "origin.sigs"@) {
        Some("digital-signature package parts are not preserved by this workflow"@)
    } else {
        None
    }
}

/// Why a part called `name` carries active content, if it does.
pub fn active_part_reason(name: &str, limits: &DocxLimits) -> (reason: Option<&'static str>)
    ensures
        match reason {
            Some(text) => spec_active_part_reason(name@, *limits) == Some(text@),
            None => spec_active_part_reason(name@, *limits) is None,
        },
{
    let lower = ascii_lower_chars(chars_of(name).as_slice());
    let l = lower.as_slice();
    if ends_with_chars(l, chars_of("vbaproject.bin").as_slice()) || contains_chars(
        l,
        chars_of("/vba/").as_slice(),
    ) {
        Some("VBA macro projects are not allowed")
    } else if starts_with_chars(l, chars_of("word/activex/").as_slice()) || contains_chars(
        l,
        chars_of("/activex/").as_slice(),
    ) {
        Some("ActiveX controls are not allowed")
    } else if (starts_with_chars(l, chars_of("word/embeddings/").as_slice()) || contains_chars(
        l,
        chars_of("/embeddings/").as_slice(),
    )) && !limits.allow_mathtype_ole {
        Some("embedded OLE/package objects are not allowed")
    } else if starts_with_chars(l, chars_of("_xmlsignatures/").as_slice()) || ends_with_chars(
        l,
        chars_of("origin.sigs").as_slice(),
    ) {
        Some("digital-signature package parts are not preserved by this workflow")
    } else {
        None
    }
}

/// Whether a content type declares macro-enabled or active content.
pub open spec fn spec_is_active_content_type(content_type: Seq<char>, limits: DocxLimits) -> bool {
    let lower = ascii_lower(content_type);
    has_infix(lower, "macroenabled"@) || has_infix(lower, "vbaproject"@) || has_infix(
        lower,
        "activex"@,
    ) || (has_infix(lower, "oleobject"@) && !limits.allow_mathtype_ole)
}

/// Whether a content type declares macro-enabled or active content.
pub fn is_active_content_type(content_type: &str, limits: &DocxLimits) -> (active: bool)
    ensures
        active == spec_is_active_content_type(content_type@, *limits),
{
    let lower = ascii_lower_chars(chars_of(content_type).as_slice());
    let l = lower.as_slice();
    contains_chars(l, chars_of("macroenabled").as_slice()) || contains_chars(
        l,
        chars_of("vbaproject").as_slice(),
    ) || contains_chars(l, chars_of("activex").as_slice()) || (contains_chars(
        l,
        chars_of("oleobject").as_slice(),
    ) && !limits.allow_mathtype_ole)
}

/// `t[i..j]` is a segment of the `/`-separated path `t` that is empty, `.`
/// or `..`.
pub open spec fn bad_segment_at(t: Seq<char>, i: int, j: int) -> bool {
    &&& 0 <= i <= j <= t.len()
    &&& (i == 0 || t[i - 1] == '/')
    &&& (j == t.len() || t[j] == '/')
    &&& forall|k: int| i <= k < j ==> t[k] != '/'
    &&& (j == i || t.subrange(i, j) == "."@ || t.subrange(i, j) == ".."@)
}

/// `t` has an empty, `.` or `..` segment.
pub open spec fn has_bad_segment(t: Seq<char>) -> bool {
    exists|i: int, j: int| bad_segment_at(t, i, j)
}

/// The length of `name` without its trailing `/` characters.
pub open spec fn trimmed_slash_end(name: Seq<char>, end: int) -> int
    decreases end,
{
    if end > 0 && end <= name.len() && name[end - 1] == '/' {
        trimmed_slash_end(name, end - 1)
    } else {
        end
    }
}

/// Why the part name `name` is unsafe, if it is; `enclosed` tells whether the
/// ZIP reader found it to stay inside the package and `utf8` whether its raw
/// bytes are UTF-8.
pub open spec fn spec_invalid_part_name(name: Seq<char>, enclosed: bool, utf8: bool) -> Option<Seq<char>> {
    let lower = ascii_lower(name);
    let trimmed = name.subrange(0, trimmed_slash_end(name, name.len() as int));
    if !enclosed {
        Some("part name is absolute, contains NUL, or escapes the package root"@)
    } else if !utf8 {
        Some("part name is not UTF-8"@)
    } else if name.len() == 0 || name[0] == '/' || name[0] == '\\' {
        Some("part name is empty or absolute"@)
    } else if name.contains('\\') || name.contains(':') || name.contains('?') || name.contains('#') {
        Some("part name contains a forbidden URI/path character"@)
    } else if has_infix(lower, "%00"@) || has_infix(lower, "%2f"@) || has_infix(lower, "%5c"@) {
        Some("part name contains an encoded path separator or NUL"@)
    } else if trimmed.len() == 0 || has_bad_segment(trimmed) {
        Some("part name contains an empty, '.' or '..' segment"@)
    } else {
        None
    }
}

fn contains_char(s: &[char], c: char) -> (found: bool)
    ensures
        found == s@.contains(c),
{
    let mut i: usize = 0;
    while i < s.len()
        invariant
            i <= s@.len(),
            forall|j: int| 0 <= j < i ==> s@[j] != c,
        decreases s@.len() - i,
    {
        if s[i] == c {
            return true;
        }
        i = i + 1;
    }
    false
}

/// Whether `t[start..k]` is empty, `.` or `..`.
fn segment_is_bad(t: &[char], start: usize, k: usize) -> (bad: bool)
    requires
        start <= k <= t@.len(),
    ensures
        bad == (k == start || t@.subrange(start as int, k as int) == "."@ || t@.subrange(
            start as int,
            k as int,
        ) == ".."@),
{
    proof {
        reveal_strlit(".");
        reveal_strlit("..");
        assert("."@.len() == 1 && "."@[0] == '.');
        assert(".."@.len() == 2 && ".."@[0] == '.' && ".."@[1] == '.');
    }
    let length = k - start;
    let is_dot = length == 1 && t[start] == '.';
    let is_dot_dot = length == 2 && t[start] == '.' && t[start + 1] == '.';
    if is_dot {
        assert(t@.subrange(start as int, k as int) =~= "."@);
    }
    if is_dot_dot {
        assert(t@.subrange(start as int, k as int) =~= ".."@);
    }
    if !is_dot && length == 1 {
        assert(t@.subrange(start as int, k as int)[0] != "."@[0]);
    }
    if !is_dot_dot && length == 2 {
        assert(t@.subrange(start as int, k as int)[0] != ".."@[0] || t@.subrange(
            start as int,
            k as int,
        )[1] != ".."@[1]);
    }
    let bad = length == 0 || is_dot || is_dot_dot;
    proof {
        let sub = t@.subrange(start as int, k as int);
        if sub == "."@ {
            assert(sub.len() == 1 && sub[0] == '.');
        }
        if sub == ".."@ {
            assert(sub.len() == 2 && sub[0] == '.' && sub[1] == '.');
        }
    }
    bad
}

/// A segment that starts at `start` after a separator and meets no
/// separator before `k` can only end at `k`.
proof fn lemma_segment_end(t: Seq<char>, start: int, k: int, i: int, j: int)
    requires
        0 <= start <= k <= t.len(),
        k == t.len() || t[k] == '/',
        forall|m: int| start <= m < k ==> t[m] != '/',
        bad_segment_at(t, i, j),
        start <= i <= k,
    ensures
        i == start && j == k,
{
    if i > start {
        assert(t[i - 1] == '/');
        assert(false);
    }
    if j < k {
        assert(t[j] == '/');
        assert(false);
    }
    if j > k {
        assert(t[k] != '/');
        assert(k < t.len());
        assert(false);
    }
}

/// Whether the `/`-separated path `t` has an empty, `.` or `..` segment.
pub fn find_bad_segment(t: &[char]) -> (found: bool)
    ensures
        found == has_bad_segment(t@),
{
    let mut start: usize = 0;
    let mut k: usize = 0;
    while k < t.len()
        invariant
            start <= k <= t@.len(),
            start == 0 || t@[start - 1] == '/',
            forall|m: int| start <= m < k ==> t@[m] != '/',
            forall|i: int, j: int| #![trigger bad_segment_at(t@, i, j)]
                bad_segment_at(t@, i, j) ==> i >= start,
        decreases t@.len() - k,
    {
        if t[k] == '/' {
            if segment_is_bad(t, start, k) {
                assert(bad_segment_at(t@, start as int, k as int));
                return true;
            }
            proof {
                assert forall|i: int, j: int| bad_segment_at(t@, i, j) implies i >= k + 1 by {
                    if i <= k {
                        lemma_segment_end(t@, start as int, k as int, i, j);
                    }
                }
            }
            start = k + 1;
        }
        k = k + 1;
    }
    if segment_is_bad(t, start, k) {
        assert(bad_segment_at(t@, start as int, k as int));
        return true;
    }
    proof {
        assert forall|i: int, j: int| !bad_segment_at(t@, i, j) by {
            if bad_segment_at(t@, i, j) {
                lemma_segment_end(t@, start as int, k as int, i, j);
            }
        }
    }
    false
}

/// Why a part name is unsafe, if it is.
pub fn invalid_part_name(name: &str, enclosed: bool, utf8: bool) -> (reason: Option<String>)
    ensures
        match reason {
            Some(text) => spec_invalid_part_name(name@, enclosed, utf8) == Some(text@),
            None => spec_invalid_part_name(name@, enclosed, utf8) is None,
        },
{
    if !enclosed {
        return Some("part name is absolute, contains NUL, or escapes the package root".to_owned());
    }
    if !utf8 {
        return Some("part name is not UTF-8".to_owned());
    }
    let chars = chars_of(name);
    let c = chars.as_slice();
    if c.len() == 0 || c[0] == '/' || c[0] == '\\' {
        return Some("part name is empty or absolute".to_owned());
    }
    if contains_char(c, '\\') || contains_char(c, ':') || contains_char(c, '?') || contains_char(
        c,
        '#',
    ) {
        return Some("part name contains a forbidden URI/path character".to_owned());
    }
    let lower = ascii_lower_chars(c);
    if contains_chars(lower.as_slice(), chars_of("%00").as_slice()) || contains_chars(
        lower.as_slice(),
        chars_of("%2f").as_slice(),
    ) || contains_chars(lower.as_slice(), chars_of("%5c").as_slice()) {
        return Some("part name contains an encoded path separator or NUL".to_owned());
    }
    let mut end = c.len();
    while end > 0 && c[end - 1] == '/'
        invariant
            end <= c@.len(),
            trimmed_slash_end(c@, c@.len() as int) == trimmed_slash_end(c@, end as int),
        decreases end,
    {
        end = end - 1;
    }
    let trimmed = vstd::slice::slice_subrange(c, 0, end);
    if end == 0 || find_bad_segment(trimmed) {
        return Some("part name contains an empty, '.' or '..' segment".to_owned());
    }
    None
}

/// `tail` holds a ZIP end-of-central-directory record at `o` whose comment
/// runs exactly to the end of `tail`.
pub open spec fn end_record_at(tail: Seq<u8>, o: int) -> bool {
    &&& 0 <= o
    &&& o + 22 <= tail.len()
    &&& tail[o] == 0x50 && tail[o + 1] == 0x4b && tail[o + 2] == 0x05 && tail[o + 3] == 0x06
    &&& o + 22 + (tail[o + 20] as int + 256 * (tail[o + 21] as int)) == tail.len()
}

/// The last offset at or below `o` that holds such a record.
pub open spec fn last_end_record(tail: Seq<u8>, o: int) -> Option<int>
    decreases o + 1,
{
    if o < 0 {
        None
    } else if end_record_at(tail, o) {
        Some(o)
    } else {
        last_end_record(tail, o - 1)
    }
}

/// The entry count declared by the last end-of-central-directory record of
/// the archive's final bytes `tail`, if there is one.
pub open spec fn spec_declared_entries(tail: Seq<u8>) -> Option<usize> {
    match last_end_record(tail, tail.len() - 22) {
        Some(o) => Some((tail[o + 10] as int + 256 * (tail[o + 11] as int)) as usize),
        None => None,
    }
}

/// The entry count declared in the end-of-central-directory record found in
/// the final bytes `tail` of an archive.
pub fn declared_entry_count_in_tail(tail: &[u8]) -> (count: Option<usize>)
    ensures
        count == spec_declared_entries(tail@),
{
    if tail.len() < ZIP_END_OF_CENTRAL_DIRECTORY_BYTES {
        return None;
    }
    let mut o: usize = tail.len() - ZIP_END_OF_CENTRAL_DIRECTORY_BYTES;
    loop
        invariant
            o + 22 <= tail@.len(),
            last_end_record(tail@, tail@.len() - 22) == last_end_record(tail@, o as int),
        decreases o,
    {
        if tail[o] == 0x50 && tail[o + 1] == 0x4b && tail[o + 2] == 0x05 && tail[o + 3] == 0x06 {
            let comment = tail[o + 20] as usize + 256 * (tail[o + 21] as usize);
            if comment == tail.len() - o - ZIP_END_OF_CENTRAL_DIRECTORY_BYTES {
                return Some(tail[o + 10] as usize + 256 * (tail[o + 11] as usize));
            }
        }
        if o == 0 {
            assert(last_end_record(tail@, -1) is None);
            return None;
        }
        o = o - 1;
    }
}

/// What the central directory records about one entry, and what the ZIP
/// reader found about its name.
#[derive(Clone, Debug)]
pub struct ZipEntryFacts {
    pub name: String,
    pub compressed_size: u64,
    pub uncompressed_size: u64,
    pub crc32: u32,
    pub compression_method: String,
    pub is_directory: bool,
    pub encrypted: bool,
    pub is_symlink: bool,
    /// The name stays inside the package: it is not absolute, has no NUL and
    /// does not climb out of the root.
    pub enclosed: bool,
    /// The raw name bytes are UTF-8.
    pub utf8_name: bool,
}

/// A warning finding.
pub open spec fn warning_view(code: Seq<char>, part_name: Option<Seq<char>>, message: Seq<char>) -> DiagnosticView {
    DiagnosticView {
        severity: DiagnosticSeverity::Warning,
        code,
        part_name,
        message,
        suggested_action: None,
    }
}

/// `d` alone when `condition` holds, else nothing.
pub open spec fn when(condition: bool, d: DiagnosticView) -> Seq<DiagnosticView> {
    if condition {
        seq![d]
    } else {
        Seq::empty()
    }
}

/// The findings about the archive as a whole.
pub open spec fn archive_findings(
    archive_bytes: Option<u64>,
    declared_entries: Option<usize>,
    count: nat,
    offset: u64,
    overlapping: bool,
    limits: DocxLimits,
) -> Seq<DiagnosticView> {
    let entry_count: int = match declared_entries {
        Some(n) => n as int,
        None => count as int,
    };
    (match archive_bytes {
        Some(size) => match spec_archive_size_diagnostic(size, limits) {
            Some(d) => seq![d],
            None => Seq::empty(),
        },
        None => Seq::empty(),
    }) + when(
        entry_count > limits.max_entries,
        error_view(
            "DOCX_TOO_MANY_PARTS"@,
            None,
            "package contains "@ + decimal(entry_count as nat) + " ZIP entries; the configured limit is "@
                + decimal(limits.max_entries as nat),
        ),
    ) + when(
        entry_count > count,
        error_view(
            "DOCX_DUPLICATE_PART"@,
            None,
            "the central directory declares "@ + decimal(entry_count as nat) + " entries, but only "@
                + decimal(count) + " unique part names remain; duplicate part names are not allowed"@,
        ),
    ) + when(
        offset != 0,
        error_view(
            "DOCX_PREPENDED_DATA"@,
            None,
            decimal(offset as nat) + " byte(s) occur before the ZIP package"@,
        ),
    ) + when(
        overlapping,
        error_view("DOCX_OVERLAPPING_ZIP_ENTRIES"@, None, "two or more ZIP entries share compressed data"@),
    )
}

/// An earlier entry has exactly the same name as entry `i`.
pub open spec fn duplicate_name(entries: Seq<ZipEntryFacts>, i: int) -> bool {
    exists|j: int| 0 <= j < i && #[trigger] entries[j].name@ == entries[i].name@
}

/// An earlier entry has the same name as entry `i` up to ASCII case.
pub open spec fn folded_duplicate_name(entries: Seq<ZipEntryFacts>, i: int) -> bool {
    exists|j: int| 0 <= j < i && ascii_lower(#[trigger] entries[j].name@) == ascii_lower(entries[i].name@)
}

/// The findings about entry `i`, given the entries before it.
pub open spec fn entry_findings(entries: Seq<ZipEntryFacts>, i: int, limits: DocxLimits) -> Seq<DiagnosticView> {
    entry_name_findings(entries, i) + entry_content_findings(entries, i, limits)
}

/// The findings about the name and kind of entry `i`.
pub open spec fn entry_name_findings(entries: Seq<ZipEntryFacts>, i: int) -> Seq<DiagnosticView> {
    let e = entries[i];
    let name = e.name@;
    let part = Some(name);
    let duplicate = duplicate_name(entries, i);
    (match spec_invalid_part_name(name, e.enclosed, e.utf8_name) {
        Some(reason) => seq![error_view("DOCX_UNSAFE_PART_NAME"@, part, reason)],
        None => Seq::empty(),
    }) + when(
        e.encrypted,
        error_view("DOCX_ENCRYPTED_PART"@, part, "encrypted ZIP entries are not supported"@),
    ) + when(
        e.is_symlink,
        error_view("DOCX_SYMLINK_PART"@, part, "symbolic links are not valid DOCX package parts"@),
    ) + when(
        duplicate,
        error_view("DOCX_DUPLICATE_PART"@, part, "the package contains the same part name more than once"@),
    ) + when(
        !duplicate && folded_duplicate_name(entries, i),
        error_view("DOCX_AMBIGUOUS_PART_CASE"@, part, "two part names differ only by ASCII letter case"@),
    )
}

/// The findings about the size and content of entry `i`.
pub open spec fn entry_content_findings(entries: Seq<ZipEntryFacts>, i: int, limits: DocxLimits) -> Seq<
    DiagnosticView,
> {
    let e = entries[i];
    let name = e.name@;
    let part = Some(name);
    let limit = spec_part_limit(limits, name);
    when(
        e.uncompressed_size > limit,
        error_view(
            "DOCX_PART_TOO_LARGE"@,
            part,
            "part expands to "@ + decimal(e.uncompressed_size as nat) + " bytes; its limit is "@
                + decimal(limit as nat) + " bytes"@,
        ),
    ) + when(
        e.compressed_size > 0 && e.uncompressed_size
            / e.compressed_size > limits.suspicious_compression_ratio,
        warning_view(
            "DOCX_SUSPICIOUS_COMPRESSION_RATIO"@,
            part,
            "declared compression ratio is approximately "@ + decimal(
                (e.uncompressed_size / e.compressed_size) as nat,
            ) + ":1"@,
        ),
    ) + (match spec_active_part_reason(name, limits) {
        Some(reason) => seq![error_view("DOCX_ACTIVE_CONTENT_PART"@, part, reason)],
        None => Seq::empty(),
    })
}

/// The findings about the first `n` entries.
pub open spec fn entries_findings(entries: Seq<ZipEntryFacts>, n: int, limits: DocxLimits) -> Seq<
    DiagnosticView,
>
    decreases n,
{
    if n <= 0 {
        Seq::empty()
    } else {
        entries_findings(entries, n - 1, limits) + entry_findings(entries, n - 1, limits)
    }
}

/// The sum of the declared compressed or uncompressed sizes of the first `n`
/// entries, saturating at `u64::MAX`.
pub open spec fn size_total(entries: Seq<ZipEntryFacts>, n: int, compressed: bool) -> int
    decreases n,
{
    if n <= 0 {
        0
    } else {
        let size = if compressed {
            entries[n - 1].compressed_size
        } else {
            entries[n - 1].uncompressed_size
        };
        let sum = size_total(entries, n - 1, compressed) + size;
        if sum > u64::MAX {
            u64::MAX as int
        } else {
            sum
        }
    }
}

/// No entry is called `name`.
pub open spec fn missing_part(entries: Seq<ZipEntryFacts>, name: Seq<char>) -> bool {
    forall|j: int| 0 <= j < entries.len() ==> #[trigger] entries[j].name@ != name
}

/// The findings about required parts that are missing.
pub open spec fn required_findings(entries: Seq<ZipEntryFacts>) -> Seq<DiagnosticView> {
    when(
        missing_part(entries, CONTENT_TYPES_PART@),
        error_view("DOCX_REQUIRED_PART_MISSING"@, Some(CONTENT_TYPES_PART@), "required OPC/DOCX part is missing"@),
    ) + when(
        missing_part(entries, ROOT_RELS_PART@),
        error_view("DOCX_REQUIRED_PART_MISSING"@, Some(ROOT_RELS_PART@), "required OPC/DOCX part is missing"@),
    ) + when(
        missing_part(entries, DOCUMENT_PART@),
        error_view("DOCX_REQUIRED_PART_MISSING"@, Some(DOCUMENT_PART@), "required OPC/DOCX part is missing"@),
    )
}

/// The part recorded for entry `i`.
pub open spec fn is_part_of(part: PartInfo, entry: ZipEntryFacts, i: int) -> bool {
    &&& part.index == i
    &&& part.name@ == entry.name@
    &&& part.compressed_size == entry.compressed_size
    &&& part.uncompressed_size == entry.uncompressed_size
    &&& part.crc32 == entry.crc32
    &&& part.compression_method@ == entry.compression_method@
    &&& part.is_directory == entry.is_directory
}

/// Appends `d` to `out`.
fn push_finding(out: &mut Vec<Diagnostic>, d: Diagnostic)
    ensures
        diagnostics_view(final(out)@) == diagnostics_view(old(out)@).push(d@),
{
    let ghost before = out@;
    out.push(d);
    assert(diagnostics_view(out@) =~= diagnostics_view(before).push(d@));
}

/// The findings about the archive as a whole.
fn archive_findings_of(
    archive_bytes: Option<u64>,
    declared_entries: Option<usize>,
    count: usize,
    offset: u64,
    overlapping: bool,
    limits: &DocxLimits,
) -> (findings: Vec<Diagnostic>)
    ensures
        diagnostics_view(findings@) == archive_findings(
            archive_bytes,
            declared_entries,
            count as nat,
            offset,
            overlapping,
            *limits,
        ),
{
    let mut out: Vec<Diagnostic> = Vec::new();
    assert(diagnostics_view(out@) =~= Seq::<DiagnosticView>::empty());
    if let Some(size) = archive_bytes {
        if let Some(d) = archive_size_diagnostic(size, limits) {
            push_finding(&mut out, d);
        }
    }
    let ghost first = diagnostics_view(out@);
    let entry_count = match declared_entries {
        Some(n) => n,
        None => count,
    };
    if entry_count > limits.max_entries {
        let mut message = "package contains ".to_owned();
        push_decimal(&mut message, entry_count as u64);
        message.append(" ZIP entries; the configured limit is ");
        push_decimal(&mut message, limits.max_entries as u64);
        push_finding(&mut out, Diagnostic::error("DOCX_TOO_MANY_PARTS", None, message));
    }
    let ghost second = diagnostics_view(out@);
    if entry_count > count {
        let mut message = "the central directory declares ".to_owned();
        push_decimal(&mut message, entry_count as u64);
        message.append(" entries, but only ");
        push_decimal(&mut message, count as u64);
        message.append(" unique part names remain; duplicate part names are not allowed");
        push_finding(&mut out, Diagnostic::error("DOCX_DUPLICATE_PART", None, message));
    }
    let ghost third = diagnostics_view(out@);
    if offset != 0 {
        let mut message = String::new();
        push_decimal(&mut message, offset);
        message.append(" byte(s) occur before the ZIP package");
        push_finding(&mut out, Diagnostic::error("DOCX_PREPENDED_DATA", None, message));
    }
    let ghost fourth = diagnostics_view(out@);
    if overlapping {
        push_finding(
            &mut out,
            Diagnostic::error(
                "DOCX_OVERLAPPING_ZIP_ENTRIES",
                None,
                "two or more ZIP entries share compressed data".to_owned(),
            ),
        );
    }
    proof {
        reveal_strlit("");
    }
    out
}

/// Whether an entry before `i` has the same name as entry `i`.
fn earlier_same_name(entries: &[ZipEntryFacts], i: usize) -> (found: bool)
    requires
        i < entries@.len(),
    ensures
        found == duplicate_name(entries@, i as int),
{
    let mut j: usize = 0;
    while j < i
        invariant
            j <= i < entries@.len(),
            forall|k: int| 0 <= k < j ==> entries@[k].name@ != entries@[i as int].name@,
        decreases i - j,
    {
        if entries[j].name == entries[i].name {
            return true;
        }
        j = j + 1;
    }
    false
}

/// Whether an entry before `i` has the same name as entry `i` up to ASCII case.
fn earlier_folded_name(entries: &[ZipEntryFacts], i: usize) -> (found: bool)
    requires
        i < entries@.len(),
    ensures
        found == folded_duplicate_name(entries@, i as int),
{
    let target = ascii_lower_chars(chars_of(entries[i].name.as_str()).as_slice());
    let mut j: usize = 0;
    while j < i
        invariant
            j <= i < entries@.len(),
            target@ == ascii_lower(entries@[i as int].name@),
            forall|k: int| 0 <= k < j ==> ascii_lower(entries@[k].name@) != ascii_lower(
                entries@[i as int].name@,
            ),
        decreases i - j,
    {
        let other = ascii_lower_chars(chars_of(entries[j].name.as_str()).as_slice());
        if same_chars(other.as_slice(), target.as_slice()) {
            return true;
        }
        j = j + 1;
    }
    false
}

/// Appends the findings about the name and kind of entry `i`.
fn push_name_findings(
    entries: &[ZipEntryFacts],
    i: usize,
    out: &mut Vec<Diagnostic>,
)
    requires
        i < entries@.len(),
    ensures
        diagnostics_view(final(out)@) == diagnostics_view(old(out)@) + entry_name_findings(
            entries@,
            i as int,
        ),
{
    let ghost start = diagnostics_view(out@);
    let e = &entries[i];
    let name = e.name.as_str();
    if let Some(reason) = invalid_part_name(name, e.enclosed, e.utf8_name) {
        push_finding(out, Diagnostic::error("DOCX_UNSAFE_PART_NAME", Some(e.name.clone()), reason));
    }
    let ghost s1 = diagnostics_view(out@);
    if e.encrypted {
        push_finding(
            out,
            Diagnostic::error(
                "DOCX_ENCRYPTED_PART",
                Some(e.name.clone()),
                "encrypted ZIP entries are not supported".to_owned(),
            ),
        );
    }
    let ghost s2 = diagnostics_view(out@);
    if e.is_symlink {
        push_finding(
            out,
            Diagnostic::error(
                "DOCX_SYMLINK_PART",
                Some(e.name.clone()),
                "symbolic links are not valid DOCX package parts".to_owned(),
            ),
        );
    }
    let ghost s3 = diagnostics_view(out@);
    let duplicate = earlier_same_name(entries, i);
    if duplicate {
        push_finding(
            out,
            Diagnostic::error(
                "DOCX_DUPLICATE_PART",
                Some(e.name.clone()),
                "the package contains the same part name more than once".to_owned(),
            ),
        );
    }
    let ghost s4 = diagnostics_view(out@);
    if !duplicate && earlier_folded_name(entries, i) {
        push_finding(
            out,
            Diagnostic::error(
                "DOCX_AMBIGUOUS_PART_CASE",
                Some(e.name.clone()),
                "two part names differ only by ASCII letter case".to_owned(),
            ),
        );
    }
    assert(diagnostics_view(out@) =~= start + entry_name_findings(entries@, i as int));
}

/// Appends the findings about the size and content of entry `i`.
fn push_content_findings(
    entries: &[ZipEntryFacts],
    i: usize,
    limits: &DocxLimits,
    out: &mut Vec<Diagnostic>,
)
    requires
        i < entries@.len(),
    ensures
        diagnostics_view(final(out)@) == diagnostics_view(old(out)@) + entry_content_findings(
            entries@,
            i as int,
            *limits,
        ),
{
    let ghost start = diagnostics_view(out@);
    let e = &entries[i];
    let name = e.name.as_str();
    let ghost s5 = diagnostics_view(out@);
    let limit = limits.part_limit(name);
    if e.uncompressed_size > limit {
        let mut message = "part expands to ".to_owned();
        push_decimal(&mut message, e.uncompressed_size);
        message.append(" bytes; its limit is ");
        push_decimal(&mut message, limit);
        message.append(" bytes");
        push_finding(out, Diagnostic::error("DOCX_PART_TOO_LARGE", Some(e.name.clone()), message));
    }
    let ghost s6 = diagnostics_view(out@);
    if e.compressed_size > 0 && e.uncompressed_size
        / e.compressed_size > limits.suspicious_compression_ratio {
        let mut message = "declared compression ratio is approximately ".to_owned();
        push_decimal(&mut message, e.uncompressed_size / e.compressed_size);
        message.append(":1");
        push_finding(
            out,
            Diagnostic::warning("DOCX_SUSPICIOUS_COMPRESSION_RATIO", Some(e.name.clone()), message),
        );
    }
    let ghost s7 = diagnostics_view(out@);
    if let Some(reason) = active_part_reason(name, limits) {
        push_finding(
            out,
            Diagnostic::error("DOCX_ACTIVE_CONTENT_PART", Some(e.name.clone()), reason.to_owned()),
        );
    }
    assert(diagnostics_view(out@) =~= start + entry_content_findings(entries@, i as int, *limits));
}

/// Appends the findings about entry `i`.
fn push_entry_findings(
    entries: &[ZipEntryFacts],
    i: usize,
    limits: &DocxLimits,
    out: &mut Vec<Diagnostic>,
)
    requires
        i < entries@.len(),
    ensures
        diagnostics_view(final(out)@) == diagnostics_view(old(out)@) + entry_findings(
            entries@,
            i as int,
            *limits,
        ),
{
    let ghost start = diagnostics_view(out@);
    push_name_findings(entries, i, out);
    push_content_findings(entries, i, limits, out);
    assert(diagnostics_view(out@) =~= start + entry_findings(entries@, i as int, *limits));
}

/// Whether some entry is called `name`.
fn has_part_named(entries: &[ZipEntryFacts], name: &str) -> (found: bool)
    ensures
        found == !missing_part(entries@, name@),
{
    let target = name.to_owned();
    let mut j: usize = 0;
    while j < entries.len()
        invariant
            j <= entries@.len(),
            target@ == name@,
            forall|k: int| 0 <= k < j ==> entries@[k].name@ != name@,
        decreases entries@.len() - j,
    {
        if entries[j].name == target {
            return true;
        }
        j = j + 1;
    }
    false
}

/// `a + b`, saturating at `u64::MAX`.
fn saturating_add_u64(a: u64, b: u64) -> (sum: u64)
    ensures
        sum == (if a + b > u64::MAX { u64::MAX as int } else { a + b }),
{
    a.saturating_add(b)
}

/// The finding about the total declared size, if it is too large.
pub open spec fn total_finding(entries: Seq<ZipEntryFacts>, limits: DocxLimits) -> Seq<DiagnosticView> {
    when(
        size_total(entries, entries.len() as int, false) > limits.max_total_uncompressed_bytes,
        error_view(
            "DOCX_TOTAL_UNCOMPRESSED_TOO_LARGE"@,
            None,
            "parts expand to "@ + decimal(size_total(entries, entries.len() as int, false) as nat)
                + " bytes in total; the configured limit is "@ + decimal(
                limits.max_total_uncompressed_bytes as nat,
            ) + " bytes"@,
        ),
    )
}

/// Appends the findings about the total size and the required parts.
fn push_closing_findings(
    entries: &[ZipEntryFacts],
    total_uncompressed: u64,
    limits: &DocxLimits,
    diagnostics: &mut Vec<Diagnostic>,
)
    requires
        total_uncompressed == size_total(entries@, entries@.len() as int, false),
    ensures
        diagnostics_view(final(diagnostics)@) == diagnostics_view(old(diagnostics)@) + total_finding(
            entries@,
            *limits,
        ) + required_findings(entries@),
{
    let ghost middle = diagnostics_view(diagnostics@);
    if total_uncompressed > limits.max_total_uncompressed_bytes {
        let mut message = "parts expand to ".to_owned();
        push_decimal(&mut message, total_uncompressed);
        message.append(" bytes in total; the configured limit is ");
        push_decimal(&mut message, limits.max_total_uncompressed_bytes);
        message.append(" bytes");
        push_finding(
            diagnostics,
            Diagnostic::error("DOCX_TOTAL_UNCOMPRESSED_TOO_LARGE", None, message),
        );
    }
    let ghost after_total = diagnostics_view(diagnostics@);
    if !has_part_named(entries, CONTENT_TYPES_PART) {
        push_finding(
            diagnostics,
            Diagnostic::error(
                "DOCX_REQUIRED_PART_MISSING",
                Some(CONTENT_TYPES_PART.to_owned()),
                "required OPC/DOCX part is missing".to_owned(),
            ),
        );
    }
    if !has_part_named(entries, ROOT_RELS_PART) {
        push_finding(
            diagnostics,
            Diagnostic::error(
                "DOCX_REQUIRED_PART_MISSING",
                Some(ROOT_RELS_PART.to_owned()),
                "required OPC/DOCX part is missing".to_owned(),
            ),
        );
    }
    if !has_part_named(entries, DOCUMENT_PART) {
        push_finding(
            diagnostics,
            Diagnostic::error(
                "DOCX_REQUIRED_PART_MISSING",
                Some(DOCUMENT_PART.to_owned()),
                "required OPC/DOCX part is missing".to_owned(),
            ),
        );
    }
    assert(diagnostics_view(diagnostics@) =~= after_total + required_findings(entries@));
    assert(diagnostics_view(diagnostics@) =~= middle + total_finding(entries@, *limits)
        + required_findings(entries@));
}

/// Inspects a package's central directory: the archive as a whole, every
/// entry and the required parts. No part is decompressed; the package kind
/// is left unknown until the content types are read.
pub fn inspect_central_directory(
    entries: &[ZipEntryFacts],
    archive_bytes: Option<u64>,
    declared_entries: Option<usize>,
    offset: u64,
    overlapping: bool,
    limits: &DocxLimits,
) -> (inspection: PackageInspection)
    ensures
        inspection.package_kind == PackageKind::Unknown,
        inspection.archive_bytes == archive_bytes,
        inspection.total_compressed_bytes == size_total(entries@, entries@.len() as int, true),
        inspection.total_uncompressed_bytes == size_total(entries@, entries@.len() as int, false),
        inspection.parts@.len() == entries@.len(),
        forall|i: int| 0 <= i < entries@.len() ==> is_part_of(#[trigger] inspection.parts@[i], entries@[i], i),
        diagnostics_view(inspection.diagnostics@) == archive_findings(
            archive_bytes,
            declared_entries,
            entries@.len(),
            offset,
            overlapping,
            *limits,
        ) + entries_findings(entries@, entries@.len() as int, *limits) + total_finding(
            entries@,
            *limits,
        ) + required_findings(entries@),
{
    let mut diagnostics = archive_findings_of(
        archive_bytes,
        declared_entries,
        entries.len(),
        offset,
        overlapping,
        limits,
    );
    let ghost header = diagnostics_view(diagnostics@);
    let mut parts: Vec<PartInfo> = Vec::new();
    let mut total_compressed: u64 = 0;
    let mut total_uncompressed: u64 = 0;
    let mut i: usize = 0;
    while i < entries.len()
        invariant
            i <= entries@.len(),
            header == archive_findings(
                archive_bytes,
                declared_entries,
                entries@.len(),
                offset,
                overlapping,
                *limits,
            ),
            diagnostics_view(diagnostics@) == header + entries_findings(entries@, i as int, *limits),
            total_compressed == size_total(entries@, i as int, true),
            total_uncompressed == size_total(entries@, i as int, false),
            parts@.len() == i,
            forall|k: int| 0 <= k < i ==> is_part_of(#[trigger] parts@[k], entries@[k], k),
        decreases entries@.len() - i,
    {
        let ghost before = diagnostics_view(diagnostics@);
        let e = &entries[i];
        total_compressed = saturating_add_u64(total_compressed, e.compressed_size);
        total_uncompressed = saturating_add_u64(total_uncompressed, e.uncompressed_size);
        push_entry_findings(entries, i, limits, &mut diagnostics);
        parts.push(
            PartInfo {
                index: i,
                name: e.name.clone(),
                compressed_size: e.compressed_size,
                uncompressed_size: e.uncompressed_size,
                crc32: e.crc32,
                compression_method: e.compression_method.clone(),
                is_directory: e.is_directory,
            },
        );
        assert(header + entries_findings(entries@, i + 1, *limits) =~= before + entry_findings(
            entries@,
            i as int,
            *limits,
        ));
        i = i + 1;
    }
    push_closing_findings(entries, total_uncompressed, limits, &mut diagnostics);
    PackageInspection {
        package_kind: PackageKind::Unknown,
        archive_bytes,
        total_compressed_bytes: total_compressed,
        total_uncompressed_bytes: total_uncompressed,
        parts,
        diagnostics,
    }
}

/// Every finding about an entry is among the findings about all entries.
proof fn lemma_entry_findings_included(entries: Seq<ZipEntryFacts>, n: int, i: int, limits: DocxLimits)
    requires
        0 <= i < n,
    ensures
        forall|k: int| 0 <= k < entry_findings(entries, i, limits).len() ==> entries_findings(entries, n, limits).contains(
            #[trigger] entry_findings(entries, i, limits)[k],
        ),
    decreases n,
{
    let ef = entry_findings(entries, i, limits);
    let all = entries_findings(entries, n, limits);
    let before = entries_findings(entries, n - 1, limits);
    if n - 1 == i {
        assert forall|k: int| 0 <= k < ef.len() implies all.contains(#[trigger] ef[k]) by {
            assert(all[before.len() + k] == ef[k]);
        }
    } else {
        lemma_entry_findings_included(entries, n - 1, i, limits);
        assert forall|k: int| 0 <= k < ef.len() implies all.contains(#[trigger] ef[k]) by {
            let m = choose|m: int| 0 <= m < before.len() && before[m] == ef[k];
            assert(all[m] == ef[k]);
        }
    }
}

/// All findings of a central-directory inspection, in order.
pub open spec fn inspection_findings(
    entries: Seq<ZipEntryFacts>,
    archive_bytes: Option<u64>,
    declared_entries: Option<usize>,
    offset: u64,
    overlapping: bool,
    limits: DocxLimits,
) -> Seq<DiagnosticView> {
    archive_findings(archive_bytes, declared_entries, entries.len(), offset, overlapping, limits)
        + entries_findings(entries, entries.len() as int, limits) + total_finding(entries, limits)
        + required_findings(entries)
}

/// A package is refused as soon as one of its entries has an unsafe name,
/// repeats an earlier name exactly or up to ASCII case, is encrypted or a
/// symbolic link, exceeds its size limit, or carries active content.
pub proof fn lemma_hostile_entry_rejects_package(
    entries: Seq<ZipEntryFacts>,
    i: int,
    archive_bytes: Option<u64>,
    declared_entries: Option<usize>,
    offset: u64,
    overlapping: bool,
    limits: DocxLimits,
)
    requires
        0 <= i < entries.len(),
        spec_invalid_part_name(entries[i].name@, entries[i].enclosed, entries[i].utf8_name) is Some
            || entries[i].encrypted || entries[i].is_symlink || duplicate_name(entries, i)
            || folded_duplicate_name(entries, i) || entries[i].uncompressed_size > spec_part_limit(
            limits,
            entries[i].name@,
        ) || spec_active_part_reason(entries[i].name@, limits) is Some,
    ensures
        has_error(
            inspection_findings(entries, archive_bytes, declared_entries, offset, overlapping, limits),
        ),
{
    let ef = entry_findings(entries, i, limits);
    let names = entry_name_findings(entries, i);
    let content = entry_content_findings(entries, i, limits);
    let all = inspection_findings(entries, archive_bytes, declared_entries, offset, overlapping, limits);
    let header = archive_findings(archive_bytes, declared_entries, entries.len(), offset, overlapping, limits);
    let body = entries_findings(entries, entries.len() as int, limits);
    let k: int = if names.len() > 0 {
        0
    } else if content.len() > 0 && content[0].severity == DiagnosticSeverity::Error {
        names.len() as int
    } else {
        names.len() + content.len() - 1
    };
    assert(0 <= k < ef.len());
    assert(ef[k].severity == DiagnosticSeverity::Error);
    lemma_entry_findings_included(entries, entries.len() as int, i, limits);
    assert(body.contains(ef[k]));
    let m = choose|m: int| 0 <= m < body.len() && body[m] == ef[k];
    assert(all[header.len() + m] == ef[k]);
}

} // verus!
