//! Validation of bounded, placeable Windows metafiles embedded by Word and
//! MathType before they are rendered into ordinary PNG resources.
use vstd::prelude::*;

verus! {

/// Key that starts every placeable WMF header.
pub const PLACEABLE_KEY: u32 = 0x9ac6_cdd7;

/// Largest metafile accepted for conversion.
pub const MAX_WMF_BYTES: usize = 8388608;

/// Largest rendered width or height in pixels.
pub const MAX_RENDER_DIMENSION: u32 = 4096;

/// Largest rendered pixel count.
pub const MAX_RENDER_PIXELS: u64 = 4000000;

/// The placeable header of a validated metafile and the size it renders at.
#[derive(Clone, Copy, Debug, PartialEq, Eq)]
pub struct PlaceableHeader {
    pub left: i16,
    pub top: i16,
    pub right: i16,
    pub bottom: i16,
    pub inch: u16,
    pub checksum: u16,
    pub width: u32,
    pub height: u32,
}

/// Little-endian 16-bit value at `offset`.
pub open spec fn le_u16(s: Seq<u8>, offset: int) -> u16 {
    (s[offset] as int + s[offset + 1] as int * 256) as u16
}

/// Little-endian 32-bit value at `offset`.
pub open spec fn le_u32(s: Seq<u8>, offset: int) -> u32 {
    (s[offset] as int + s[offset + 1] as int * 256 + s[offset + 2] as int * 65536
        + s[offset + 3] as int * 16777216) as u32
}

/// XOR of the first `count` little-endian words of `s`.
pub open spec fn xor_words(s: Seq<u8>, count: nat) -> u16
    decreases count,
{
    if count == 0 {
        0u16
    } else {
        xor_words(s, (count - 1) as nat) ^ le_u16(s, 2 * (count - 1))
    }
}

/// Ceiling of `x / d` for a positive divisor.
pub open spec fn ceil_div(x: int, d: int) -> int {
    (x + d - 1) / d
}

/// Rendered extent of a logical span at 96 pixels per inch, never below one.
pub open spec fn rendered_extent(span: int, inch: int) -> int {
    let value = ceil_div(span * 96, inch);
    if value < 1 {
        1
    } else {
        value
    }
}

pub open spec fn msg_size() -> Seq<char> {
    "WMF 图片大小或结构无效"@
}

pub open spec fn msg_header() -> Seq<char> {
    "WMF 图片头无效"@
}

pub open spec fn msg_checksum() -> Seq<char> {
    "WMF 图片校验失败，文件可能已损坏"@
}

pub open spec fn msg_bounds() -> Seq<char> {
    "WMF 图片的尺寸无效"@
}

pub open spec fn msg_render_limit() -> Seq<char> {
    "WMF 图片转换后的尺寸超过安全上限"@
}

pub open spec fn msg_inner_header() -> Seq<char> {
    "WMF 图片的内部文件头无效"@
}

pub open spec fn msg_record_length() -> Seq<char> {
    "WMF 图片记录长度无效"@
}

pub open spec fn msg_record_incomplete() -> Seq<char> {
    "WMF 图片记录不完整"@
}

pub open spec fn msg_escape() -> Seq<char> {
    "WMF 图片含有不支持的外部命令"@
}

pub open spec fn msg_comment() -> Seq<char> {
    "WMF 图片注释长度无效"@
}

pub open spec fn msg_missing_end() -> Seq<char> {
    "WMF 图片缺少完整的结束记录"@
}

/// Outcome of walking the metafile records that start at `offset`: every
/// record has at least three words and lies inside the file, escapes carry
/// only bounded comments, and the walk ends on a three-word end record that
/// closes the file exactly.
pub open spec fn record_walk(s: Seq<u8>, offset: int) -> Result<(), Seq<char>>
    decreases s.len() - offset,
{
    if offset < 0 || offset + 6 > s.len() {
        Err(msg_missing_end())
    } else {
        let words = le_u32(s, offset) as int;
        let record_bytes = words * 2;
        let end = offset + record_bytes;
        if record_bytes > usize::MAX || end > usize::MAX {
            Err(msg_record_length())
        } else if words < 3 || end > s.len() {
            Err(msg_record_incomplete())
        } else {
            let operation = le_u16(s, offset + 4);
            if operation == 0x0626 && (record_bytes < 10 || le_u16(s, offset + 6) != 15) {
                Err(msg_escape())
            } else if operation == 0x0626 && le_u16(s, offset + 8) as int > record_bytes - 10 {
                Err(msg_comment())
            } else if operation == 0 {
                if words == 3 && end == s.len() {
                    Ok(())
                } else {
                    Err(msg_missing_end())
                }
            } else {
                record_walk(s, end)
            }
        }
    }
}

/// The header that a well-formed placeable metafile `s` describes.
pub open spec fn spec_header(s: Seq<u8>) -> PlaceableHeader {
    let left = le_u16(s, 6) as i16;
    let top = le_u16(s, 8) as i16;
    let right = le_u16(s, 10) as i16;
    let bottom = le_u16(s, 12) as i16;
    let inch = le_u16(s, 14);
    PlaceableHeader {
        left,
        top,
        right,
        bottom,
        inch,
        checksum: le_u16(s, 20),
        width: rendered_extent(right - left, inch as int) as u32,
        height: rendered_extent(bottom - top, inch as int) as u32,
    }
}

/// The complete validation of a placeable metafile, in the order the checks
/// are made.
pub open spec fn spec_validate_wmf(s: Seq<u8>) -> Result<PlaceableHeader, Seq<char>> {
    if s.len() < 46 || s.len() > MAX_WMF_BYTES || s.len() % 2 != 0 {
        Err(msg_size())
    } else if le_u32(s, 0) != PLACEABLE_KEY || le_u16(s, 4) != 0 || le_u32(s, 16) != 0 {
        Err(msg_header())
    } else if le_u16(s, 20) != xor_words(s, 10) {
        Err(msg_checksum())
    } else {
        let left = le_u16(s, 6) as i16;
        let top = le_u16(s, 8) as i16;
        let right = le_u16(s, 10) as i16;
        let bottom = le_u16(s, 12) as i16;
        let inch = le_u16(s, 14);
        let span_x = right - left;
        let span_y = bottom - top;
        if span_x <= 0 || span_y <= 0 || inch == 0 || inch > 32767 {
            Err(msg_bounds())
        } else {
            let width = rendered_extent(span_x, inch as int);
            let height = rendered_extent(span_y, inch as int);
            if width > MAX_RENDER_DIMENSION || height > MAX_RENDER_DIMENSION || width * height
                > MAX_RENDER_PIXELS {
                Err(msg_render_limit())
            } else {
                let file_type = le_u16(s, 22);
                let header_words = le_u16(s, 24);
                let version = le_u16(s, 26);
                let declared = le_u32(s, 28) as int;
                if !(file_type == 1 || file_type == 2) || header_words != 9 || !(version == 0x0100
                    || version == 0x0200 || version == 0x0300) || declared * 2 > usize::MAX
                    || declared * 2 != s.len() - 22 {
                    Err(msg_inner_header())
                } else {
                    match record_walk(s, 40) {
                        Ok(()) => Ok(spec_header(s)),
                        Err(message) => Err(message),
                    }
                }
            }
        }
    }
}

/// Little-endian 16-bit value at `offset`.
pub fn word(bytes: &[u8], offset: usize) -> (value: u16)
    requires
        offset + 1 < bytes@.len(),
    ensures
        value == le_u16(bytes@, offset as int),
{
    bytes[offset] as u16 + (bytes[offset + 1] as u16) * 256
}

/// Little-endian 32-bit value at `offset`.
pub fn dword(bytes: &[u8], offset: usize) -> (value: u32)
    requires
        offset + 3 < bytes@.len(),
    ensures
        value == le_u32(bytes@, offset as int),
{
    bytes[offset] as u32 + (bytes[offset + 1] as u32) * 256 + (bytes[offset + 2] as u32) * 65536
        + (bytes[offset + 3] as u32) * 16777216
}

proof fn lemma_extent_bounds(span: int, inch: int)
    requires
        1 <= span <= 65535,
        1 <= inch <= 32767,
    ensures
        1 <= rendered_extent(span, inch) <= 65535 * 96,
        ceil_div(span * 96, inch) >= 1,
{
    assert(span * 96 >= 96) by (nonlinear_arith)
        requires
            span >= 1,
    ;
    assert(span * 96 <= 65535 * 96) by (nonlinear_arith)
        requires
            span <= 65535,
    ;
    let x = span * 96;
    assert((x + inch - 1) / inch >= 1) by (nonlinear_arith)
        requires
            x >= 1,
            inch >= 1,
    ;
    assert((x + inch - 1) / inch <= x) by (nonlinear_arith)
        requires
            x >= 1,
            inch >= 1,
    ;
}

fn rendered_extent_exec(span: u64, inch: u64) -> (value: u32)
    requires
        1 <= span <= 65535,
        1 <= inch <= 32767,
    ensures
        value == rendered_extent(span as int, inch as int),
{
    proof {
        lemma_extent_bounds(span as int, inch as int);
    }
    let scaled = span * 96;
    let value = (scaled + inch - 1) / inch;
    if value < 1 {
        1
    } else {
        value as u32
    }
}

/// Checks the file bounds, placeable header, checksum, rendered size, inner
/// header and every record of a placeable metafile before it is rendered.
pub fn validate_placeable_wmf(bytes: &[u8]) -> (result: Result<PlaceableHeader, String>)
    ensures
        match (result, spec_validate_wmf(bytes@)) {
            (Ok(header), Ok(expected)) => header == expected,
            (Err(message), Err(expected)) => message@ == expected,
            _ => false,
        },
{
    let len = bytes.len();
    if len < 46 || len > MAX_WMF_BYTES || len % 2 != 0 {
        return Err("WMF 图片大小或结构无效".to_owned());
    }
    if dword(bytes, 0) != PLACEABLE_KEY || word(bytes, 4) != 0 || dword(bytes, 16) != 0 {
        return Err("WMF 图片头无效".to_owned());
    }
    let checksum = word(bytes, 20);
    let mut computed: u16 = 0;
    let mut offset: usize = 0;
    while offset < 20
        invariant
            offset % 2 == 0,
            offset <= 20,
            bytes@.len() >= 46,
            computed == xor_words(bytes@, (offset / 2) as nat),
        decreases 20 - offset,
    {
        computed = computed ^ word(bytes, offset);
        offset = offset + 2;
    }
    if checksum != computed {
        return Err("WMF 图片校验失败，文件可能已损坏".to_owned());
    }
    let left = #[verifier::truncate] (word(bytes, 6) as i16);
    let top = #[verifier::truncate] (word(bytes, 8) as i16);
    let right = #[verifier::truncate] (word(bytes, 10) as i16);
    let bottom = #[verifier::truncate] (word(bytes, 12) as i16);
    let inch = word(bytes, 14);
    let span_x: i32 = right as i32 - left as i32;
    let span_y: i32 = bottom as i32 - top as i32;
    if span_x <= 0 || span_y <= 0 || inch == 0 || inch > 32767 {
        return Err("WMF 图片的尺寸无效".to_owned());
    }
    let width = rendered_extent_exec(span_x as u64, inch as u64);
    let height = rendered_extent_exec(span_y as u64, inch as u64);
    if width > MAX_RENDER_DIMENSION || height > MAX_RENDER_DIMENSION {
        return Err("WMF 图片转换后的尺寸超过安全上限".to_owned());
    }
    assert((width as u64) * (height as u64) <= 4096 * 4096) by (nonlinear_arith)
        requires
            width <= 4096,
            height <= 4096,
    ;
    if (width as u64) * (height as u64) > MAX_RENDER_PIXELS {
        return Err("WMF 图片转换后的尺寸超过安全上限".to_owned());
    }
    proof {
        lemma_extent_bounds(span_x as int, inch as int);
        lemma_extent_bounds(span_y as int, inch as int);
    }
    let file_type = word(bytes, 22);
    let header_words = word(bytes, 24);
    let version = word(bytes, 26);
    let declared_words = dword(bytes, 28) as usize;
    let declared_bytes = declared_words.checked_mul(2);
    let inner_ok = match declared_bytes {
        Some(value) => value == len - 22,
        None => false,
    };
    if !(file_type == 1 || file_type == 2) || header_words != 9 || !(version == 0x0100 || version
        == 0x0200 || version == 0x0300) || !inner_ok {
        return Err("WMF 图片的内部文件头无效".to_owned());
    }
    let mut offset: usize = 40;
    while offset + 6 <= len
        invariant
            len == bytes@.len(),
            len <= MAX_WMF_BYTES,
            40 <= offset <= len,
            spec_validate_wmf(bytes@) == (match record_walk(bytes@, 40) {
                Ok(()) => Ok(spec_header(bytes@)),
                Err(message) => Err(message),
            }),
            left == spec_header(bytes@).left,
            top == spec_header(bytes@).top,
            right == spec_header(bytes@).right,
            bottom == spec_header(bytes@).bottom,
            inch == spec_header(bytes@).inch,
            checksum == spec_header(bytes@).checksum,
            width == spec_header(bytes@).width,
            height == spec_header(bytes@).height,
            record_walk(bytes@, 40) == record_walk(bytes@, offset as int),
        decreases len - offset,
    {
        let record_words = dword(bytes, offset) as usize;
        let record_bytes = match record_words.checked_mul(2) {
            Some(value) => value,
            None => {
                return Err("WMF 图片记录长度无效".to_owned());
            },
        };
        let end = match offset.checked_add(record_bytes) {
            Some(value) => value,
            None => {
                return Err("WMF 图片记录长度无效".to_owned());
            },
        };
        if record_words < 3 || end > len {
            return Err("WMF 图片记录不完整".to_owned());
        }
        let operation = word(bytes, offset + 4);
        if operation == 0x0626 {
            if record_bytes < 10 || word(bytes, offset + 6) != 15 {
                return Err("WMF 图片含有不支持的外部命令".to_owned());
            }
            let comment_bytes = word(bytes, offset + 8) as usize;
            if comment_bytes > record_bytes - 10 {
                return Err("WMF 图片注释长度无效".to_owned());
            }
        }
        if operation == 0 {
            if record_words == 3 && end == len {
                return Ok(
                    PlaceableHeader {
                        left,
                        top,
                        right,
                        bottom,
                        inch,
                        checksum,
                        width,
                        height,
                    },
                );
            }
            return Err("WMF 图片缺少完整的结束记录".to_owned());
        }
        offset = end;
    }
    Err("WMF 图片缺少完整的结束记录".to_owned())
}

/// The 16-bit signed value whose little-endian bytes stand at `offset`.
pub open spec fn signed_word_at(s: Seq<u8>, offset: int) -> int {
    let raw = s[offset] as int + 256 * s[offset + 1] as int;
    if raw >= 32768 {
        raw - 65536
    } else {
        raw
    }
}

/// `pixels` is the least positive whole number of pixels, at 96 per inch,
/// that covers `span` logical units at `inch` units per inch.
pub open spec fn covers_span(pixels: int, span: int, inch: int) -> bool {
    &&& pixels >= 1
    &&& span * 96 <= pixels * inch
    &&& (pixels - 1) * inch < span * 96
}

proof fn lemma_ceiling(a: int, d: int)
    by (nonlinear_arith)
    requires
        a > 0,
        d > 0,
    ensures
        ceil_div(a, d) >= 1,
        a <= ceil_div(a, d) * d,
        (ceil_div(a, d) - 1) * d < a,
{
}

proof fn lemma_signed_word(s: Seq<u8>, offset: int)
    requires
        0 <= offset,
        offset + 1 < s.len(),
    ensures
        le_u16(s, offset) as i16 as int == signed_word_at(s, offset),
{
    let lo = s[offset];
    let hi = s[offset + 1];
    assert((lo as int + hi as int * 256) as u16 as i16 as int == if lo as int + 256 * hi as int >= 32768 {
        lo as int + 256 * hi as int - 65536
    } else {
        lo as int + 256 * hi as int
    }) by (bit_vector);
}

/// A placeable metafile that passes validation is drawn at the size its own
/// bounds give: the header's bounds and units per inch are the signed and
/// unsigned little-endian words at bytes 6, 8, 10, 12 and 14, its width is
/// the least number of pixels at 96 per inch that covers the horizontal
/// span (right minus left), and its height the least that covers the
/// vertical span (bottom minus top).
pub proof fn lemma_rendered_size_from_bounds(s: Seq<u8>)
    requires
        spec_validate_wmf(s) is Ok,
    ensures
        ({
            let header = spec_validate_wmf(s)->Ok_0;
            let left = signed_word_at(s, 6);
            let top = signed_word_at(s, 8);
            let right = signed_word_at(s, 10);
            let bottom = signed_word_at(s, 12);
            let inch = s[14] as int + 256 * s[15] as int;
            &&& header.left as int == left
            &&& header.top as int == top
            &&& header.right as int == right
            &&& header.bottom as int == bottom
            &&& header.inch as int == inch
            &&& covers_span(header.width as int, right - left, inch)
            &&& covers_span(header.height as int, bottom - top, inch)
        }),
{
    lemma_signed_word(s, 6);
    lemma_signed_word(s, 8);
    lemma_signed_word(s, 10);
    lemma_signed_word(s, 12);
    let inch = le_u16(s, 14);
    assert(inch as int == s[14] as int + 256 * s[15] as int);
    let span_x = (le_u16(s, 10) as i16) - (le_u16(s, 6) as i16);
    let span_y = (le_u16(s, 12) as i16) - (le_u16(s, 8) as i16);
    lemma_ceiling(span_x * 96, inch as int);
    lemma_ceiling(span_y * 96, inch as int);
}

} // verus!
