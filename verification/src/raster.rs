//! Header inspection of the raster images (PNG and JPEG) that a DOCX may
//! embed: the structure is walked without decoding pixels, and the declared
//! dimensions are bounded.
use vstd::prelude::*;
use crate::error::{DocxError, DocxFault, DocxResult};

verus! {

/// Largest accepted width or height in pixels.
pub const MAX_IMAGE_DIMENSION: u32 = 20000;

/// Largest accepted pixel count.
pub const MAX_IMAGE_PIXELS: u64 = 40000000;

/// Big-endian 16-bit value at `offset`.
pub open spec fn be_u16(s: Seq<u8>, offset: int) -> int {
    s[offset] as int * 256 + s[offset + 1] as int
}

/// Big-endian 32-bit value at `offset`.
pub open spec fn be_u32(s: Seq<u8>, offset: int) -> int {
    s[offset] as int * 16777216 + s[offset + 1] as int * 65536 + s[offset + 2] as int * 256
        + s[offset + 3] as int
}

/// The four bytes at `offset` spell the chunk type `a b c d`.
pub open spec fn tag_at(s: Seq<u8>, offset: int, a: u8, b: u8, c: u8, d: u8) -> bool {
    s[offset] == a && s[offset + 1] == b && s[offset + 2] == c && s[offset + 3] == d
}

pub open spec fn image_fault(message: Seq<char>) -> DocxFault {
    DocxFault::Xml { part_name: "DOCX image"@, position: 0, message }
}

/// Outcome of walking PNG chunks from `cursor`: chunks are complete, the
/// IHDR chunk is the first one and has 13 bytes, IEND is empty and ends the
/// file, and IHDR, IDAT and IEND all occur.
pub open spec fn png_walk(s: Seq<u8>, cursor: int, ihdr: bool, idat: bool, iend: bool) -> Result<
    (),
    DocxFault,
>
    decreases s.len() - cursor,
{
    if cursor < 0 {
        Err(image_fault("PNG chunk is truncated"@))
    } else if cursor >= s.len() {
        if !ihdr || !idat || !iend {
            Err(image_fault("PNG is missing IHDR, IDAT, or IEND"@))
        } else {
            Ok(())
        }
    } else if s.len() - cursor < 12 {
        Err(image_fault("PNG chunk is truncated"@))
    } else {
        let length = be_u32(s, cursor);
        let end = cursor + 12 + length;
        if end > usize::MAX {
            Err(image_fault("PNG chunk length overflows"@))
        } else if end > s.len() {
            Err(image_fault("PNG chunk exceeds the image bytes"@))
        } else if tag_at(s, cursor + 4, 0x49, 0x48, 0x44, 0x52) {
            if ihdr || cursor != 8 || length != 13 {
                Err(image_fault("PNG contains an invalid IHDR chunk"@))
            } else {
                png_walk(s, end, true, idat, iend)
            }
        } else if tag_at(s, cursor + 4, 0x49, 0x44, 0x41, 0x54) {
            png_walk(s, end, ihdr, true, iend)
        } else if tag_at(s, cursor + 4, 0x49, 0x45, 0x4e, 0x44) {
            if length != 0 || end != s.len() {
                Err(image_fault("PNG contains an invalid IEND chunk"@))
            } else {
                png_walk(s, end, ihdr, idat, true)
            }
        } else {
            png_walk(s, end, ihdr, idat, iend)
        }
    }
}

/// The dimensions a PNG declares, after its chunk structure is checked.
pub open spec fn spec_inspect_png(s: Seq<u8>) -> Result<(u32, u32), DocxFault> {
    if s.len() < 33 || !tag_at(s, 12, 0x49, 0x48, 0x44, 0x52) || be_u32(s, 8) != 13 {
        Err(image_fault("PNG has no valid leading IHDR chunk"@))
    } else {
        match png_walk(s, 8, false, false, false) {
            Ok(()) => Ok((be_u32(s, 16) as u32, be_u32(s, 20) as u32)),
            Err(fault) => Err(fault),
        }
    }
}

/// JPEG start-of-frame markers that carry the image dimensions.
pub open spec fn spec_is_start_of_frame(marker: u8) -> bool {
    (0xc0 <= marker <= 0xc3) || (0xc5 <= marker <= 0xc7) || (0xc9 <= marker <= 0xcb) || (0xcd
        <= marker <= 0xcf)
}

/// The first index at or after `i` whose byte is not 0xff (or the length).
pub open spec fn skip_fill(s: Seq<u8>, i: int) -> int
    decreases s.len() - i,
{
    if i < s.len() && s[i] == 0xff {
        skip_fill(s, i + 1)
    } else {
        i
    }
}

pub open spec fn jpeg_finish(dimensions: Option<(u32, u32)>) -> Result<(u32, u32), DocxFault> {
    match dimensions {
        Some(found) => Ok(found),
        None => Err(image_fault("JPEG has no supported SOF dimension segment"@)),
    }
}

/// Outcome of walking JPEG markers from `cursor` up to the first scan or
/// end marker; exactly one start-of-frame segment must give the dimensions.
pub open spec fn jpeg_walk(s: Seq<u8>, cursor: int, dimensions: Option<(u32, u32)>) -> Result<
    (u32, u32),
    DocxFault,
>
    decreases s.len() - cursor,
{
    if cursor < 0 || cursor + 1 >= s.len() {
        jpeg_finish(dimensions)
    } else if s[cursor] != 0xff {
        Err(image_fault("JPEG marker stream is malformed"@))
    } else {
        let at = skip_fill(s, cursor);
        if at >= s.len() || at < cursor {
            Err(image_fault("JPEG marker is truncated"@))
        } else {
            let marker = s[at];
            let next = at + 1;
            if marker == 0xd9 || marker == 0xda {
                jpeg_finish(dimensions)
            } else if marker == 0x01 || (0xd0 <= marker <= 0xd8) {
                jpeg_walk(s, next, dimensions)
            } else if next + 2 > s.len() {
                Err(image_fault("JPEG segment length is truncated"@))
            } else {
                let length = be_u16(s, next);
                if length < 2 || next + length > s.len() {
                    Err(image_fault("JPEG segment length is invalid"@))
                } else if spec_is_start_of_frame(marker) {
                    if length < 8 {
                        Err(image_fault("JPEG SOF segment is too short"@))
                    } else if dimensions is Some {
                        Err(image_fault("JPEG contains multiple SOF dimension segments"@))
                    } else {
                        jpeg_walk(
                            s,
                            next + length,
                            Some((be_u16(s, next + 5) as u32, be_u16(s, next + 3) as u32)),
                        )
                    }
                } else {
                    jpeg_walk(s, next + length, dimensions)
                }
            }
        }
    }
}

/// The dimensions a JPEG declares, after its marker structure is checked.
pub open spec fn spec_inspect_jpeg(s: Seq<u8>) -> Result<(u32, u32), DocxFault> {
    if s.len() < 4 || s[s.len() - 2] != 0xff || s[s.len() - 1] != 0xd9 {
        Err(image_fault("JPEG is missing SOI or EOI"@))
    } else {
        jpeg_walk(s, 2, None)
    }
}

/// Dimensions are positive, within the per-side limit and the pixel limit.
pub open spec fn spec_dimensions_ok(width: u32, height: u32) -> bool {
    width != 0 && height != 0 && width <= MAX_IMAGE_DIMENSION && height <= MAX_IMAGE_DIMENSION
        && width * height <= MAX_IMAGE_PIXELS
}

pub open spec fn dimension_fault(width: u32, height: u32) -> DocxFault {
    DocxFault::LimitExceeded {
        resource: "DOCX image dimensions"@,
        limit: MAX_IMAGE_PIXELS,
        actual: (width * height) as u64,
    }
}

/// The MIME type and dimensions of a PNG or JPEG, or why it is refused.
pub open spec fn spec_inspect_raster(s: Seq<u8>) -> Result<(Seq<char>, u32, u32), DocxFault> {
    let png_signature = s.len() >= 8 && s[0] == 0x89 && s[1] == 0x50 && s[2] == 0x4e && s[3]
        == 0x47 && s[4] == 0x0d && s[5] == 0x0a && s[6] == 0x1a && s[7] == 0x0a;
    let jpeg_signature = s.len() >= 2 && s[0] == 0xff && s[1] == 0xd8;
    let inspected = if png_signature {
        match spec_inspect_png(s) {
            Ok((w, h)) => Ok(("image/png"@, w, h)),
            Err(fault) => Err(fault),
        }
    } else if jpeg_signature {
        match spec_inspect_jpeg(s) {
            Ok((w, h)) => Ok(("image/jpeg"@, w, h)),
            Err(fault) => Err(fault),
        }
    } else {
        Err(
            DocxFault::Xml {
                part_name: "DOCX image"@,
                position: 0,
                message: "only PNG and JPEG image bytes are supported"@,
            },
        )
    };
    match inspected {
        Ok((mime, w, h)) => if spec_dimensions_ok(w, h) {
            Ok((mime, w, h))
        } else {
            Err(dimension_fault(w, h))
        },
        Err(fault) => Err(fault),
    }
}

/// The high byte of a 16-bit value.
pub open spec fn high_byte(value: int) -> u8 {
    (value / 256) as u8
}

/// The low byte of a 16-bit value.
pub open spec fn low_byte(value: int) -> u8 {
    (value % 256) as u8
}

/// A JPEG made of the start-of-image marker, one frame segment with the
/// marker `marker` (its length, precision, height, width, then `rest`,
/// which starts with the component count), and the end-of-image marker.
pub open spec fn single_frame_jpeg(marker: u8, precision: u8, width: u16, height: u16, rest: Seq<u8>) -> Seq<u8> {
    seq![
        0xffu8,
        0xd8u8,
        0xffu8,
        marker,
        high_byte(7 + rest.len() as int),
        low_byte(7 + rest.len() as int),
        precision,
        high_byte(height as int),
        low_byte(height as int),
        high_byte(width as int),
        low_byte(width as int),
    ] + rest + seq![0xffu8, 0xd9u8]
}

/// A JPEG whose one frame segment is any of the start-of-frame kinds that
/// carry dimensions (baseline, extended, progressive and lossless, with
/// Huffman or arithmetic coding: markers 0xC0 to 0xCF except 0xC4, 0xC8
/// and 0xCC) is read as having that frame's width and height; and, when
/// these are within the limits, it is accepted as `image/jpeg` of that size.
pub proof fn lemma_frame_dimensions(marker: u8, precision: u8, width: u16, height: u16, rest: Seq<u8>)
    requires
        1 <= rest.len() <= 65000,
        marker == 0xc0 || marker == 0xc1 || marker == 0xc2 || marker == 0xc3 || marker == 0xc5 || marker == 0xc6
            || marker == 0xc7 || marker == 0xc9 || marker == 0xca || marker == 0xcb || marker == 0xcd || marker
            == 0xce || marker == 0xcf,
    ensures
        spec_inspect_jpeg(single_frame_jpeg(marker, precision, width, height, rest)) == Ok::<(u32, u32), DocxFault>(
            (width as u32, height as u32),
        ),
        spec_dimensions_ok(width as u32, height as u32) ==> spec_inspect_raster(
            single_frame_jpeg(marker, precision, width, height, rest),
        ) == Ok::<(Seq<char>, u32, u32), DocxFault>(("image/jpeg"@, width as u32, height as u32)),
{
    let s = single_frame_jpeg(marker, precision, width, height, rest);
    let length: int = 7 + rest.len() as int;
    assert(s.len() == 13 + rest.len());
    assert(s[0] == 0xff && s[1] == 0xd8 && s[2] == 0xff && s[3] == marker);
    assert(s[s.len() - 2] == 0xff && s[s.len() - 1] == 0xd9);
    assert(be_u16(s, 4) == length);
    assert(be_u16(s, 7) == height as int);
    assert(be_u16(s, 9) == width as int);
    assert(skip_fill(s, 2) == 3) by {
        assert(skip_fill(s, 3) == 3);
    }
    let end: int = 4 + length;
    assert(end == s.len() - 2);
    assert(skip_fill(s, end) == end + 1) by {
        assert(skip_fill(s, end + 1) == end + 1);
    }
    assert(jpeg_walk(s, end, Some((width as u32, height as u32))) == Ok::<(u32, u32), DocxFault>(
        (width as u32, height as u32),
    ));
    assert(spec_is_start_of_frame(marker));
    assert(jpeg_walk(s, 2, None) == jpeg_walk(s, end, Some((be_u16(s, 9) as u32, be_u16(s, 7) as u32))));
}

fn invalid_image(message: &str) -> (error: DocxError)
    ensures
        error@ == image_fault(message@),
{
    DocxError::xml("DOCX image", 0, message)
}

fn read_be_u32(bytes: &[u8], offset: usize) -> (value: u64)
    requires
        offset + 3 < bytes@.len(),
    ensures
        value == be_u32(bytes@, offset as int),
{
    bytes[offset] as u64 * 16777216 + bytes[offset + 1] as u64 * 65536 + bytes[offset + 2] as u64
        * 256 + bytes[offset + 3] as u64
}

fn read_be_u16(bytes: &[u8], offset: usize) -> (value: usize)
    requires
        offset + 1 < bytes@.len(),
    ensures
        value == be_u16(bytes@, offset as int),
{
    bytes[offset] as usize * 256 + bytes[offset + 1] as usize
}

fn tag_is(bytes: &[u8], offset: usize, a: u8, b: u8, c: u8, d: u8) -> (found: bool)
    requires
        offset + 3 < bytes@.len(),
    ensures
        found == tag_at(bytes@, offset as int, a, b, c, d),
{
    bytes[offset] == a && bytes[offset + 1] == b && bytes[offset + 2] == c && bytes[offset + 3]
        == d
}

/// The dimensions a PNG declares, after its chunk structure is checked.
pub fn inspect_png(bytes: &[u8]) -> (result: DocxResult<(u32, u32)>)
    ensures
        match (result, spec_inspect_png(bytes@)) {
            (Ok(found), Ok(expected)) => found == expected,
            (Err(error), Err(expected)) => error@ == expected,
            _ => false,
        },
{
    let len = bytes.len();
    if len < 33 || !tag_is(bytes, 12, 0x49, 0x48, 0x44, 0x52) || read_be_u32(bytes, 8) != 13 {
        return Err(invalid_image("PNG has no valid leading IHDR chunk"));
    }
    let width = read_be_u32(bytes, 16) as u32;
    let height = read_be_u32(bytes, 20) as u32;
    let mut cursor: usize = 8;
    let mut saw_ihdr = false;
    let mut saw_idat = false;
    let mut saw_iend = false;
    while cursor < len
        invariant
            len == bytes@.len(),
            len >= 33,
            width == be_u32(bytes@, 16) as u32,
            height == be_u32(bytes@, 20) as u32,
            spec_inspect_png(bytes@) == (match png_walk(bytes@, 8, false, false, false) {
                Ok(()) => Ok((width, height)),
                Err(fault) => Err(fault),
            }),
            png_walk(bytes@, 8, false, false, false) == png_walk(
                bytes@,
                cursor as int,
                saw_ihdr,
                saw_idat,
                saw_iend,
            ),
        decreases len - cursor,
    {
        if len - cursor < 12 {
            return Err(invalid_image("PNG chunk is truncated"));
        }
        let length = read_be_u32(bytes, cursor);
        if length > (usize::MAX - 12 - cursor) as u64 {
            return Err(invalid_image("PNG chunk length overflows"));
        }
        let chunk_end = cursor + 12 + length as usize;
        if chunk_end > len {
            return Err(invalid_image("PNG chunk exceeds the image bytes"));
        }
        if tag_is(bytes, cursor + 4, 0x49, 0x48, 0x44, 0x52) {
            if saw_ihdr || cursor != 8 || length != 13 {
                return Err(invalid_image("PNG contains an invalid IHDR chunk"));
            }
            saw_ihdr = true;
        } else if tag_is(bytes, cursor + 4, 0x49, 0x44, 0x41, 0x54) {
            saw_idat = true;
        } else if tag_is(bytes, cursor + 4, 0x49, 0x45, 0x4e, 0x44) {
            if length != 0 || chunk_end != len {
                return Err(invalid_image("PNG contains an invalid IEND chunk"));
            }
            saw_iend = true;
        }
        cursor = chunk_end;
    }
    if !saw_ihdr || !saw_idat || !saw_iend {
        return Err(invalid_image("PNG is missing IHDR, IDAT, or IEND"));
    }
    Ok((width, height))
}

/// Whether `marker` is a JPEG start-of-frame marker carrying dimensions.
pub fn is_start_of_frame(marker: u8) -> (found: bool)
    ensures
        found == spec_is_start_of_frame(marker),
{
    (0xc0 <= marker && marker <= 0xc3) || (0xc5 <= marker && marker <= 0xc7) || (0xc9 <= marker
        && marker <= 0xcb) || (0xcd <= marker && marker <= 0xcf)
}

/// The dimensions a JPEG declares, after its marker structure is checked.
pub fn inspect_jpeg(bytes: &[u8]) -> (result: DocxResult<(u32, u32)>)
    ensures
        match (result, spec_inspect_jpeg(bytes@)) {
            (Ok(found), Ok(expected)) => found == expected,
            (Err(error), Err(expected)) => error@ == expected,
            _ => false,
        },
{
    let len = bytes.len();
    if len < 4 || bytes[len - 2] != 0xff || bytes[len - 1] != 0xd9 {
        return Err(invalid_image("JPEG is missing SOI or EOI"));
    }
    let mut cursor: usize = 2;
    let mut dimensions: Option<(u32, u32)> = None;
    while len - cursor > 1
        invariant_except_break
            spec_inspect_jpeg(bytes@) == jpeg_walk(bytes@, cursor as int, dimensions),
        invariant
            len == bytes@.len(),
            cursor <= len,
        ensures
            spec_inspect_jpeg(bytes@) == jpeg_finish(dimensions),
        decreases len - cursor,
    {
        if bytes[cursor] != 0xff {
            return Err(invalid_image("JPEG marker stream is malformed"));
        }
        let ghost start = cursor as int;
        while cursor < len && bytes[cursor] == 0xff
            invariant
                len == bytes@.len(),
                start <= cursor <= len,
                skip_fill(bytes@, start) == skip_fill(bytes@, cursor as int),
            decreases len - cursor,
        {
            cursor = cursor + 1;
        }
        if cursor >= len {
            return Err(invalid_image("JPEG marker is truncated"));
        }
        let marker = bytes[cursor];
        cursor = cursor + 1;
        if marker == 0xd9 {
            break;
        }
        if marker == 0xda {
            break;
        }
        if marker == 0x01 || (0xd0 <= marker && marker <= 0xd8) {
            continue;
        }
        if len - cursor < 2 {
            return Err(invalid_image("JPEG segment length is truncated"));
        }
        let segment_length = read_be_u16(bytes, cursor);
        if segment_length < 2 || segment_length > len - cursor {
            return Err(invalid_image("JPEG segment length is invalid"));
        }
        if is_start_of_frame(marker) {
            if segment_length < 8 {
                return Err(invalid_image("JPEG SOF segment is too short"));
            }
            let height = read_be_u16(bytes, cursor + 3) as u32;
            let width = read_be_u16(bytes, cursor + 5) as u32;
            if dimensions.is_some() {
                return Err(invalid_image("JPEG contains multiple SOF dimension segments"));
            }
            dimensions = Some((width, height));
        }
        cursor = cursor + segment_length;
    }
    match dimensions {
        Some(found) => Ok(found),
        None => Err(invalid_image("JPEG has no supported SOF dimension segment")),
    }
}

/// Refuses dimensions that are zero, too large on a side or too many pixels.
pub fn validate_dimensions(width: u32, height: u32) -> (result: DocxResult<()>)
    ensures
        result is Ok <==> spec_dimensions_ok(width, height),
        result matches Err(error) ==> error@ == dimension_fault(width, height),
{
    assert((width as u64) * (height as u64) <= 0xffff_ffff * 0xffff_ffff) by (nonlinear_arith)
        requires
            width <= 0xffff_ffffu32,
            height <= 0xffff_ffffu32,
    ;
    let pixels = (width as u64) * (height as u64);
    if width == 0 || height == 0 || width > MAX_IMAGE_DIMENSION || height > MAX_IMAGE_DIMENSION
        || pixels > MAX_IMAGE_PIXELS {
        return Err(
            DocxError::LimitExceeded {
                resource: "DOCX image dimensions".to_owned(),
                limit: MAX_IMAGE_PIXELS,
                actual: pixels,
            },
        );
    }
    Ok(())
}

/// The MIME type and dimensions of PNG or JPEG bytes, or why they are refused.
pub fn inspect_raster_image(bytes: &[u8]) -> (result: DocxResult<(&'static str, u32, u32)>)
    ensures
        match (result, spec_inspect_raster(bytes@)) {
            (Ok((mime, w, h)), Ok((expected_mime, ew, eh))) => mime@ == expected_mime && w == ew
                && h == eh,
            (Err(error), Err(expected)) => error@ == expected,
            _ => false,
        },
{
    let png_signature = bytes.len() >= 8 && bytes[0] == 0x89 && bytes[1] == 0x50 && bytes[2]
        == 0x4e && bytes[3] == 0x47 && bytes[4] == 0x0d && bytes[5] == 0x0a && bytes[6] == 0x1a
        && bytes[7] == 0x0a;
    let jpeg_signature = bytes.len() >= 2 && bytes[0] == 0xff && bytes[1] == 0xd8;
    let (mime_type, width, height) = if png_signature {
        let (width, height) = inspect_png(bytes)?;
        ("image/png", width, height)
    } else if jpeg_signature {
        let (width, height) = inspect_jpeg(bytes)?;
        ("image/jpeg", width, height)
    } else {
        return Err(DocxError::xml("DOCX image", 0, "only PNG and JPEG image bytes are supported"));
    };
    validate_dimensions(width, height)?;
    Ok((mime_type, width, height))
}

} // verus!
