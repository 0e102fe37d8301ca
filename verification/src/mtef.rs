//! Bounded decoding of MathType MTEF 5 equations into an equation tree.
//!
//! The decoder reads the MTEF byte stream found after the 28-byte header of an
//! `Equation Native` stream. Every record that carries layout-only data is
//! skipped; characters, templates, lines, piles and matrices are kept.
use vstd::prelude::*;
use crate::error::{DocxError, DocxFault, DocxResult};
use crate::text::{decimal, push_decimal};

verus! {

/// One decoded MTEF record that contributes to the rendered equation.
#[derive(Debug)]
pub enum MtefNode {
    Line(Vec<MtefNode>),
    Char { mt_code: Option<u16>, font_position: Option<u16>, embellishments: Vec<u8> },
    Template { selector: u8, variation: u16, children: Vec<MtefNode> },
    Pile(Vec<MtefNode>),
    Matrix { rows: u8, cols: u8, cells: Vec<MtefNode> },
}

/// The mathematical value of an [`MtefNode`]: the same tree over sequences.
pub enum MtefTree {
    Line(Seq<MtefTree>),
    Char { mt_code: Option<u16>, font_position: Option<u16>, embellishments: Seq<u8> },
    Template { selector: u8, variation: u16, children: Seq<MtefTree> },
    Pile(Seq<MtefTree>),
    Matrix { rows: u8, cols: u8, cells: Seq<MtefTree> },
}

/// The tree value of one node.
pub open spec fn tree_of(node: MtefNode) -> MtefTree
    decreases node,
{
    match node {
        MtefNode::Line(children) => MtefTree::Line(trees_of(children@)),
        MtefNode::Char { mt_code, font_position, embellishments } => MtefTree::Char {
            mt_code,
            font_position,
            embellishments: embellishments@,
        },
        MtefNode::Template { selector, variation, children } => MtefTree::Template {
            selector,
            variation,
            children: trees_of(children@),
        },
        MtefNode::Pile(lines) => MtefTree::Pile(trees_of(lines@)),
        MtefNode::Matrix { rows, cols, cells } => MtefTree::Matrix {
            rows,
            cols,
            cells: trees_of(cells@),
        },
    }
}

/// The tree values of a sequence of nodes, in order.
pub open spec fn trees_of(nodes: Seq<MtefNode>) -> Seq<MtefTree>
    decreases nodes,
{
    if nodes.len() == 0 {
        Seq::empty()
    } else {
        trees_of(nodes.subrange(0, nodes.len() - 1)).push(tree_of(nodes[nodes.len() - 1]))
    }
}

/// Largest `Equation Native` stream that is decoded.
pub const MAX_EQUATION_NATIVE_BYTES: usize = 1048576;
/// Length of the OLE header that precedes MTEF in `Equation Native`.
pub const EQUATION_NATIVE_HEADER_BYTES: usize = 28;
/// Most MTEF records read from one equation.
pub const MAX_MTEF_RECORDS: usize = 16384;
/// Deepest nesting of MTEF object lists.
pub const MAX_MTEF_DEPTH: usize = 128;
/// Longest zero-terminated MTEF string, terminator excluded.
pub const MAX_ZERO_TERMINATED_BYTES: usize = 4096;

/// The error reported for a malformed or unsupported MathType object.
pub open spec fn mathtype_fault(message: Seq<char>) -> DocxFault {
    DocxFault::Xml { part_name: "MathType Equation Native"@, position: 0, message }
}

/// An error about a MathType object, carrying `message`.
pub fn invalid_mathtype(message: String) -> (error: DocxError)
    ensures
        error@ == mathtype_fault(message@),
{
    DocxError::Xml { part_name: "MathType Equation Native".to_owned(), position: 0, message }
}

pub open spec fn msg_end() -> Seq<char> {
    "unexpected end of MTEF data"@
}

pub open spec fn msg_end_u16() -> Seq<char> {
    "unexpected end of MTEF 16-bit value"@
}

pub open spec fn msg_overflow() -> Seq<char> {
    "MTEF byte position overflow"@
}

pub open spec fn msg_string() -> Seq<char> {
    "unterminated or oversized MTEF string"@
}

pub open spec fn msg_dimensions() -> Seq<char> {
    "unexpected end of MTEF dimension array"@
}

pub open spec fn msg_depth() -> Seq<char> {
    "MathType structure exceeds the nesting limit of 128"@
}

pub open spec fn msg_records() -> Seq<char> {
    "MathType structure exceeds the record limit of 16384"@
}

pub open spec fn msg_embellishment_depth() -> Seq<char> {
    "MathType embellishment nesting is too deep"@
}

pub open spec fn msg_matrix() -> Seq<char> {
    "MathType matrix has zero rows or columns"@
}

pub open spec fn msg_stalled() -> Seq<char> {
    "MTEF record did not advance"@
}

pub open spec fn msg_version(version: u8) -> Seq<char> {
    "unsupported MathType MTEF version "@ + decimal(version as nat) + "; version 5 is required"@
}

pub open spec fn msg_trailing(count: nat) -> Seq<char> {
    decimal(count) + " unexpected bytes follow the MTEF equation"@
}

pub open spec fn msg_record_type(record_type: u8, at: nat) -> Seq<char> {
    "unsupported MTEF record type "@ + decimal(record_type as nat) + " at byte "@ + decimal(at)
}

pub open spec fn msg_embellishment_record(record_type: u8) -> Seq<char> {
    "unexpected record "@ + decimal(record_type as nat) + " in MathType embellishment list"@
}

/// A decoding step: the value read and the position after it, or an error.
pub type Step<T> = Result<(T, int), Seq<char>>;

/// A list step: the value, the position after it and the records counted so far.
pub type ListStep<T> = Result<(T, int, int), Seq<char>>;

/// Reads one byte at `p`.
pub open spec fn read_u8(s: Seq<u8>, p: int) -> Step<u8> {
    if 0 <= p < s.len() {
        Ok((s[p], p + 1))
    } else {
        Err(msg_end())
    }
}

/// Reads a little-endian 16-bit value at `p`.
pub open spec fn read_u16(s: Seq<u8>, p: int) -> Step<u16> {
    if 0 <= p && p + 2 <= s.len() {
        Ok(((s[p] as int + 256 * (s[p + 1] as int)) as u16, p + 2))
    } else {
        Err(msg_end_u16())
    }
}

/// Moves `n` bytes forward from `p`.
pub open spec fn skip(s: Seq<u8>, p: int, n: int) -> Result<int, Seq<char>> {
    if p + n > usize::MAX {
        Err(msg_overflow())
    } else if p + n > s.len() {
        Err(msg_end())
    } else {
        Ok(p + n)
    }
}

/// Skips the nudge that follows a record's options when the nudge flag is set.
pub open spec fn skip_nudge(s: Seq<u8>, p: int, options: u8) -> Result<int, Seq<char>> {
    if options & 0x08 == 0 {
        Ok(p)
    } else {
        match read_u8(s, p) {
            Err(e) => Err(e),
            Ok((dx, p1)) => match read_u8(s, p1) {
                Err(e) => Err(e),
                Ok((dy, p2)) => if dx == 128 && dy == 128 {
                    skip(s, p2, 4)
                } else {
                    Ok(p2)
                },
            },
        }
    }
}

/// Skips a ruler: a count of tab stops followed by three bytes per stop.
pub open spec fn skip_ruler(s: Seq<u8>, p: int) -> Result<int, Seq<char>> {
    match read_u8(s, p) {
        Err(e) => Err(e),
        Ok((stops, p1)) => skip(s, p1, 3 * stops),
    }
}

/// The first zero byte at an index in `i..end`, if any.
pub open spec fn first_zero(s: Seq<u8>, i: int, end: int) -> Option<int>
    decreases end - i,
{
    if i >= end || i < 0 || i >= s.len() {
        None
    } else if s[i] == 0 {
        Some(i)
    } else {
        first_zero(s, i + 1, end)
    }
}

/// Skips a zero-terminated string of at most `max` bytes before its terminator.
pub open spec fn skip_stringz(s: Seq<u8>, p: int, max: int) -> Result<int, Seq<char>> {
    match first_zero(s, p, p + max + 1) {
        Some(i) => Ok(i + 1),
        None => Err(msg_string()),
    }
}

/// The nibble with index `n`: the high half of byte `n / 2` for even `n`,
/// its low half for odd `n`.
pub open spec fn nibble(s: Seq<u8>, n: int) -> u8 {
    if n % 2 == 0 {
        s[n / 2] >> 4u8
    } else {
        s[n / 2] & 0x0f
    }
}

/// Skips nibbles from index `n` through the first terminator nibble `0xf`.
pub open spec fn skip_to_terminator(s: Seq<u8>, n: int) -> Result<int, Seq<char>>
    decreases 2 * s.len() - n,
{
    if n < 0 || n / 2 >= s.len() {
        Err(msg_dimensions())
    } else if nibble(s, n) == 0x0f {
        Ok(n + 1)
    } else {
        skip_to_terminator(s, n + 1)
    }
}

/// Skips `count` dimension entries (a unit nibble, then digits through a
/// terminator) starting at nibble `n`.
pub open spec fn skip_dimension_nibbles(s: Seq<u8>, n: int, count: nat) -> Result<int, Seq<char>>
    decreases count,
{
    if count == 0 {
        Ok(n)
    } else if n < 0 || n / 2 >= s.len() {
        Err(msg_dimensions())
    } else {
        match skip_to_terminator(s, n + 1) {
            Err(e) => Err(e),
            Ok(n2) => skip_dimension_nibbles(s, n2, (count - 1) as nat),
        }
    }
}

/// Skips a dimension array of `count` entries starting at byte `p`; a
/// half-used last byte is skipped too.
pub open spec fn skip_dimensions(s: Seq<u8>, p: int, count: nat) -> Result<int, Seq<char>> {
    match skip_dimension_nibbles(s, 2 * p, count) {
        Err(e) => Err(e),
        Ok(n) => {
            let q = if n % 2 == 0 { n / 2 } else { n / 2 + 1 };
            if q > s.len() {
                Err(msg_end())
            } else {
                Ok(q)
            }
        },
    }
}

/// Skips `count` style entries: a font byte, followed by one more byte when nonzero.
pub open spec fn skip_styles(s: Seq<u8>, p: int, count: nat) -> Result<int, Seq<char>>
    decreases count,
{
    if count == 0 {
        Ok(p)
    } else {
        match read_u8(s, p) {
            Err(e) => Err(e),
            Ok((font, p1)) => if font != 0 {
                match skip(s, p1, 1) {
                    Err(e) => Err(e),
                    Ok(p2) => skip_styles(s, p2, (count - 1) as nat),
                }
            } else {
                skip_styles(s, p1, (count - 1) as nat)
            },
        }
    }
}

/// Skips an equation-preferences record body.
pub open spec fn skip_preferences(s: Seq<u8>, p: int) -> Result<int, Seq<char>> {
    match skip(s, p, 1) {
        Err(e) => Err(e),
        Ok(p1) => match read_u8(s, p1) {
            Err(e) => Err(e),
            Ok((sizes, p2)) => match skip_dimensions(s, p2, sizes as nat) {
                Err(e) => Err(e),
                Ok(p3) => match read_u8(s, p3) {
                    Err(e) => Err(e),
                    Ok((spaces, p4)) => match skip_dimensions(s, p4, spaces as nat) {
                        Err(e) => Err(e),
                        Ok(p5) => match read_u8(s, p5) {
                            Err(e) => Err(e),
                            Ok((styles, p6)) => skip_styles(s, p6, styles as nat),
                        },
                    },
                },
            },
        },
    }
}

/// Bytes used by the partition-line flags of a matrix with `parts` rows or columns.
pub open spec fn spec_partition_bytes(parts: u8) -> int {
    ((parts as int + 1) * 2 + 7) / 8
}

/// The embellishment codes of an embellishment list, the records they use
/// counted on from `r`.
pub open spec fn embellishment_items(s: Seq<u8>, p: int, r: int) -> ListStep<Seq<u8>>
    decreases s.len() - p,
{
    match read_u8(s, p) {
        Err(e) => Err(e),
        Ok((record_type, p1)) => if record_type == 0 {
            Ok((Seq::empty(), p1, r + 1))
        } else if record_type != 6 {
            Err(msg_embellishment_record(record_type))
        } else {
            match read_u8(s, p1) {
                Err(e) => Err(e),
                Ok((options, p2)) => match skip_nudge(s, p2, options) {
                    Err(e) => Err(e),
                    Ok(p3) => match read_u8(s, p3) {
                        Err(e) => Err(e),
                        Ok((code, p4)) => if p4 <= p || p4 > s.len() {
                            Err(msg_stalled())
                        } else {
                            match embellishment_items(s, p4, r + 1) {
                                Err(e) => Err(e),
                                Ok((rest, p5, r5)) => Ok((seq![code] + rest, p5, r5)),
                            }
                        },
                    },
                },
            }
        },
    }
}

/// An embellishment list at nesting `depth`.
pub open spec fn embellishment_list(s: Seq<u8>, p: int, r: int, depth: int) -> ListStep<Seq<u8>> {
    if depth > MAX_MTEF_DEPTH {
        Err(msg_embellishment_depth())
    } else {
        embellishment_items(s, p, r)
    }
}

/// Prepends an optional tree to the trees of a list step.
pub open spec fn cons_step(node: Option<MtefTree>, rest: ListStep<Seq<MtefTree>>) -> ListStep<
    Seq<MtefTree>,
> {
    match rest {
        Err(e) => Err(e),
        Ok((trees, p, r)) => match node {
            Some(tree) => Ok((seq![tree] + trees, p, r)),
            None => Ok((trees, p, r)),
        },
    }
}

/// Wraps the trees of a list step with `f`.
pub open spec fn wrap_step(
    rest: ListStep<Seq<MtefTree>>,
    f: spec_fn(Seq<MtefTree>) -> MtefTree,
) -> ListStep<Option<MtefTree>> {
    match rest {
        Err(e) => Err(e),
        Ok((trees, p, r)) => Ok((Some(f(trees)), p, r)),
    }
}

/// An object list at nesting `depth`, read from `p` with `r` records counted so far.
pub open spec fn object_list(s: Seq<u8>, p: int, r: int, depth: int) -> ListStep<Seq<MtefTree>>
    decreases s.len() - p, 2int, 0int,
{
    if depth > MAX_MTEF_DEPTH {
        Err(msg_depth())
    } else {
        object_items(s, p, r, depth)
    }
}

/// The records of an object list up to and including its end record.
pub open spec fn object_items(s: Seq<u8>, p: int, r: int, depth: int) -> ListStep<Seq<MtefTree>>
    decreases s.len() - p, 1int, 0int,
{
    match read_u8(s, p) {
        Err(e) => Err(e),
        Ok((record_type, p1)) => if r + 1 > MAX_MTEF_RECORDS {
            Err(msg_records())
        } else if record_type == 0 {
            Ok((Seq::empty(), p1, r + 1))
        } else {
            match object_record(s, record_type, p1, r + 1, depth + 1) {
                Err(e) => Err(e),
                Ok((node, p2, r2)) => if p2 <= p || p2 > s.len() {
                    Err(msg_stalled())
                } else {
                    cons_step(node, object_items(s, p2, r2, depth))
                },
            }
        },
    }
}

/// An object list that follows a record header ending at `q`, where the
/// record started before `p`.
pub open spec fn nested_list(s: Seq<u8>, p: int, q: int, r: int, depth: int) -> ListStep<
    Seq<MtefTree>,
>
    decreases s.len() - p, 0int, 0int,
{
    if q <= p || q > s.len() {
        Err(msg_stalled())
    } else {
        object_list(s, q, r, depth)
    }
}

/// A line record: options, nudge, optional spacing and ruler, then its object list unless it is null.
pub open spec fn line_record(s: Seq<u8>, p: int, r: int, depth: int) -> ListStep<Option<MtefTree>>
    decreases s.len() - p, 0int, 1int,
{
    match read_u8(s, p) {
        Err(e) => Err(e),
        Ok((options, p1)) => match skip_nudge(s, p1, options) {
            Err(e) => Err(e),
            Ok(p2) => match (if options & 0x04 != 0 { skip(s, p2, 2) } else { Ok(p2) }) {
                Err(e) => Err(e),
                Ok(p3) => match (if options & 0x02 != 0 { skip_ruler(s, p3) } else { Ok(p3) }) {
                    Err(e) => Err(e),
                    Ok(p4) => if options & 0x01 == 0 {
                        wrap_step(nested_list(s, p, p4, r, depth), |t| MtefTree::Line(t))
                    } else {
                        Ok((Some(MtefTree::Line(Seq::empty())), p4, r))
                    },
                },
            },
        },
    }
}

/// A character record: options, nudge, typeface, MT code, font position and embellishments.
pub open spec fn char_record(s: Seq<u8>, p: int, r: int, depth: int) -> ListStep<Option<MtefTree>>
{
    match read_u8(s, p) {
        Err(e) => Err(e),
        Ok((options, p1)) => match skip_nudge(s, p1, options) {
            Err(e) => Err(e),
            Ok(p2) => match read_u8(s, p2) {
                Err(e) => Err(e),
                Ok((_typeface, p3)) => match (if options & 0x20 == 0 {
                    match read_u16(s, p3) {
                        Err(e) => Err(e),
                        Ok((code, q)) => Ok((Some(code), q)),
                    }
                } else {
                    Ok((None, p3))
                }) {
                    Err(e) => Err(e),
                    Ok((mt_code, p4)) => match (if options & 0x04 != 0 {
                        match read_u8(s, p4) {
                            Err(e) => Err(e),
                            Ok((b, q)) => Ok((Some(b as u16), q)),
                        }
                    } else if options & 0x10 != 0 {
                        match read_u16(s, p4) {
                            Err(e) => Err(e),
                            Ok((w, q)) => Ok((Some(w), q)),
                        }
                    } else {
                        Ok((None, p4))
                    }) {
                        Err(e) => Err(e),
                        Ok((font_position, p5)) => match (if options & 0x01 != 0 {
                            embellishment_list(s, p5, r, depth)
                        } else {
                            Ok((Seq::empty(), p5, r))
                        }) {
                            Err(e) => Err(e),
                            Ok((embellishments, p6, r6)) => Ok((
                                Some(MtefTree::Char { mt_code, font_position, embellishments }),
                                p6,
                                r6,
                            )),
                        },
                    },
                },
            },
        },
    }
}

/// A template record: options, nudge, selector, variation, template options and its object list.
pub open spec fn template_record(s: Seq<u8>, p: int, r: int, depth: int) -> ListStep<Option<MtefTree>>
    decreases s.len() - p, 0int, 1int,
{
    match read_u8(s, p) {
        Err(e) => Err(e),
        Ok((options, p1)) => match skip_nudge(s, p1, options) {
            Err(e) => Err(e),
            Ok(p2) => match read_u8(s, p2) {
                Err(e) => Err(e),
                Ok((selector, p3)) => match read_u8(s, p3) {
                    Err(e) => Err(e),
                    Ok((first, p4)) => match (if first & 0x80 != 0 {
                        match read_u8(s, p4) {
                            Err(e) => Err(e),
                            Ok((high, q)) => Ok((((first & 0x7f) as int + 256 * (high as int)) as u16, q)),
                        }
                    } else {
                        Ok((first as u16, p4))
                    }) {
                        Err(e) => Err(e),
                        Ok((variation, p5)) => match read_u8(s, p5) {
                            Err(e) => Err(e),
                            Ok((_template_options, p6)) => wrap_step(
                                nested_list(s, p, p6, r, depth),
                                |t| MtefTree::Template { selector, variation, children: t },
                            ),
                        },
                    },
                },
            },
        },
    }
}

/// A pile record: options, nudge, alignment bytes, optional ruler and its lines.
pub open spec fn pile_record(s: Seq<u8>, p: int, r: int, depth: int) -> ListStep<Option<MtefTree>>
    decreases s.len() - p, 0int, 1int,
{
    match read_u8(s, p) {
        Err(e) => Err(e),
        Ok((options, p1)) => match skip_nudge(s, p1, options) {
            Err(e) => Err(e),
            Ok(p2) => match skip(s, p2, 2) {
                Err(e) => Err(e),
                Ok(p3) => match (if options & 0x02 != 0 { skip_ruler(s, p3) } else { Ok(p3) }) {
                    Err(e) => Err(e),
                    Ok(p4) => wrap_step(nested_list(s, p, p4, r, depth), |t| MtefTree::Pile(t)),
                },
            },
        },
    }
}

/// A matrix record: options, nudge, alignment bytes, dimensions, partition flags and its cells.
pub open spec fn matrix_record(s: Seq<u8>, p: int, r: int, depth: int) -> ListStep<Option<MtefTree>>
    decreases s.len() - p, 0int, 1int,
{
    match read_u8(s, p) {
        Err(e) => Err(e),
        Ok((options, p1)) => match skip_nudge(s, p1, options) {
            Err(e) => Err(e),
            Ok(p2) => match skip(s, p2, 3) {
                Err(e) => Err(e),
                Ok(p3) => match read_u8(s, p3) {
                    Err(e) => Err(e),
                    Ok((rows, p4)) => match read_u8(s, p4) {
                        Err(e) => Err(e),
                        Ok((cols, p5)) => if rows == 0 || cols == 0 {
                            Err(msg_matrix())
                        } else {
                            match skip(s, p5, spec_partition_bytes(rows)) {
                                Err(e) => Err(e),
                                Ok(p6) => match skip(s, p6, spec_partition_bytes(cols)) {
                                    Err(e) => Err(e),
                                    Ok(p7) => wrap_step(
                                        nested_list(s, p, p7, r, depth),
                                        |t| MtefTree::Matrix { rows, cols, cells: t },
                                    ),
                                },
                            }
                        },
                    },
                },
            },
        },
    }
}

/// One record of type `record_type` whose body starts at `p`; `None` for
/// records that only carry layout.
pub open spec fn object_record(s: Seq<u8>, record_type: u8, p: int, r: int, depth: int) -> ListStep<
    Option<MtefTree>,
>
    decreases s.len() - p, 0int, 2int,
{
    if record_type == 1 {
        line_record(s, p, r, depth)
    } else if record_type == 2 {
        char_record(s, p, r, depth)
    } else if record_type == 3 {
        template_record(s, p, r, depth)
    } else if record_type == 4 {
        pile_record(s, p, r, depth)
    } else if record_type == 5 {
        matrix_record(s, p, r, depth)
    } else {
        match skip_layout_record(s, record_type, p) {
            Err(e) => Err(e),
            Ok(q) => Ok((None, q, r)),
        }
    }
}

/// Skips the body of a record that carries no equation content.
pub open spec fn skip_layout_record(s: Seq<u8>, record_type: u8, p: int) -> Result<int, Seq<char>> {
    if record_type == 6 {
        match read_u8(s, p) {
            Err(e) => Err(e),
            Ok((options, p1)) => match skip_nudge(s, p1, options) {
                Err(e) => Err(e),
                Ok(p2) => skip(s, p2, 1),
            },
        }
    } else if record_type == 7 {
        skip_ruler(s, p)
    } else if record_type == 8 {
        skip(s, p, 2)
    } else if record_type == 9 {
        match read_u8(s, p) {
            Err(e) => Err(e),
            Ok((size_select, p1)) => skip(
                s,
                p1,
                if size_select == 100 { 3 } else if size_select == 101 { 2 } else { 1 },
            ),
        }
    } else if 10 <= record_type <= 14 {
        Ok(p)
    } else if record_type == 15 {
        skip(s, p, 1)
    } else if record_type == 16 {
        match read_u8(s, p) {
            Err(e) => Err(e),
            Ok((options, p1)) => match skip(s, p1, if options & 0x01 != 0 { 8 } else { 6 }) {
                Err(e) => Err(e),
                Ok(p2) => if options & 0x04 != 0 {
                    skip_stringz(s, p2, MAX_ZERO_TERMINATED_BYTES as int)
                } else {
                    Ok(p2)
                },
            },
        }
    } else if record_type == 17 {
        match skip(s, p, 1) {
            Err(e) => Err(e),
            Ok(p1) => skip_stringz(s, p1, MAX_ZERO_TERMINATED_BYTES as int),
        }
    } else if record_type == 18 {
        skip_preferences(s, p)
    } else if record_type == 19 {
        skip_stringz(s, p, MAX_ZERO_TERMINATED_BYTES as int)
    } else if record_type >= 100 {
        match read_u8(s, p) {
            Err(e) => Err(e),
            Ok((length, p1)) => skip(s, p1, length as int),
        }
    } else {
        Err(msg_record_type(record_type, (p - 1) as nat))
    }
}

/// A decoded MTEF equation: product version, subversion and top-level trees.
pub open spec fn spec_parse_mtef(s: Seq<u8>) -> Result<(u8, u8, Seq<MtefTree>), Seq<char>> {
    match read_u8(s, 0) {
        Err(e) => Err(e),
        Ok((version, p1)) => if version != 5 {
            Err(msg_version(version))
        } else {
            match read_u8(s, p1) {
                Err(e) => Err(e),
                Ok((_platform, p2)) => match read_u8(s, p2) {
                Err(e) => Err(e),
                Ok((_product, p3)) => match read_u8(s, p3) {
                    Err(e) => Err(e),
                    Ok((product_version, p4)) => match read_u8(s, p4) {
                        Err(e) => Err(e),
                        Ok((product_subversion, p5)) => match skip_stringz(
                            s,
                            p5,
                            MAX_ZERO_TERMINATED_BYTES as int,
                        ) {
                            Err(e) => Err(e),
                            Ok(p6) => match read_u8(s, p6) {
                                Err(e) => Err(e),
                                Ok((_options, p7)) => match object_list(s, p7, 0, 0) {
                                    Err(e) => Err(e),
                                    Ok((nodes, p8, _r)) => if exists|i: int|
                                        p8 <= i < s.len() && s[i] != 0 {
                                        Err(msg_trailing((s.len() - p8) as nat))
                                    } else {
                                        Ok((product_version, product_subversion, nodes))
                                    },
                                },
                            },
                        },
                    },
                },
                },
            }
        },
    }
}

/// `result` reports what the step `expected` describes, ending at `pos`.
pub open spec fn value_step<T>(expected: Step<T>, result: DocxResult<T>, pos: int) -> bool {
    match result {
        Ok(v) => expected == Ok::<(T, int), Seq<char>>((v, pos)),
        Err(e) => match expected {
            Err(m) => e@ == mathtype_fault(m),
            Ok(_) => false,
        },
    }
}

/// `result` reports what the position step `expected` describes, ending at `pos`.
pub open spec fn pos_step(expected: Result<int, Seq<char>>, result: DocxResult<()>, pos: int) -> bool {
    match result {
        Ok(_) => expected == Ok::<int, Seq<char>>(pos),
        Err(e) => match expected {
            Err(m) => e@ == mathtype_fault(m),
            Ok(_) => false,
        },
    }
}

/// `result` reports what the list step `expected` describes, ending at `pos`
/// with `records` counted.
pub open spec fn list_step<T, U>(
    expected: ListStep<U>,
    result: DocxResult<T>,
    value: spec_fn(T) -> U,
    pos: int,
    records: int,
) -> bool {
    match result {
        Ok(v) => expected == Ok::<(U, int, int), Seq<char>>((value(v), pos, records)),
        Err(e) => match expected {
            Err(m) => e@ == mathtype_fault(m),
            Ok(_) => false,
        },
    }
}

/// The tree of an optional node.
pub open spec fn opt_tree(node: Option<MtefNode>) -> Option<MtefTree> {
    match node {
        Some(n) => Some(tree_of(n)),
        None => None,
    }
}

/// Prefixes the items of a list step with `prefix`.
pub open spec fn prefix_step<A>(prefix: Seq<A>, rest: ListStep<Seq<A>>) -> ListStep<Seq<A>> {
    match rest {
        Err(e) => Err(e),
        Ok((trees, p, r)) => Ok((prefix + trees, p, r)),
    }
}

proof fn lemma_trees_push(nodes: Seq<MtefNode>, node: MtefNode)
    ensures
        trees_of(nodes.push(node)) == trees_of(nodes).push(tree_of(node)),
{
    assert(nodes.push(node).subrange(0, nodes.len() as int) =~= nodes);
}

proof fn lemma_prefix_cons(prefix: Seq<MtefTree>, node: Option<MtefTree>, rest: ListStep<Seq<MtefTree>>)
    ensures
        prefix_step(prefix, cons_step(node, rest)) == prefix_step(
            match node {
                Some(t) => prefix.push(t),
                None => prefix,
            },
            rest,
        ),
{
    match rest {
        Err(_) => {},
        Ok((trees, p, r)) => match node {
            Some(t) => {
                assert(prefix + (seq![t] + trees) =~= prefix.push(t) + trees);
            },
            None => {},
        },
    }
}

/// Bytes used by the partition-line flags of a matrix with `parts` rows or columns.
pub fn partition_bytes(parts: u8) -> (count: usize)
    ensures
        count == spec_partition_bytes(parts),
{
    ((parts as usize + 1) * 2 + 7) / 8
}

/// Whether a byte at or after `start` is nonzero.
fn has_nonzero_from(bytes: &[u8], start: usize) -> (found: bool)
    requires
        start <= bytes@.len(),
    ensures
        found == exists|i: int| start <= i < bytes@.len() && bytes@[i] != 0,
{
    let mut i = start;
    while i < bytes.len()
        invariant
            start <= i <= bytes@.len(),
            forall|j: int| start <= j < i ==> bytes@[j] == 0,
        decreases bytes@.len() - i,
    {
        if bytes[i] != 0 {
            return true;
        }
        i = i + 1;
    }
    false
}

/// A decoder positioned in an MTEF byte stream.
pub struct MtefParser<'a> {
    bytes: &'a [u8],
    position: usize,
    records: usize,
}

/// A decoded MTEF equation.
pub struct ParsedMtef {
    pub product_version: u8,
    pub product_subversion: u8,
    pub nodes: Vec<MtefNode>,
}

impl<'a> MtefParser<'a> {
    /// The bytes being decoded.
    pub closed spec fn input(&self) -> Seq<u8> {
        self.bytes@
    }

    /// The position of the next byte to read.
    pub closed spec fn pos(&self) -> int {
        self.position as int
    }

    /// The records counted so far.
    pub closed spec fn count(&self) -> int {
        self.records as int
    }

    /// The position lies within the input and no more records were counted
    /// than bytes read.
    pub closed spec fn wf(&self) -> bool {
        self.position <= self.bytes@.len() && self.records <= self.position
    }

    /// A decoder at the start of `bytes`.
    pub fn new(bytes: &'a [u8]) -> (parser: Self)
        ensures
            parser.wf(),
            parser.input() == bytes@,
            parser.pos() == 0,
            parser.count() == 0,
    {
        MtefParser { bytes, position: 0, records: 0 }
    }

    fn read_u8(&mut self) -> (result: DocxResult<u8>)
        requires
            old(self).wf(),
        ensures
            final(self).wf(),
            final(self).input() == old(self).input(),
            final(self).count() == old(self).count(),
            final(self).pos() >= old(self).pos(),
            value_step(read_u8(old(self).input(), old(self).pos()), result, final(self).pos()),
    {
        if self.position < self.bytes.len() {
            let value = self.bytes[self.position];
            self.position = self.position + 1;
            Ok(value)
        } else {
            Err(invalid_mathtype("unexpected end of MTEF data".to_owned()))
        }
    }

    fn read_u16(&mut self) -> (result: DocxResult<u16>)
        requires
            old(self).wf(),
        ensures
            final(self).wf(),
            final(self).input() == old(self).input(),
            final(self).count() == old(self).count(),
            final(self).pos() >= old(self).pos(),
            value_step(read_u16(old(self).input(), old(self).pos()), result, final(self).pos()),
    {
        if self.bytes.len() - self.position >= 2 {
            let low = self.bytes[self.position] as u16;
            let high = self.bytes[self.position + 1] as u16;
            self.position = self.position + 2;
            Ok(low + high * 256)
        } else {
            Err(invalid_mathtype("unexpected end of MTEF 16-bit value".to_owned()))
        }
    }

    fn skip(&mut self, length: usize) -> (result: DocxResult<()>)
        requires
            old(self).wf(),
        ensures
            final(self).wf(),
            final(self).input() == old(self).input(),
            final(self).count() == old(self).count(),
            final(self).pos() >= old(self).pos(),
            pos_step(skip(old(self).input(), old(self).pos(), length as int), result, final(self).pos()),
    {
        match self.position.checked_add(length) {
            None => Err(invalid_mathtype("MTEF byte position overflow".to_owned())),
            Some(next) => if next > self.bytes.len() {
                Err(invalid_mathtype("unexpected end of MTEF data".to_owned()))
            } else {
                self.position = next;
                Ok(())
            },
        }
    }

    fn skip_nudge(&mut self, options: u8) -> (result: DocxResult<()>)
        requires
            old(self).wf(),
        ensures
            final(self).wf(),
            final(self).input() == old(self).input(),
            final(self).count() == old(self).count(),
            final(self).pos() >= old(self).pos(),
            pos_step(skip_nudge(old(self).input(), old(self).pos(), options), result, final(self).pos()),
    {
        if options & 0x08 == 0 {
            return Ok(());
        }
        let dx = self.read_u8()?;
        let dy = self.read_u8()?;
        if dx == 128 && dy == 128 {
            self.skip(4)?;
        }
        Ok(())
    }

    fn skip_ruler(&mut self) -> (result: DocxResult<()>)
        requires
            old(self).wf(),
        ensures
            final(self).wf(),
            final(self).input() == old(self).input(),
            final(self).count() == old(self).count(),
            final(self).pos() >= old(self).pos(),
            pos_step(skip_ruler(old(self).input(), old(self).pos()), result, final(self).pos()),
    {
        let stops = self.read_u8()? as usize;
        self.skip(stops * 3)
    }

    fn skip_stringz(&mut self, max_bytes: usize) -> (result: DocxResult<()>)
        requires
            old(self).wf(),
            max_bytes <= MAX_ZERO_TERMINATED_BYTES,
        ensures
            final(self).wf(),
            final(self).input() == old(self).input(),
            final(self).count() == old(self).count(),
            final(self).pos() >= old(self).pos(),
            pos_step(
                skip_stringz(old(self).input(), old(self).pos(), max_bytes as int),
                result,
                final(self).pos(),
            ),
    {
        let start = self.position;
        let ghost s = self.bytes@;
        let ghost end = start + max_bytes + 1;
        let mut i = start;
        while i < self.bytes.len() && i - start <= max_bytes
            invariant
                start <= i <= self.bytes@.len(),
                self.bytes@ == s,
                s == old(self).bytes@,
                self.position == start,
                self.records == old(self).records,
                self.records <= self.position,
                start == old(self).position,
                end == start + max_bytes + 1,
                i <= end,
                first_zero(s, start as int, end) == first_zero(s, i as int, end),
            decreases self.bytes@.len() - i,
        {
            if self.bytes[i] == 0 {
                self.position = i + 1;
                return Ok(());
            }
            i = i + 1;
        }
        Err(invalid_mathtype("unterminated or oversized MTEF string".to_owned()))
    }

    /// The index of the next nibble when `high` tells whether it is the high
    /// half of the byte at the current position.
    pub closed spec fn nibble_at(&self, high: bool) -> int {
        2 * self.position + if high { 0int } else { 1int }
    }

    fn read_nibble(&mut self, high: &mut bool) -> (result: DocxResult<u8>)
        requires
            old(self).wf(),
            !*old(high) ==> old(self).pos() < old(self).input().len(),
        ensures
            final(self).wf(),
            final(self).input() == old(self).input(),
            final(self).count() == old(self).count(),
            final(self).pos() >= old(self).pos(),
            !*final(high) ==> final(self).pos() < final(self).input().len(),
            match result {
                Ok(v) => {
                    &&& old(self).pos() < old(self).input().len()
                    &&& v == nibble(old(self).input(), old(self).nibble_at(*old(high)))
                    &&& final(self).nibble_at(*final(high)) == old(self).nibble_at(*old(high)) + 1
                },
                Err(e) => {
                    &&& old(self).nibble_at(*old(high)) / 2 >= old(self).input().len()
                    &&& e@ == mathtype_fault(msg_dimensions())
                },
            },
    {
        if self.position >= self.bytes.len() {
            return Err(invalid_mathtype("unexpected end of MTEF dimension array".to_owned()));
        }
        let byte = self.bytes[self.position];
        let value = if *high {
            byte >> 4u8
        } else {
            byte & 0x0f
        };
        if !*high {
            self.position = self.position + 1;
        }
        *high = !*high;
        Ok(value)
    }

    fn skip_dimension_entries(&mut self, count: usize) -> (result: DocxResult<()>)
        requires
            old(self).wf(),
        ensures
            final(self).wf(),
            final(self).input() == old(self).input(),
            final(self).count() == old(self).count(),
            final(self).pos() >= old(self).pos(),
            pos_step(
                skip_dimensions(old(self).input(), old(self).pos(), count as nat),
                result,
                final(self).pos(),
            ),
    {
        let ghost s = self.bytes@;
        let ghost p0 = self.position as int;
        let ghost r0 = self.records;
        let mut high = true;
        let mut i: usize = 0;
        while i < count
            invariant
                self.wf(),
                self.bytes@ == s,
                s == old(self).bytes@,
                self.records == r0,
                r0 == old(self).records,
                p0 == old(self).position,
                self.position >= p0,
                i <= count,
                !high ==> self.position < s.len(),
                skip_dimension_nibbles(s, 2 * p0, count as nat) == skip_dimension_nibbles(
                    s,
                    self.nibble_at(high),
                    (count - i) as nat,
                ),
            decreases count - i,
        {
            let _unit = self.read_nibble(&mut high)?;
            loop
                invariant_except_break
                    skip_dimension_nibbles(s, 2 * p0, count as nat) == match skip_to_terminator(
                        s,
                        self.nibble_at(high),
                    ) {
                        Err(e) => Err(e),
                        Ok(n2) => skip_dimension_nibbles(s, n2, (count - i - 1) as nat),
                    },
                invariant
                    self.wf(),
                    self.bytes@ == s,
                    s == old(self).bytes@,
                    self.records == r0,
                    r0 == old(self).records,
                    p0 == old(self).position,
                    self.position >= p0,
                    i < count,
                    !high ==> self.position < s.len(),
                ensures
                    skip_dimension_nibbles(s, 2 * p0, count as nat) == skip_dimension_nibbles(
                        s,
                        self.nibble_at(high),
                        (count - i - 1) as nat,
                    ),
                decreases 2 * s.len() - self.nibble_at(high),
            {
                let value = self.read_nibble(&mut high)?;
                if value == 0x0f {
                    break;
                }
            }
            i = i + 1;
        }
        let len = self.bytes.len();
        if !high {
            assert(self.position < len);
            self.position = self.position + 1;
        }
        if self.position > len {
            return Err(invalid_mathtype("unexpected end of MTEF data".to_owned()));
        }
        Ok(())
    }

    fn skip_styles(&mut self, count: usize) -> (result: DocxResult<()>)
        requires
            old(self).wf(),
        ensures
            final(self).wf(),
            final(self).input() == old(self).input(),
            final(self).count() == old(self).count(),
            final(self).pos() >= old(self).pos(),
            pos_step(skip_styles(old(self).input(), old(self).pos(), count as nat), result, final(self).pos()),
    {
        let ghost s = self.bytes@;
        let ghost p0 = self.position as int;
        let mut i: usize = 0;
        while i < count
            invariant
                self.wf(),
                self.bytes@ == s,
                s == old(self).bytes@,
                self.records == old(self).records,
                p0 == old(self).position,
                self.position >= p0,
                i <= count,
                skip_styles(s, p0, count as nat) == skip_styles(s, self.position as int, (count - i) as nat),
            decreases count - i,
        {
            let font_def = self.read_u8()?;
            if font_def != 0 {
                self.skip(1)?;
            }
            i = i + 1;
        }
        Ok(())
    }

    fn skip_equation_preferences(&mut self) -> (result: DocxResult<()>)
        requires
            old(self).wf(),
        ensures
            final(self).wf(),
            final(self).input() == old(self).input(),
            final(self).count() == old(self).count(),
            final(self).pos() >= old(self).pos(),
            pos_step(skip_preferences(old(self).input(), old(self).pos()), result, final(self).pos()),
    {
        self.skip(1)?;
        let sizes_count = self.read_u8()? as usize;
        self.skip_dimension_entries(sizes_count)?;
        let spaces_count = self.read_u8()? as usize;
        self.skip_dimension_entries(spaces_count)?;
        let styles_count = self.read_u8()? as usize;
        self.skip_styles(styles_count)
    }

    fn skip_layout_record(&mut self, record_type: u8) -> (result: DocxResult<()>)
        requires
            old(self).wf(),
            old(self).pos() >= 1,
            !(1 <= record_type <= 5),
        ensures
            final(self).wf(),
            final(self).input() == old(self).input(),
            final(self).count() == old(self).count(),
            final(self).pos() >= old(self).pos(),
            pos_step(
                skip_layout_record(old(self).input(), record_type, old(self).pos()),
                result,
                final(self).pos(),
            ),
    {
        if record_type == 6 {
            let options = self.read_u8()?;
            self.skip_nudge(options)?;
            self.skip(1)
        } else if record_type == 7 {
            self.skip_ruler()
        } else if record_type == 8 {
            self.skip(2)
        } else if record_type == 9 {
            let size_select = self.read_u8()?;
            if size_select == 100 {
                self.skip(3)
            } else if size_select == 101 {
                self.skip(2)
            } else {
                self.skip(1)
            }
        } else if 10 <= record_type && record_type <= 14 {
            Ok(())
        } else if record_type == 15 {
            self.skip(1)
        } else if record_type == 16 {
            let options = self.read_u8()?;
            self.skip(if options & 0x01 != 0 { 8 } else { 6 })?;
            if options & 0x04 != 0 {
                self.skip_stringz(MAX_ZERO_TERMINATED_BYTES)?;
            }
            Ok(())
        } else if record_type == 17 {
            self.skip(1)?;
            self.skip_stringz(MAX_ZERO_TERMINATED_BYTES)
        } else if record_type == 18 {
            self.skip_equation_preferences()
        } else if record_type == 19 {
            self.skip_stringz(MAX_ZERO_TERMINATED_BYTES)
        } else if record_type >= 100 {
            let length = self.read_u8()? as usize;
            self.skip(length)
        } else {
            let mut message = "unsupported MTEF record type ".to_owned();
            push_decimal(&mut message, record_type as u64);
            message.append(" at byte ");
            push_decimal(&mut message, (self.position - 1) as u64);
            Err(invalid_mathtype(message))
        }
    }


    fn parse_embellishment_list(&mut self, depth: usize) -> (result: DocxResult<Vec<u8>>)
        requires
            old(self).wf(),
        ensures
            final(self).wf(),
            final(self).input() == old(self).input(),
            final(self).pos() >= old(self).pos(),
            list_step(
                embellishment_list(old(self).input(), old(self).pos(), old(self).count(), depth as int),
                result,
                |v: Vec<u8>| v@,
                final(self).pos(),
                final(self).count(),
            ),
    {
        if depth > MAX_MTEF_DEPTH {
            return Err(invalid_mathtype("MathType embellishment nesting is too deep".to_owned()));
        }
        let ghost s = self.bytes@;
        let ghost p0 = self.position as int;
        let ghost r0 = self.records as int;
        let mut result: Vec<u8> = Vec::new();
        loop
            invariant_except_break
                embellishment_items(s, p0, r0) == prefix_step(
                    result@,
                    embellishment_items(s, self.position as int, self.records as int),
                ),
            invariant
                self.wf(),
                self.bytes@ == s,
                s == old(self).bytes@,
                p0 == old(self).position,
                r0 == old(self).records,
                self.position >= p0,
                depth <= MAX_MTEF_DEPTH,
            ensures
                embellishment_items(s, p0, r0) == Ok::<(Seq<u8>, int, int), Seq<char>>(
                    (result@, self.position as int, self.records as int),
                ),
            decreases s.len() - self.position,
        {
            let ghost before = result@;
            let record_type = self.read_u8()?;
            self.records = self.records + 1;
            if record_type == 0 {
                assert(before + Seq::<u8>::empty() =~= before);
                break;
            }
            if record_type != 6 {
                let mut message = "unexpected record ".to_owned();
                push_decimal(&mut message, record_type as u64);
                message.append(" in MathType embellishment list");
                return Err(invalid_mathtype(message));
            }
            let options = self.read_u8()?;
            self.skip_nudge(options)?;
            let code = self.read_u8()?;
            result.push(code);
            proof {
                let rest = embellishment_items(s, self.position as int, self.records as int);
                match rest {
                    Err(_) => {},
                    Ok((items, q, rq)) => {
                        assert(before + (seq![code] + items) =~= result@ + items);
                    },
                }
            }
        }
        Ok(result)
    }

    fn parse_list(&mut self, depth: usize) -> (result: DocxResult<Vec<MtefNode>>)
        requires
            old(self).wf(),
        ensures
            final(self).wf(),
            final(self).input() == old(self).input(),
            final(self).pos() >= old(self).pos(),
            list_step(
                object_list(old(self).input(), old(self).pos(), old(self).count(), depth as int),
                result,
                |v: Vec<MtefNode>| trees_of(v@),
                final(self).pos(),
                final(self).count(),
            ),
        decreases old(self).input().len() - old(self).pos(), 2int, 0int,
    {
        if depth > MAX_MTEF_DEPTH {
            return Err(
                invalid_mathtype("MathType structure exceeds the nesting limit of 128".to_owned()),
            );
        }
        let ghost s = self.bytes@;
        let ghost p0 = self.position as int;
        let ghost r0 = self.records as int;
        let mut nodes: Vec<MtefNode> = Vec::new();
        loop
            invariant_except_break
                object_items(s, p0, r0, depth as int) == prefix_step(
                    trees_of(nodes@),
                    object_items(s, self.position as int, self.records as int, depth as int),
                ),
            invariant
                self.wf(),
                self.bytes@ == s,
                s == old(self).bytes@,
                p0 == old(self).position,
                r0 == old(self).records,
                self.position >= p0,
                depth <= MAX_MTEF_DEPTH,
            ensures
                object_items(s, p0, r0, depth as int) == Ok::<(Seq<MtefTree>, int, int), Seq<char>>(
                    (trees_of(nodes@), self.position as int, self.records as int),
                ),
            decreases s.len() - self.position,
        {
            let ghost before = nodes@;
            let ghost start = self.position as int;
            let record_type = self.read_u8()?;
            self.records = self.records + 1;
            if self.records > MAX_MTEF_RECORDS {
                return Err(
                    invalid_mathtype(
                        "MathType structure exceeds the record limit of 16384".to_owned(),
                    ),
                );
            }
            if record_type == 0 {
                assert(trees_of(before) + Seq::<MtefTree>::empty() =~= trees_of(before));
                break;
            }
            let ghost after_type = self.position as int;
            let ghost counted = self.records as int;
            let node = self.parse_record(record_type, depth + 1)?;
            proof {
                lemma_prefix_cons(
                    trees_of(before),
                    opt_tree(node),
                    object_items(s, self.position as int, self.records as int, depth as int),
                );
            }
            if let Some(node) = node {
                proof {
                    lemma_trees_push(nodes@, node);
                }
                nodes.push(node);
            }
        }
        Ok(nodes)
    }

    fn parse_record(&mut self, record_type: u8, depth: usize) -> (result: DocxResult<Option<MtefNode>>)
        requires
            old(self).wf(),
            old(self).pos() >= 1,
            record_type != 0,
            depth <= MAX_MTEF_DEPTH + 1,
        ensures
            final(self).wf(),
            final(self).input() == old(self).input(),
            final(self).pos() >= old(self).pos(),
            list_step(
                object_record(
                    old(self).input(),
                    record_type,
                    old(self).pos(),
                    old(self).count(),
                    depth as int,
                ),
                result,
                |o: Option<MtefNode>| opt_tree(o),
                final(self).pos(),
                final(self).count(),
            ),
        decreases old(self).input().len() - old(self).pos(), 0int, 2int,
    {
        if record_type == 1 {
            self.parse_line(depth)
        } else if record_type == 2 {
            self.parse_char(depth)
        } else if record_type == 3 {
            self.parse_template(depth)
        } else if record_type == 4 {
            self.parse_pile(depth)
        } else if record_type == 5 {
            self.parse_matrix(depth)
        } else {
            self.skip_layout_record(record_type)?;
            Ok(None)
        }
    }

    #[verifier::spinoff_prover]
    #[verifier::rlimit(40)]
    fn parse_line(&mut self, depth: usize) -> (result: DocxResult<Option<MtefNode>>)
        requires
            old(self).wf(),
            depth <= MAX_MTEF_DEPTH + 1,
        ensures
            final(self).wf(),
            final(self).input() == old(self).input(),
            final(self).pos() >= old(self).pos(),
            list_step(
                line_record(old(self).input(), old(self).pos(), old(self).count(), depth as int),
                result,
                |o: Option<MtefNode>| opt_tree(o),
                final(self).pos(),
                final(self).count(),
            ),
        decreases old(self).input().len() - old(self).pos(), 0int, 1int,
    {
        let options = self.read_u8()?;
        self.skip_nudge(options)?;
        if options & 0x04 != 0 {
            self.skip(2)?;
        }
        if options & 0x02 != 0 {
            self.skip_ruler()?;
        }
        let children = if options & 0x01 == 0 {
            self.parse_list(depth)?
        } else {
            Vec::new()
        };
        Ok(Some(MtefNode::Line(children)))
    }

    #[verifier::spinoff_prover]
    #[verifier::rlimit(40)]
    fn parse_char(&mut self, depth: usize) -> (result: DocxResult<Option<MtefNode>>)
        requires
            old(self).wf(),
            depth <= MAX_MTEF_DEPTH + 1,
        ensures
            final(self).wf(),
            final(self).input() == old(self).input(),
            final(self).pos() >= old(self).pos(),
            list_step(
                char_record(old(self).input(), old(self).pos(), old(self).count(), depth as int),
                result,
                |o: Option<MtefNode>| opt_tree(o),
                final(self).pos(),
                final(self).count(),
            ),
    {
        let options = self.read_u8()?;
        self.skip_nudge(options)?;
        let _typeface = self.read_u8()?;
        let mt_code = if options & 0x20 == 0 {
            Some(self.read_u16()?)
        } else {
            None
        };
        let font_position = if options & 0x04 != 0 {
            Some(self.read_u8()? as u16)
        } else if options & 0x10 != 0 {
            Some(self.read_u16()?)
        } else {
            None
        };
        let embellishments = if options & 0x01 != 0 {
            self.parse_embellishment_list(depth)?
        } else {
            Vec::new()
        };
        Ok(Some(MtefNode::Char { mt_code, font_position, embellishments }))
    }

    #[verifier::spinoff_prover]
    #[verifier::rlimit(40)]
    fn parse_template(&mut self, depth: usize) -> (result: DocxResult<Option<MtefNode>>)
        requires
            old(self).wf(),
            depth <= MAX_MTEF_DEPTH + 1,
        ensures
            final(self).wf(),
            final(self).input() == old(self).input(),
            final(self).pos() >= old(self).pos(),
            list_step(
                template_record(old(self).input(), old(self).pos(), old(self).count(), depth as int),
                result,
                |o: Option<MtefNode>| opt_tree(o),
                final(self).pos(),
                final(self).count(),
            ),
        decreases old(self).input().len() - old(self).pos(), 0int, 1int,
    {
        let options = self.read_u8()?;
        self.skip_nudge(options)?;
        let selector = self.read_u8()?;
        let first = self.read_u8()?;
        let variation = if first & 0x80 != 0 {
            let high = self.read_u8()?;
            assert(first & 0x7f < 128) by (bit_vector);
            (first & 0x7f) as u16 + (high as u16) * 256
        } else {
            first as u16
        };
        let _template_options = self.read_u8()?;
        let children = self.parse_list(depth)?;
        Ok(Some(MtefNode::Template { selector, variation, children }))
    }

    #[verifier::spinoff_prover]
    #[verifier::rlimit(40)]
    fn parse_pile(&mut self, depth: usize) -> (result: DocxResult<Option<MtefNode>>)
        requires
            old(self).wf(),
            depth <= MAX_MTEF_DEPTH + 1,
        ensures
            final(self).wf(),
            final(self).input() == old(self).input(),
            final(self).pos() >= old(self).pos(),
            list_step(
                pile_record(old(self).input(), old(self).pos(), old(self).count(), depth as int),
                result,
                |o: Option<MtefNode>| opt_tree(o),
                final(self).pos(),
                final(self).count(),
            ),
        decreases old(self).input().len() - old(self).pos(), 0int, 1int,
    {
        let options = self.read_u8()?;
        self.skip_nudge(options)?;
        self.skip(2)?;
        if options & 0x02 != 0 {
            self.skip_ruler()?;
        }
        let lines = self.parse_list(depth)?;
        Ok(Some(MtefNode::Pile(lines)))
    }

    #[verifier::spinoff_prover]
    #[verifier::rlimit(40)]
    fn parse_matrix(&mut self, depth: usize) -> (result: DocxResult<Option<MtefNode>>)
        requires
            old(self).wf(),
            depth <= MAX_MTEF_DEPTH + 1,
        ensures
            final(self).wf(),
            final(self).input() == old(self).input(),
            final(self).pos() >= old(self).pos(),
            list_step(
                matrix_record(old(self).input(), old(self).pos(), old(self).count(), depth as int),
                result,
                |o: Option<MtefNode>| opt_tree(o),
                final(self).pos(),
                final(self).count(),
            ),
        decreases old(self).input().len() - old(self).pos(), 0int, 1int,
    {
        let options = self.read_u8()?;
        self.skip_nudge(options)?;
        self.skip(3)?;
        let rows = self.read_u8()?;
        let cols = self.read_u8()?;
        if rows == 0 || cols == 0 {
            return Err(invalid_mathtype("MathType matrix has zero rows or columns".to_owned()));
        }
        self.skip(partition_bytes(rows))?;
        self.skip(partition_bytes(cols))?;
        let cells = self.parse_list(depth)?;
        Ok(Some(MtefNode::Matrix { rows, cols, cells }))
    }


    /// Decodes the whole stream as one MTEF 5 equation.
    pub fn parse(self) -> (result: DocxResult<ParsedMtef>)
        requires
            self.wf(),
            self.pos() == 0,
            self.count() == 0,
        ensures
            match result {
                Ok(parsed) => spec_parse_mtef(self.input()) == Ok::<(u8, u8, Seq<MtefTree>), Seq<char>>(
                    (parsed.product_version, parsed.product_subversion, trees_of(parsed.nodes@)),
                ),
                Err(e) => match spec_parse_mtef(self.input()) {
                    Err(m) => e@ == mathtype_fault(m),
                    Ok(_) => false,
                },
            },
    {
        let mut parser = self;
        let version = parser.read_u8()?;
        if version != 5 {
            let mut message = "unsupported MathType MTEF version ".to_owned();
            push_decimal(&mut message, version as u64);
            message.append("; version 5 is required");
            return Err(invalid_mathtype(message));
        }
        let _platform = parser.read_u8()?;
        let _product = parser.read_u8()?;
        let product_version = parser.read_u8()?;
        let product_subversion = parser.read_u8()?;
        parser.skip_stringz(MAX_ZERO_TERMINATED_BYTES)?;
        let _equation_options = parser.read_u8()?;
        let nodes = parser.parse_list(0)?;
        let start = parser.position;
        if has_nonzero_from(parser.bytes, start) {
            let mut message = String::new();
            push_decimal(&mut message, (parser.bytes.len() - start) as u64);
            message.append(" unexpected bytes follow the MTEF equation");
            return Err(invalid_mathtype(message));
        }
        Ok(ParsedMtef { product_version, product_subversion, nodes })
    }

}

} // verus!
