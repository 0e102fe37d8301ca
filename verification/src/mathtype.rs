//! Conversion of embedded MathType equations to editable LaTeX.
//!
//! An embedded MathType object is an OLE compound file whose `Equation Native`
//! stream holds a 28-byte header followed by MTEF. Only that stream is read;
//! the object is never activated.
use vstd::prelude::*;
use crate::error::{DocxResult};
use crate::latex::{LatexRenderer, joined, lemma_render_each_distinct, render_each, strings_view};
use crate::mtef::{EQUATION_NATIVE_HEADER_BYTES, MAX_EQUATION_NATIVE_BYTES, MtefParser, invalid_mathtype, mathtype_fault, spec_parse_mtef, trees_of};
use crate::latex::{is_control, is_control_char};
use crate::relationships::{TargetRefusal, spec_target_under, target_under};
use crate::text::{chars_of, same_text, trim_white_space, trimmed};

verus! {

/// OLE compound files, as read by the `cfb` crate.
#[verifier::external_type_specification]
#[verifier::external_body]
#[verifier::reject_recursive_types(F)]
pub struct ExCompoundFile<F>(cfb::CompoundFile<F>);

/// In-memory readers over byte slices.
#[verifier::external_type_specification]
#[verifier::external_body]
#[verifier::reject_recursive_types(T)]
pub struct ExCursor<T>(std::io::Cursor<T>);

/// A MathType equation converted to LaTeX.
#[derive(Debug)]
pub struct MathTypeConversion {
    pub latex: String,
    pub product_version: u8,
    pub product_subversion: u8,
    pub unsupported_features: Vec<String>,
}

/// The content of a [`MathTypeConversion`]: LaTeX, product version and
/// subversion, and the unsupported features met.
pub type ConversionView = (Seq<char>, u8, u8, Seq<Seq<char>>);

impl MathTypeConversion {
    pub open spec fn view_parts(&self) -> ConversionView {
        (
            self.latex@,
            self.product_version,
            self.product_subversion,
            strings_view(self.unsupported_features@),
        )
    }
}

pub open spec fn msg_empty_equation() -> Seq<char> {
    "MathType equation was decoded but did not contain editable mathematical content"@
}

pub open spec fn msg_object_too_large() -> Seq<char> {
    "MathType OLE object is larger than the 1048576 byte safety limit"@
}

pub open spec fn msg_stream_too_large() -> Seq<char> {
    "Equation Native is larger than the 1048576 byte safety limit"@
}

pub open spec fn msg_stream_too_short() -> Seq<char> {
    "Equation Native is shorter than its 28-byte header"@
}

pub open spec fn msg_no_stream() -> Seq<char> {
    "MathType OLE object does not contain an Equation Native stream"@
}

/// The LaTeX conversion of an MTEF equation: decoded, rendered, trimmed, and
/// refused when nothing is left.
pub open spec fn spec_convert_mtef(bytes: Seq<u8>) -> Result<ConversionView, Seq<char>> {
    match spec_parse_mtef(bytes) {
        Err(m) => Err(m),
        Ok((product_version, product_subversion, trees)) => {
            let (parts, notes) = render_each(trees, Seq::empty());
            let latex = trimmed(joined(parts, Seq::empty()));
            if latex.len() == 0 {
                Err(msg_empty_equation())
            } else {
                Ok((latex, product_version, product_subversion, notes))
            }
        },
    }
}

/// The LaTeX conversion of an `Equation Native` stream: bounded in size, its
/// header skipped, the MTEF after it converted.
pub open spec fn spec_convert_equation_native(stream: Seq<u8>) -> Result<ConversionView, Seq<char>> {
    if stream.len() > MAX_EQUATION_NATIVE_BYTES {
        Err(msg_stream_too_large())
    } else if stream.len() < EQUATION_NATIVE_HEADER_BYTES {
        Err(msg_stream_too_short())
    } else {
        spec_convert_mtef(stream.subrange(EQUATION_NATIVE_HEADER_BYTES as int, stream.len() as int))
    }
}

/// `result` reports the conversion outcome `expected`.
pub open spec fn conversion_matches(
    expected: Result<ConversionView, Seq<char>>,
    result: DocxResult<MathTypeConversion>,
) -> bool {
    match result {
        Ok(conversion) => expected == Ok::<ConversionView, Seq<char>>(conversion.view_parts()),
        Err(e) => match expected {
            Err(m) => e@ == mathtype_fault(m),
            Ok(_) => false,
        },
    }
}

/// Converts an MTEF equation to LaTeX.
pub fn convert_mtef_to_latex(bytes: &[u8]) -> (result: DocxResult<MathTypeConversion>)
    ensures
        conversion_matches(spec_convert_mtef(bytes@), result),
        result matches Ok(conversion) ==> strings_view(conversion.unsupported_features@).no_duplicates(),
{
    let parsed = MtefParser::new(bytes).parse()?;
    let mut renderer = LatexRenderer::default();
    let rendered = renderer.render_nodes(parsed.nodes.as_slice());
    proof {
        lemma_render_each_distinct(trees_of(parsed.nodes@), Seq::empty());
    }
    let latex = trim_white_space(rendered.as_str());
    if latex.as_str().is_empty() {
        return Err(
            invalid_mathtype(
                "MathType equation was decoded but did not contain editable mathematical content".to_owned(),
            ),
        );
    }
    Ok(
        MathTypeConversion {
            latex,
            product_version: parsed.product_version,
            product_subversion: parsed.product_subversion,
            unsupported_features: renderer.unsupported_features,
        },
    )
}

/// Converts the content of an `Equation Native` stream to LaTeX.
pub fn convert_equation_native(stream: &[u8]) -> (result: DocxResult<MathTypeConversion>)
    ensures
        conversion_matches(spec_convert_equation_native(stream@), result),
{
    if stream.len() > MAX_EQUATION_NATIVE_BYTES {
        return Err(
            invalid_mathtype(
                "Equation Native is larger than the 1048576 byte safety limit".to_owned(),
            ),
        );
    }
    if stream.len() < EQUATION_NATIVE_HEADER_BYTES {
        return Err(
            invalid_mathtype("Equation Native is shorter than its 28-byte header".to_owned()),
        );
    }
    let mtef = vstd::slice::slice_subrange(stream, EQUATION_NATIVE_HEADER_BYTES, stream.len());
    convert_mtef_to_latex(mtef)
}

/// Opens `bytes` as an OLE compound file with `cfb::CompoundFile::open`
/// (permissive validation). Nothing is claimed about the outcome; an error
/// is handed back as its display text.
#[verifier::external_body]
fn open_compound_file<'a>(bytes: &'a [u8]) -> Result<
    cfb::CompoundFile<std::io::Cursor<&'a [u8]>>,
    String,
> {
    match cfb::CompoundFile::open(std::io::Cursor::new(bytes)) {
        Ok(file) => Ok(file),
        Err(error) => Err(format!("{error}")),
    }
}

/// Whether the compound file holds a stream at `path`
/// (`cfb::CompoundFile::is_stream`). Nothing is claimed about the answer.
#[verifier::external_body]
fn compound_has_stream(file: &cfb::CompoundFile<std::io::Cursor<&[u8]>>, path: &str) -> bool {
    file.is_stream(path)
}

/// Opens the stream at `path` (`cfb::CompoundFile::open_stream`) and reads at
/// most `limit` bytes of it through `std::io::Read::take`. The only claim is
/// that no more than `limit` bytes come back; an error is handed back as its
/// display text.
#[verifier::external_body]
fn read_compound_stream(
    file: &mut cfb::CompoundFile<std::io::Cursor<&[u8]>>,
    path: &str,
    limit: u64,
) -> (result: Result<Vec<u8>, String>)
    ensures
        result matches Ok(bytes) ==> bytes@.len() <= limit,
{
    let mut bytes = Vec::new();
    match file.open_stream(path) {
        Ok(mut stream) => match std::io::Read::read_to_end(
            &mut std::io::Read::take(&mut stream, limit),
            &mut bytes,
        ) {
            Ok(_) => Ok(bytes),
            Err(error) => Err(format!("{error}")),
        },
        Err(error) => Err(format!("{error}")),
    }
}

/// Converts a MathType OLE object to LaTeX through its `Equation Native`
/// stream. What the compound-file reader finds is not known here: on success
/// the result is the conversion of some stream of at most the size limit.
pub fn convert_equation_native_to_latex(ole_bytes: &[u8]) -> (result: DocxResult<
    MathTypeConversion,
>)
    ensures
        ole_bytes@.len() > MAX_EQUATION_NATIVE_BYTES ==> (result matches Err(e) && e@
            == mathtype_fault(msg_object_too_large())),
        result matches Ok(conversion) ==> exists|stream: Seq<u8>|
            stream.len() <= MAX_EQUATION_NATIVE_BYTES + 1 && spec_convert_equation_native(stream)
                == Ok::<ConversionView, Seq<char>>(conversion.view_parts()),
        result matches Err(e) ==> ({
            ||| e@ == mathtype_fault(msg_object_too_large())
            ||| e@ == mathtype_fault(msg_no_stream())
            ||| exists|text: Seq<char>| e@ == mathtype_fault("invalid OLE compound file: "@ + text)
            ||| exists|text: Seq<char>| e@ == mathtype_fault("cannot read Equation Native: "@ + text)
            ||| exists|stream: Seq<u8>, m: Seq<char>|
                spec_convert_equation_native(stream) == Err::<ConversionView, Seq<char>>(m)
                    && e@ == mathtype_fault(m)
        }),
{
    if ole_bytes.len() > MAX_EQUATION_NATIVE_BYTES {
        return Err(
            invalid_mathtype(
                "MathType OLE object is larger than the 1048576 byte safety limit".to_owned(),
            ),
        );
    }
    let mut compound = match open_compound_file(ole_bytes) {
        Ok(file) => file,
        Err(text) => {
            let mut message = "invalid OLE compound file: ".to_owned();
            message.append(text.as_str());
            return Err(invalid_mathtype(message));
        },
    };
    if !compound_has_stream(&compound, "/Equation Native") {
        return Err(
            invalid_mathtype(
                "MathType OLE object does not contain an Equation Native stream".to_owned(),
            ),
        );
    }
    let limit = (MAX_EQUATION_NATIVE_BYTES + 1) as u64;
    let stream = match read_compound_stream(&mut compound, "/Equation Native", limit) {
        Ok(bytes) => bytes,
        Err(text) => {
            let mut message = "cannot read Equation Native: ".to_owned();
            message.append(text.as_str());
            return Err(invalid_mathtype(message));
        },
    };
    let result = convert_equation_native(stream.as_slice());
    assert(stream@.len() <= MAX_EQUATION_NATIVE_BYTES + 1);
    result
}

/// One MathType equation occurrence converted into the editor's LaTeX model.
///
/// The original embedded object is not returned, activated or persisted.
#[derive(Clone, Debug, PartialEq, Eq)]
pub struct ExtractedMathTypeOccurrence {
    pub paragraph_index: usize,
    pub text_char_offset: usize,
    pub relationship_id: String,
    pub latex: String,
    pub product_version: u8,
    pub product_subversion: u8,
}

/// Longest relationship id, in characters.
pub const MAX_RELATIONSHIP_ID_CHARS: usize = 256;

/// Some character of `s` is a control character.
pub open spec fn has_control(s: Seq<char>) -> bool {
    exists|i: int| 0 <= i < s.len() && is_control(#[trigger] s[i])
}

/// A relationship id usable for a MathType object: not empty, at most 256
/// characters, no control characters and no surrounding white space.
pub open spec fn valid_relationship_id(value: Seq<char>) -> bool {
    value.len() > 0 && value.len() <= MAX_RELATIONSHIP_ID_CHARS && !has_control(value) && trimmed(
        value,
    ) == value
}

/// Whether some character of `chars` is a control character.
pub fn any_control(chars: &[char]) -> (found: bool)
    ensures
        found == has_control(chars@),
{
    let mut i: usize = 0;
    while i < chars.len()
        invariant
            i <= chars@.len(),
            forall|j: int| 0 <= j < i ==> !is_control(#[trigger] chars@[j]),
        decreases chars@.len() - i,
    {
        if is_control_char(chars[i]) {
            return true;
        }
        i = i + 1;
    }
    false
}

/// Checks a MathType relationship id.
pub fn validate_relationship_id(value: &str) -> (result: DocxResult<()>)
    ensures
        valid_relationship_id(value@) ==> result is Ok,
        !valid_relationship_id(value@) ==> (result matches Err(e) && e@ == mathtype_fault(
            "MathType relationship Id is invalid"@,
        )),
{
    let chars = chars_of(value);
    let trimmed_value = trim_white_space(value);
    if chars.len() == 0 || chars.len() > MAX_RELATIONSHIP_ID_CHARS || any_control(chars.as_slice())
        || !same_text(trimmed_value.as_str(), value) {
        return Err(invalid_mathtype("MathType relationship Id is invalid".to_owned()));
    }
    Ok(())
}

/// The package part a MathType relationship target names, or why it is refused.
pub open spec fn spec_resolve_target(target: Seq<char>) -> Result<Seq<char>, Seq<char>> {
    match spec_target_under(target, "embeddings/"@) {
        Ok(part) => Ok(part),
        Err(TargetRefusal::Unsafe) => Err("MathType relationship target is unsafe"@),
        Err(TargetRefusal::Outside) => Err("MathType relationship must stay under word/embeddings"@),
    }
}

/// Resolves a MathType relationship target to the package part it names,
/// which must lie under `word/embeddings`.
pub fn resolve_mathtype_target(target: &str) -> (result: DocxResult<String>)
    ensures
        match spec_resolve_target(target@) {
            Ok(part) => result matches Ok(p) && p@ == part,
            Err(m) => result matches Err(e) && e@ == mathtype_fault(m),
        },
{
    match target_under(target, "embeddings/") {
        Ok(part) => Ok(part),
        Err(TargetRefusal::Unsafe) => Err(
            invalid_mathtype("MathType relationship target is unsafe".to_owned()),
        ),
        Err(TargetRefusal::Outside) => Err(
            invalid_mathtype("MathType relationship must stay under word/embeddings".to_owned()),
        ),
    }
}

} // verus!
