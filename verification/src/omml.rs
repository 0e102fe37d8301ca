//! Editable LaTeX for the OMML formulas of a Word document: the visible
//! math text of each formula, with common Unicode math tokens and function
//! names turned into LaTeX commands.
use vstd::prelude::*;
use crate::docx::read_document_from_docx;
use crate::document::MathFragment;
use crate::package::spec_archive_size_diagnostic;
use crate::error::{DocxError, DocxFault, DocxResult};
use crate::limits::DocxLimits;
use crate::text::{
    chars_of, is_white_space, is_white_space_char, occurs_at, occurs_at_chars, skip_white_space,
    trim_white_space, trimmed,
};
use crate::xml::{XmlEventKind, XmlStream};
use crate::xml_reader::read_xml_stream;
use vstd::string::StrSliceExecFns;

verus! {

/// The part name OMML errors are reported under.
pub const OMML_PART: &'static str = "word/document.xml OMML";

/// One OMML formula of a document, converted to LaTeX, with its place in
/// the logical text.
#[derive(Clone, Debug, PartialEq, Eq)]
pub struct ExtractedEditableFormulaOccurrence {
    pub paragraph_index: usize,
    pub text_char_offset: usize,
    pub latex: String,
    pub source_kind: String,
    pub product_version: u8,
    pub product_subversion: u8,
}

/// An error about an OMML formula.
pub open spec fn omml_fault(message: Seq<char>) -> DocxFault {
    DocxFault::Xml { part_name: OMML_PART@, position: 0, message }
}

fn invalid_omml(message: &str) -> (error: DocxError)
    ensures
        error@ == omml_fault(message@),
{
    DocxError::xml(OMML_PART, 0, message)
}

/// The length of the function name at `i` and its LaTeX command, trying
/// the names in a fixed order so that `arcsin` wins over `sin`.
pub open spec fn function_at(chars: Seq<char>, i: int) -> Option<(int, Seq<char>)> {
    if occurs_at(chars, "arcsin"@, i) {
        Some((6, "\\arcsin "@))
    } else if occurs_at(chars, "arccos"@, i) {
        Some((6, "\\arccos "@))
    } else if occurs_at(chars, "arctan"@, i) {
        Some((6, "\\arctan "@))
    } else if occurs_at(chars, "sin"@, i) {
        Some((3, "\\sin "@))
    } else if occurs_at(chars, "cos"@, i) {
        Some((3, "\\cos "@))
    } else if occurs_at(chars, "tan"@, i) {
        Some((3, "\\tan "@))
    } else if occurs_at(chars, "log"@, i) {
        Some((3, "\\log "@))
    } else if occurs_at(chars, "ln"@, i) {
        Some((2, "\\ln "@))
    } else {
        None
    }
}

/// Every function name has at least two characters.
pub proof fn lemma_function_length(chars: Seq<char>, i: int)
    ensures
        function_at(chars, i) matches Some(found) ==> found.0 >= 2 && i + found.0 <= chars.len(),
{
    reveal_strlit("arcsin");
    reveal_strlit("arccos");
    reveal_strlit("arctan");
    reveal_strlit("sin");
    reveal_strlit("cos");
    reveal_strlit("tan");
    reveal_strlit("log");
    reveal_strlit("ln");
}

/// Whether `c` starts a run of white space that is collapsed.
pub open spec fn starts_space_run(c: char) -> bool {
    c == ' ' || c == '\t' || c == '\r' || c == '\n'
}

/// The LaTeX for one character that is neither white space nor the start
/// of a function name.
pub open spec fn char_latex(c: char) -> Seq<char> {
    if c == '⊿' || c == '△' { "\\triangle "@ }
    else if c == 'α' { "\\alpha "@ }
    else if c == 'β' { "\\beta "@ }
    else if c == 'γ' { "\\gamma "@ }
    else if c == 'δ' { "\\delta "@ }
    else if c == 'θ' { "\\theta "@ }
    else if c == 'λ' { "\\lambda "@ }
    else if c == 'μ' { "\\mu "@ }
    else if c == 'π' { "\\pi "@ }
    else if c == 'ρ' { "\\rho "@ }
    else if c == 'σ' { "\\sigma "@ }
    else if c == 'φ' { "\\varphi "@ }
    else if c == 'ω' { "\\omega "@ }
    else if c == 'Γ' { "\\Gamma "@ }
    else if c == 'Δ' { "\\Delta "@ }
    else if c == 'Θ' { "\\Theta "@ }
    else if c == 'Λ' { "\\Lambda "@ }
    else if c == 'Π' { "\\Pi "@ }
    else if c == 'Σ' { "\\Sigma "@ }
    else if c == 'Φ' { "\\Phi "@ }
    else if c == 'Ω' { "\\Omega "@ }
    else if c == '−' || c == '–' { "-"@ }
    else if c == '×' { "\\times "@ }
    else if c == '÷' { "\\div "@ }
    else if c == '±' { "\\pm "@ }
    else if c == '·' || c == '⋅' { "\\cdot "@ }
    else if c == '∞' { "\\infty "@ }
    else if c == '∠' { "\\angle "@ }
    else if c == '∈' { "\\in "@ }
    else if c == '∉' { "\\notin "@ }
    else if c == '≤' { "\\le "@ }
    else if c == '≥' { "\\ge "@ }
    else if c == '≠' { "\\ne "@ }
    else if c == '#' { "\\#"@ }
    else if c == '$' { "\\$"@ }
    else if c == '%' { "\\%"@ }
    else if c == '&' { "\\&"@ }
    else if c == '_' { "\\_"@ }
    else if c == '{' { "\\{"@ }
    else if c == '}' { "\\}"@ }
    else if c == '\\' { "\\backslash "@ }
    else if c == '^' { "\\hat{}"@ }
    else if c == '~' { "\\sim "@ }
    else { seq![c] }
}

/// A white-space run that starts at a white-space character ends after it.
pub proof fn lemma_skip_advances(s: Seq<char>, i: int)
    requires
        0 <= i < s.len(),
        is_white_space(s[i]),
    ensures
        i < skip_white_space(s, i) <= s.len(),
{
    lemma_skip_bounded(s, i + 1);
}

/// Skipping white space from `i` never passes the end.
pub proof fn lemma_skip_bounded(s: Seq<char>, i: int)
    requires
        0 <= i <= s.len(),
    ensures
        i <= skip_white_space(s, i) <= s.len(),
    decreases s.len() - i,
{
    if i < s.len() && is_white_space(s[i]) {
        lemma_skip_bounded(s, i + 1);
    }
}

/// The LaTeX for the characters from `i` on, after the output `out`.
pub open spec fn math_from(chars: Seq<char>, i: int, out: Seq<char>) -> Seq<char>
    decreases chars.len() - i,
{
    if i < 0 || i >= chars.len() {
        out
    } else if function_at(chars, i) is Some {
        let found = function_at(chars, i)->0;
        proof {
            lemma_function_length(chars, i);
        }
        math_from(chars, i + found.0, out + found.1)
    } else if starts_space_run(chars[i]) {
        let j = skip_white_space(chars, i);
        proof {
            lemma_skip_advances(chars, i);
        }
        let next = if j - i >= 2 {
            out + "\\quad "@
        } else if out.len() > 0 && out.last() == ' ' {
            out
        } else {
            out.push(' ')
        };
        math_from(chars, j, next)
    } else {
        math_from(chars, i + 1, out + char_latex(chars[i]))
    }
}

/// The LaTeX for visible OMML math text, trimmed.
pub open spec fn spec_math_text_to_latex(text: Seq<char>) -> Seq<char> {
    trimmed(math_from(text, 0, Seq::empty()))
}

/// The LaTeX command for a character, when it has one.
fn char_command(c: char) -> (command: Option<&'static str>)
    ensures
        match command {
            Some(text) => char_latex(c) == text@,
            None => char_latex(c) == seq![c],
        },
{
    if c == '⊿' {
        return Some("\\triangle ");
    }
    if c == '△' {
        return Some("\\triangle ");
    }
    if c == 'α' {
        return Some("\\alpha ");
    }
    if c == 'β' {
        return Some("\\beta ");
    }
    if c == 'γ' {
        return Some("\\gamma ");
    }
    if c == 'δ' {
        return Some("\\delta ");
    }
    if c == 'θ' {
        return Some("\\theta ");
    }
    if c == 'λ' {
        return Some("\\lambda ");
    }
    if c == 'μ' {
        return Some("\\mu ");
    }
    if c == 'π' {
        return Some("\\pi ");
    }
    if c == 'ρ' {
        return Some("\\rho ");
    }
    if c == 'σ' {
        return Some("\\sigma ");
    }
    if c == 'φ' {
        return Some("\\varphi ");
    }
    if c == 'ω' {
        return Some("\\omega ");
    }
    if c == 'Γ' {
        return Some("\\Gamma ");
    }
    if c == 'Δ' {
        return Some("\\Delta ");
    }
    if c == 'Θ' {
        return Some("\\Theta ");
    }
    if c == 'Λ' {
        return Some("\\Lambda ");
    }
    if c == 'Π' {
        return Some("\\Pi ");
    }
    if c == 'Σ' {
        return Some("\\Sigma ");
    }
    if c == 'Φ' {
        return Some("\\Phi ");
    }
    if c == 'Ω' {
        return Some("\\Omega ");
    }
    if c == '−' {
        return Some("-");
    }
    if c == '–' {
        return Some("-");
    }
    if c == '×' {
        return Some("\\times ");
    }
    if c == '÷' {
        return Some("\\div ");
    }
    if c == '±' {
        return Some("\\pm ");
    }
    if c == '·' {
        return Some("\\cdot ");
    }
    if c == '⋅' {
        return Some("\\cdot ");
    }
    if c == '∞' {
        return Some("\\infty ");
    }
    if c == '∠' {
        return Some("\\angle ");
    }
    if c == '∈' {
        return Some("\\in ");
    }
    if c == '∉' {
        return Some("\\notin ");
    }
    if c == '≤' {
        return Some("\\le ");
    }
    if c == '≥' {
        return Some("\\ge ");
    }
    if c == '≠' {
        return Some("\\ne ");
    }
    if c == '#' {
        return Some("\\#");
    }
    if c == '$' {
        return Some("\\$");
    }
    if c == '%' {
        return Some("\\%");
    }
    if c == '&' {
        return Some("\\&");
    }
    if c == '_' {
        return Some("\\_");
    }
    if c == '{' {
        return Some("\\{");
    }
    if c == '}' {
        return Some("\\}");
    }
    if c == '\\' {
        return Some("\\backslash ");
    }
    if c == '^' {
        return Some("\\hat{}");
    }
    if c == '~' {
        return Some("\\sim ");
    }
    None
}

/// Whether `name` occurs in `chars` at `i`.
fn name_at(chars: &[char], name: &str, i: usize) -> (found: bool)
    ensures
        found == occurs_at(chars@, name@, i as int),
{
    occurs_at_chars(chars, chars_of(name).as_slice(), i)
}

/// The length of the function name at `i` and its LaTeX command.
fn function_name_at(chars: &[char], i: usize) -> (found: Option<(usize, &'static str)>)
    ensures
        match found {
            Some((length, latex)) => function_at(chars@, i as int) == Some((length as int, latex@)),
            None => function_at(chars@, i as int) is None,
        },
{
    if name_at(chars, "arcsin", i) {
        Some((6, "\\arcsin "))
    } else if name_at(chars, "arccos", i) {
        Some((6, "\\arccos "))
    } else if name_at(chars, "arctan", i) {
        Some((6, "\\arctan "))
    } else if name_at(chars, "sin", i) {
        Some((3, "\\sin "))
    } else if name_at(chars, "cos", i) {
        Some((3, "\\cos "))
    } else if name_at(chars, "tan", i) {
        Some((3, "\\tan "))
    } else if name_at(chars, "log", i) {
        Some((3, "\\log "))
    } else if name_at(chars, "ln", i) {
        Some((2, "\\ln "))
    } else {
        None
    }
}

/// Appends the characters of `text` to `out`.
fn push_text(out: &mut Vec<char>, text: &str)
    ensures
        final(out)@ == old(out)@ + text@,
{
    let chars = chars_of(text);
    let mut i: usize = 0;
    let ghost start = out@;
    while i < chars.len()
        invariant
            i <= chars@.len(),
            out@ == start + chars@.subrange(0, i as int),
        decreases chars@.len() - i,
    {
        out.push(chars[i]);
        assert(chars@.subrange(0, i + 1) =~= chars@.subrange(0, i as int).push(chars@[i as int]));
        i = i + 1;
    }
    assert(chars@.subrange(0, chars@.len() as int) =~= chars@);
}

/// A character that is not white space and cannot start a function name
/// is converted on its own: the rest of the text follows its LaTeX.
proof fn lemma_single_char_step(chars: Seq<char>, i: int, out: Seq<char>)
    requires
        0 <= i < chars.len(),
        chars[i] != 'a' && chars[i] != 's' && chars[i] != 'c' && chars[i] != 't' && chars[i] != 'l',
        !starts_space_run(chars[i]),
    ensures
        math_from(chars, i, out) == math_from(chars, i + 1, out + char_latex(chars[i])),
{
    reveal_strlit("arcsin");
    reveal_strlit("arccos");
    reveal_strlit("arctan");
    reveal_strlit("sin");
    reveal_strlit("cos");
    reveal_strlit("tan");
    reveal_strlit("log");
    reveal_strlit("ln");
    lemma_occurs_first(chars, "arcsin"@, i);
    lemma_occurs_first(chars, "arccos"@, i);
    lemma_occurs_first(chars, "arctan"@, i);
    lemma_occurs_first(chars, "sin"@, i);
    lemma_occurs_first(chars, "cos"@, i);
    lemma_occurs_first(chars, "tan"@, i);
    lemma_occurs_first(chars, "log"@, i);
    lemma_occurs_first(chars, "ln"@, i);
}

/// A word that occurs at `i` starts with the character at `i`.
proof fn lemma_occurs_first(chars: Seq<char>, needle: Seq<char>, i: int)
    requires
        needle.len() > 0,
    ensures
        occurs_at(chars, needle, i) ==> chars[i] == needle[0],
{
    if occurs_at(chars, needle, i) {
        assert(chars.subrange(i, i + needle.len())[0] == chars[i]);
    }
}

/// Each Unicode math symbol and LaTeX special character becomes its LaTeX
/// command wherever it stands: `≥` gives `\ge`, `≤` gives `\le`, `≠` gives
/// `\ne`, Greek letters give their names, `×` `\times`, `÷` `\div`, `±`
/// `\pm`, the dots `\cdot`, `∞` `\infty`, `∠` `\angle`, `∈` `\in`, `∉`
/// `\notin`, both triangles `\triangle`, the dashes a minus sign, and the
/// specials `# $ % & _ { }` are escaped, `\` becomes `\backslash`, `^`
/// `\hat{}` and `~` `\sim`.
pub proof fn lemma_symbol_commands(chars: Seq<char>, i: int, out: Seq<char>)
    requires
        0 <= i < chars.len(),
    ensures
        chars[i] == '⊿' ==> math_from(chars, i, out) == math_from(chars, i + 1, out + "\\triangle "@),
        chars[i] == '△' ==> math_from(chars, i, out) == math_from(chars, i + 1, out + "\\triangle "@),
        chars[i] == 'α' ==> math_from(chars, i, out) == math_from(chars, i + 1, out + "\\alpha "@),
        chars[i] == 'β' ==> math_from(chars, i, out) == math_from(chars, i + 1, out + "\\beta "@),
        chars[i] == 'γ' ==> math_from(chars, i, out) == math_from(chars, i + 1, out + "\\gamma "@),
        chars[i] == 'δ' ==> math_from(chars, i, out) == math_from(chars, i + 1, out + "\\delta "@),
        chars[i] == 'θ' ==> math_from(chars, i, out) == math_from(chars, i + 1, out + "\\theta "@),
        chars[i] == 'λ' ==> math_from(chars, i, out) == math_from(chars, i + 1, out + "\\lambda "@),
        chars[i] == 'μ' ==> math_from(chars, i, out) == math_from(chars, i + 1, out + "\\mu "@),
        chars[i] == 'π' ==> math_from(chars, i, out) == math_from(chars, i + 1, out + "\\pi "@),
        chars[i] == 'ρ' ==> math_from(chars, i, out) == math_from(chars, i + 1, out + "\\rho "@),
        chars[i] == 'σ' ==> math_from(chars, i, out) == math_from(chars, i + 1, out + "\\sigma "@),
        chars[i] == 'φ' ==> math_from(chars, i, out) == math_from(chars, i + 1, out + "\\varphi "@),
        chars[i] == 'ω' ==> math_from(chars, i, out) == math_from(chars, i + 1, out + "\\omega "@),
        chars[i] == 'Γ' ==> math_from(chars, i, out) == math_from(chars, i + 1, out + "\\Gamma "@),
        chars[i] == 'Δ' ==> math_from(chars, i, out) == math_from(chars, i + 1, out + "\\Delta "@),
        chars[i] == 'Θ' ==> math_from(chars, i, out) == math_from(chars, i + 1, out + "\\Theta "@),
        chars[i] == 'Λ' ==> math_from(chars, i, out) == math_from(chars, i + 1, out + "\\Lambda "@),
        chars[i] == 'Π' ==> math_from(chars, i, out) == math_from(chars, i + 1, out + "\\Pi "@),
        chars[i] == 'Σ' ==> math_from(chars, i, out) == math_from(chars, i + 1, out + "\\Sigma "@),
        chars[i] == 'Φ' ==> math_from(chars, i, out) == math_from(chars, i + 1, out + "\\Phi "@),
        chars[i] == 'Ω' ==> math_from(chars, i, out) == math_from(chars, i + 1, out + "\\Omega "@),
        chars[i] == '−' ==> math_from(chars, i, out) == math_from(chars, i + 1, out + "-"@),
        chars[i] == '–' ==> math_from(chars, i, out) == math_from(chars, i + 1, out + "-"@),
        chars[i] == '×' ==> math_from(chars, i, out) == math_from(chars, i + 1, out + "\\times "@),
        chars[i] == '÷' ==> math_from(chars, i, out) == math_from(chars, i + 1, out + "\\div "@),
        chars[i] == '±' ==> math_from(chars, i, out) == math_from(chars, i + 1, out + "\\pm "@),
        chars[i] == '·' ==> math_from(chars, i, out) == math_from(chars, i + 1, out + "\\cdot "@),
        chars[i] == '⋅' ==> math_from(chars, i, out) == math_from(chars, i + 1, out + "\\cdot "@),
        chars[i] == '∞' ==> math_from(chars, i, out) == math_from(chars, i + 1, out + "\\infty "@),
        chars[i] == '∠' ==> math_from(chars, i, out) == math_from(chars, i + 1, out + "\\angle "@),
        chars[i] == '∈' ==> math_from(chars, i, out) == math_from(chars, i + 1, out + "\\in "@),
        chars[i] == '∉' ==> math_from(chars, i, out) == math_from(chars, i + 1, out + "\\notin "@),
        chars[i] == '≤' ==> math_from(chars, i, out) == math_from(chars, i + 1, out + "\\le "@),
        chars[i] == '≥' ==> math_from(chars, i, out) == math_from(chars, i + 1, out + "\\ge "@),
        chars[i] == '≠' ==> math_from(chars, i, out) == math_from(chars, i + 1, out + "\\ne "@),
        chars[i] == '#' ==> math_from(chars, i, out) == math_from(chars, i + 1, out + "\\#"@),
        chars[i] == '$' ==> math_from(chars, i, out) == math_from(chars, i + 1, out + "\\$"@),
        chars[i] == '%' ==> math_from(chars, i, out) == math_from(chars, i + 1, out + "\\%"@),
        chars[i] == '&' ==> math_from(chars, i, out) == math_from(chars, i + 1, out + "\\&"@),
        chars[i] == '_' ==> math_from(chars, i, out) == math_from(chars, i + 1, out + "\\_"@),
        chars[i] == '{' ==> math_from(chars, i, out) == math_from(chars, i + 1, out + "\\{"@),
        chars[i] == '}' ==> math_from(chars, i, out) == math_from(chars, i + 1, out + "\\}"@),
        chars[i] == '\\' ==> math_from(chars, i, out) == math_from(chars, i + 1, out + "\\backslash "@),
        chars[i] == '^' ==> math_from(chars, i, out) == math_from(chars, i + 1, out + "\\hat{}"@),
        chars[i] == '~' ==> math_from(chars, i, out) == math_from(chars, i + 1, out + "\\sim "@),
{
    let c = chars[i];
    if c != 'a' && c != 's' && c != 'c' && c != 't' && c != 'l' && !starts_space_run(c) {
        lemma_single_char_step(chars, i, out);
    }
}

/// The LaTeX for visible OMML math text: function names and Unicode math
/// symbols become commands, LaTeX specials are escaped, a run of two or
/// more white-space characters becomes `\quad`, a single one one space.
pub fn unicode_math_text_to_latex(text: &str) -> (latex: String)
    ensures
        latex@ == spec_math_text_to_latex(text@),
{
    let chars = chars_of(text);
    let c = chars.as_slice();
    let mut out: Vec<char> = Vec::new();
    let mut index: usize = 0;
    while index < c.len()
        invariant
            index <= c@.len(),
            math_from(c@, 0, Seq::empty()) == math_from(c@, index as int, out@),
        decreases c@.len() - index,
    {
        proof {
            lemma_function_length(c@, index as int);
        }
        match function_name_at(c, index) {
            Some((length, latex)) => {
                push_text(&mut out, latex);
                index = index + length;
            },
            None => {
                let ch = c[index];
                if ch == ' ' || ch == '\t' || ch == '\r' || ch == '\n' {
                    let start = index;
                    proof {
                        lemma_skip_advances(c@, start as int);
                    }
                    while index < c.len() && is_white_space_char(c[index])
                        invariant
                            start <= index <= c@.len(),
                            skip_white_space(c@, start as int) == skip_white_space(c@, index as int),
                        decreases c@.len() - index,
                    {
                        index = index + 1;
                    }
                    assert(skip_white_space(c@, index as int) == index as int);
                    if index - start >= 2 {
                        push_text(&mut out, "\\quad ");
                    } else if !(out.len() > 0 && out[out.len() - 1] == ' ') {
                        out.push(' ');
                    }
                } else {
                    let ghost before = out@;
                    match char_command(ch) {
                        Some(command) => push_text(&mut out, command),
                        None => {
                            out.push(ch);
                            assert(out@ =~= before + seq![ch]);
                        },
                    }
                    index = index + 1;
                }
            },
        }
    }
    let joined = crate::text::string_from_chars(out.as_slice());
    trim_white_space(joined.as_str())
}

/// Where event `i` starts: where the one before it ended.
pub open spec fn position_before(stream: XmlStream, i: int) -> u64 {
    if i <= 0 {
        0
    } else {
        stream.events@[i - 1].position
    }
}

/// The visible math text of an OMML fragment from event `i` on, inside
/// `depth` open `t` elements, after the text `text`.
pub open spec fn omml_text_from(stream: XmlStream, i: int, depth: int, text: Seq<char>) -> Result<
    Seq<char>,
    DocxFault,
>
    decreases stream.events@.len() - i,
{
    if i < 0 || i >= stream.events@.len() {
        match stream.read_error {
            Some((position, message)) => Err(DocxFault::Xml { part_name: OMML_PART@, position, message: message@ }),
            None => Ok(text),
        }
    } else {
        let e = stream.events@[i];
        match e.kind {
            XmlEventKind::Eof => Ok(text),
            XmlEventKind::DocType => Err(
                DocxFault::Xml {
                    part_name: OMML_PART@,
                    position: position_before(stream, i),
                    message: "DOCTYPE declarations are not allowed"@,
                },
            ),
            XmlEventKind::Start => omml_text_from(
                stream,
                i + 1,
                if e.local@ == "t"@ { depth + 1 } else { depth },
                text,
            ),
            XmlEventKind::End => omml_text_from(
                stream,
                i + 1,
                if e.local@ == "t"@ && depth > 0 { depth - 1 } else { depth },
                text,
            ),
            XmlEventKind::Text | XmlEventKind::CData => omml_text_from(
                stream,
                i + 1,
                depth,
                if depth > 0 { text + e.text@ } else { text },
            ),
            _ => omml_text_from(stream, i + 1, depth, text),
        }
    }
}

/// The message for a formula without editable text.
pub open spec fn msg_no_math_text() -> Seq<char> {
    "the OMML formula did not contain editable mathematical text"@
}

/// The LaTeX of an OMML fragment given as its reader events: its visible
/// math text converted, refused when nothing but white space remains.
pub open spec fn spec_convert_omml(stream: XmlStream) -> Result<Seq<char>, DocxFault> {
    match omml_text_from(stream, 0, 0, Seq::empty()) {
        Err(f) => Err(f),
        Ok(text) => {
            let latex = spec_math_text_to_latex(text);
            if trimmed(latex).len() == 0 {
                Err(omml_fault(msg_no_math_text()))
            } else {
                Ok(latex)
            }
        },
    }
}

/// Converts an OMML fragment, given as its reader events, to LaTeX: the
/// text inside its `t` elements, converted by [`unicode_math_text_to_latex`].
pub fn convert_omml_events(stream: &XmlStream) -> (result: DocxResult<String>)
    ensures
        match (result, spec_convert_omml(*stream)) {
            (Ok(latex), Ok(expected)) => latex@ == expected,
            (Err(x), Err(fault)) => x@ == fault,
            _ => false,
        },
{
    let events = stream.events.as_slice();
    let mut depth: usize = 0;
    let mut text = String::new();
    let mut i: usize = 0;
    let mut ended = false;
    while i < events.len() && !ended
        invariant
            i <= events@.len(),
            events@ == stream.events@,
            depth <= i,
            ended ==> omml_text_from(*stream, 0, 0, Seq::empty()) == Ok::<Seq<char>, DocxFault>(text@),
            !ended ==> omml_text_from(*stream, 0, 0, Seq::empty()) == omml_text_from(
                *stream,
                i as int,
                depth as int,
                text@,
            ),
        decreases events@.len() - i + if ended { 0int } else { 1int },
    {
        let e = &events[i];
        match e.kind {
            XmlEventKind::Eof => {
                ended = true;
            },
            XmlEventKind::DocType => {
                let position = if i == 0 { 0 } else { events[i - 1].position };
                return Err(DocxError::xml(OMML_PART, position, "DOCTYPE declarations are not allowed"));
            },
            XmlEventKind::Start => {
                if crate::text::same_text(e.local.as_str(), "t") {
                    depth = depth + 1;
                }
                i = i + 1;
            },
            XmlEventKind::End => {
                if crate::text::same_text(e.local.as_str(), "t") && depth > 0 {
                    depth = depth - 1;
                }
                i = i + 1;
            },
            XmlEventKind::Text | XmlEventKind::CData => {
                if depth > 0 {
                    text.append(e.text.as_str());
                }
                i = i + 1;
            },
            _ => {
                i = i + 1;
            },
        }
    }
    if !ended {
        match &stream.read_error {
            Some((position, message)) => {
                return Err(DocxError::xml(OMML_PART, *position, message.as_str()));
            },
            None => {},
        }
    }
    let latex = unicode_math_text_to_latex(text.as_str());
    let check = trim_white_space(latex.as_str());
    if check.as_str().unicode_len() == 0 {
        return Err(invalid_omml("the OMML formula did not contain editable mathematical text"));
    }
    Ok(latex)
}

/// Converts an OMML fragment, read from its bytes, to LaTeX: the outcome of
/// [`convert_omml_events`] on the events the XML reader gives for them.
pub fn convert_omml_to_latex(xml: &[u8]) -> (result: DocxResult<String>)
    ensures
        exists|stream: XmlStream|
            stream.source_len == xml@.len() && match (result, #[trigger] spec_convert_omml(stream)) {
                (Ok(latex), Ok(expected)) => latex@ == expected,
                (Err(x), Err(fault)) => x@ == fault,
                _ => false,
            },
{
    let stream = read_xml_stream(xml);
    let result = convert_omml_events(&stream);
    assert(spec_convert_omml(stream) == spec_convert_omml(stream));
    result
}

/// Whether `latex` is what converting the OMML bytes `xml` gives, for some
/// events the XML reader gives for them.
pub open spec fn omml_converted(xml: Seq<u8>, result: Result<Seq<char>, DocxFault>) -> bool {
    exists|stream: XmlStream| stream.source_len == xml.len() && #[trigger] spec_convert_omml(stream) == result
}

/// Whether `formula` is the occurrence the fragment `fragment` gives.
pub open spec fn fragment_formula(fragment: MathFragment, formula: ExtractedEditableFormulaOccurrence) -> bool {
    &&& fragment.paragraph_index == Some(formula.paragraph_index)
    &&& fragment.text_char_offset == Some(formula.text_char_offset)
    &&& omml_converted(fragment.raw_xml@, Ok(formula.latex@))
    &&& formula.source_kind@ == "word_omml"@
    &&& formula.product_version == 0
    &&& formula.product_subversion == 0
}

/// Whether `formulas` are the occurrences the fragments give, one each,
/// in order.
pub open spec fn formulas_of(fragments: Seq<MathFragment>, formulas: Seq<ExtractedEditableFormulaOccurrence>) -> bool {
    formulas.len() == fragments.len() && forall|k: int|
        0 <= k < fragments.len() ==> #[trigger] fragment_formula(fragments[k], formulas[k])
}

/// Whether the fragment `fragment` gives an occurrence.
pub open spec fn fragment_converts(fragment: MathFragment) -> bool {
    exists|f: ExtractedEditableFormulaOccurrence| #[trigger] fragment_formula(fragment, f)
}

/// Whether the fragment `fragment` fails with `fault`: it lies outside a
/// paragraph, it has no visible text position, or its conversion fails.
pub open spec fn fragment_fails(fragment: MathFragment, fault: DocxFault) -> bool {
    if fragment.paragraph_index is None {
        fault == omml_fault("an OMML formula occurs outside a Word paragraph"@)
    } else if fragment.text_char_offset is None {
        fault == omml_fault("an OMML formula does not have a visible text position"@)
    } else {
        omml_converted(fragment.raw_xml@, Err(fault))
    }
}

/// The formula occurrences of the OMML fragments of a document, in order:
/// each fragment's paragraph, text position and LaTeX; refused at the first
/// fragment outside a paragraph, without a visible text position, or whose
/// conversion fails.
pub fn formulas_from_fragments(fragments: &Vec<MathFragment>) -> (result: DocxResult<
    Vec<ExtractedEditableFormulaOccurrence>,
>)
    ensures
        match result {
            Ok(formulas) => formulas_of(fragments@, formulas@),
            Err(x) => exists|k: int|
                0 <= k < fragments@.len() && #[trigger] fragment_fails(fragments@[k], x@) && forall|j: int|
                    0 <= j < k ==> #[trigger] fragment_converts(fragments@[j]),
        },
{
    let mut output: Vec<ExtractedEditableFormulaOccurrence> = Vec::new();
    let mut i: usize = 0;
    while i < fragments.len()
        invariant
            i <= fragments@.len(),
            output@.len() == i,
            forall|k: int| 0 <= k < i ==> #[trigger] fragment_formula(fragments@[k], output@[k]),
        decreases fragments@.len() - i,
    {
        let fragment = &fragments[i];
        proof {
            assert forall|j: int| 0 <= j < i implies #[trigger] fragment_converts(fragments@[j]) by {
                assert(fragment_formula(fragments@[j], output@[j]));
            }
        }
        let paragraph_index = match fragment.paragraph_index {
            None => {
                let x = invalid_omml("an OMML formula occurs outside a Word paragraph");
                assert(fragment_fails(fragments@[i as int], x@));
                return Err(x);
            },
            Some(index) => index,
        };
        let text_char_offset = match fragment.text_char_offset {
            None => {
                let x = invalid_omml("an OMML formula does not have a visible text position");
                assert(fragment_fails(fragments@[i as int], x@));
                return Err(x);
            },
            Some(offset) => offset,
        };
        let converted = convert_omml_to_latex(fragment.raw_xml.as_slice());
        let ghost stream = choose|stream: XmlStream|
            stream.source_len == fragment.raw_xml@.len() && match (converted, #[trigger] spec_convert_omml(stream)) {
                (Ok(latex), Ok(expected)) => latex@ == expected,
                (Err(x), Err(fault)) => x@ == fault,
                _ => false,
            };
        let latex = match converted {
            Err(error) => {
                assert(spec_convert_omml(stream) == Err::<Seq<char>, DocxFault>(error@));
                assert(fragment_fails(fragments@[i as int], error@));
                return Err(error);
            },
            Ok(latex) => latex,
        };
        let formula = ExtractedEditableFormulaOccurrence {
            paragraph_index,
            text_char_offset,
            latex,
            source_kind: "word_omml".to_owned(),
            product_version: 0,
            product_subversion: 0,
        };
        assert(spec_convert_omml(stream) == Ok::<Seq<char>, DocxFault>(formula.latex@));
        assert(fragment_formula(fragments@[i as int], formula));
        output.push(formula);
        i = i + 1;
    }
    Ok(output)
}

/// Reads the native Word formulas (OMML) of the package held in
/// `package_bytes`, in document order, as LaTeX: the formula occurrences of
/// the OMML fragments of its main document.
pub fn read_omml_from_docx(package_bytes: &[u8], limits: &DocxLimits) -> (result: DocxResult<
    Vec<ExtractedEditableFormulaOccurrence>,
>)
    ensures
        package_bytes@.len() > limits.max_archive_bytes ==> (result matches Err(e) && e@ == (DocxFault::Rejected {
            diagnostics: seq![spec_archive_size_diagnostic(package_bytes@.len() as u64, *limits)->0],
        })),
        result matches Ok(formulas) ==> exists|fragments: Seq<MathFragment>| #[trigger] formulas_of(fragments, formulas@),
{
    let parsed = match read_document_from_docx(package_bytes, limits) {
        Err(error) => return Err(error),
        Ok(parsed) => parsed,
    };
    let result = formulas_from_fragments(&parsed.math_fragments);
    assert(result matches Ok(formulas) ==> formulas_of(parsed.math_fragments@, formulas@));
    result
}

} // verus!
