//! Rendering of decoded MathType equations as LaTeX.
//!
//! Rendering walks the equation tree left to right. Constructs without a
//! faithful LaTeX form are still rendered, and each is recorded once, in the
//! order first met, as an unsupported feature.
use vstd::prelude::*;
use crate::mtef::{MtefNode, MtefTree, tree_of, trees_of};
use crate::text::{decimal, push_decimal};

verus! {

/// The character with scalar value `i`; `None` for surrogates and values
/// beyond the Unicode range.
pub assume_specification[ char::from_u32 ](i: u32) -> (c: Option<char>)
    ensures
        c == char_of(i as int),
;

/// The character with scalar value `value`, if `value` is one.
pub open spec fn char_of(value: int) -> Option<char> {
    if (0 <= value < 0xD800) || (0xE000 <= value <= 0x10FFFF) {
        Some(value as char)
    } else {
        None
    }
}

/// A character of the Unicode general category Cc (control).
pub open spec fn is_control(c: char) -> bool {
    (c as u32) <= 0x1f || (0x7f <= (c as u32) && (c as u32) <= 0x9f)
}

/// `c` written so that LaTeX reads it as that character.
pub open spec fn escaped(c: char) -> Seq<char> {
    if c == '#' {
        "\\#"@
    } else if c == '$' {
        "\\$"@
    } else if c == '%' {
        "\\%"@
    } else if c == '&' {
        "\\&"@
    } else if c == '_' {
        "\\_"@
    } else if c == '{' {
        "\\{"@
    } else if c == '}' {
        "\\}"@
    } else if c == '\\' {
        "\\backslash "@
    } else if c == '^' {
        "\\hat{}"@
    } else if c == '~' {
        "\\sim "@
    } else {
        seq![c]
    }
}

/// The LaTeX of the MT codes with a dedicated command or spelling.
pub open spec fn symbol_table(code: u16) -> Option<Seq<char>> {
    if code == 0x0009 {
        Some("\\quad "@)
    } else if code == 0x0020 {
        Some(" "@)
    } else if code == 0x00a0 {
        Some("\\ "@)
    } else if code == 0x00b0 {
        Some("^{\\circ}"@)
    } else if code == 0x00b1 {
        Some("\\pm "@)
    } else if code == 0x00b7 {
        Some("\\cdot "@)
    } else if code == 0x00d7 {
        Some("\\times "@)
    } else if code == 0x00f7 {
        Some("\\div "@)
    } else if code == 0x0192 {
        Some("\\mathit{f}"@)
    } else if code == 0x02c6 {
        Some("\\hat{}"@)
    } else if code == 0x0302 {
        Some("\\hat{}"@)
    } else if code == 0x03b1 {
        Some("\\alpha "@)
    } else if code == 0x03b2 {
        Some("\\beta "@)
    } else if code == 0x03b3 {
        Some("\\gamma "@)
    } else if code == 0x03b4 {
        Some("\\delta "@)
    } else if code == 0x03b5 {
        Some("\\varepsilon "@)
    } else if code == 0x03b6 {
        Some("\\zeta "@)
    } else if code == 0x03b7 {
        Some("\\eta "@)
    } else if code == 0x03b8 {
        Some("\\theta "@)
    } else if code == 0x03bb {
        Some("\\lambda "@)
    } else if code == 0x03bc {
        Some("\\mu "@)
    } else if code == 0x03c0 {
        Some("\\pi "@)
    } else if code == 0x03c1 {
        Some("\\rho "@)
    } else if code == 0x03c3 {
        Some("\\sigma "@)
    } else if code == 0x03c6 {
        Some("\\varphi "@)
    } else if code == 0x03c9 {
        Some("\\omega "@)
    } else if code == 0x0393 {
        Some("\\Gamma "@)
    } else if code == 0x0394 {
        Some("\\Delta "@)
    } else if code == 0x0398 {
        Some("\\Theta "@)
    } else if code == 0x039b {
        Some("\\Lambda "@)
    } else if code == 0x03a0 {
        Some("\\Pi "@)
    } else if code == 0x03a3 {
        Some("\\Sigma "@)
    } else if code == 0x03a6 {
        Some("\\Phi "@)
    } else if code == 0x03a9 {
        Some("\\Omega "@)
    } else if code == 0x2013 {
        Some("-"@)
    } else if code == 0x2022 {
        Some("\\bullet "@)
    } else if code == 0x22c5 {
        Some("\\cdot "@)
    } else if code == 0x2026 {
        Some("\\ldots "@)
    } else if code == 0x2032 {
        Some("'"@)
    } else if code == 0x2033 {
        Some("''"@)
    } else if code == 0x2190 {
        Some("\\leftarrow "@)
    } else if code == 0x2192 {
        Some("\\rightarrow "@)
    } else if code == 0x2194 {
        Some("\\leftrightarrow "@)
    } else if code == 0x21d2 {
        Some("\\Rightarrow "@)
    } else if code == 0x21d4 {
        Some("\\Leftrightarrow "@)
    } else if code == 0x2200 {
        Some("\\forall "@)
    } else if code == 0x2202 {
        Some("\\partial "@)
    } else if code == 0x2203 {
        Some("\\exists "@)
    } else if code == 0x2205 {
        Some("\\varnothing "@)
    } else if code == 0x2206 {
        Some("\\Delta "@)
    } else if code == 0x2207 {
        Some("\\nabla "@)
    } else if code == 0x2208 {
        Some("\\in "@)
    } else if code == 0x2209 {
        Some("\\notin "@)
    } else if code == 0x220b {
        Some("\\ni "@)
    } else if code == 0x220f {
        Some("\\prod "@)
    } else if code == 0x2211 {
        Some("\\sum "@)
    } else if code == 0x2212 {
        Some("-"@)
    } else if code == 0x221a {
        Some("\\sqrt{}"@)
    } else if code == 0x221d {
        Some("\\propto "@)
    } else if code == 0x221e {
        Some("\\infty "@)
    } else if code == 0x2220 {
        Some("\\angle "@)
    } else if code == 0x2223 {
        Some("\\mid "@)
    } else if code == 0x2225 {
        Some("\\parallel "@)
    } else if code == 0x222b {
        Some("\\int "@)
    } else if code == 0x2234 {
        Some("\\therefore "@)
    } else if code == 0x2235 {
        Some("\\because "@)
    } else if code == 0x223c {
        Some("\\sim "@)
    } else if code == 0x2248 {
        Some("\\approx "@)
    } else if code == 0x2260 {
        Some("\\ne "@)
    } else if code == 0x2261 {
        Some("\\equiv "@)
    } else if code == 0x2264 {
        Some("\\le "@)
    } else if code == 0x2265 {
        Some("\\ge "@)
    } else if code == 0x2282 {
        Some("\\subset "@)
    } else if code == 0x2283 {
        Some("\\supset "@)
    } else if code == 0x2286 {
        Some("\\subseteq "@)
    } else if code == 0x2287 {
        Some("\\supseteq "@)
    } else if code == 0x2295 {
        Some("\\oplus "@)
    } else if code == 0x22a5 {
        Some("\\perp "@)
    } else {
        None
    }
}

/// The LaTeX of `code` when it has a dedicated command or spelling.
pub fn symbol_latex(code: u16) -> (symbol: Option<&'static str>)
    ensures
        match symbol {
            Some(text) => symbol_table(code) == Some(text@),
            None => symbol_table(code) is None,
        },
{
    match code {
        0x0009 => Some("\\quad "),
        0x0020 => Some(" "),
        0x00a0 => Some("\\ "),
        0x00b0 => Some("^{\\circ}"),
        0x00b1 => Some("\\pm "),
        0x00b7 => Some("\\cdot "),
        0x00d7 => Some("\\times "),
        0x00f7 => Some("\\div "),
        0x0192 => Some("\\mathit{f}"),
        0x02c6 => Some("\\hat{}"),
        0x0302 => Some("\\hat{}"),
        0x03b1 => Some("\\alpha "),
        0x03b2 => Some("\\beta "),
        0x03b3 => Some("\\gamma "),
        0x03b4 => Some("\\delta "),
        0x03b5 => Some("\\varepsilon "),
        0x03b6 => Some("\\zeta "),
        0x03b7 => Some("\\eta "),
        0x03b8 => Some("\\theta "),
        0x03bb => Some("\\lambda "),
        0x03bc => Some("\\mu "),
        0x03c0 => Some("\\pi "),
        0x03c1 => Some("\\rho "),
        0x03c3 => Some("\\sigma "),
        0x03c6 => Some("\\varphi "),
        0x03c9 => Some("\\omega "),
        0x0393 => Some("\\Gamma "),
        0x0394 => Some("\\Delta "),
        0x0398 => Some("\\Theta "),
        0x039b => Some("\\Lambda "),
        0x03a0 => Some("\\Pi "),
        0x03a3 => Some("\\Sigma "),
        0x03a6 => Some("\\Phi "),
        0x03a9 => Some("\\Omega "),
        0x2013 => Some("-"),
        0x2022 => Some("\\bullet "),
        0x22c5 => Some("\\cdot "),
        0x2026 => Some("\\ldots "),
        0x2032 => Some("'"),
        0x2033 => Some("''"),
        0x2190 => Some("\\leftarrow "),
        0x2192 => Some("\\rightarrow "),
        0x2194 => Some("\\leftrightarrow "),
        0x21d2 => Some("\\Rightarrow "),
        0x21d4 => Some("\\Leftrightarrow "),
        0x2200 => Some("\\forall "),
        0x2202 => Some("\\partial "),
        0x2203 => Some("\\exists "),
        0x2205 => Some("\\varnothing "),
        0x2206 => Some("\\Delta "),
        0x2207 => Some("\\nabla "),
        0x2208 => Some("\\in "),
        0x2209 => Some("\\notin "),
        0x220b => Some("\\ni "),
        0x220f => Some("\\prod "),
        0x2211 => Some("\\sum "),
        0x2212 => Some("-"),
        0x221a => Some("\\sqrt{}"),
        0x221d => Some("\\propto "),
        0x221e => Some("\\infty "),
        0x2220 => Some("\\angle "),
        0x2223 => Some("\\mid "),
        0x2225 => Some("\\parallel "),
        0x222b => Some("\\int "),
        0x2234 => Some("\\therefore "),
        0x2235 => Some("\\because "),
        0x223c => Some("\\sim "),
        0x2248 => Some("\\approx "),
        0x2260 => Some("\\ne "),
        0x2261 => Some("\\equiv "),
        0x2264 => Some("\\le "),
        0x2265 => Some("\\ge "),
        0x2282 => Some("\\subset "),
        0x2283 => Some("\\supset "),
        0x2286 => Some("\\subseteq "),
        0x2287 => Some("\\supseteq "),
        0x2295 => Some("\\oplus "),
        0x22a5 => Some("\\perp "),
        _ => None,
    }
}
/// The LaTeX of MT code `code`: its dedicated spelling, or the escaped
/// character when the code is a non-control Unicode scalar value.
pub open spec fn mt_code_latex(code: u16) -> Option<Seq<char>> {
    match symbol_table(code) {
        Some(text) => Some(text),
        None => match char_of(code as int) {
            None => None,
            Some(c) => if is_control(c) {
                None
            } else {
                Some(escaped(c))
            },
        },
    }
}

/// `notes` with `feature` appended unless it is already there.
pub open spec fn note(notes: Seq<Seq<char>>, feature: Seq<char>) -> Seq<Seq<char>> {
    if notes.contains(feature) {
        notes
    } else {
        notes.push(feature)
    }
}

/// `{`, `text` and `}`.
pub open spec fn braced(text: Seq<char>) -> Seq<char> {
    "{"@ + text + "}"@
}

/// The debug form of an optional 16-bit value: `Some(n)` or `None`.
pub open spec fn debug_option(value: Option<u16>) -> Seq<char> {
    match value {
        Some(v) => "Some("@ + decimal(v as nat) + ")"@,
        None => "None"@,
    }
}

/// The feature recorded for a character without a LaTeX form.
pub open spec fn character_feature(mt_code: Option<u16>, font_position: Option<u16>) -> Seq<char> {
    "character mt="@ + debug_option(mt_code) + " font="@ + debug_option(font_position)
}

/// The LaTeX used for a character without one: its font position as an
/// escaped character when that is a character, else an empty square.
pub open spec fn fallback_character(font_position: Option<u16>) -> Seq<char> {
    match font_position {
        Some(position) => match char_of(position as int) {
            Some(c) => escaped(c),
            None => "\\square"@,
        },
        None => "\\square"@,
    }
}

/// The LaTeX of a character record before its embellishments, and the notes after it.
pub open spec fn character_base(
    mt_code: Option<u16>,
    font_position: Option<u16>,
    notes: Seq<Seq<char>>,
) -> (Seq<char>, Seq<Seq<char>>) {
    match (match mt_code {
        Some(code) => mt_code_latex(code),
        None => None,
    }) {
        Some(text) => (text, notes),
        None => (
            fallback_character(font_position),
            note(notes, character_feature(mt_code, font_position)),
        ),
    }
}

/// `value` decorated with embellishment `code`.
pub open spec fn embellished(code: u8, value: Seq<char>, notes: Seq<Seq<char>>) -> (
    Seq<char>,
    Seq<Seq<char>>,
) {
    if code == 2 {
        ("\\dot"@ + braced(value), notes)
    } else if code == 3 {
        ("\\ddot"@ + braced(value), notes)
    } else if code == 4 {
        ("\\overset{...}"@ + braced(value), notes)
    } else if code == 5 {
        (value + "'"@, notes)
    } else if code == 6 {
        (value + "''"@, notes)
    } else if code == 7 {
        ("'"@ + value, notes)
    } else if code == 8 {
        ("\\tilde"@ + braced(value), notes)
    } else if code == 9 {
        ("\\hat"@ + braced(value), notes)
    } else if code == 10 {
        ("\\not"@ + braced(value), notes)
    } else if code == 11 || code == 14 {
        ("\\overrightarrow"@ + braced(value), notes)
    } else if code == 12 || code == 15 {
        ("\\overleftarrow"@ + braced(value), notes)
    } else if code == 13 {
        ("\\overleftrightarrow"@ + braced(value), notes)
    } else if code == 16 || code == 17 {
        ("\\bar"@ + braced(value), notes)
    } else if code == 18 {
        (value + "'''"@, notes)
    } else if code == 19 {
        ("\\overset{\\frown}"@ + braced(value), notes)
    } else if code == 20 {
        ("\\overset{\\smile}"@ + braced(value), notes)
    } else if code == 25 {
        ("\\underset{.}"@ + braced(value), notes)
    } else if code == 26 {
        ("\\underset{..}"@ + braced(value), notes)
    } else if code == 29 {
        ("\\underline"@ + braced(value), notes)
    } else if code == 30 {
        ("\\underset{\\sim}"@ + braced(value), notes)
    } else if code == 33 || code == 36 {
        ("\\underset{\\longrightarrow}"@ + braced(value), notes)
    } else if code == 34 || code == 37 {
        ("\\underset{\\longleftarrow}"@ + braced(value), notes)
    } else if code == 35 {
        ("\\underset{\\longleftrightarrow}"@ + braced(value), notes)
    } else {
        (value, note(notes, "embellishment "@ + decimal(code as nat)))
    }
}

/// `value` decorated by each of `codes` in turn.
pub open spec fn embellished_all(codes: Seq<u8>, value: Seq<char>, notes: Seq<Seq<char>>) -> (
    Seq<char>,
    Seq<Seq<char>>,
)
    decreases codes.len(),
{
    if codes.len() == 0 {
        (value, notes)
    } else {
        let (inner, inner_notes) = embellished_all(codes.drop_last(), value, notes);
        embellished(codes.last(), inner, inner_notes)
    }
}

/// The delimiters of fence templates 0 to 8.
pub open spec fn fence_delimiters(selector: u8) -> (Seq<char>, Seq<char>) {
    if selector == 0 {
        ("\\langle"@, "\\rangle"@)
    } else if selector == 1 {
        ("("@, ")"@)
    } else if selector == 2 {
        ("\\{"@, "\\}"@)
    } else if selector == 3 {
        ("["@, "]"@)
    } else if selector == 4 {
        ("|"@, "|"@)
    } else if selector == 5 {
        ("\\|"@, "\\|"@)
    } else if selector == 6 {
        ("\\lfloor"@, "\\rfloor"@)
    } else if selector == 7 {
        ("\\lceil"@, "\\rceil"@)
    } else if selector == 8 {
        ("\\llbracket"@, "\\rrbracket"@)
    } else {
        ("."@, "."@)
    }
}

/// The integral sign selected by the low nibble of an integral's variation.
pub open spec fn integral_command(variation: u16) -> Seq<char> {
    let kind = variation & 0x000f;
    if kind == 2 {
        "\\iint"@
    } else if kind == 3 {
        "\\iiint"@
    } else if kind == 4 {
        "\\oint"@
    } else if kind == 8 {
        "\\varointclockwise"@
    } else if kind == 12 {
        "\\ointctrclockwise"@
    } else {
        "\\int"@
    }
}

/// The item of `items` at `index`, empty when there is none.
pub open spec fn item_or_empty(items: Seq<Seq<char>>, index: int) -> Seq<char> {
    if 0 <= index < items.len() {
        items[index]
    } else {
        Seq::empty()
    }
}

/// A large operator with optional lower and upper limits taken in order from
/// `children`, followed by its body.
pub open spec fn large_operator(operator: Seq<char>, variation: u16, children: Seq<Seq<char>>) -> Seq<
    char,
> {
    let has_lower = variation & 0x0010 != 0;
    let has_upper = variation & 0x0020 != 0;
    let upper_index: int = if has_lower { 1 } else { 0 };
    let body_index: int = upper_index + if has_upper { 1int } else { 0int };
    let limits = if variation & 0x0040 != 0 { "\\limits"@ } else { Seq::empty() };
    operator + limits + (if has_lower {
        "_"@ + braced(item_or_empty(children, 0))
    } else {
        Seq::empty()
    }) + (if has_upper {
        "^"@ + braced(item_or_empty(children, upper_index))
    } else {
        Seq::empty()
    }) + item_or_empty(children, body_index)
}

/// A sub- and superscript, after an empty base when the variation asks for
/// one; `{}` when everything is empty and `braces` is set.
pub open spec fn script(variation: u16, subscript: Seq<char>, superscript: Seq<char>, braces: bool) -> Seq<
    char,
> {
    let output = (if variation & 0x0001 != 0 { "{}"@ } else { Seq::empty() }) + (if subscript.len()
        > 0 {
        "_"@ + braced(subscript)
    } else {
        Seq::empty()
    }) + (if superscript.len() > 0 {
        "^"@ + braced(superscript)
    } else {
        Seq::empty()
    });
    if braces && output.len() == 0 {
        "{}"@
    } else {
        output
    }
}

/// `text` without one enclosing `^{` ... `}`, when it has them.
pub open spec fn unwrap_superscript(text: Seq<char>) -> Seq<char> {
    if text.len() >= 3 && text[0] == '^' && text[1] == '{' && text[text.len() - 1] == '}' {
        text.subrange(2, text.len() - 1)
    } else {
        text
    }
}

/// The concatenation of `parts` with `separator` between neighbours.
pub open spec fn joined(parts: Seq<Seq<char>>, separator: Seq<char>) -> Seq<char>
    decreases parts.len(),
{
    if parts.len() == 0 {
        Seq::empty()
    } else if parts.len() == 1 {
        parts[0]
    } else {
        joined(parts.drop_last(), separator) + separator + parts.last()
    }
}

/// The LaTeX of template `selector` with `variation`, given its rendered
/// children, and the notes after it.
pub open spec fn template_latex(
    selector: u8,
    variation: u16,
    rendered: Seq<Seq<char>>,
    notes: Seq<Seq<char>>,
) -> (Seq<char>, Seq<Seq<char>>) {
    let c0 = item_or_empty(rendered, 0);
    let c1 = item_or_empty(rendered, 1);
    if selector <= 8 {
        let (l, r) = fence_delimiters(selector);
        let left = if variation & 0x0001 != 0 { l } else { "."@ };
        let right = if variation & 0x0002 != 0 { r } else { "."@ };
        ("\\left"@ + left + c0 + "\\right"@ + right, notes)
    } else if selector == 9 {
        let low = variation & 0x000f;
        let high = variation & 0x00f0;
        let left = if low == 1 { ")"@ } else if low == 2 { "["@ } else if low == 3 { "]"@ } else { "("@ };
        let right = if high == 0x10 { ")"@ } else if high == 0x20 { "["@ } else if high == 0x30 { "]"@ } else { "("@ };
        ("\\left"@ + left + c0 + "\\right"@ + right, notes)
    } else if selector == 10 {
        if variation & 0x0001 != 0 {
            ("\\sqrt["@ + c1 + "]"@ + braced(c0), notes)
        } else {
            ("\\sqrt"@ + braced(c0), notes)
        }
    } else if selector == 11 {
        if variation & 0x0002 != 0 {
            (braced(c0) + "/"@ + braced(c1), notes)
        } else {
            ("\\frac"@ + braced(c0) + braced(c1), notes)
        }
    } else if selector == 12 {
        ("\\underline"@ + braced(c0), notes)
    } else if selector == 13 {
        ("\\overline"@ + braced(c0), notes)
    } else if selector == 14 {
        let arrow = if variation & 0x0001 != 0 {
            "\\Longleftrightarrow"@
        } else if variation & 0x0010 != 0 {
            "\\longleftarrow"@
        } else {
            "\\longrightarrow"@
        };
        let above = variation & 0x0004 != 0;
        let below = variation & 0x0008 != 0;
        if above && below {
            ("\\mathop"@ + braced(arrow) + "\\limits^"@ + braced(c0) + "_"@ + braced(c1), notes)
        } else if above {
            ("\\mathop"@ + braced(arrow) + "\\limits^"@ + braced(c0), notes)
        } else if below {
            ("\\mathop"@ + braced(arrow) + "\\limits_"@ + braced(c0), notes)
        } else {
            (arrow, notes)
        }
    } else if selector == 15 {
        (large_operator(integral_command(variation), variation, rendered), notes)
    } else if selector == 16 {
        (large_operator("\\sum"@, variation, rendered), notes)
    } else if selector == 17 {
        (large_operator("\\prod"@, variation, rendered), notes)
    } else if selector == 18 {
        (large_operator("\\coprod"@, variation, rendered), notes)
    } else if selector == 19 {
        (large_operator("\\bigcup"@, variation, rendered), notes)
    } else if selector == 20 {
        (large_operator("\\bigcap"@, variation, rendered), notes)
    } else if selector == 21 || selector == 22 {
        let operator = if rendered.len() > 0 { rendered[0] } else { "\\mathop{}"@ };
        let rest = if rendered.len() > 0 { rendered.subrange(1, rendered.len() as int) } else { rendered };
        (large_operator(operator, variation, rest), notes)
    } else if selector == 23 {
        if variation & 0x0001 != 0 {
            ("\\mathop"@ + braced(c0) + "\\limits^"@ + braced(c1), notes)
        } else {
            ("\\mathop"@ + braced(c0) + "\\limits_"@ + braced(c1), notes)
        }
    } else if selector == 24 {
        if variation & 0x0001 != 0 {
            ("\\overbrace"@ + braced(c0) + "^"@ + braced(c1), notes)
        } else {
            ("\\underbrace"@ + braced(c0) + "_"@ + braced(c1), notes)
        }
    } else if selector == 25 {
        if variation & 0x0001 != 0 {
            ("\\overline"@ + braced(c0) + "^"@ + braced(c1), notes)
        } else {
            ("\\underline"@ + braced(c0) + "_"@ + braced(c1), notes)
        }
    } else if selector == 26 {
        (
            "\\overline"@ + braced(c0) + "\\mathbin{\\backslash}"@ + c1,
            note(notes, "long division template"@),
        )
    } else if selector == 27 {
        (script(variation, c0, Seq::empty(), true), notes)
    } else if selector == 28 {
        (script(variation, Seq::empty(), unwrap_superscript(c1), true), notes)
    } else if selector == 29 {
        (script(variation, c0, c1, true), notes)
    } else if selector == 30 {
        ("\\left\\langle "@ + c0 + "\\middle|"@ + c1 + "\\right\\rangle"@, notes)
    } else if selector == 31 {
        if variation & 0x0004 != 0 {
            ("\\underset{\\longrightarrow}"@ + braced(c0), notes)
        } else if variation & 0x0001 != 0 {
            ("\\overleftarrow"@ + braced(c0), notes)
        } else {
            ("\\overrightarrow"@ + braced(c0), notes)
        }
    } else if selector == 32 {
        ("\\widetilde"@ + braced(c0), notes)
    } else if selector == 33 {
        ("\\widehat"@ + braced(c0), notes)
    } else if selector == 34 {
        ("\\overset{\\frown}"@ + braced(c0), notes)
    } else if selector == 35 {
        ("\\widehat"@ + braced(c0), note(notes, "joint-status template"@))
    } else if selector == 36 {
        ("\\cancel"@ + braced(c0), note(notes, "strike template"@))
    } else if selector == 37 {
        ("\\boxed"@ + braced(c0), notes)
    } else {
        (joined(rendered, Seq::empty()), note(notes, "template selector "@ + decimal(selector as nat)))
    }
}

/// The LaTeX of a tree, and the notes after rendering it from `notes`.
pub open spec fn render_tree(tree: MtefTree, notes: Seq<Seq<char>>) -> (Seq<char>, Seq<Seq<char>>)
    decreases tree, 0int,
{
    match tree {
        MtefTree::Line(children) => {
            let (parts, after) = render_each(children, notes);
            (joined(parts, Seq::empty()), after)
        },
        MtefTree::Pile(lines) => {
            let (rows, after) = render_each(lines, notes);
            ("\\begin{aligned}"@ + joined(rows, " \\\\ "@) + "\\end{aligned}"@, after)
        },
        MtefTree::Matrix { rows, cols, cells } => {
            let (body, after) = matrix_cells(cells, cols as int, rows as int * cols as int, notes);
            ("\\begin{matrix}"@ + body + "\\end{matrix}"@, after)
        },
        MtefTree::Char { mt_code, font_position, embellishments } => {
            let (base, after) = character_base(mt_code, font_position, notes);
            embellished_all(embellishments, base, after)
        },
        MtefTree::Template { selector, variation, children } => {
            let (rendered, after) = render_each(children, notes);
            template_latex(selector, variation, rendered, after)
        },
    }
}

/// The LaTeX of each tree, rendered in order, and the notes after them.
pub open spec fn render_each(trees: Seq<MtefTree>, notes: Seq<Seq<char>>) -> (
    Seq<Seq<char>>,
    Seq<Seq<char>>,
)
    decreases trees, 0int,
{
    if trees.len() == 0 {
        (Seq::empty(), notes)
    } else {
        let (parts, after) = render_each(trees.subrange(0, trees.len() - 1), notes);
        let (last, after_last) = render_tree(trees[trees.len() - 1], after);
        (parts.push(last), after_last)
    }
}

/// The first `count` cells of a matrix with `cols` columns, separated by
/// ` & ` within a row and ` \\ ` between rows; missing cells stay empty.
pub open spec fn matrix_cells(cells: Seq<MtefTree>, cols: int, count: int, notes: Seq<Seq<char>>) -> (
    Seq<char>,
    Seq<Seq<char>>,
)
    decreases cells, count,
{
    if count <= 0 {
        (Seq::empty(), notes)
    } else {
        let (prefix, after) = matrix_cells(cells, cols, count - 1, notes);
        let index = count - 1;
        let separator = if index > 0 {
            if index % cols == 0 {
                " \\\\ "@
            } else {
                " & "@
            }
        } else {
            Seq::empty()
        };
        if index < cells.len() {
            let (cell, after_cell) = render_tree(cells[index], after);
            (prefix + separator + cell, after_cell)
        } else {
            (prefix + separator, after)
        }
    }
}

/// The characters of each string, in order.
pub open spec fn strings_view(strings: Seq<String>) -> Seq<Seq<char>> {
    strings.map_values(|text: String| text@)
}

proof fn lemma_strings_prefix(strings: Seq<String>, i: int)
    requires
        0 <= i < strings.len(),
    ensures
        strings_view(strings.subrange(0, i + 1)).drop_last() == strings_view(strings.subrange(0, i)),
        strings_view(strings.subrange(0, i + 1)).last() == strings[i]@,
        strings_view(strings.subrange(0, i + 1)).len() == i + 1,
{
    assert(strings_view(strings.subrange(0, i + 1)).drop_last() =~= strings_view(
        strings.subrange(0, i),
    ));
}

/// The trees of a node sequence correspond one to one with the nodes.
pub proof fn lemma_trees_of(nodes: Seq<MtefNode>)
    ensures
        trees_of(nodes).len() == nodes.len(),
        forall|i: int| 0 <= i < nodes.len() ==> trees_of(nodes)[i] == tree_of(#[trigger] nodes[i]),
    decreases nodes.len(),
{
    if nodes.len() > 0 {
        let prefix = nodes.subrange(0, nodes.len() - 1);
        lemma_trees_of(prefix);
        assert forall|i: int| 0 <= i < nodes.len() implies trees_of(nodes)[i] == tree_of(
            #[trigger] nodes[i],
        ) by {
            if i < nodes.len() - 1 {
                assert(prefix[i] == nodes[i]);
            }
        }
    }
}

/// The character with MT code or font position `value`, if it is one.
fn character_from(value: u16) -> (c: Option<char>)
    ensures
        c == char_of(value as int),
{
    char::from_u32(value as u32)
}

/// Whether `c` is a control character.
pub fn is_control_char(c: char) -> (control: bool)
    ensures
        control == is_control(c),
{
    let value = c as u32;
    value <= 0x1f || (0x7f <= value && value <= 0x9f)
}

/// `character` written so that LaTeX reads it as that character.
pub fn escape_latex_char(character: char) -> (latex: String)
    ensures
        latex@ == escaped(character),
{
    if character == '#' {
        "\\#".to_owned()
    } else if character == '$' {
        "\\$".to_owned()
    } else if character == '%' {
        "\\%".to_owned()
    } else if character == '&' {
        "\\&".to_owned()
    } else if character == '_' {
        "\\_".to_owned()
    } else if character == '{' {
        "\\{".to_owned()
    } else if character == '}' {
        "\\}".to_owned()
    } else if character == '\\' {
        "\\backslash ".to_owned()
    } else if character == '^' {
        "\\hat{}".to_owned()
    } else if character == '~' {
        "\\sim ".to_owned()
    } else {
        let mut text = String::new();
        text.push(character);
        text
    }
}

/// The LaTeX of MT code `code`, if it has one.
pub fn mt_code_to_latex(code: u16) -> (latex: Option<String>)
    ensures
        match latex {
            Some(text) => mt_code_latex(code) == Some(text@),
            None => mt_code_latex(code) is None,
        },
{
    match symbol_latex(code) {
        Some(text) => Some(text.to_owned()),
        None => match character_from(code) {
            None => None,
            Some(character) => if is_control_char(character) {
                None
            } else {
                Some(escape_latex_char(character))
            },
        },
    }
}

/// Appends the debug form of an optional 16-bit value.
fn push_debug_option(out: &mut String, value: Option<u16>)
    ensures
        final(out)@ == old(out)@ + debug_option(value),
{
    match value {
        Some(v) => {
            out.append("Some(");
            push_decimal(out, v as u64);
            out.append(")");
        },
        None => {
            out.append("None");
        },
    }
}

/// The delimiters of fence templates 0 to 8; `.` for other selectors.
pub fn fence_pair(selector: u8) -> (pair: (&'static str, &'static str))
    ensures
        (pair.0@, pair.1@) == fence_delimiters(selector),
{
    match selector {
        0 => ("\\langle", "\\rangle"),
        1 => ("(", ")"),
        2 => ("\\{", "\\}"),
        3 => ("[", "]"),
        4 => ("|", "|"),
        5 => ("\\|", "\\|"),
        6 => ("\\lfloor", "\\rfloor"),
        7 => ("\\lceil", "\\rceil"),
        8 => ("\\llbracket", "\\rrbracket"),
        _ => (".", "."),
    }
}

/// The integral sign selected by the low nibble of `variation`.
pub fn integral_symbol(variation: u16) -> (command: &'static str)
    ensures
        command@ == integral_command(variation),
{
    let kind = variation & 0x000f;
    if kind == 2 {
        "\\iint"
    } else if kind == 3 {
        "\\iiint"
    } else if kind == 4 {
        "\\oint"
    } else if kind == 8 {
        "\\varointclockwise"
    } else if kind == 12 {
        "\\ointctrclockwise"
    } else {
        "\\int"
    }
}

/// A copy of the item of `items` at `index`, empty when there is none.
fn item_at(items: &[String], index: usize) -> (item: String)
    ensures
        item@ == item_or_empty(strings_view(items@), index as int),
{
    if index < items.len() {
        items[index].clone()
    } else {
        String::new()
    }
}

/// Appends `{`, `text` and `}`.
fn push_braced(out: &mut String, text: &str)
    ensures
        final(out)@ == old(out)@ + braced(text@),
{
    out.append("{");
    out.append(text);
    out.append("}");
}

/// A large operator with its optional limits and body.
pub fn render_large_operator(operator: &str, variation: u16, children: &[String]) -> (latex: String)
    ensures
        latex@ == large_operator(operator@, variation, strings_view(children@)),
{
    let mut index: usize = 0;
    let mut output = operator.to_owned();
    if variation & 0x0040 != 0 {
        output.append("\\limits");
    }
    if variation & 0x0010 != 0 {
        let lower = item_at(children, index);
        index = index + 1;
        output.append("_");
        push_braced(&mut output, lower.as_str());
    }
    if variation & 0x0020 != 0 {
        let upper = item_at(children, index);
        index = index + 1;
        output.append("^");
        push_braced(&mut output, upper.as_str());
    }
    let body = item_at(children, index);
    output.append(body.as_str());
    output
}

/// A sub- and superscript after an optional empty base.
pub fn render_script(variation: u16, subscript: &str, superscript: &str, braces: bool) -> (latex:
    String)
    ensures
        latex@ == script(variation, subscript@, superscript@, braces),
{
    let mut output = String::new();
    if variation & 0x0001 != 0 {
        output.append("{}");
    }
    if !subscript.is_empty() {
        output.append("_");
        push_braced(&mut output, subscript);
    }
    if !superscript.is_empty() {
        output.append("^");
        push_braced(&mut output, superscript);
    }
    if braces && output.as_str().is_empty() {
        "{}".to_owned()
    } else {
        output
    }
}

/// The concatenation of `parts` with `separator` between neighbours.
pub fn join_strings(parts: &[String], separator: &str) -> (text: String)
    ensures
        text@ == joined(strings_view(parts@), separator@),
{
    let mut text = String::new();
    let mut i: usize = 0;
    while i < parts.len()
        invariant
            i <= parts@.len(),
            text@ == joined(strings_view(parts@.subrange(0, i as int)), separator@),
        decreases parts@.len() - i,
    {
        proof {
            lemma_strings_prefix(parts@, i as int);
        }
        if i > 0 {
            text.append(separator);
        }
        text.append(parts[i].as_str());
        i = i + 1;
    }
    assert(parts@.subrange(0, parts@.len() as int) =~= parts@);
    text
}

/// Renders MathType trees as LaTeX, collecting the unsupported features met.
pub struct LatexRenderer {
    pub unsupported_features: Vec<String>,
}

impl LatexRenderer {
    /// The unsupported features recorded so far, in the order first met.
    pub open spec fn notes(&self) -> Seq<Seq<char>> {
        strings_view(self.unsupported_features@)
    }

    /// Records `feature` unless it was recorded before.
    pub fn note_unsupported(&mut self, feature: String)
        ensures
            final(self).notes() == note(old(self).notes(), feature@),
    {
        let mut i: usize = 0;
        while i < self.unsupported_features.len()
            invariant
                self.unsupported_features@ == old(self).unsupported_features@,
                i <= self.unsupported_features@.len(),
                forall|j: int| 0 <= j < i ==> self.unsupported_features@[j]@ != feature@,
            decreases self.unsupported_features@.len() - i,
        {
            if self.unsupported_features[i] == feature {
                assert(old(self).notes()[i as int] == feature@);
                return;
            }
            i = i + 1;
        }
        assert(!old(self).notes().contains(feature@));
        self.unsupported_features.push(feature);
        assert(final(self).notes() =~= old(self).notes().push(feature@));
    }
}

impl Default for LatexRenderer {
    fn default() -> (renderer: Self)
        ensures
            renderer.notes() == Seq::<Seq<char>>::empty(),
    {
        let renderer = LatexRenderer { unsupported_features: Vec::new() };
        assert(renderer.notes() =~= Seq::<Seq<char>>::empty());
        renderer
    }
}

/// Wraps `value` as `prefix{value}`.
fn decorate(prefix: &str, value: &str) -> (text: String)
    ensures
        text@ == prefix@ + braced(value@),
{
    let mut text = prefix.to_owned();
    push_braced(&mut text, value);
    text
}

/// `value` decorated with embellishment `embellishment`; unknown codes are
/// recorded as unsupported and leave `value` unchanged.
pub fn apply_embellishment(embellishment: u8, value: String, renderer: &mut LatexRenderer) -> (latex:
    String)
    ensures
        (latex@, final(renderer).notes()) == embellished(embellishment, value@, old(renderer).notes()),
{
    let v = value.as_str();
    match embellishment {
        2 => decorate("\\dot", v),
        3 => decorate("\\ddot", v),
        4 => decorate("\\overset{...}", v),
        5 => {
            let mut text = value.clone();
            text.append("'");
            text
        },
        6 => {
            let mut text = value.clone();
            text.append("''");
            text
        },
        7 => {
            let mut text = "'".to_owned();
            text.append(v);
            text
        },
        8 => decorate("\\tilde", v),
        9 => decorate("\\hat", v),
        10 => decorate("\\not", v),
        11 | 14 => decorate("\\overrightarrow", v),
        12 | 15 => decorate("\\overleftarrow", v),
        13 => decorate("\\overleftrightarrow", v),
        16 | 17 => decorate("\\bar", v),
        18 => {
            let mut text = value.clone();
            text.append("'''");
            text
        },
        19 => decorate("\\overset{\\frown}", v),
        20 => decorate("\\overset{\\smile}", v),
        25 => decorate("\\underset{.}", v),
        26 => decorate("\\underset{..}", v),
        29 => decorate("\\underline", v),
        30 => decorate("\\underset{\\sim}", v),
        33 | 36 => decorate("\\underset{\\longrightarrow}", v),
        34 | 37 => decorate("\\underset{\\longleftarrow}", v),
        35 => decorate("\\underset{\\longleftrightarrow}", v),
        _ => {
            let mut feature = "embellishment ".to_owned();
            push_decimal(&mut feature, embellishment as u64);
            renderer.note_unsupported(feature);
            value
        },
    }
}

/// The LaTeX of a character record, embellishments applied in order.
fn render_character(
    renderer: &mut LatexRenderer,
    mt_code: Option<u16>,
    font_position: Option<u16>,
    embellishments: &[u8],
) -> (latex: String)
    ensures
        ({
            let (base, after) = character_base(mt_code, font_position, old(renderer).notes());
            (latex@, final(renderer).notes()) == embellished_all(embellishments@, base, after)
        }),
{
    let known = match mt_code {
        Some(code) => mt_code_to_latex(code),
        None => None,
    };
    let mut value = match known {
        Some(text) => text,
        None => {
            let mut feature = "character mt=".to_owned();
            push_debug_option(&mut feature, mt_code);
            feature.append(" font=");
            push_debug_option(&mut feature, font_position);
            renderer.note_unsupported(feature);
            match font_position {
                Some(position) => match character_from(position) {
                    Some(character) => escape_latex_char(character),
                    None => "\\square".to_owned(),
                },
                None => "\\square".to_owned(),
            }
        },
    };
    let ghost base = value@;
    let ghost after = renderer.notes();
    let mut i: usize = 0;
    while i < embellishments.len()
        invariant
            i <= embellishments@.len(),
            (value@, renderer.notes()) == embellished_all(
                embellishments@.subrange(0, i as int),
                base,
                after,
            ),
        decreases embellishments@.len() - i,
    {
        assert(embellishments@.subrange(0, i + 1).drop_last() =~= embellishments@.subrange(
            0,
            i as int,
        ));
        value = apply_embellishment(embellishments[i], value, renderer);
        i = i + 1;
    }
    assert(embellishments@.subrange(0, embellishments@.len() as int) =~= embellishments@);
    value
}

/// `\left`, the left delimiter, `body`, `\right` and the right delimiter.
fn fenced(left: &str, body: &str, right: &str) -> (text: String)
    ensures
        text@ == "\\left"@ + left@ + body@ + "\\right"@ + right@,
{
    let mut text = "\\left".to_owned();
    text.append(left);
    text.append(body);
    text.append("\\right");
    text.append(right);
    text
}

/// `prefix{first}middle{second}`.
fn decorate_two(prefix: &str, first: &str, middle: &str, second: &str) -> (text: String)
    ensures
        text@ == prefix@ + braced(first@) + middle@ + braced(second@),
{
    let mut text = prefix.to_owned();
    push_braced(&mut text, first);
    text.append(middle);
    push_braced(&mut text, second);
    text
}

/// Fences, radicals, fractions, bars and arrows (templates 0 to 14).
fn template_text_low(variation: u16, selector: u8, rendered: &[String]) -> (latex: String)
    requires
        selector <= 14,
    ensures
        (latex@, Seq::<Seq<char>>::empty()) == template_latex(
            selector,
            variation,
            strings_view(rendered@),
            Seq::<Seq<char>>::empty(),
        ),
{
    proof {
        reveal_strlit("");
    }
    let c0 = item_at(rendered, 0);
    let c1 = item_at(rendered, 1);
    if selector <= 8 {
        let (l, r) = fence_pair(selector);
        let left = if variation & 0x0001 != 0 { l } else { "." };
        let right = if variation & 0x0002 != 0 { r } else { "." };
        fenced(left, c0.as_str(), right)
    } else if selector == 9 {
        let low = variation & 0x000f;
        let high = variation & 0x00f0;
        let left = if low == 1 { ")" } else if low == 2 { "[" } else if low == 3 { "]" } else { "(" };
        let right = if high == 0x10 { ")" } else if high == 0x20 { "[" } else if high == 0x30 { "]" } else { "(" };
        fenced(left, c0.as_str(), right)
    } else if selector == 10 {
        if variation & 0x0001 != 0 {
            let mut text = "\\sqrt[".to_owned();
            text.append(c1.as_str());
            text.append("]");
            push_braced(&mut text, c0.as_str());
            text
        } else {
            decorate("\\sqrt", c0.as_str())
        }
    } else if selector == 11 {
        if variation & 0x0002 != 0 {
            decorate_two("", c0.as_str(), "/", c1.as_str())
        } else {
            decorate_two("\\frac", c0.as_str(), "", c1.as_str())
        }
    } else if selector == 12 {
        decorate("\\underline", c0.as_str())
    } else if selector == 13 {
        decorate("\\overline", c0.as_str())
    } else {
        let arrow = if variation & 0x0001 != 0 {
            "\\Longleftrightarrow"
        } else if variation & 0x0010 != 0 {
            "\\longleftarrow"
        } else {
            "\\longrightarrow"
        };
        let above = variation & 0x0004 != 0;
        let below = variation & 0x0008 != 0;
        if above && below {
            let mut text = decorate_two("\\mathop", arrow, "\\limits^", c0.as_str());
            text.append("_");
            push_braced(&mut text, c1.as_str());
            text
        } else if above {
            decorate_two("\\mathop", arrow, "\\limits^", c0.as_str())
        } else if below {
            decorate_two("\\mathop", arrow, "\\limits_", c0.as_str())
        } else {
            arrow.to_owned()
        }
    }
}

/// Large operators, limits and braces (templates 15 to 25).
fn template_text_operators(
    renderer: &mut LatexRenderer,
    variation: u16,
    selector: u8,
    rendered: &[String],
) -> (latex: String)
    requires
        14 < selector <= 25,
    ensures
        (latex@, final(renderer).notes()) == template_latex(
            selector,
            variation,
            strings_view(rendered@),
            old(renderer).notes(),
        ),
{
    proof {
        reveal_strlit("");
    }
    let c0 = item_at(rendered, 0);
    let c1 = item_at(rendered, 1);
    if selector == 15 {
        render_large_operator(integral_symbol(variation), variation, rendered)
    } else if selector == 16 {
        render_large_operator("\\sum", variation, rendered)
    } else if selector == 17 {
        render_large_operator("\\prod", variation, rendered)
    } else if selector == 18 {
        render_large_operator("\\coprod", variation, rendered)
    } else if selector == 19 {
        render_large_operator("\\bigcup", variation, rendered)
    } else if selector == 20 {
        render_large_operator("\\bigcap", variation, rendered)
    } else if selector == 21 || selector == 22 {
        if rendered.len() > 0 {
            let rest = vstd::slice::slice_subrange(rendered, 1, rendered.len());
            assert(strings_view(rest@) =~= strings_view(rendered@).subrange(1, rendered@.len() as int));
            render_large_operator(rendered[0].as_str(), variation, rest)
        } else {
            render_large_operator("\\mathop{}", variation, rendered)
        }
    } else if selector == 23 {
        if variation & 0x0001 != 0 {
            decorate_two("\\mathop", c0.as_str(), "\\limits^", c1.as_str())
        } else {
            decorate_two("\\mathop", c0.as_str(), "\\limits_", c1.as_str())
        }
    } else if selector == 24 {
        if variation & 0x0001 != 0 {
            decorate_two("\\overbrace", c0.as_str(), "^", c1.as_str())
        } else {
            decorate_two("\\underbrace", c0.as_str(), "_", c1.as_str())
        }
    } else {
        if variation & 0x0001 != 0 {
            decorate_two("\\overline", c0.as_str(), "^", c1.as_str())
        } else {
            decorate_two("\\underline", c0.as_str(), "_", c1.as_str())
        }
    }
}

/// Division, scripts, brackets and accents (templates 26 and up).
fn template_text_high(
    renderer: &mut LatexRenderer,
    variation: u16,
    selector: u8,
    rendered: &[String],
) -> (latex: String)
    requires
        selector > 25,
    ensures
        (latex@, final(renderer).notes()) == template_latex(
            selector,
            variation,
            strings_view(rendered@),
            old(renderer).notes(),
        ),
{
    proof {
        reveal_strlit("");
    }
    let c0 = item_at(rendered, 0);
    let c1 = item_at(rendered, 1);
    if selector == 26 {
        renderer.note_unsupported("long division template".to_owned());
        let mut text = decorate("\\overline", c0.as_str());
        text.append("\\mathbin{\\backslash}");
        text.append(c1.as_str());
        text
    } else if selector == 27 {
        render_script(variation, c0.as_str(), "", true)
    } else if selector == 28 {
        let superscript = unwrap_superscript_text(c1);
        render_script(variation, "", superscript.as_str(), true)
    } else if selector == 29 {
        render_script(variation, c0.as_str(), c1.as_str(), true)
    } else if selector == 30 {
        let mut text = "\\left\\langle ".to_owned();
        text.append(c0.as_str());
        text.append("\\middle|");
        text.append(c1.as_str());
        text.append("\\right\\rangle");
        text
    } else if selector == 31 {
        if variation & 0x0004 != 0 {
            decorate("\\underset{\\longrightarrow}", c0.as_str())
        } else if variation & 0x0001 != 0 {
            decorate("\\overleftarrow", c0.as_str())
        } else {
            decorate("\\overrightarrow", c0.as_str())
        }
    } else if selector == 32 {
        decorate("\\widetilde", c0.as_str())
    } else if selector == 33 {
        decorate("\\widehat", c0.as_str())
    } else if selector == 34 {
        decorate("\\overset{\\frown}", c0.as_str())
    } else if selector == 35 {
        renderer.note_unsupported("joint-status template".to_owned());
        decorate("\\widehat", c0.as_str())
    } else if selector == 36 {
        renderer.note_unsupported("strike template".to_owned());
        decorate("\\cancel", c0.as_str())
    } else if selector == 37 {
        decorate("\\boxed", c0.as_str())
    } else {
        let mut feature = "template selector ".to_owned();
        push_decimal(&mut feature, selector as u64);
        renderer.note_unsupported(feature);
        assert(""@ =~= Seq::<char>::empty());
        join_strings(rendered, "")
    }
}

/// `text` without one enclosing `^{` ... `}`, when it has them.
fn unwrap_superscript_text(text: String) -> (inner: String)
    ensures
        inner@ == unwrap_superscript(text@),
{
    let chars = crate::text::chars_of(text.as_str());
    let n = chars.len();
    if n >= 3 && chars[0] == '^' && chars[1] == '{' && chars[n - 1] == '}' {
        let inner = vstd::slice::slice_subrange(chars.as_slice(), 2, n - 1);
        crate::text::string_from_chars(inner)
    } else {
        text
    }
}

impl LatexRenderer {
    /// The LaTeX of template `selector` with `variation` over its rendered children.
    fn template_text(&mut self, selector: u8, variation: u16, rendered: &[String]) -> (latex: String)
        ensures
            (latex@, final(self).notes()) == template_latex(
                selector,
                variation,
                strings_view(rendered@),
                old(self).notes(),
            ),
    {
        if selector <= 14 {
            let latex = template_text_low(variation, selector, rendered);
            assert(template_latex(selector, variation, strings_view(rendered@), self.notes()).1
                == self.notes());
            assert(template_latex(selector, variation, strings_view(rendered@), self.notes()).0
                == template_latex(
                selector,
                variation,
                strings_view(rendered@),
                Seq::<Seq<char>>::empty(),
            ).0);
            latex
        } else if selector <= 25 {
            template_text_operators(self, variation, selector, rendered)
        } else {
            template_text_high(self, variation, selector, rendered)
        }
    }

    /// The LaTeX of each node, rendered in order.
    fn render_each(&mut self, nodes: &[MtefNode]) -> (parts: Vec<String>)
        ensures
            (strings_view(parts@), final(self).notes()) == render_each(trees_of(nodes@), old(self).notes()),
        decreases nodes@, 0int,
    {
        let ghost trees = trees_of(nodes@);
        let ghost start = self.notes();
        proof {
            lemma_trees_of(nodes@);
        }
        let mut parts: Vec<String> = Vec::new();
        let mut i: usize = 0;
        while i < nodes.len()
            invariant
                i <= nodes@.len(),
                trees == trees_of(nodes@),
                trees.len() == nodes@.len(),
                forall|j: int| 0 <= j < nodes@.len() ==> trees[j] == tree_of(#[trigger] nodes@[j]),
                (strings_view(parts@), self.notes()) == render_each(trees.subrange(0, i as int), start),
            decreases nodes@.len() - i,
        {
            assert(trees.subrange(0, i + 1).subrange(0, i as int) =~= trees.subrange(0, i as int));
            let part = self.render_node(&nodes[i]);
            let ghost before = parts@;
            parts.push(part);
            assert(strings_view(parts@) =~= strings_view(before).push(part@));
            i = i + 1;
        }
        assert(trees.subrange(0, nodes@.len() as int) =~= trees);
        parts
    }

    /// The concatenated LaTeX of `nodes`.
    pub fn render_nodes(&mut self, nodes: &[MtefNode]) -> (latex: String)
        ensures
            (latex@, final(self).notes()) == ({
                let (parts, after) = render_each(trees_of(nodes@), old(self).notes());
                (joined(parts, Seq::empty()), after)
            }),
        decreases nodes@, 1int,
    {
        proof {
            reveal_strlit("");
        }
        let parts = self.render_each(nodes);
        assert(""@ =~= Seq::<char>::empty());
        join_strings(parts.as_slice(), "")
    }

    /// The LaTeX of template `selector` with `variation` over `children`.
    pub fn render_template(&mut self, selector: u8, variation: u16, children: &[MtefNode]) -> (latex:
        String)
        ensures
            (latex@, final(self).notes()) == ({
                let (rendered, after) = render_each(trees_of(children@), old(self).notes());
                template_latex(selector, variation, rendered, after)
            }),
        decreases children@, 1int,
    {
        let rendered = self.render_each(children);
        self.template_text(selector, variation, rendered.as_slice())
    }

    /// The LaTeX of one node.
    pub fn render_node(&mut self, node: &MtefNode) -> (latex: String)
        ensures
            (latex@, final(self).notes()) == render_tree(tree_of(*node), old(self).notes()),
        decreases *node, 0int,
    {
        match node {
            MtefNode::Line(children) => self.render_nodes(children.as_slice()),
            MtefNode::Pile(lines) => {
                let rows = self.render_each(lines.as_slice());
                let mut text = "\\begin{aligned}".to_owned();
                let body = join_strings(rows.as_slice(), " \\\\ ");
                text.append(body.as_str());
                text.append("\\end{aligned}");
                text
            },
            MtefNode::Matrix { rows, cols, cells } => {
                let ghost trees = trees_of(cells@);
                let ghost start = self.notes();
                proof {
                    lemma_trees_of(cells@);
                }
                assert(*rows as int * *cols as int <= 255 * 255) by (nonlinear_arith)
                    requires
                        *rows <= 255,
                        *cols <= 255,
                ;
                let count = (*rows as usize) * (*cols as usize);
                let mut output = String::new();
                let mut index: usize = 0;
                while index < count
                    invariant
                        index <= count,
                        count == *rows as int * *cols as int,
                        *node == (MtefNode::Matrix { rows: *rows, cols: *cols, cells: *cells }),
                        trees == trees_of(cells@),
                        trees.len() == cells@.len(),
                        forall|j: int| 0 <= j < cells@.len() ==> trees[j] == tree_of(#[trigger] cells@[j]),
                        (output@, self.notes()) == matrix_cells(trees, *cols as int, index as int, start),
                    decreases count - index,
                {
                    assert(*cols != 0) by (nonlinear_arith)
                        requires
                            index < count,
                            count == *rows as int * *cols as int,
                    ;
                    if index > 0 {
                        if index % (*cols as usize) == 0 {
                            output.append(" \\\\ ");
                        } else {
                            output.append(" & ");
                        }
                    }
                    if index < cells.len() {
                        assert(decreases_to!(*node => (*node)->cells));
                        assert(decreases_to!((*node)->cells => ((*node)->cells)@));
                        assert(decreases_to!(cells@ => cells@[index as int]));
                        assert(decreases_to!(*node => cells@[index as int]));
                        let cell = self.render_node(&cells[index]);
                        output.append(cell.as_str());
                    }
                    index = index + 1;
                }
                let mut text = "\\begin{matrix}".to_owned();
                text.append(output.as_str());
                text.append("\\end{matrix}");
                text
            },
            MtefNode::Char { mt_code, font_position, embellishments } => render_character(
                self,
                *mt_code,
                *font_position,
                embellishments.as_slice(),
            ),
            MtefNode::Template { selector, variation, children } => self.render_template(
                *selector,
                *variation,
                children.as_slice(),
            ),
        }
    }
}

/// Recording a feature keeps the recorded features distinct.
pub proof fn lemma_note_distinct(notes: Seq<Seq<char>>, feature: Seq<char>)
    requires
        notes.no_duplicates(),
    ensures
        note(notes, feature).no_duplicates(),
        forall|f: Seq<char>| notes.contains(f) ==> note(notes, feature).contains(f),
{
    if !notes.contains(feature) {
        let pushed = notes.push(feature);
        assert forall|i: int, j: int| 0 <= i < pushed.len() && 0 <= j < pushed.len() && i != j
            implies pushed[i] != pushed[j] by {
            if i < notes.len() && j < notes.len() {
            } else if i == notes.len() as int {
                assert(notes[j] == pushed[j]);
            } else {
                assert(notes[i] == pushed[i]);
            }
        }
        assert forall|f: Seq<char>| notes.contains(f) implies pushed.contains(f) by {
            let k = choose|k: int| 0 <= k < notes.len() && notes[k] == f;
            assert(pushed[k] == f);
        }
    }
}

proof fn lemma_embellished_distinct(codes: Seq<u8>, value: Seq<char>, notes: Seq<Seq<char>>)
    requires
        notes.no_duplicates(),
    ensures
        embellished_all(codes, value, notes).1.no_duplicates(),
    decreases codes.len(),
{
    if codes.len() > 0 {
        lemma_embellished_distinct(codes.drop_last(), value, notes);
        let (inner, inner_notes) = embellished_all(codes.drop_last(), value, notes);
        lemma_note_distinct(inner_notes, "embellishment "@ + decimal(codes.last() as nat));
    }
}

proof fn lemma_template_distinct(
    selector: u8,
    variation: u16,
    rendered: Seq<Seq<char>>,
    notes: Seq<Seq<char>>,
)
    requires
        notes.no_duplicates(),
    ensures
        template_latex(selector, variation, rendered, notes).1.no_duplicates(),
{
    lemma_note_distinct(notes, "long division template"@);
    lemma_note_distinct(notes, "joint-status template"@);
    lemma_note_distinct(notes, "strike template"@);
    lemma_note_distinct(notes, "template selector "@ + decimal(selector as nat));
}

/// Rendering a tree records each unsupported feature at most once.
pub proof fn lemma_render_tree_distinct(tree: MtefTree, notes: Seq<Seq<char>>)
    requires
        notes.no_duplicates(),
    ensures
        render_tree(tree, notes).1.no_duplicates(),
    decreases tree, 0int,
{
    match tree {
        MtefTree::Line(children) => {
            lemma_render_each_distinct(children, notes);
        },
        MtefTree::Pile(lines) => {
            lemma_render_each_distinct(lines, notes);
        },
        MtefTree::Matrix { rows, cols, cells } => {
            lemma_matrix_distinct(cells, cols as int, rows as int * cols as int, notes);
        },
        MtefTree::Char { mt_code, font_position, embellishments } => {
            lemma_note_distinct(notes, character_feature(mt_code, font_position));
            let (base, after) = character_base(mt_code, font_position, notes);
            lemma_embellished_distinct(embellishments, base, after);
        },
        MtefTree::Template { selector, variation, children } => {
            lemma_render_each_distinct(children, notes);
            let (rendered, after) = render_each(children, notes);
            lemma_template_distinct(selector, variation, rendered, after);
        },
    }
}

/// Rendering trees in order records each unsupported feature at most once.
pub proof fn lemma_render_each_distinct(trees: Seq<MtefTree>, notes: Seq<Seq<char>>)
    requires
        notes.no_duplicates(),
    ensures
        render_each(trees, notes).1.no_duplicates(),
    decreases trees, 0int,
{
    if trees.len() > 0 {
        let prefix = trees.subrange(0, trees.len() - 1);
        lemma_render_each_distinct(prefix, notes);
        let (parts, after) = render_each(prefix, notes);
        lemma_render_tree_distinct(trees[trees.len() - 1], after);
    }
}

proof fn lemma_matrix_distinct(cells: Seq<MtefTree>, cols: int, count: int, notes: Seq<Seq<char>>)
    requires
        notes.no_duplicates(),
    ensures
        matrix_cells(cells, cols, count, notes).1.no_duplicates(),
    decreases cells, count,
{
    if count > 0 {
        lemma_matrix_distinct(cells, cols, count - 1, notes);
        let (prefix, after) = matrix_cells(cells, cols, count - 1, notes);
        if count - 1 < cells.len() {
            lemma_render_tree_distinct(cells[count - 1], after);
        }
    }
}

/// A root template renders its first child line, the radicand, under the
/// root sign and, when its variation asks for an index (bit 0), its second
/// child line as the index in square brackets.
pub proof fn lemma_root_template(
    variation: u16,
    radicand: Seq<char>,
    index: Seq<char>,
    rest: Seq<Seq<char>>,
    notes: Seq<Seq<char>>,
)
    ensures
        variation & 0x0001 != 0 ==> template_latex(10, variation, seq![radicand, index] + rest, notes).0
            =~= "\\sqrt["@ + index + "]{"@ + radicand + "}"@,
        variation & 0x0001 == 0 ==> template_latex(10, variation, seq![radicand, index] + rest, notes).0
            =~= "\\sqrt{"@ + radicand + "}"@,
        template_latex(10, variation, seq![radicand, index] + rest, notes).1 == notes,
{
    let rendered = seq![radicand, index] + rest;
    assert(item_or_empty(rendered, 0) == radicand);
    assert(item_or_empty(rendered, 1) == index);
    reveal_strlit("\\sqrt[");
    reveal_strlit("]{");
    reveal_strlit("]");
    reveal_strlit("{");
    reveal_strlit("}");
    reveal_strlit("\\sqrt{");
    reveal_strlit("\\sqrt");
}

} // verus!
