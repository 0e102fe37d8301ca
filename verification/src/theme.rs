//! What a template's theme and header/footer parts tell a layout preview:
//! the major and minor typefaces of the font scheme, and whether page number
//! fields occur.
use vstd::prelude::*;
use crate::error::{DocxError, DocxFault, DocxResult};
use crate::limits::DocxLimits;
use crate::page_setup::prior_position;
use crate::text::{chars_of, is_white_space, is_white_space_char, occurs_at, occurs_at_chars, same_text, trim_white_space, trimmed};
use crate::xml::{
    NamespaceKind, XmlEvent, XmlEventKind, XmlStream, attribute_value, classify_namespace,
    opt_text, spec_attribute_value, spec_classify,
};
use crate::xml_reader::read_part_events;

verus! {

/// The Latin and East Asian typefaces of a theme's major (heading) and minor
/// (body) fonts.
#[derive(Clone, Debug, PartialEq, Eq)]
pub struct TemplateFontTheme {
    pub major_latin: Option<String>,
    pub major_east_asia: Option<String>,
    pub minor_latin: Option<String>,
    pub minor_east_asia: Option<String>,
}

/// A font theme as plain values.
pub struct FontThemeView {
    pub major_latin: Option<Seq<char>>,
    pub major_east_asia: Option<Seq<char>>,
    pub minor_latin: Option<Seq<char>>,
    pub minor_east_asia: Option<Seq<char>>,
}

impl View for TemplateFontTheme {
    type V = FontThemeView;

    open spec fn view(&self) -> FontThemeView {
        FontThemeView {
            major_latin: opt_text(self.major_latin),
            major_east_asia: opt_text(self.major_east_asia),
            minor_latin: opt_text(self.minor_latin),
            minor_east_asia: opt_text(self.minor_east_asia),
        }
    }
}

/// A theme that names no typeface.
pub open spec fn empty_font_theme() -> FontThemeView {
    FontThemeView { major_latin: None, major_east_asia: None, minor_latin: None, minor_east_asia: None }
}

impl Default for TemplateFontTheme {
    fn default() -> (theme: Self)
        ensures
            theme@ == empty_font_theme(),
    {
        TemplateFontTheme { major_latin: None, major_east_asia: None, minor_latin: None, minor_east_asia: None }
    }
}

/// The `typeface` of a font element, where it is more than white space.
pub open spec fn spec_typeface(e: XmlEvent, part_name: Seq<char>) -> Result<Option<Seq<char>>, DocxFault> {
    match spec_attribute_value(e, "typeface"@, None, part_name) {
        Err(f) => Err(f),
        Ok(Some(v)) => if trimmed(v).len() == 0 {
            Ok(None)
        } else {
            Ok(Some(v))
        },
        Ok(None) => Ok(None),
    }
}

/// The theme after a DrawingML element inside the major (`Some(true)`) or
/// minor (`Some(false)`) font group: `a:latin` and `a:ea` set the group's
/// typefaces; `a:font` for the `Hans` script sets its East Asian typeface if
/// none is set yet.
pub open spec fn theme_font(t: FontThemeView, group: Option<bool>, e: XmlEvent, part_name: Seq<char>) -> Result<
    FontThemeView,
    DocxFault,
> {
    match group {
        None => Ok(t),
        Some(major) => match spec_typeface(e, part_name) {
            Err(f) => Err(f),
            Ok(typeface) => {
                let local = e.local@;
                if local == "latin"@ {
                    if major {
                        Ok(FontThemeView { major_latin: typeface, ..t })
                    } else {
                        Ok(FontThemeView { minor_latin: typeface, ..t })
                    }
                } else if local == "ea"@ {
                    if major {
                        Ok(FontThemeView { major_east_asia: typeface, ..t })
                    } else {
                        Ok(FontThemeView { minor_east_asia: typeface, ..t })
                    }
                } else if local == "font"@ {
                    match spec_attribute_value(e, "script"@, None, part_name) {
                        Err(f) => Err(f),
                        Ok(script) => if script == Some("Hans"@) {
                            if major && t.major_east_asia is None {
                                Ok(FontThemeView { major_east_asia: typeface, ..t })
                            } else if !major && t.minor_east_asia is None {
                                Ok(FontThemeView { minor_east_asia: typeface, ..t })
                            } else {
                                Ok(t)
                            }
                        } else {
                            Ok(t)
                        },
                    }
                } else {
                    Ok(t)
                }
            },
        },
    }
}

/// What the theme reading knows after some events.
pub struct ThemeScan {
    pub theme: FontThemeView,
    pub group: Option<bool>,
    pub depth: int,
}

/// The depth error of the part `part_name`.
pub open spec fn part_depth_fault(part_name: Seq<char>, limits: DocxLimits, depth: int) -> DocxFault {
    DocxFault::LimitExceeded {
        resource: "XML depth in "@ + part_name,
        limit: limits.max_xml_depth as u64,
        actual: depth as u64,
    }
}

/// The refusal of a DOCTYPE declaration starting at byte `start`.
pub open spec fn doctype_fault(part_name: Seq<char>, start: u64) -> DocxFault {
    DocxFault::Xml { part_name, position: start, message: "DOCTYPE declarations are not allowed"@ }
}

/// The theme reading after the event `e`, which starts at byte `start`.
pub open spec fn theme_step(s: ThemeScan, e: XmlEvent, start: u64, part_name: Seq<char>, limits: DocxLimits) -> Result<
    ThemeScan,
    DocxFault,
> {
    let drawing = spec_classify(e.namespace) == NamespaceKind::Drawing;
    if e.kind == XmlEventKind::Start {
        let depth = s.depth + 1;
        if depth > limits.max_xml_depth {
            Err(part_depth_fault(part_name, limits, depth))
        } else if drawing {
            let group = if e.local@ == "majorFont"@ {
                Some(true)
            } else if e.local@ == "minorFont"@ {
                Some(false)
            } else {
                s.group
            };
            match theme_font(s.theme, group, e, part_name) {
                Err(f) => Err(f),
                Ok(theme) => Ok(ThemeScan { theme, group, depth }),
            }
        } else {
            Ok(ThemeScan { depth, ..s })
        }
    } else if e.kind == XmlEventKind::Empty {
        if drawing {
            match theme_font(s.theme, s.group, e, part_name) {
                Err(f) => Err(f),
                Ok(theme) => Ok(ThemeScan { theme, ..s }),
            }
        } else {
            Ok(s)
        }
    } else if e.kind == XmlEventKind::End {
        Ok(
            ThemeScan {
                group: if e.local@ == "majorFont"@ || e.local@ == "minorFont"@ { None } else { s.group },
                depth: if s.depth > 0 { s.depth - 1 } else { 0 },
                ..s
            },
        )
    } else if e.kind == XmlEventKind::DocType {
        Err(doctype_fault(part_name, start))
    } else {
        Ok(s)
    }
}

/// The theme read from event `i` on.
pub open spec fn theme_from(stream: XmlStream, i: int, s: ThemeScan, part_name: Seq<char>, limits: DocxLimits) -> Result<
    FontThemeView,
    DocxFault,
>
    decreases stream.events@.len() - i,
{
    if i < 0 || i >= stream.events@.len() {
        match stream.read_error {
            Some((position, message)) => Err(DocxFault::Xml { part_name, position, message: message@ }),
            None => Ok(s.theme),
        }
    } else {
        let e = stream.events@[i];
        if e.kind == XmlEventKind::Eof {
            Ok(s.theme)
        } else {
            match theme_step(s, e, prior_position(stream, i), part_name, limits) {
                Err(f) => Err(f),
                Ok(next) => theme_from(stream, i + 1, next, part_name, limits),
            }
        }
    }
}

/// The font theme of the theme part `part_name`, given as its events.
pub open spec fn spec_font_theme(stream: XmlStream, part_name: Seq<char>, limits: DocxLimits) -> Result<
    FontThemeView,
    DocxFault,
> {
    theme_from(stream, 0, ThemeScan { theme: empty_font_theme(), group: None, depth: 0 }, part_name, limits)
}

/// The `typeface` of a font element, where it is more than white space.
fn typeface_of(e: &XmlEvent, part_name: &str) -> (result: DocxResult<Option<String>>)
    ensures
        match (result, spec_typeface(*e, part_name@)) {
            (Ok(v), Ok(expected)) => opt_text(v) == expected,
            (Err(x), Err(fault)) => x@ == fault,
            _ => false,
        },
{
    match attribute_value(e, "typeface", None, part_name) {
        Err(x) => Err(x),
        Ok(Some(v)) => {
            if chars_of(trim_white_space(v.as_str()).as_str()).len() == 0 {
                Ok(None)
            } else {
                Ok(Some(v))
            }
        },
        Ok(None) => Ok(None),
    }
}

/// Takes one DrawingML element into the theme.
fn update_theme_font(theme: &mut TemplateFontTheme, group: Option<bool>, e: &XmlEvent, part_name: &str) -> (result:
    DocxResult<()>)
    ensures
        match (result, theme_font(old(theme)@, group, *e, part_name@)) {
            (Ok(_), Ok(expected)) => final(theme)@ == expected,
            (Err(x), Err(fault)) => x@ == fault,
            _ => false,
        },
{
    let major = match group {
        None => return Ok(()),
        Some(major) => major,
    };
    let typeface = match typeface_of(e, part_name) {
        Err(x) => return Err(x),
        Ok(v) => v,
    };
    let local = e.local.as_str();
    if same_text(local, "latin") {
        if major {
            theme.major_latin = typeface;
        } else {
            theme.minor_latin = typeface;
        }
        Ok(())
    } else if same_text(local, "ea") {
        if major {
            theme.major_east_asia = typeface;
        } else {
            theme.minor_east_asia = typeface;
        }
        Ok(())
    } else if same_text(local, "font") {
        let script = match attribute_value(e, "script", None, part_name) {
            Err(x) => return Err(x),
            Ok(v) => v,
        };
        let hans = match &script {
            Some(v) => same_text(v.as_str(), "Hans"),
            None => false,
        };
        if hans {
            if major && theme.major_east_asia.is_none() {
                theme.major_east_asia = typeface;
            } else if !major && theme.minor_east_asia.is_none() {
                theme.minor_east_asia = typeface;
            }
        }
        Ok(())
    } else {
        Ok(())
    }
}

/// The depth error of the part `part_name`.
fn depth_error(part_name: &str, limits: &DocxLimits, depth: usize) -> (error: DocxError)
    ensures
        error@ == part_depth_fault(part_name@, *limits, depth as int),
{
    let mut resource = "XML depth in ".to_owned();
    resource.append(part_name);
    DocxError::LimitExceeded { resource, limit: limits.max_xml_depth as u64, actual: depth as u64 }
}

/// Reads the font scheme of the theme part `part_name`, given as its events:
/// inside `a:majorFont` and `a:minorFont`, the typefaces of `a:latin`,
/// `a:ea` and the first `a:font` for the `Hans` script; a typeface of only
/// white space counts as none.
pub fn font_theme_from_events(stream: &XmlStream, part_name: &str, limits: &DocxLimits) -> (result: DocxResult<
    TemplateFontTheme,
>)
    ensures
        match (result, spec_font_theme(*stream, part_name@, *limits)) {
            (Ok(theme), Ok(expected)) => theme@ == expected,
            (Err(x), Err(fault)) => x@ == fault,
            _ => false,
        },
{
    let mut theme = TemplateFontTheme::default();
    let mut group: Option<bool> = None;
    let mut depth: usize = 0;
    let events = stream.events.as_slice();
    let mut start: u64 = 0;
    let mut i: usize = 0;
    while i < events.len()
        invariant
            i <= events@.len(),
            events@ == stream.events@,
            depth <= i,
            start == prior_position(*stream, i as int),
            spec_font_theme(*stream, part_name@, *limits) == theme_from(
                *stream,
                i as int,
                ThemeScan { theme: theme@, group, depth: depth as int },
                part_name@,
                *limits,
            ),
        decreases events@.len() - i,
    {
        let e = &events[i];
        let drawing = classify_namespace(&e.namespace) == NamespaceKind::Drawing;
        if e.kind == XmlEventKind::Eof {
            return Ok(theme);
        } else if e.kind == XmlEventKind::Start {
            let next = depth + 1;
            if next > limits.max_xml_depth {
                return Err(depth_error(part_name, limits, next));
            }
            if drawing {
                let local = e.local.as_str();
                if same_text(local, "majorFont") {
                    group = Some(true);
                } else if same_text(local, "minorFont") {
                    group = Some(false);
                }
                match update_theme_font(&mut theme, group, e, part_name) {
                    Err(x) => return Err(x),
                    Ok(_) => {},
                }
            }
            depth = next;
        } else if e.kind == XmlEventKind::Empty {
            if drawing {
                match update_theme_font(&mut theme, group, e, part_name) {
                    Err(x) => return Err(x),
                    Ok(_) => {},
                }
            }
        } else if e.kind == XmlEventKind::End {
            let local = e.local.as_str();
            if same_text(local, "majorFont") || same_text(local, "minorFont") {
                group = None;
            }
            depth = if depth > 0 {
                depth - 1
            } else {
                0
            };
        } else if e.kind == XmlEventKind::DocType {
            return Err(DocxError::xml(part_name, start, "DOCTYPE declarations are not allowed"));
        }
        start = e.position;
        i = i + 1;
    }
    match &stream.read_error {
        Some((position, message)) => Err(DocxError::xml(part_name, *position, message.as_str())),
        None => Ok(theme),
    }
}

/// The font theme of the theme part `part_name`, read from its bytes: the
/// outcome of [`font_theme_from_events`] on the events the XML reader gives.
pub fn parse_font_theme(xml: &[u8], part_name: &str, limits: &DocxLimits) -> (result: DocxResult<TemplateFontTheme>)
    ensures
        exists|stream: XmlStream|
            stream.source_len == xml@.len() && match (
                result,
                #[trigger] spec_font_theme(stream, part_name@, *limits),
            ) {
                (Ok(theme), Ok(expected)) => theme@ == expected,
                (Err(x), Err(fault)) => x@ == fault,
                _ => false,
            },
{
    let stream = read_part_events(xml, limits.max_xml_part_bytes);
    let result = font_theme_from_events(&stream, part_name, limits);
    assert(spec_font_theme(stream, part_name@, *limits) == spec_font_theme(stream, part_name@, *limits));
    result
}

/// ASCII lower-case letters mapped to upper case; every other character kept.
pub open spec fn ascii_upper_char(c: char) -> char {
    if 'a' <= c && c <= 'z' {
        ((c as u32) - 32) as char
    } else {
        c
    }
}

/// The ASCII upper-case form of `s`.
pub open spec fn ascii_upper(s: Seq<char>) -> Seq<char> {
    Seq::new(s.len(), |i: int| ascii_upper_char(s[i]))
}

/// Whether `token` is one of the white-space separated words of `s`.
pub open spec fn has_token(s: Seq<char>, token: Seq<char>) -> bool {
    exists|i: int|
        #![trigger occurs_at(s, token, i)]
        occurs_at(s, token, i) && (i == 0 || is_white_space(s[i - 1])) && (i + token.len() == s.len()
            || is_white_space(s[i + token.len()]))
}

/// What the field reading knows after some events: the depth, how deep
/// inside `w:instrText` it is, and the instruction text so far.
pub struct FieldScan {
    pub depth: int,
    pub instruction_depth: int,
    pub instructions: Seq<char>,
}

/// The field reading after the event `e`, which starts at byte `start`.
pub open spec fn field_step(s: FieldScan, e: XmlEvent, start: u64, part_name: Seq<char>, limits: DocxLimits) -> Result<
    FieldScan,
    DocxFault,
> {
    let instruction = spec_classify(e.namespace) == NamespaceKind::Word && e.local@ == "instrText"@;
    if e.kind == XmlEventKind::Start {
        let depth = s.depth + 1;
        if depth > limits.max_xml_depth {
            Err(part_depth_fault(part_name, limits, depth))
        } else {
            Ok(
                FieldScan {
                    depth,
                    instruction_depth: if instruction { s.instruction_depth + 1 } else { s.instruction_depth },
                    ..s
                },
            )
        }
    } else if e.kind == XmlEventKind::End {
        Ok(
            FieldScan {
                depth: if s.depth > 0 { s.depth - 1 } else { 0 },
                instruction_depth: if instruction && s.instruction_depth > 0 {
                    s.instruction_depth - 1
                } else if instruction {
                    0
                } else {
                    s.instruction_depth
                },
                ..s
            },
        )
    } else if e.kind == XmlEventKind::Text && s.instruction_depth > 0 {
        Ok(FieldScan { instructions: s.instructions + e.text@ + seq![' '], ..s })
    } else if e.kind == XmlEventKind::DocType {
        Err(doctype_fault(part_name, start))
    } else {
        Ok(s)
    }
}

/// Whether `PAGE`, and whether `NUMPAGES` or `SECTIONPAGES`, is a word of
/// the instructions, in any ASCII case.
pub open spec fn field_flags(instructions: Seq<char>) -> (bool, bool) {
    let upper = ascii_upper(instructions);
    (has_token(upper, "PAGE"@), has_token(upper, "NUMPAGES"@) || has_token(upper, "SECTIONPAGES"@))
}

/// The field flags read from event `i` on.
pub open spec fn fields_from(stream: XmlStream, i: int, s: FieldScan, part_name: Seq<char>, limits: DocxLimits) -> Result<
    (bool, bool),
    DocxFault,
>
    decreases stream.events@.len() - i,
{
    if i < 0 || i >= stream.events@.len() {
        match stream.read_error {
            Some((position, message)) => Err(DocxFault::Xml { part_name, position, message: message@ }),
            None => Ok(field_flags(s.instructions)),
        }
    } else {
        let e = stream.events@[i];
        if e.kind == XmlEventKind::Eof {
            Ok(field_flags(s.instructions))
        } else {
            match field_step(s, e, prior_position(stream, i), part_name, limits) {
                Err(f) => Err(f),
                Ok(next) => fields_from(stream, i + 1, next, part_name, limits),
            }
        }
    }
}

/// Whether a header or footer part, given as its events, holds a `PAGE`
/// field, and whether it holds a `NUMPAGES` or `SECTIONPAGES` field, by the
/// words of its field instructions (`w:instrText`).
pub open spec fn spec_page_number_fields(stream: XmlStream, part_name: Seq<char>, limits: DocxLimits) -> Result<
    (bool, bool),
    DocxFault,
> {
    fields_from(stream, 0, FieldScan { depth: 0, instruction_depth: 0, instructions: Seq::empty() }, part_name, limits)
}

/// Whether `token` is one of the white-space separated words of `s`.
fn holds_token(s: &[char], token: &str) -> (found: bool)
    ensures
        found == has_token(s@, token@),
{
    let t = chars_of(token);
    let mut at: usize = 0;
    loop
        invariant
            at <= s@.len(),
            t@ == token@,
            forall|i: int|
                0 <= i < at ==> !(#[trigger] occurs_at(s@, t@, i) && (i == 0 || is_white_space(s@[i - 1])) && (
                i + t@.len() == s@.len() || is_white_space(s@[i + t@.len()]))),
        ensures
            forall|i: int|
                0 <= i <= s@.len() ==> !(#[trigger] occurs_at(s@, t@, i) && (i == 0 || is_white_space(s@[i - 1])) && (
                i + t@.len() == s@.len() || is_white_space(s@[i + t@.len()]))),
        decreases s@.len() - at,
    {
        if occurs_at_chars(s, t.as_slice(), at) {
            let before = at == 0 || is_white_space_char(s[at - 1]);
            let after = at + t.len() == s.len() || is_white_space_char(s[at + t.len()]);
            if before && after {
                return true;
            }
        }
        if at == s.len() {
            break;
        }
        at = at + 1;
    }
    false
}

/// The ASCII upper-case form of `s`.
fn upper_chars(s: &[char]) -> (result: Vec<char>)
    ensures
        result@ == ascii_upper(s@),
{
    let mut result: Vec<char> = Vec::new();
    let mut i: usize = 0;
    while i < s.len()
        invariant
            i <= s@.len(),
            result@ == ascii_upper(s@).subrange(0, i as int),
        decreases s@.len() - i,
    {
        let c = s[i];
        let u = if 'a' <= c && c <= 'z' {
            ((c as u8) - 32) as char
        } else {
            c
        };
        result.push(u);
        i = i + 1;
    }
    assert(result@ == ascii_upper(s@));
    result
}

/// Reads a header or footer part, given as its events: whether a `PAGE`
/// field, and whether a `NUMPAGES` or `SECTIONPAGES` field occurs among the
/// words of its field instructions.
pub fn page_number_fields_from_events(stream: &XmlStream, part_name: &str, limits: &DocxLimits) -> (result:
    DocxResult<(bool, bool)>)
    ensures
        match (result, spec_page_number_fields(*stream, part_name@, *limits)) {
            (Ok(flags), Ok(expected)) => flags == expected,
            (Err(x), Err(fault)) => x@ == fault,
            _ => false,
        },
{
    let mut depth: usize = 0;
    let mut instruction_depth: usize = 0;
    let mut instructions: Vec<char> = Vec::new();
    let events = stream.events.as_slice();
    let mut start: u64 = 0;
    let mut i: usize = 0;
    let mut ended = false;
    while i < events.len() && !ended
        invariant
            i <= events@.len(),
            events@ == stream.events@,
            depth <= i,
            instruction_depth <= i,
            start == prior_position(*stream, i as int),
            ended ==> spec_page_number_fields(*stream, part_name@, *limits) == Ok::<(bool, bool), DocxFault>(
                field_flags(instructions@),
            ),
            !ended ==> spec_page_number_fields(*stream, part_name@, *limits) == fields_from(
                *stream,
                i as int,
                FieldScan { depth: depth as int, instruction_depth: instruction_depth as int, instructions: instructions@ },
                part_name@,
                *limits,
            ),
        decreases events@.len() - i + if ended { 0int } else { 1int },
    {
        let e = &events[i];
        if e.kind == XmlEventKind::Eof {
            ended = true;
        } else {
            let instruction = classify_namespace(&e.namespace) == NamespaceKind::Word && same_text(
                e.local.as_str(),
                "instrText",
            );
            if e.kind == XmlEventKind::Start {
                let next = depth + 1;
                if next > limits.max_xml_depth {
                    return Err(depth_error(part_name, limits, next));
                }
                depth = next;
                if instruction {
                    instruction_depth = instruction_depth + 1;
                }
            } else if e.kind == XmlEventKind::End {
                depth = if depth > 0 {
                    depth - 1
                } else {
                    0
                };
                if instruction {
                    instruction_depth = if instruction_depth > 0 {
                        instruction_depth - 1
                    } else {
                        0
                    };
                }
            } else if e.kind == XmlEventKind::Text && instruction_depth > 0 {
                let text = chars_of(e.text.as_str());
                let mut j: usize = 0;
                let ghost before = instructions@;
                while j < text.len()
                    invariant
                        j <= text@.len(),
                        text@ == e.text@,
                        instructions@ == before + text@.subrange(0, j as int),
                    decreases text@.len() - j,
                {
                    instructions.push(text[j]);
                    assert(before + text@.subrange(0, j + 1) =~= before + text@.subrange(0, j as int) + seq![text@[j as int]]);
                    j = j + 1;
                }
                instructions.push(' ');
                assert(text@.subrange(0, text@.len() as int) =~= text@);
                assert(before + e.text@ + seq![' '] =~= (before + e.text@).push(' '));
            } else if e.kind == XmlEventKind::DocType {
                return Err(DocxError::xml(part_name, start, "DOCTYPE declarations are not allowed"));
            }
            start = e.position;
            i = i + 1;
        }
    }
    if !ended {
        match &stream.read_error {
            Some((position, message)) => {
                return Err(DocxError::xml(part_name, *position, message.as_str()));
            },
            None => {},
        }
    }
    let upper = upper_chars(instructions.as_slice());
    let page = holds_token(upper.as_slice(), "PAGE");
    let count = holds_token(upper.as_slice(), "NUMPAGES") || holds_token(upper.as_slice(), "SECTIONPAGES");
    Ok((page, count))
}

/// Whether a header or footer part, read from its bytes, holds page number
/// fields: the outcome of [`page_number_fields_from_events`] on the events
/// the XML reader gives.
pub fn detect_page_number_fields(xml: &[u8], part_name: &str, limits: &DocxLimits) -> (result: DocxResult<
    (bool, bool),
>)
    ensures
        exists|stream: XmlStream|
            stream.source_len == xml@.len() && match (
                result,
                #[trigger] spec_page_number_fields(stream, part_name@, *limits),
            ) {
                (Ok(flags), Ok(expected)) => flags == expected,
                (Err(x), Err(fault)) => x@ == fault,
                _ => false,
            },
{
    let stream = read_part_events(xml, limits.max_xml_part_bytes);
    let result = page_number_fields_from_events(&stream, part_name, limits);
    assert(spec_page_number_fields(stream, part_name@, *limits) == spec_page_number_fields(
        stream,
        part_name@,
        *limits,
    ));
    result
}

} // verus!
