//! Stable, user-presentable package and template findings.
use vstd::prelude::*;

verus! {

/// How serious a finding is; errors make a package unacceptable.
#[derive(Clone, Copy, Debug, PartialEq, Eq, PartialOrd, Ord, Structural)]
pub enum DiagnosticSeverity {
    Info,
    Warning,
    Error,
}

impl DiagnosticSeverity {
    /// The lower-case name shown to users ("info", "warning", "error").
    pub fn as_str(&self) -> (name: &'static str)
        ensures
            name@ == match *self {
                DiagnosticSeverity::Info => "info"@,
                DiagnosticSeverity::Warning => "warning"@,
                DiagnosticSeverity::Error => "error"@,
            },
    {
        match self {
            DiagnosticSeverity::Info => "info",
            DiagnosticSeverity::Warning => "warning",
            DiagnosticSeverity::Error => "error",
        }
    }
}

/// A stable, user-presentable package or template finding.
#[derive(Clone, Debug, PartialEq, Eq)]
pub struct Diagnostic {
    pub severity: DiagnosticSeverity,
    pub code: &'static str,
    pub part_name: Option<String>,
    pub message: String,
    pub suggested_action: Option<String>,
}

/// The content of a [`Diagnostic`] as plain character sequences.
pub struct DiagnosticView {
    pub severity: DiagnosticSeverity,
    pub code: Seq<char>,
    pub part_name: Option<Seq<char>>,
    pub message: Seq<char>,
    pub suggested_action: Option<Seq<char>>,
}

/// The characters of an optional string.
pub open spec fn opt_view(value: Option<String>) -> Option<Seq<char>> {
    match value {
        Some(text) => Some(text@),
        None => None,
    }
}

impl View for Diagnostic {
    type V = DiagnosticView;

    open spec fn view(&self) -> DiagnosticView {
        DiagnosticView {
            severity: self.severity,
            code: self.code@,
            part_name: opt_view(self.part_name),
            message: self.message@,
            suggested_action: opt_view(self.suggested_action),
        }
    }
}

/// Whether any finding in `diagnostics` is an error.
pub open spec fn has_error(diagnostics: Seq<DiagnosticView>) -> bool {
    exists|i: int| 0 <= i < diagnostics.len() && diagnostics[i].severity == DiagnosticSeverity::Error
}

/// The views of a vector of findings.
pub open spec fn diagnostics_view(diagnostics: Seq<Diagnostic>) -> Seq<DiagnosticView> {
    diagnostics.map_values(|d: Diagnostic| d@)
}

impl Diagnostic {
    /// A finding with every field given.
    pub fn new(
        severity: DiagnosticSeverity,
        code: &'static str,
        part_name: Option<String>,
        message: String,
        suggested_action: Option<String>,
    ) -> (diagnostic: Self)
        ensures
            diagnostic.severity == severity,
            diagnostic.code == code,
            diagnostic.part_name == part_name,
            diagnostic.message == message,
            diagnostic.suggested_action == suggested_action,
    {
        Diagnostic { severity, code, part_name, message, suggested_action }
    }

    /// An error finding without a suggested action.
    pub fn error(code: &'static str, part_name: Option<String>, message: String) -> (diagnostic:
        Self)
        ensures
            diagnostic.severity == DiagnosticSeverity::Error,
            diagnostic.code == code,
            diagnostic.part_name == part_name,
            diagnostic.message == message,
            diagnostic.suggested_action.is_none(),
    {
        Self::new(DiagnosticSeverity::Error, code, part_name, message, None)
    }

    /// A warning finding without a suggested action.
    pub fn warning(code: &'static str, part_name: Option<String>, message: String) -> (diagnostic:
        Self)
        ensures
            diagnostic.severity == DiagnosticSeverity::Warning,
            diagnostic.code == code,
            diagnostic.part_name == part_name,
            diagnostic.message == message,
            diagnostic.suggested_action.is_none(),
    {
        Self::new(DiagnosticSeverity::Warning, code, part_name, message, None)
    }
}

/// Whether any of `diagnostics` is an error.
pub fn any_error(diagnostics: &[Diagnostic]) -> (found: bool)
    ensures
        found == has_error(diagnostics_view(diagnostics@)),
{
    let mut i: usize = 0;
    while i < diagnostics.len()
        invariant
            i <= diagnostics@.len(),
            forall|j: int| 0 <= j < i ==> diagnostics@[j].severity != DiagnosticSeverity::Error,
        decreases diagnostics@.len() - i,
    {
        if diagnostics[i].severity == DiagnosticSeverity::Error {
            assert(diagnostics_view(diagnostics@)[i as int].severity == DiagnosticSeverity::Error);
            return true;
        }
        i = i + 1;
    }
    false
}

} // verus!
