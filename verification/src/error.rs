//! Errors of the DOCX readers, with their content as plain values.
use vstd::prelude::*;
use crate::diagnostic::{Diagnostic, DiagnosticSeverity, DiagnosticView, diagnostics_view};
use crate::text::{decimal, push_decimal};

verus! {

/// Errors reported by the operating system while reading a package.
#[verifier::external_type_specification]
#[verifier::external_body]
pub struct ExIoError(std::io::Error);

/// Errors reported by the ZIP reader.
#[verifier::external_type_specification]
#[verifier::external_body]
pub struct ExZipError(zip::result::ZipError);

#[derive(Debug)]
pub enum DocxError {
    Io(std::io::Error),
    Zip(zip::result::ZipError),
    Xml { part_name: String, position: u64, message: String },
    LimitExceeded { resource: String, limit: u64, actual: u64 },
    Rejected { diagnostics: Vec<Diagnostic> },
}

/// The content of a [`DocxError`] as plain values.
pub enum DocxFault {
    Io,
    Zip,
    Xml { part_name: Seq<char>, position: u64, message: Seq<char> },
    LimitExceeded { resource: Seq<char>, limit: u64, actual: u64 },
    Rejected { diagnostics: Seq<DiagnosticView> },
}

impl View for DocxError {
    type V = DocxFault;

    open spec fn view(&self) -> DocxFault {
        match self {
            DocxError::Io(_) => DocxFault::Io,
            DocxError::Zip(_) => DocxFault::Zip,
            DocxError::Xml { part_name, position, message } => DocxFault::Xml {
                part_name: part_name@,
                position: *position,
                message: message@,
            },
            DocxError::LimitExceeded { resource, limit, actual } => DocxFault::LimitExceeded {
                resource: resource@,
                limit: *limit,
                actual: *actual,
            },
            DocxError::Rejected { diagnostics } => DocxFault::Rejected {
                diagnostics: diagnostics_view(diagnostics@),
            },
        }
    }
}

pub type DocxResult<T> = Result<T, DocxError>;

/// The number of errors among `diagnostics`.
pub open spec fn error_count(diagnostics: Seq<DiagnosticView>) -> nat
    decreases diagnostics.len(),
{
    if diagnostics.len() == 0 {
        0
    } else {
        error_count(diagnostics.drop_last()) + if diagnostics.last().severity
            == DiagnosticSeverity::Error {
            1nat
        } else {
            0nat
        }
    }
}

/// The text shown for an error, as the readers describe it.
pub open spec fn fault_text(fault: DocxFault, io_text: Seq<char>, zip_text: Seq<char>) -> Seq<
    char,
> {
    match fault {
        DocxFault::Io => "DOCX filesystem error: "@ + io_text,
        DocxFault::Zip => "invalid DOCX ZIP package: "@ + zip_text,
        DocxFault::Xml { part_name, position, message } => "invalid XML in "@ + part_name
            + " at byte "@ + decimal(position as nat) + ": "@ + message,
        DocxFault::LimitExceeded { resource, limit, actual } => "DOCX resource limit exceeded for "@
            + resource + ": limit "@ + decimal(limit as nat) + ", actual "@ + decimal(
            actual as nat,
        ),
        DocxFault::Rejected { diagnostics } => "DOCX package rejected with "@ + decimal(
            error_count(diagnostics),
        ) + " diagnostic error(s)"@,
    }
}

/// The operating system's description of an I/O error.
#[verifier::external_body]
fn io_error_text(error: &std::io::Error) -> String {
    format!("{error}")
}

/// The ZIP reader's description of its error.
#[verifier::external_body]
fn zip_error_text(error: &zip::result::ZipError) -> String {
    format!("{error}")
}

fn count_errors(diagnostics: &Vec<Diagnostic>) -> (count: u64)
    ensures
        count == error_count(diagnostics_view(diagnostics@)),
{
    let mut count: u64 = 0;
    let mut i: usize = 0;
    while i < diagnostics.len()
        invariant
            i <= diagnostics@.len(),
            count <= i,
            count == error_count(diagnostics_view(diagnostics@.subrange(0, i as int))),
        decreases diagnostics@.len() - i,
    {
        proof {
            let prefix = diagnostics@.subrange(0, i + 1);
            assert(diagnostics_view(prefix).drop_last() =~= diagnostics_view(
                diagnostics@.subrange(0, i as int),
            ));
        }
        if diagnostics[i].severity == DiagnosticSeverity::Error {
            count = count + 1;
        }
        i = i + 1;
    }
    assert(diagnostics@.subrange(0, diagnostics@.len() as int) =~= diagnostics@);
    count
}

impl DocxError {
    /// An XML error in `part_name` at byte `position`.
    pub fn xml(part_name: &str, position: u64, message: &str) -> (error: Self)
        ensures
            error@ == (DocxFault::Xml { part_name: part_name@, position, message: message@ }),
    {
        DocxError::Xml { part_name: part_name.to_owned(), position, message: message.to_owned() }
    }

    /// A package rejected for the given findings.
    pub fn rejected(diagnostics: Vec<Diagnostic>) -> (error: Self)
        ensures
            error@ == (DocxFault::Rejected { diagnostics: diagnostics_view(diagnostics@) }),
    {
        DocxError::Rejected { diagnostics }
    }

    /// The text shown for this error.
    pub fn message(&self) -> (text: String)
        ensures
            exists|io_text: Seq<char>, zip_text: Seq<char>| text@ == fault_text(
                self@,
                io_text,
                zip_text,
            ),
            !(self@ is Io) && !(self@ is Zip) ==> text@ == fault_text(self@, seq![], seq![]),
    {
        match self {
            DocxError::Io(error) => {
                let mut text = "DOCX filesystem error: ".to_owned();
                let detail = io_error_text(error);
                text.append(detail.as_str());
                assert(text@ == fault_text(self@, detail@, seq![]));
                text
            },
            DocxError::Zip(error) => {
                let mut text = "invalid DOCX ZIP package: ".to_owned();
                let detail = zip_error_text(error);
                text.append(detail.as_str());
                assert(text@ == fault_text(self@, seq![], detail@));
                text
            },
            DocxError::Xml { part_name, position, message } => {
                let mut text = "invalid XML in ".to_owned();
                text.append(part_name.as_str());
                text.append(" at byte ");
                push_decimal(&mut text, *position);
                text.append(": ");
                text.append(message.as_str());
                assert(text@ == fault_text(self@, seq![], seq![]));
                text
            },
            DocxError::LimitExceeded { resource, limit, actual } => {
                let mut text = "DOCX resource limit exceeded for ".to_owned();
                text.append(resource.as_str());
                text.append(": limit ");
                push_decimal(&mut text, *limit);
                text.append(", actual ");
                push_decimal(&mut text, *actual);
                assert(text@ == fault_text(self@, seq![], seq![]));
                text
            },
            DocxError::Rejected { diagnostics } => {
                let mut text = "DOCX package rejected with ".to_owned();
                push_decimal(&mut text, count_errors(diagnostics));
                text.append(" diagnostic error(s)");
                assert(text@ == fault_text(self@, seq![], seq![]));
                text
            },
        }
    }
}

} // verus!
