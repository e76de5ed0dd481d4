//! Diagnostics reported by a compilation, and the list that collects them.

use crate::seqs::{lemma_filter_take_none, lemma_filter_take_step};
use vstd::prelude::*;

verus! {

/// `std::io::Error`, carried through as it is.
#[verifier::external_type_specification]
#[verifier::external_body]
pub struct ExIoError(std::io::Error);

/// How serious a diagnostic is.
#[derive(Debug, Clone, Copy, PartialEq, Eq, Structural)]
pub enum Severity {
    Error,
    Warning,
    Info,
    Hint,
}

/// Where in the sources a diagnostic points. `file` is the path of the source
/// file as text.
#[derive(Debug, Clone, PartialEq, Eq)]
pub struct SourceLocation {
    pub file: String,
    pub line: usize,
    pub column: usize,
}

/// A further place that a diagnostic refers to.
#[derive(Debug, Clone)]
pub struct DiagnosticRelated {
    pub location: SourceLocation,
    pub message: String,
}

/// One message of a compilation.
#[derive(Debug, Clone)]
pub struct Diagnostic {
    pub severity: Severity,
    pub message: String,
    pub location: Option<SourceLocation>,
    pub code: Option<String>,
    pub related: Vec<DiagnosticRelated>,
}

impl Diagnostic {
    pub fn error(message: String) -> (d: Diagnostic)
        ensures
            d.severity == Severity::Error,
            d.message == message,
            d.location.is_none(),
            d.code.is_none(),
            d.related@.len() == 0,
    {
        Diagnostic {
            severity: Severity::Error,
            message,
            location: None,
            code: None,
            related: Vec::new(),
        }
    }

    pub fn warning(message: String) -> (d: Diagnostic)
        ensures
            d.severity == Severity::Warning,
            d.message == message,
            d.location.is_none(),
            d.code.is_none(),
            d.related@.len() == 0,
    {
        Diagnostic {
            severity: Severity::Warning,
            message,
            location: None,
            code: None,
            related: Vec::new(),
        }
    }

    pub fn with_location(self, location: SourceLocation) -> (d: Diagnostic)
        ensures
            d == (Diagnostic { location: Some(location), ..self }),
    {
        let mut d = self;
        d.location = Some(location);
        d
    }

    pub fn with_code(self, code: String) -> (d: Diagnostic)
        ensures
            d == (Diagnostic { code: Some(code), ..self }),
    {
        let mut d = self;
        d.code = Some(code);
        d
    }
}

/// Errors of the compiler integration.
#[derive(Debug)]
pub enum TypstError {
    CompilationFailed(String),
    FileNotFound(String),
    IoError(std::io::Error),
    WorldError(String),
}

/// The diagnostics that a list of references points at.
pub open spec fn pointed(v: Seq<&Diagnostic>) -> Seq<Diagnostic> {
    Seq::new(v.len(), |i: int| *v[i])
}

/// The diagnostics of one compilation, in the order they were reported.
#[derive(Debug, Clone, Default)]
pub struct DiagnosticList {
    pub diagnostics: Vec<Diagnostic>,
}

impl DiagnosticList {
    pub fn new() -> (l: DiagnosticList)
        ensures
            l.diagnostics@.len() == 0,
    {
        DiagnosticList { diagnostics: Vec::new() }
    }

    pub fn add(&mut self, diagnostic: Diagnostic)
        ensures
            final(self).diagnostics@ == old(self).diagnostics@.push(diagnostic),
    {
        self.diagnostics.push(diagnostic);
    }

    pub fn has_errors(&self) -> (r: bool)
        ensures
            r == exists|i: int|
                0 <= i < self.diagnostics@.len() && (#[trigger] self.diagnostics@[i]).severity
                    == Severity::Error,
    {
        let mut i: usize = 0;
        while i < self.diagnostics.len()
            invariant
                i <= self.diagnostics@.len(),
                forall|j: int|
                    0 <= j < i ==> (#[trigger] self.diagnostics@[j]).severity != Severity::Error,
            decreases self.diagnostics@.len() - i,
        {
            if self.diagnostics[i].severity == Severity::Error {
                return true;
            }
            i = i + 1;
        }
        false
    }

    /// The diagnostics of the given severity, in order.
    pub fn of_severity(&self, severity: Severity) -> (r: Vec<&Diagnostic>)
        ensures
            pointed(r@) == self.diagnostics@.filter(|d: Diagnostic| d.severity == severity),
    {
        let ghost keep = |d: Diagnostic| d.severity == severity;
        let mut found: Vec<&Diagnostic> = Vec::new();
        let mut i: usize = 0;
        proof {
            lemma_filter_take_none(self.diagnostics@, keep);
            assert(pointed(found@) =~= self.diagnostics@.take(0).filter(keep));
        }
        while i < self.diagnostics.len()
            invariant
                i <= self.diagnostics@.len(),
                keep == (|d: Diagnostic| d.severity == severity),
                pointed(found@) == self.diagnostics@.take(i as int).filter(keep),
            decreases self.diagnostics@.len() - i,
        {
            proof {
                lemma_filter_take_step(self.diagnostics@, keep, i as int);
            }
            let ghost before = found@;
            if self.diagnostics[i].severity == severity {
                found.push(&self.diagnostics[i]);
                assert(pointed(found@) =~= pointed(before).push(self.diagnostics@[i as int]));
            }
            i = i + 1;
        }
        assert(self.diagnostics@.take(self.diagnostics@.len() as int) =~= self.diagnostics@);
        found
    }

    /// The errors, in order.
    pub fn errors(&self) -> (r: Vec<&Diagnostic>)
        ensures
            pointed(r@) == self.diagnostics@.filter(|d: Diagnostic| d.severity == Severity::Error),
    {
        self.of_severity(Severity::Error)
    }

    /// The warnings, in order.
    pub fn warnings(&self) -> (r: Vec<&Diagnostic>)
        ensures
            pointed(r@) == self.diagnostics@.filter(
                |d: Diagnostic| d.severity == Severity::Warning,
            ),
    {
        self.of_severity(Severity::Warning)
    }

    pub fn clear(&mut self)
        ensures
            final(self).diagnostics@.len() == 0,
    {
        self.diagnostics.clear();
    }
}

} // verus!
