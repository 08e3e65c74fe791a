//! The notes that the reconciliation leaves in its log.

use crate::resolution::{failure_text, Failure, FailureView};
use vstd::prelude::*;
use vstd::string::*;

verus! {

/// One entry of the log: something that kept a package from being settled by
/// the preferred source.
#[derive(Debug, Clone, PartialEq, Eq)]
pub enum Diagnostic {
    /// The package holds debug symbols and was passed over.
    SkippedDebug { name: String },
    /// The preferred source gave no version, so the fallback source is asked.
    Fallback { name: String, reason: Failure },
    /// The fallback source gave no version either; the package is left as it
    /// is.
    Skipped { name: String, reason: Failure },
}

/// A [`Diagnostic`] with its strings as sequences of characters.
pub enum DiagnosticView {
    SkippedDebug { name: Seq<char> },
    Fallback { name: Seq<char>, reason: FailureView },
    Skipped { name: Seq<char>, reason: FailureView },
}

impl View for Diagnostic {
    type V = DiagnosticView;

    open spec fn view(&self) -> DiagnosticView {
        match self {
            Diagnostic::SkippedDebug { name } => DiagnosticView::SkippedDebug { name: name@ },
            Diagnostic::Fallback { name, reason } => DiagnosticView::Fallback {
                name: name@,
                reason: reason@,
            },
            Diagnostic::Skipped { name, reason } => DiagnosticView::Skipped {
                name: name@,
                reason: reason@,
            },
        }
    }
}

/// The entries of a log, each as its view.
pub open spec fn log_view(log: Seq<Diagnostic>) -> Seq<DiagnosticView> {
    log.map_values(|d: Diagnostic| d@)
}

/// What [`Diagnostic::message`] says of an entry.
pub open spec fn message_text(diagnostic: DiagnosticView) -> Seq<char> {
    match diagnostic {
        DiagnosticView::SkippedDebug { name } => "Skipping debug package: "@ + name,
        DiagnosticView::Fallback { name, reason } => name + ": "@ + failure_text(reason)
            + "; asking the fallback source"@,
        DiagnosticView::Skipped { name, reason } => name + ": "@ + failure_text(reason)
            + "; skipping"@,
    }
}

impl Diagnostic {
    /// The package that the entry is about.
    pub fn package(&self) -> (r: &String)
        ensures
            r@ == match self@ {
                DiagnosticView::SkippedDebug { name } => name,
                DiagnosticView::Fallback { name, .. } => name,
                DiagnosticView::Skipped { name, .. } => name,
            },
    {
        match self {
            Diagnostic::SkippedDebug { name } => name,
            Diagnostic::Fallback { name, .. } => name,
            Diagnostic::Skipped { name, .. } => name,
        }
    }

    /// The entry as a line for the user.
    pub fn message(&self) -> (r: String)
        ensures
            r@ == message_text(self@),
    {
        match self {
            Diagnostic::SkippedDebug { name } => {
                let mut line = String::from_str("Skipping debug package: ");
                line.append(name.as_str());
                line
            },
            Diagnostic::Fallback { name, reason } => {
                let mut line = name.clone();
                line.append(": ");
                line.append(reason.describe().as_str());
                line.append("; asking the fallback source");
                line
            },
            Diagnostic::Skipped { name, reason } => {
                let mut line = name.clone();
                line.append(": ");
                line.append(reason.describe().as_str());
                line.append("; skipping");
                line
            },
        }
    }
}

} // verus!
