//! User-facing diagnostics.
use vstd::prelude::*;

use crate::text::Span;

verus! {

/// A diagnostic: a message together with the span it concerns
pub struct Diagnostic {
    pub message: String,
    pub span: Span,
}

/// What a diagnostic says and where
pub struct DiagnosticView {
    pub message: Seq<char>,
    pub span: Span,
}

impl View for Diagnostic {
    type V = DiagnosticView;

    open spec fn view(&self) -> DiagnosticView {
        DiagnosticView { message: self.message@, span: self.span }
    }
}

/// The views of a list of diagnostics
pub open spec fn diags_view(v: Seq<Diagnostic>) -> Seq<DiagnosticView> {
    v.map_values(|d: Diagnostic| d@)
}

impl Diagnostic {
    /// Create a diagnostic
    pub fn new(message: String, span: Span) -> (r: Diagnostic)
        ensures
            r@ == (DiagnosticView { message: message@, span }),
    {
        Diagnostic { message, span }
    }
}

} // verus!
