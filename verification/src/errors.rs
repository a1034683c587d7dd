//! The error type of the template resolver, with its spec-level view.

use vstd::prelude::*;

verus! {

/// A fatal defect found while resolving a command template.  These abort
/// the run; they are never classification outcomes.
#[derive(Debug, Clone, PartialEq, Eq)]
pub enum TemplateError {
    /// A placeholder names a variable the configuration does not recognize.
    UnknownVar(String),
    /// A resolved value is a path that cannot be represented as text; the
    /// field is its lossy rendering.
    BadPath(String),
    /// An opening brace without a closing brace.
    Unclosed,
}

/// The view of a `TemplateError`.
pub enum TemplateErrorV {
    UnknownVar(Seq<char>),
    BadPath(Seq<char>),
    Unclosed,
}

impl View for TemplateError {
    type V = TemplateErrorV;

    open spec fn view(&self) -> TemplateErrorV {
        match self {
            TemplateError::UnknownVar(s) => TemplateErrorV::UnknownVar(s@),
            TemplateError::BadPath(s) => TemplateErrorV::BadPath(s@),
            TemplateError::Unclosed => TemplateErrorV::Unclosed,
        }
    }
}

/// The view of a string-or-template-error result.
pub open spec fn res_view(r: Result<String, TemplateError>) -> Result<Seq<char>, TemplateErrorV> {
    match r {
        Ok(s) => Ok(s@),
        Err(e) => Err(e@),
    }
}

} // verus!
