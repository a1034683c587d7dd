//! The configuration record and the text model of filesystem paths.
//!
//! A path enters the library either as valid text or as a lossy rendering of
//! a name that has no text form; the resolver may only use the former, and
//! the latter is a fatal template error carrying the lossy rendering.

use vstd::prelude::*;

use crate::errors::{res_view, TemplateError, TemplateErrorV};

verus! {

/// A filesystem path as the logic sees it: either its exact text, or, for a
/// name that cannot be represented as text, a lossy rendering kept only for
/// the error message.
#[derive(Debug, Clone)]
pub enum PathText {
    /// A path whose name is valid text.
    Text(String),
    /// A path with no text form; the field is its lossy rendering.
    Lossy(String),
}

/// The view of a `PathText`.
pub enum PathTextV {
    Text(Seq<char>),
    Lossy(Seq<char>),
}

impl View for PathText {
    type V = PathTextV;

    open spec fn view(&self) -> PathTextV {
        match self {
            PathText::Text(s) => PathTextV::Text(s@),
            PathText::Lossy(s) => PathTextV::Lossy(s@),
        }
    }
}

/// Converting a path to text: the exact text for a valid name, or a
/// `BadPath` error carrying the lossy rendering.
pub open spec fn cvpath_spec(p: PathTextV) -> Result<Seq<char>, TemplateErrorV> {
    match p {
        PathTextV::Text(s) => Ok(s),
        PathTextV::Lossy(l) => Err(TemplateErrorV::BadPath(l)),
    }
}

/// Convert a path to text, failing on a path that has no text form.
pub fn cvpath(p: &PathText) -> (r: Result<String, TemplateError>)
    ensures
        res_view(r) == cvpath_spec(p@),
{
    match p {
        PathText::Text(s) => Ok(s.clone()),
        PathText::Lossy(l) => Err(TemplateError::BadPath(l.clone())),
    }
}

/// Appending two further components to a directory path with the
/// platform-neutral separator; a path without a text form stays without
/// one, the components appended to its lossy rendering.
pub open spec fn join2_spec(base: PathTextV, a: Seq<char>, b: Seq<char>) -> PathTextV {
    match base {
        PathTextV::Text(s) => PathTextV::Text(s + "/"@ + a + "/"@ + b),
        PathTextV::Lossy(l) => PathTextV::Lossy(l + "/"@ + a + "/"@ + b),
    }
}

/// The immutable configuration shared by all suite runs: the interpreter,
/// the build and source roots, the host triple, the per-mode output cache,
/// and the oracle-data directory.  All paths must be representable as text;
/// one that is not surfaces as a fatal template error, never as a
/// classification outcome.
#[derive(Debug, Clone)]
pub struct Configuration {
    pub python: PathText,
    pub rust_buildroot: PathText,
    pub rust_srcroot: PathText,
    pub host: String,
    pub cachedir: PathText,
    pub datadir: PathText,
}

/// The view of a `Configuration`.
pub struct ConfigurationV {
    pub python: PathTextV,
    pub rust_buildroot: PathTextV,
    pub rust_srcroot: PathTextV,
    pub host: Seq<char>,
    pub cachedir: PathTextV,
    pub datadir: PathTextV,
}

impl View for Configuration {
    type V = ConfigurationV;

    open spec fn view(&self) -> ConfigurationV {
        ConfigurationV {
            python: self.python@,
            rust_buildroot: self.rust_buildroot@,
            rust_srcroot: self.rust_srcroot@,
            host: self.host@,
            cachedir: self.cachedir@,
            datadir: self.datadir@,
        }
    }
}

impl Configuration {
    /// The output directory of one checker mode for one suite:
    /// `cachedir/<mode>/<kind>`.
    pub fn target_dir(&self, mode: &str, kind: &str) -> (r: PathText)
        ensures
            r@ == join2_spec(self.cachedir@, mode@, kind@),
    {
        match &self.cachedir {
            PathText::Text(s) => {
                let mut out = s.clone();
                out.append("/");
                out.append(mode);
                out.append("/");
                out.append(kind);
                PathText::Text(out)
            },
            PathText::Lossy(l) => {
                let mut out = l.clone();
                out.append("/");
                out.append(mode);
                out.append("/");
                out.append(kind);
                PathText::Lossy(out)
            },
        }
    }
}

} // verus!
