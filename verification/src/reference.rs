//! Resource references: absolute URLs, or paths relative to the
//! service's base URL that are made absolute at serialization time.

use vstd::prelude::*;

verus! {

/// Model of a reference.
pub enum SpecReference {
    Absolute(Seq<char>),
    Relative(Seq<char>),
}

/// A reference to a resource: an absolute URL, or a path relative to
/// the request-scoped base URL.
#[derive(Debug, Clone, PartialEq, Eq)]
pub enum ReferenceInner {
    /// An absolute URL, kept as given.
    Absolute(String),
    /// A path below the service's base URL.
    Relative(String),
}

/// A reference to a resource or an external location.
#[derive(Debug, Clone, PartialEq, Eq)]
pub struct Reference(pub ReferenceInner);

impl View for Reference {
    type V = SpecReference;

    open spec fn view(&self) -> SpecReference {
        match &self.0 {
            ReferenceInner::Absolute(s) => SpecReference::Absolute(s@),
            ReferenceInner::Relative(s) => SpecReference::Relative(s@),
        }
    }
}

/// The absolute text of a reference under the given base URL: a
/// relative path is appended to the base, an absolute URL stands alone.
pub open spec fn sp_resolve_reference(r: SpecReference, base_url: Seq<char>) -> Seq<char> {
    match r {
        SpecReference::Absolute(s) => s,
        SpecReference::Relative(s) => base_url + s,
    }
}

impl Reference {
    /// Creates a reference relative to the service's base URL.
    pub fn new_relative(relative: &str) -> (r: Reference)
        ensures
            r@ == SpecReference::Relative(relative@),
    {
        Reference(ReferenceInner::Relative(String::from_str(relative)))
    }

    /// Creates an absolute reference.
    pub fn new_absolute(absolute: &str) -> (r: Reference)
        ensures
            r@ == SpecReference::Absolute(absolute@),
    {
        Reference(ReferenceInner::Absolute(String::from_str(absolute)))
    }

    /// Renders this reference absolute under the given base URL.
    pub fn resolve(&self, base_url: &str) -> (r: String)
        ensures
            r@ == sp_resolve_reference(self@, base_url@),
    {
        match &self.0 {
            ReferenceInner::Absolute(s) => s.clone(),
            ReferenceInner::Relative(s) => {
                let mut r = String::from_str(base_url);
                r.append(s.as_str());
                r
            },
        }
    }
}

} // verus!
