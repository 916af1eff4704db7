//! Typed identifier values: each identifier scheme gets a distinct type so
//! that callers cannot hand a book number where a record key belongs, while
//! the parse and format logic is shared through one trait.

use vstd::prelude::*;

use vstd::string::StringExecFns;

use crate::OpenLibraryError;

verus! {

/// A typed identifier value with the acronym of its scheme.
pub trait Identifier {
    /// The characters of the acronym of the scheme.
    spec fn spec_acronym(&self) -> Seq<char>;

    /// The characters of the identifier.
    spec fn spec_value(&self) -> Seq<char>;

    /// The uppercase acronym of the scheme this identifier belongs to.
    fn acronym(&self) -> (r: &'static str)
        ensures
            r@ == self.spec_acronym(),
    ;

    /// The identifier string itself.
    fn value(&self) -> (r: &str)
        ensures
            r@ == self.spec_value(),
    ;
}

/// An International Standard Book Number, held verbatim.
#[derive(Clone, Debug, PartialEq, Eq, Hash)]
pub struct InternationalStandardBookNumber(String);

/// An Open Library record identifier, held verbatim.
#[derive(Clone, Debug, PartialEq, Eq, Hash)]
pub struct OpenLibraryIdentifer(String);

impl InternationalStandardBookNumber {
    /// Wraps an identifier string verbatim.
    pub fn new(value: String) -> (r: InternationalStandardBookNumber)
        ensures
            r.spec_value() == value@,
    {
        InternationalStandardBookNumber(value)
    }
}

impl OpenLibraryIdentifer {
    /// Wraps an identifier string verbatim.
    pub fn new(value: String) -> (r: OpenLibraryIdentifer)
        ensures
            r.spec_value() == value@,
    {
        OpenLibraryIdentifer(value)
    }

    /// The identifier string.
    pub fn as_str(&self) -> (r: &str)
        ensures
            r@ == self.spec_value(),
    {
        self.0.as_str()
    }
}

impl Identifier for InternationalStandardBookNumber {
    open spec fn spec_acronym(&self) -> Seq<char> {
        "ISBN"@
    }

    closed spec fn spec_value(&self) -> Seq<char> {
        self.0@
    }

    fn acronym(&self) -> (r: &'static str) {
        "ISBN"
    }

    fn value(&self) -> (r: &str) {
        self.0.as_str()
    }
}

impl Identifier for OpenLibraryIdentifer {
    open spec fn spec_acronym(&self) -> Seq<char> {
        "OLID"@
    }

    closed spec fn spec_value(&self) -> Seq<char> {
        self.0@
    }

    fn acronym(&self) -> (r: &'static str) {
        "OLID"
    }

    fn value(&self) -> (r: &str) {
        self.0.as_str()
    }
}

impl core::str::FromStr for InternationalStandardBookNumber {
    type Err = OpenLibraryError;

    fn from_str(s: &str) -> Result<InternationalStandardBookNumber, OpenLibraryError> {
        Ok(InternationalStandardBookNumber(<String as StringExecFns>::from_str(s)))
    }
}

impl core::str::FromStr for OpenLibraryIdentifer {
    type Err = OpenLibraryError;

    fn from_str(s: &str) -> Result<OpenLibraryIdentifer, OpenLibraryError> {
        Ok(OpenLibraryIdentifer(<String as StringExecFns>::from_str(s)))
    }
}

} // verus!
