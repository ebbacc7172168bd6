use vstd::prelude::*;

use anyhow::Error as AnyhowError;

verus! {

/// An error described by a text, with an optional error that caused it.
pub struct SimpleError {
    src: Option<AnyhowError>,
    desc: String,
}

impl SimpleError {
    pub closed spec fn desc_view(&self) -> Seq<char> {
        self.desc@
    }

    pub closed spec fn source_view(&self) -> Option<AnyhowError> {
        self.src
    }

    pub fn new(src: Option<AnyhowError>, desc: &str) -> (r: SimpleError)
        ensures
            r.desc_view() == desc@,
            r.source_view() == src,
    {
        SimpleError { src, desc: String::from_str(desc) }
    }

    /// The error that caused this one, if any.
    pub fn source(&self) -> (r: Option<&AnyhowError>)
        ensures
            match self.source_view() {
                None => r is None,
                Some(e) => r == Some(&e),
            },
    {
        match &self.src {
            None => None,
            Some(e) => Some(e),
        }
    }

    pub fn description(&self) -> (r: &str)
        ensures
            r@ == self.desc_view(),
    {
        self.desc.as_str()
    }

    /// The text shown for the error.
    pub fn to_string(&self) -> (r: String)
        ensures
            r@ == "error: "@ + self.desc_view(),
    {
        String::from_str("error: ").concat(self.desc.as_str())
    }
}

} // verus!
