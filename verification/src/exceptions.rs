//! Errors that are final.
use vstd::prelude::*;
use vstd::string::*;

use crate::text;

verus! {

/// An error after which nothing is to be tried again.
#[derive(Debug)]
pub struct NonRetryableException {
    pub message: String,
    pub source: Option<String>,
}

impl NonRetryableException {
    /// An error without a cause.
    pub fn new(message: &str) -> (r: Self)
        ensures
            r.message@ == message@,
            r.source is None,
    {
        NonRetryableException { message: message.to_owned(), source: None }
    }

    /// An error with its cause.
    pub fn with_source(message: &str, source: &str) -> (r: Self)
        ensures
            r.message@ == message@,
            text::view_option(r.source) == Some(source@),
    {
        NonRetryableException { message: message.to_owned(), source: Some(source.to_owned()) }
    }

    /// The error in words.
    pub fn text(&self) -> (r: String)
        ensures
            r@ == match self.source {
                Some(source) => self.message@ + " (caused by: "@ + source@ + ")"@,
                None => self.message@,
            },
    {
        let mut s = self.message.clone();
        if let Some(source) = &self.source {
            s.append(" (caused by: ");
            s.append(source.as_str());
            s.append(")");
        }
        s
    }
}

} // verus!
