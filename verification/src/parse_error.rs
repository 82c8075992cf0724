use crate::hexcode::{encode, hex_text};
use vstd::prelude::*;

verus! {

/// An error met while reading a hash from text or from a stored blob.
#[derive(Clone, Debug)]
pub struct ParseHashError {
    pub(crate) description: &'static str,
    pub(crate) input: String,
    pub(crate) err: String,
}

impl ParseHashError {
    /// The kind of hash that was being read.
    pub closed spec fn spec_description(&self) -> Seq<char> {
        self.description@
    }

    /// The input that was refused; for a blob, its bytes in hexadecimal.
    pub closed spec fn spec_input(&self) -> Seq<char> {
        self.input@
    }

    /// Why the input was refused.
    pub closed spec fn spec_error_string(&self) -> Seq<char> {
        self.err@
    }

    /// The message shown for this error.
    pub open spec fn spec_text(&self) -> Seq<char> {
        "could not parse "@ + self.spec_description() + " '"@ + self.spec_input() + "': "@
            + self.spec_error_string()
    }

    /// An error about `input`, refused for the reason `err`.
    pub fn new(description: &'static str, input: &str, err: String) -> (error: Self)
        ensures
            error.spec_description() == description@,
            error.spec_input() == input@,
            error.spec_error_string() == err@,
    {
        Self { description, input: input.to_owned(), err }
    }

    /// The kind of hash that was being read.
    pub fn description(&self) -> (description: &'static str)
        ensures
            description@ == self.spec_description(),
    {
        self.description
    }

    /// The input that was refused; for a blob, its bytes in hexadecimal.
    pub fn input(&self) -> (input: &str)
        ensures
            input@ == self.spec_input(),
    {
        self.input.as_str()
    }

    /// Why the input was refused.
    pub fn error_string(&self) -> (err: &str)
        ensures
            err@ == self.spec_error_string(),
    {
        self.err.as_str()
    }

    /// An error about a stored blob, whose bytes are kept in hexadecimal.
    pub fn from_blob(description: &'static str, input: &[u8], err: String) -> (error: Self)
        ensures
            error.spec_description() == description@,
            error.spec_input() == hex_text(input@),
            error.spec_error_string() == err@,
    {
        Self { description, input: encode(input), err }
    }

    /// The message shown for this error.
    pub fn to_text(&self) -> (text: String)
        ensures
            text@ == self.spec_text(),
    {
        let mut text = "could not parse ".to_owned();
        text.append(self.description);
        text.append(" '");
        text.append(self.input.as_str());
        text.append("': ");
        text.append(self.err.as_str());
        text
    }
}

} // verus!
