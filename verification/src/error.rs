//! The ways in which a generation can fail.

use vstd::prelude::*;
use vstd::string::StringExecFns;

verus! {

/// A failure, with the names it speaks of as character sequences.
pub enum Failure {
    /// No enumeration name was given.
    MissingEnumName,
    /// No text to scan was given.
    MissingContent,
    /// An option that takes a string was given another literal.
    NotAString { literal: Seq<char> },
    /// An option that takes a boolean was given another literal.
    NotABool { literal: Seq<char> },
    /// A `#define` line holds no name.
    MissingDefineName,
    /// A `#define` line holds a name and no value.
    MissingDefineValue,
    /// `name` refers to `reference`, which no earlier line defines.
    DefinedAhead { name: Seq<char>, reference: Seq<char> },
}

impl Failure {
    /// The message that describes the failure.
    pub open spec fn message(self) -> Seq<char> {
        match self {
            Failure::MissingEnumName => "Not specified enum name"@,
            Failure::MissingContent => "Content is missing."@,
            Failure::NotAString { literal } => "Lit "@ + literal + " is not a String."@,
            Failure::NotABool { literal } => "Lit "@ + literal + " is not a bool."@,
            Failure::MissingDefineName => "missing define name"@,
            Failure::MissingDefineValue => "missing define value"@,
            Failure::DefinedAhead { name, reference } => name + " is defined ahead of "@
                + reference,
        }
    }
}

/// A failure of the generation. Every failure is fatal to the generation.
#[derive(Debug, PartialEq, Eq)]
pub enum Error {
    /// No enumeration name was given.
    MissingEnumName,
    /// No text to scan was given.
    MissingContent,
    /// An option that takes a string was given another literal.
    NotAString { literal: String },
    /// An option that takes a boolean was given another literal.
    NotABool { literal: String },
    /// A `#define` line holds no name.
    MissingDefineName,
    /// A `#define` line holds a name and no value.
    MissingDefineValue,
    /// `name` refers to `reference`, which no earlier line defines.
    DefinedAhead { name: String, reference: String },
}

impl View for Error {
    type V = Failure;

    open spec fn view(&self) -> Failure {
        match self {
            Error::MissingEnumName => Failure::MissingEnumName,
            Error::MissingContent => Failure::MissingContent,
            Error::NotAString { literal } => Failure::NotAString { literal: literal@ },
            Error::NotABool { literal } => Failure::NotABool { literal: literal@ },
            Error::MissingDefineName => Failure::MissingDefineName,
            Error::MissingDefineValue => Failure::MissingDefineValue,
            Error::DefinedAhead { name, reference } => Failure::DefinedAhead {
                name: name@,
                reference: reference@,
            },
        }
    }
}

impl Error {
    /// The human-readable message of the failure.
    pub fn message(&self) -> (message: String)
        ensures
            message@ == self@.message(),
    {
        match self {
            Error::MissingEnumName => "Not specified enum name".to_owned(),
            Error::MissingContent => "Content is missing.".to_owned(),
            Error::NotAString { literal } => {
                let mut message = "Lit ".to_owned();
                message.append(literal.as_str());
                message.append(" is not a String.");
                message
            },
            Error::NotABool { literal } => {
                let mut message = "Lit ".to_owned();
                message.append(literal.as_str());
                message.append(" is not a bool.");
                message
            },
            Error::MissingDefineName => "missing define name".to_owned(),
            Error::MissingDefineValue => "missing define value".to_owned(),
            Error::DefinedAhead { name, reference } => {
                let mut message = name.clone();
                message.append(" is defined ahead of ");
                message.append(reference.as_str());
                message
            },
        }
    }
}

} // verus!
