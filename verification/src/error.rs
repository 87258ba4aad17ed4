//! What can go wrong: at generation time and when a builder is asked to build.
use vstd::prelude::*;
use vstd::string::*;
use crate::schema::Location;

verus! {

/// The failures of the engine.
#[derive(Debug, PartialEq, Eq)]
pub enum Error {
    /// The definition is not a record with labelled fields.
    UnsupportedShape,
    /// An annotation does not follow the grammar of its generator.
    MalformedDirective { message: String, location: Location },
    /// A build was asked for while a required field had no value.
    MissingField(String),
}

/// The mathematical model of an [`Error`].
pub enum ErrorView {
    UnsupportedShape,
    MalformedDirective { message: Seq<char>, location: Location },
    MissingField(Seq<char>),
}

impl View for Error {
    type V = ErrorView;

    open spec fn view(&self) -> ErrorView {
        match self {
            Error::UnsupportedShape => ErrorView::UnsupportedShape,
            Error::MalformedDirective { message, location } => ErrorView::MalformedDirective {
                message: message@,
                location: *location,
            },
            Error::MissingField(name) => ErrorView::MissingField(name@),
        }
    }
}

/// The text that an error shows to a person.
pub open spec fn message_of(error: ErrorView) -> Seq<char> {
    match error {
        ErrorView::UnsupportedShape => "expected a record with labelled fields"@,
        ErrorView::MalformedDirective { message, .. } => message,
        ErrorView::MissingField(name) => "missing "@ + name,
    }
}

impl Error {
    /// The text that this error shows to a person. A missing field is named.
    pub fn message(&self) -> (r: String)
        ensures
            r@ == message_of(self@),
    {
        match self {
            Error::UnsupportedShape => String::from_str("expected a record with labelled fields"),
            Error::MalformedDirective { message, .. } => message.clone(),
            Error::MissingField(name) => String::from_str("missing ").concat(name.as_str()),
        }
    }
}

} // verus!
