//! The conditions that end a run.

use vstd::prelude::*;
use crate::text::concat3;

verus! {

/// Why a value rule gave no new value.
#[derive(Clone, Copy, Debug, PartialEq, Eq, Structural)]
pub enum Failure {
    /// There is no rule for the field.
    UnrecognizedField,
    /// The current value is not a number the rule can work on, or the new
    /// value does not fit the machine word.
    InvalidValue,
}

/// A fatal condition met while reading documents or compiling patches.
#[derive(Clone, Debug, PartialEq, Eq)]
pub enum Error {
    /// A node has more than one child named `name` where at most one may be.
    StructuralViolation { name: String, address: String },
    /// A node lacks the container `name` that it must have.
    MissingMandatoryContainer { name: String, address: String },
    /// The child `name` of a node is there but holds no text.
    MissingText { name: String, address: String },
    /// No value rule knows the field `name`.
    UnrecognizedField { name: String },
    /// The value rule of field `name` cannot work on `value`.
    InvalidValue { name: String, value: String },
}

/// The mathematical content of an [`Error`].
pub enum ErrorView {
    StructuralViolation { name: Seq<char>, address: Seq<char> },
    MissingMandatoryContainer { name: Seq<char>, address: Seq<char> },
    MissingText { name: Seq<char>, address: Seq<char> },
    UnrecognizedField { name: Seq<char> },
    InvalidValue { name: Seq<char>, value: Seq<char> },
}

impl View for Error {
    type V = ErrorView;

    open spec fn view(&self) -> ErrorView {
        match self {
            Error::StructuralViolation { name, address } => ErrorView::StructuralViolation {
                name: name@,
                address: address@,
            },
            Error::MissingMandatoryContainer {
                name,
                address,
            } => ErrorView::MissingMandatoryContainer { name: name@, address: address@ },
            Error::MissingText { name, address } => ErrorView::MissingText {
                name: name@,
                address: address@,
            },
            Error::UnrecognizedField { name } => ErrorView::UnrecognizedField { name: name@ },
            Error::InvalidValue { name, value } => ErrorView::InvalidValue {
                name: name@,
                value: value@,
            },
        }
    }
}

impl ErrorView {
    /// The error that a failed value rule becomes, for the field and value
    /// it was asked about.
    pub open spec fn of_failure(failure: Failure, name: Seq<char>, value: Seq<char>) -> ErrorView {
        match failure {
            Failure::UnrecognizedField => ErrorView::UnrecognizedField { name },
            Failure::InvalidValue => ErrorView::InvalidValue { name, value },
        }
    }

    /// The sentence that reports the error.
    pub open spec fn message(self) -> Seq<char> {
        match self {
            ErrorView::StructuralViolation { name, address } => "More than one "@ + name
                + " node found in node "@ + address,
            ErrorView::MissingMandatoryContainer { name, address } => "No "@ + name
                + " node found in node "@ + address,
            ErrorView::MissingText { name, address } => "No text in "@ + name + " node of node "@
                + address,
            ErrorView::UnrecognizedField { name } => "No value rule for field "@ + name,
            ErrorView::InvalidValue { name, value } => "Value rule of field "@ + name
                + " cannot be applied to "@ + value,
        }
    }
}

impl Error {
    /// Builds the error that a failed value rule becomes.
    pub fn of_failure(failure: Failure, name: &str, value: &str) -> (r: Error)
        ensures
            r@ == ErrorView::of_failure(failure, name@, value@),
    {
        match failure {
            Failure::UnrecognizedField => Error::UnrecognizedField { name: String::from_str(name) },
            Failure::InvalidValue => Error::InvalidValue {
                name: String::from_str(name),
                value: String::from_str(value),
            },
        }
    }

    /// The sentence that reports the error.
    pub fn message(&self) -> (r: String)
        ensures
            r@ == self@.message(),
    {
        match self {
            Error::StructuralViolation { name, address } => {
                let head = concat3("More than one ", name.as_str(), " node found in node ");
                head.concat(address.as_str())
            },
            Error::MissingMandatoryContainer { name, address } => {
                let head = concat3("No ", name.as_str(), " node found in node ");
                head.concat(address.as_str())
            },
            Error::MissingText { name, address } => {
                let head = concat3("No text in ", name.as_str(), " node of node ");
                head.concat(address.as_str())
            },
            Error::UnrecognizedField { name } => {
                String::from_str("No value rule for field ").concat(name.as_str())
            },
            Error::InvalidValue { name, value } => {
                let head = concat3("Value rule of field ", name.as_str(), " cannot be applied to ");
                head.concat(value.as_str())
            },
        }
    }
}

} // verus!
