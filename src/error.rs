//! Lifecycle states and the error taxonomy of the parser.

use vstd::prelude::*;

verus! {

/// Where a node stands in its lifecycle. Transitions only move forward.
#[derive(Debug, Clone, Copy, PartialEq, Eq, Structural)]
pub enum CloseableState {
    Unopened,
    Open,
    Closed,
}

impl CloseableState {
    /// A lower-case name of the state, for messages.
    pub fn name(&self) -> (r: &'static str)
        ensures
            r@ == match *self {
                CloseableState::Unopened => "unopened"@,
                CloseableState::Open => "open"@,
                CloseableState::Closed => "closed"@,
            },
    {
        match self {
            CloseableState::Unopened => "unopened",
            CloseableState::Open => "open",
            CloseableState::Closed => "closed",
        }
    }
}

/// Why the text of a leaf tag could not become its value.
#[derive(Debug, Clone, Copy, PartialEq, Eq, Structural)]
pub enum ValueErrorKind {
    NonUTF8,
    InvalidInt,
    InvalidFloat,
}

impl ValueErrorKind {
    /// A short description, for messages.
    pub fn message(&self) -> (r: &'static str)
        ensures
            r@ == match *self {
                ValueErrorKind::NonUTF8 => "not a UTF-8 value"@,
                ValueErrorKind::InvalidInt => "invalid integer value"@,
                ValueErrorKind::InvalidFloat => "invalid float value"@,
            },
    {
        match self {
            ValueErrorKind::NonUTF8 => "not a UTF-8 value",
            ValueErrorKind::InvalidInt => "invalid integer value",
            ValueErrorKind::InvalidFloat => "invalid float value",
        }
    }
}

/// A leaf value that failed to parse, with the name of the field it belongs to.
#[derive(Debug, Clone, Copy)]
pub struct ValueError {
    pub field: &'static str,
    pub reason: ValueErrorKind,
}

/// Attaches the name of the field being parsed to the error of a leaf value.
pub trait FieldResultMap<T>: Sized {
    /// The result with any error kind turned into an error naming `field`.
    spec fn field_spec(self, field: &'static str) -> Result<T, ValueError>;

    fn map_field_err(self, field: &'static str) -> (r: Result<T, ValueError>)
        ensures
            r == self.field_spec(field),
    ;
}

impl<T> FieldResultMap<T> for Result<T, ValueErrorKind> {
    open spec fn field_spec(self, field: &'static str) -> Result<T, ValueError> {
        match self {
            Ok(v) => Ok(v),
            Err(kind) => Err(ValueError { field, reason: kind }),
        }
    }

    fn map_field_err(self, field: &'static str) -> (r: Result<T, ValueError>) {
        let ghost given = self;
        match self {
            Ok(v) => {
                assert(given == Ok::<T, ValueErrorKind>(v));
                assert(given.field_spec(field) == Ok::<T, ValueError>(v));
                Ok(v)
            },
            Err(kind) => Err(ValueError { field, reason: kind }),
        }
    }
}

/// A path given as a dump file that does not name a file.
#[derive(Debug, Clone)]
pub struct NotAFile {
    pub provided: String,
}

/// Everything that can go wrong while events are fed to the document model.
#[derive(Debug, Clone, Copy)]
pub enum ParseError {
    /// The document failed the one-time validation of its root element.
    InvalidFormat { reason: &'static str },
    /// A tag lacks an attribute that its record requires.
    MissingAttribute { parent: &'static str, attribute: &'static str },
    /// The text of a leaf tag did not parse into its value.
    ValueError(ValueError),
    /// An event reached a node that is not in a state to take it.
    BadCloseableState(CloseableState),
    /// No dispatch rule matched the event.
    UnhandledEvent { reason: &'static str },
    /// Attribute bytes that are not UTF-8.
    EncodingError,
}

pub type ParseResult<T> = Result<T, ParseError>;

/// The event was refused as arriving in the wrong state or matching no rule.
pub open spec fn refused(r: ParseResult<()>) -> bool {
    r is Err && (r->Err_0 is BadCloseableState || r->Err_0 is UnhandledEvent)
}

} // verus!
