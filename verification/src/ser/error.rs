//! The failures that encoding and decoding report.

use crate::text::push_str;
use vstd::prelude::*;

verus! {

/// A failure of a single encode or decode call.
#[derive(Debug, Clone, PartialEq)]
pub enum SerializeError {
    /// The byte sink or source failed; the text names the cause.
    Io(String),
    /// A document is larger than the configured maximum.
    BufferOverflow,
    /// A value breaks a structural rule of the format.
    InvalidValue(String),
    /// Bytes that should be text are not UTF-8.
    Utf8(String),
    /// A document is truncated or its frame is malformed.
    InvalidDocument(String),
    /// A deprecated kind of value was met where none is accepted.
    Deprecated(String),
    /// Reserved for 128-bit decimal floating point.
    NotImplemented,
    /// The configuration forbids the operation.
    NotSupported(String),
}

/// The mathematical value of a [`SerializeError`].
pub enum ErrorView {
    Io(Seq<char>),
    BufferOverflow,
    InvalidValue(Seq<char>),
    Utf8(Seq<char>),
    InvalidDocument(Seq<char>),
    Deprecated(Seq<char>),
    NotImplemented,
    NotSupported(Seq<char>),
}

impl View for SerializeError {
    type V = ErrorView;

    open spec fn view(&self) -> ErrorView {
        match self {
            SerializeError::Io(s) => ErrorView::Io(s@),
            SerializeError::BufferOverflow => ErrorView::BufferOverflow,
            SerializeError::InvalidValue(s) => ErrorView::InvalidValue(s@),
            SerializeError::Utf8(s) => ErrorView::Utf8(s@),
            SerializeError::InvalidDocument(s) => ErrorView::InvalidDocument(s@),
            SerializeError::Deprecated(s) => ErrorView::Deprecated(s@),
            SerializeError::NotImplemented => ErrorView::NotImplemented,
            SerializeError::NotSupported(s) => ErrorView::NotSupported(s@),
        }
    }
}

/// The line of text that describes a failure.
pub open spec fn error_text(e: ErrorView) -> Seq<char> {
    match e {
        ErrorView::Io(s) => "I/O error: "@ + s,
        ErrorView::BufferOverflow => "Buffer Overflow"@,
        ErrorView::InvalidValue(s) => "Invalid value: "@ + s,
        ErrorView::Utf8(s) => "Invalid UTF-8 string: "@ + s,
        ErrorView::InvalidDocument(s) => "Invalid BSON document: "@ + s,
        ErrorView::Deprecated(s) => "Deprecated: "@ + s,
        ErrorView::NotImplemented => "Not Implemented"@,
        ErrorView::NotSupported(_) => "Not Supported"@,
    }
}

/// What a fallible call returned, with the error taken by its view.
pub open spec fn outcome<T>(r: Result<T, SerializeError>) -> Result<T, ErrorView> {
    match r {
        Ok(t) => Ok(t),
        Err(e) => Err(e@),
    }
}

impl SerializeError {
    /// The line of text that describes this failure.
    pub fn to_string(&self) -> (s: String)
        ensures
            s@ == error_text(self@),
    {
        let mut s = String::new();
        match self {
            SerializeError::Io(d) => {
                push_str(&mut s, "I/O error: ");
                push_str(&mut s, d.as_str());
            },
            SerializeError::BufferOverflow => {
                push_str(&mut s, "Buffer Overflow");
            },
            SerializeError::InvalidValue(d) => {
                push_str(&mut s, "Invalid value: ");
                push_str(&mut s, d.as_str());
            },
            SerializeError::Utf8(d) => {
                push_str(&mut s, "Invalid UTF-8 string: ");
                push_str(&mut s, d.as_str());
            },
            SerializeError::InvalidDocument(d) => {
                push_str(&mut s, "Invalid BSON document: ");
                push_str(&mut s, d.as_str());
            },
            SerializeError::Deprecated(d) => {
                push_str(&mut s, "Deprecated: ");
                push_str(&mut s, d.as_str());
            },
            SerializeError::NotImplemented => {
                push_str(&mut s, "Not Implemented");
            },
            SerializeError::NotSupported(_) => {
                push_str(&mut s, "Not Supported");
            },
        }
        assert(s@ =~= error_text(self@));
        s
    }
}

} // verus!
