//! The error of decoding one unit frame.
use vstd::prelude::*;
use vstd::string::StringExecFns;

verus! {

/// What went wrong while decoding a unit frame.
#[derive(Clone, Copy, Debug, Eq, Hash, Ord, PartialEq, PartialOrd, Structural)]
pub enum ParseErrorKind {
    /// No byte of the buffer opens a unit frame.
    NoHeaderFound,
    /// The buffer ended before the frame's trailer.
    EndOfBufferNoTrailer,
    /// A word came where the frame grammar does not allow it.
    ProtocolError,
}

/// The name of a kind.
pub open spec fn kind_name(kind: ParseErrorKind) -> Seq<char> {
    match kind {
        ParseErrorKind::NoHeaderFound => "NoHeaderFound"@,
        ParseErrorKind::EndOfBufferNoTrailer => "EndOfBufferNoTrailer"@,
        ParseErrorKind::ProtocolError => "ProtocolError"@,
    }
}

impl ParseErrorKind {
    /// The name of the kind, as text.
    pub fn name(&self) -> (r: &'static str)
        ensures
            r@ == kind_name(*self),
    {
        match self {
            ParseErrorKind::NoHeaderFound => "NoHeaderFound",
            ParseErrorKind::EndOfBufferNoTrailer => "EndOfBufferNoTrailer",
            ParseErrorKind::ProtocolError => "ProtocolError",
        }
    }
}

/// A decoding error: its kind, a message, and the index of the offending byte
/// counted from the frame's header.
#[derive(Debug)]
pub struct ParseError {
    kind: ParseErrorKind,
    message: String,
    index: usize,
}

/// What a [`ParseError`] holds, as plain values.
pub struct ParseErrorView {
    pub kind: ParseErrorKind,
    pub message: Seq<char>,
    pub index: int,
}

impl View for ParseError {
    type V = ParseErrorView;

    closed spec fn view(&self) -> ParseErrorView {
        ParseErrorView { kind: self.kind, message: self.message@, index: self.index as int }
    }
}

impl ParseError {
    /// An error of the given kind, message and byte index.
    pub fn new(kind: ParseErrorKind, message: &str, index: usize) -> (r: Self)
        ensures
            r@ == (ParseErrorView { kind, message: message@, index: index as int }),
    {
        Self { kind, message: message.to_owned(), index }
    }

    /// An error that takes ownership of an already built message.
    pub fn with_message(kind: ParseErrorKind, message: String, index: usize) -> (r: Self)
        ensures
            r@ == (ParseErrorView { kind, message: message@, index: index as int }),
    {
        Self { kind, message, index }
    }

    /// The kind of the error.
    pub fn kind(&self) -> (r: ParseErrorKind)
        ensures
            r == self@.kind,
    {
        self.kind
    }

    /// The index of the offending byte, counted from the frame's header.
    pub fn err_index(&self) -> (r: usize)
        ensures
            r == self@.index,
    {
        self.index
    }

    /// The message of the error.
    pub fn message(&self) -> (r: &str)
        ensures
            r@ == self@.message,
    {
        self.message.as_str()
    }

    /// The kind's name and the message, as `"<kind>: <message>"`.
    pub fn describe(&self) -> (r: String)
        ensures
            r@ == kind_name(self@.kind) + ": "@ + self@.message,
    {
        let mut out = String::new();
        out.append(self.kind.name());
        out.append(": ");
        out.append(self.message.as_str());
        assert(out@ =~= kind_name(self@.kind) + ": "@ + self@.message);
        out
    }
}

/// The error of a decoding call.
#[derive(Debug)]
pub enum DecodeError {
    /// The buffer is shorter than the smallest event that is decoded.
    InsufficientBytes,
    /// A frame could not be decoded.
    Parse(ParseError),
    /// While skipping, no frame header was found for the packet of this number.
    SkipNoHeader(usize),
    /// While skipping, no frame trailer was found for the packet of this number.
    SkipNoTrailer(usize),
    /// The call decoded no packet at all.
    NoPackets,
}

/// What a [`DecodeError`] holds, as plain values.
pub enum DecodeErrorView {
    InsufficientBytes,
    Parse(ParseErrorView),
    SkipNoHeader(int),
    SkipNoTrailer(int),
    NoPackets,
}

impl View for DecodeError {
    type V = DecodeErrorView;

    open spec fn view(&self) -> DecodeErrorView {
        match self {
            DecodeError::InsufficientBytes => DecodeErrorView::InsufficientBytes,
            DecodeError::Parse(e) => DecodeErrorView::Parse(e@),
            DecodeError::SkipNoHeader(i) => DecodeErrorView::SkipNoHeader(*i as int),
            DecodeError::SkipNoTrailer(i) => DecodeErrorView::SkipNoTrailer(*i as int),
            DecodeError::NoPackets => DecodeErrorView::NoPackets,
        }
    }
}

} // verus!
