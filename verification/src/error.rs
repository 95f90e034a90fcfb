use vstd::prelude::*;

verus! {

/// Why a byte sequence, a method token or a status number was refused.
///
/// Every variant is recoverable: the caller is expected to answer with a
/// 400-class response and drop the connection, not to abort.
#[derive(Debug, Clone, Copy, PartialEq, Eq, Structural)]
pub enum Error {
    /// The method token is not one of the nine recognised methods.
    InvalidMethod,
    /// The number is not a recognised status code.
    InvalidStatusCode,
    /// A carriage return is followed by a byte other than a line feed.
    MalformedLineEnding,
    /// A line is not valid UTF-8.
    InvalidUtf8,
    /// The start line is empty or has fewer than three space-separated fields.
    MalformedStartLine,
    /// The protocol version is not `HTTP/1.1`.
    UnsupportedVersion,
    /// A header line lacks the `": "` separator.
    MalformedHeader,
    /// The `Content-Length` value is not a decimal number that fits a `usize`.
    InvalidContentLength,
    /// The status line does not have the form `HTTP/1.1 CODE REASON`, or its
    /// reason is not the canonical phrase of its code.
    MalformedStatusLine,
}

impl Error {
    /// A short lower-case description, suitable for a log line.
    pub fn message(&self) -> (text: &'static str)
        ensures
            text@ == self.description()@,
    {
        match self {
            Error::InvalidMethod => "invalid request method",
            Error::InvalidStatusCode => "invalid status code",
            Error::MalformedLineEnding => "carriage return without line feed",
            Error::InvalidUtf8 => "line is not valid UTF-8",
            Error::MalformedStartLine => "malformed start line",
            Error::UnsupportedVersion => "unsupported protocol version",
            Error::MalformedHeader => "malformed header line",
            Error::InvalidContentLength => "invalid content-length header",
            Error::MalformedStatusLine => "malformed status line",
        }
    }

    /// The description that [`Error::message`] returns.
    pub open spec fn description(&self) -> &'static str {
        match self {
            Error::InvalidMethod => "invalid request method",
            Error::InvalidStatusCode => "invalid status code",
            Error::MalformedLineEnding => "carriage return without line feed",
            Error::InvalidUtf8 => "line is not valid UTF-8",
            Error::MalformedStartLine => "malformed start line",
            Error::UnsupportedVersion => "unsupported protocol version",
            Error::MalformedHeader => "malformed header line",
            Error::InvalidContentLength => "invalid content-length header",
            Error::MalformedStatusLine => "malformed status line",
        }
    }
}

} // verus!
