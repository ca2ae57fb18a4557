//! The ways in which a piece of text can fail to parse.

use vstd::prelude::*;

verus! {

/// Why a buffer, a line or a token was rejected.
#[derive(Debug, Clone, Copy, PartialEq, Eq, Structural)]
pub enum ParseError {
    /// The buffer is not valid UTF-8.
    InvalidUtf8,
    /// The request line has fewer than three tokens.
    InvalidRequestLine,
    /// The method token is neither `GET` nor `POST`.
    UnknownMethod,
    /// A header line holds no `": "`.
    InvalidHeader,
    /// The text is not the numeric string of a known status code.
    InvalidStatusCode,
}

/// What a `ParseError` says of itself.
pub open spec fn description(e: ParseError) -> Seq<char> {
    match e {
        ParseError::InvalidUtf8 => "invalid utf-8 in the request"@,
        ParseError::InvalidRequestLine => "invalid http header line len"@,
        ParseError::UnknownMethod => "failed to convert the http request method"@,
        ParseError::InvalidHeader => "invalid http header len"@,
        ParseError::InvalidStatusCode => "invalid status code provided"@,
    }
}

impl ParseError {
    /// The error in words.
    pub fn to_string(&self) -> (text: String)
        ensures
            text@ == description(*self),
    {
        match self {
            ParseError::InvalidUtf8 => String::from_str("invalid utf-8 in the request"),
            ParseError::InvalidRequestLine => String::from_str("invalid http header line len"),
            ParseError::UnknownMethod => String::from_str(
                "failed to convert the http request method",
            ),
            ParseError::InvalidHeader => String::from_str("invalid http header len"),
            ParseError::InvalidStatusCode => String::from_str("invalid status code provided"),
        }
    }
}

/// `r` is the outcome that `model` describes: the same error, or a value
/// whose view is the model's.
pub open spec fn yields<T: View>(
    r: Result<T, ParseError>,
    model: Result<T::V, ParseError>,
) -> bool {
    match model {
        Ok(v) => r is Ok && r->Ok_0@ == v,
        Err(e) => r == Err::<T, ParseError>(e),
    }
}

} // verus!
