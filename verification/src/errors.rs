//! The errors of the library.

use vstd::prelude::*;
use vstd::string::*;
use crate::text::{decimal, digits};

verus! {

/// The kind of an I/O failure, as std reports it. Opaque here: it is only
/// carried from where a file was read to where the error is reported.
#[verifier::external_type_specification]
#[verifier::external_body]
pub struct ExIoErrorKind(std::io::ErrorKind);

/// The reason why a URL could not be parsed. Opaque here: it is only carried
/// from the parser to where the error is reported.
#[verifier::external_type_specification]
#[verifier::external_body]
pub struct ExUrlError(reqwest::UrlError);

/// Why a text is not JSON, or not the JSON that was expected.
#[derive(Debug, Clone, Copy, PartialEq, Eq, Structural)]
pub enum JsonCategory {
    /// Reading the text failed.
    Io,
    /// The text is not well-formed JSON.
    Syntax,
    /// The text is JSON of another shape than the one asked for.
    Data,
    /// The text ended in the middle of a JSON value.
    Eof,
}

/// Everything that can go wrong between the command line and the response.
pub enum Error {
    /// No separator is written in the parameter expression that is given.
    ParameterMissingSeparator(String),
    /// Neither a URL nor a method with its URL was given.
    MissingUrlAndCommand,
    /// A file upload was asked for outside form mode.
    NotFormButHasFormFile,
    /// The request or the response could not be serialized.
    ClientSerialization,
    /// The request timed out.
    ClientTimeout,
    /// The transport reported this status as a failure.
    ClientWithStatus(u16),
    /// Any other failure of the transport.
    ClientOther,
    /// A JSON value could not be parsed.
    SerdeJson(JsonCategory),
    /// A file could not be read or written.
    IO(std::io::ErrorKind),
    /// The URL could not be parsed.
    UrlParseError(reqwest::UrlError),
    /// The syntax definitions for the named format could not be loaded.
    SyntaxLoadError(&'static str),
}

/// The result of an operation of this library.
pub type HurlResult<T> = Result<T, Error>;

/// How a request failed in transport: what the client reports of it.
#[derive(Debug, Clone, Copy, PartialEq, Eq, Structural)]
pub struct TransportFailure {
    /// The request or the response could not be serialized.
    pub serialization: bool,
    /// The request timed out.
    pub timeout: bool,
    /// The status that the failure came with, if any.
    pub status: Option<u16>,
}

/// The error that a transport failure is reported as: serialization
/// first, then timeout, then status.
pub open spec fn transport_error(f: TransportFailure) -> Error {
    if f.serialization {
        Error::ClientSerialization
    } else if f.timeout {
        Error::ClientTimeout
    } else {
        match f.status {
            Some(s) => Error::ClientWithStatus(s),
            None => Error::ClientOther,
        }
    }
}

impl From<TransportFailure> for Error {
    #[inline]
    fn from(err: TransportFailure) -> (e: Error) {
        if err.serialization {
            return Error::ClientSerialization;
        }
        if err.timeout {
            return Error::ClientTimeout;
        }
        if let Some(s) = err.status {
            return Error::ClientWithStatus(s);
        }
        Error::ClientOther
    }
}

impl vstd::std_specs::convert::FromSpecImpl<TransportFailure> for Error {
    open spec fn obeys_from_spec() -> bool {
        true
    }

    open spec fn from_spec(err: TransportFailure) -> Error {
        transport_error(err)
    }
}

impl From<JsonCategory> for Error {
    #[inline]
    fn from(err: JsonCategory) -> (e: Error) {
        Error::SerdeJson(err)
    }
}

impl vstd::std_specs::convert::FromSpecImpl<JsonCategory> for Error {
    open spec fn obeys_from_spec() -> bool {
        true
    }

    open spec fn from_spec(err: JsonCategory) -> Error {
        Error::SerdeJson(err)
    }
}

impl From<std::io::ErrorKind> for Error {
    #[inline]
    fn from(err: std::io::ErrorKind) -> (e: Error) {
        Error::IO(err)
    }
}

impl vstd::std_specs::convert::FromSpecImpl<std::io::ErrorKind> for Error {
    open spec fn obeys_from_spec() -> bool {
        true
    }

    open spec fn from_spec(err: std::io::ErrorKind) -> Error {
        Error::IO(err)
    }
}

impl From<reqwest::UrlError> for Error {
    #[inline]
    fn from(err: reqwest::UrlError) -> (e: Error) {
        Error::UrlParseError(err)
    }
}

impl vstd::std_specs::convert::FromSpecImpl<reqwest::UrlError> for Error {
    open spec fn obeys_from_spec() -> bool {
        true
    }

    open spec fn from_spec(err: reqwest::UrlError) -> Error {
        Error::UrlParseError(err)
    }
}

/// The name of an I/O failure's kind.
///
/// Trusted: the `Debug` text of `std::io::ErrorKind`. Nothing is claimed of
/// it.
#[verifier::external_body]
pub(crate) fn io_kind_name(kind: &std::io::ErrorKind) -> String {
    format!("{:?}", kind)
}

/// The reason why a URL could not be parsed, in words.
///
/// Trusted: the `Display` text of `reqwest::UrlError`. Nothing is claimed
/// of it.
#[verifier::external_body]
pub(crate) fn url_error_text(err: &reqwest::UrlError) -> String {
    format!("{}", err)
}

impl JsonCategory {
    /// The name of the category.
    pub open spec fn name(self) -> Seq<char> {
        match self {
            JsonCategory::Io => "Io"@,
            JsonCategory::Syntax => "Syntax"@,
            JsonCategory::Data => "Data"@,
            JsonCategory::Eof => "Eof"@,
        }
    }
}

/// What the message of an error begins with. For all errors but those of
/// I/O and of URL parsing, whose kind only std or the URL parser can put in
/// words, it is the whole message.
pub open spec fn message_head(e: Error) -> Seq<char> {
    match e {
        Error::ParameterMissingSeparator(s) => "Missing separator when parsing parameter: "@ + s@,
        Error::MissingUrlAndCommand => "Must specify a url or a command!"@,
        Error::NotFormButHasFormFile =>
            "Cannot have a form file 'key@filename' unless --form option is set"@,
        Error::ClientSerialization => "Serializing the request/response failed"@,
        Error::ClientTimeout => "Timeout during request"@,
        Error::ClientWithStatus(status) => "Got status code: "@ + digits(status as nat),
        Error::ClientOther => "Unknown client error"@,
        Error::SerdeJson(c) => "JSON error: "@ + c.name(),
        Error::IO(_) => "IO Error: "@,
        Error::UrlParseError(_) => "URL Parsing error: "@,
        Error::SyntaxLoadError(typ) => "Error loading syntax for "@ + typ@,
    }
}

impl Error {
    /// The error in words.
    pub fn message(&self) -> (text: String)
        ensures
            match *self {
                Error::IO(_) | Error::UrlParseError(_) => exists|tail: Seq<char>|
                    text@ == message_head(*self) + tail,
                _ => text@ == message_head(*self),
            },
    {
        match self {
            Error::ParameterMissingSeparator(s) => {
                let mut text = String::from_str("Missing separator when parsing parameter: ");
                text.append(s.as_str());
                text
            },
            Error::MissingUrlAndCommand => String::from_str("Must specify a url or a command!"),
            Error::NotFormButHasFormFile => String::from_str(
                "Cannot have a form file 'key@filename' unless --form option is set",
            ),
            Error::ClientSerialization => String::from_str(
                "Serializing the request/response failed",
            ),
            Error::ClientTimeout => String::from_str("Timeout during request"),
            Error::ClientWithStatus(status) => {
                let mut text = String::from_str("Got status code: ");
                text.append(decimal(*status as u64).as_str());
                text
            },
            Error::ClientOther => String::from_str("Unknown client error"),
            Error::SerdeJson(c) => {
                let mut text = String::from_str("JSON error: ");
                match c {
                    JsonCategory::Io => text.append("Io"),
                    JsonCategory::Syntax => text.append("Syntax"),
                    JsonCategory::Data => text.append("Data"),
                    JsonCategory::Eof => text.append("Eof"),
                }
                text
            },
            Error::IO(k) => {
                let mut text = String::from_str("IO Error: ");
                let name = io_kind_name(k);
                text.append(name.as_str());
                assert(text@ == message_head(*self) + name@);
                text
            },
            Error::UrlParseError(e) => {
                let mut text = String::from_str("URL Parsing error: ");
                let reason = url_error_text(e);
                text.append(reason.as_str());
                assert(text@ == message_head(*self) + reason@);
                text
            },
            Error::SyntaxLoadError(typ) => {
                let mut text = String::from_str("Error loading syntax for ");
                text.append(typ);
                text
            },
        }
    }
}

} // verus!
