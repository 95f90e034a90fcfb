use crate::error::Error;
use crate::text::is_printable;
use vstd::prelude::*;
use vstd::std_specs::convert::FromSpecImpl;
use vstd::std_specs::convert::TryFromSpecImpl;
use vstd::string::StringSliceAdditionalSpecFns;

verus! {

/// The standard HTTP status codes, each with a number and a canonical reason
/// phrase.
#[derive(Debug, Clone, Copy, PartialEq, Eq, Structural)]
pub enum StatusCode {
    Continue,
    SwitchingProtocols,
    Processing,
    EarlyHints,
    OK,
    Created,
    Accepted,
    NonAuthoritativeInformation,
    NoContent,
    ResetContent,
    PartialContent,
    MultiStatus,
    AlreadyReported,
    IMUsed,
    MultipleChoices,
    MovedPermanently,
    Found,
    SeeOther,
    NotModified,
    TemporaryRedirect,
    PermanentRedirect,
    BadRequest,
    Unauthorized,
    PaymentRequired,
    Forbidden,
    NotFound,
    MethodNotAllowed,
    NotAcceptable,
    ProxyAuthenticationRequired,
    RequestTimeout,
    Conflict,
    Gone,
    LengthRequired,
    PreconditionFailed,
    ContentTooLarge,
    URITooLong,
    UnsupportedMediaType,
    RangeNotSatisfiable,
    ExpectationFailed,
    ImATeapot,
    MisdirectedRequest,
    UnprocessableContent,
    Locked,
    FailedDependency,
    TooEarly,
    UpgradeRequired,
    PreconditionRequired,
    TooManyRequests,
    RequestHeaderFieldsTooLarge,
    UnavailableForLegalReasons,
    InternalServerError,
    NotImplemented,
    BadGateway,
    ServiceUnavailable,
    GatewayTimeout,
    HTTPVersionNotSupported,
    VariantAlsoNegotiates,
    InsufficientStorage,
    LoopDetected,
    NotExtended,
    NetworkAuthenticationRequired,
}

impl StatusCode {
    /// The number sent on the wire for this status.
    pub open spec fn code(self) -> u16 {
        match self {
            StatusCode::Continue => 100,
            StatusCode::SwitchingProtocols => 101,
            StatusCode::Processing => 102,
            StatusCode::EarlyHints => 103,
            StatusCode::OK => 200,
            StatusCode::Created => 201,
            StatusCode::Accepted => 202,
            StatusCode::NonAuthoritativeInformation => 203,
            StatusCode::NoContent => 204,
            StatusCode::ResetContent => 205,
            StatusCode::PartialContent => 206,
            StatusCode::MultiStatus => 207,
            StatusCode::AlreadyReported => 208,
            StatusCode::IMUsed => 226,
            StatusCode::MultipleChoices => 300,
            StatusCode::MovedPermanently => 301,
            StatusCode::Found => 302,
            StatusCode::SeeOther => 303,
            StatusCode::NotModified => 304,
            StatusCode::TemporaryRedirect => 307,
            StatusCode::PermanentRedirect => 308,
            StatusCode::BadRequest => 400,
            StatusCode::Unauthorized => 401,
            StatusCode::PaymentRequired => 402,
            StatusCode::Forbidden => 403,
            StatusCode::NotFound => 404,
            StatusCode::MethodNotAllowed => 405,
            StatusCode::NotAcceptable => 406,
            StatusCode::ProxyAuthenticationRequired => 407,
            StatusCode::RequestTimeout => 408,
            StatusCode::Conflict => 409,
            StatusCode::Gone => 410,
            StatusCode::LengthRequired => 411,
            StatusCode::PreconditionFailed => 412,
            StatusCode::ContentTooLarge => 413,
            StatusCode::URITooLong => 414,
            StatusCode::UnsupportedMediaType => 415,
            StatusCode::RangeNotSatisfiable => 416,
            StatusCode::ExpectationFailed => 417,
            StatusCode::ImATeapot => 418,
            StatusCode::MisdirectedRequest => 421,
            StatusCode::UnprocessableContent => 422,
            StatusCode::Locked => 423,
            StatusCode::FailedDependency => 424,
            StatusCode::TooEarly => 425,
            StatusCode::UpgradeRequired => 426,
            StatusCode::PreconditionRequired => 428,
            StatusCode::TooManyRequests => 429,
            StatusCode::RequestHeaderFieldsTooLarge => 431,
            StatusCode::UnavailableForLegalReasons => 451,
            StatusCode::InternalServerError => 500,
            StatusCode::NotImplemented => 501,
            StatusCode::BadGateway => 502,
            StatusCode::ServiceUnavailable => 503,
            StatusCode::GatewayTimeout => 504,
            StatusCode::HTTPVersionNotSupported => 505,
            StatusCode::VariantAlsoNegotiates => 506,
            StatusCode::InsufficientStorage => 507,
            StatusCode::LoopDetected => 508,
            StatusCode::NotExtended => 510,
            StatusCode::NetworkAuthenticationRequired => 511,
        }
    }

    /// The canonical reason phrase of this status.
    pub open spec fn phrase(self) -> &'static str {
        match self {
            StatusCode::Continue => "Continue",
            StatusCode::SwitchingProtocols => "Switching Protocols",
            StatusCode::Processing => "Processing",
            StatusCode::EarlyHints => "Early Hints",
            StatusCode::OK => "OK",
            StatusCode::Created => "Created",
            StatusCode::Accepted => "Accepted",
            StatusCode::NonAuthoritativeInformation => "Non-Authoritative Information",
            StatusCode::NoContent => "No Content",
            StatusCode::ResetContent => "Reset Content",
            StatusCode::PartialContent => "Partial Content",
            StatusCode::MultiStatus => "Multi-Status",
            StatusCode::AlreadyReported => "Already Reported",
            StatusCode::IMUsed => "IM Used",
            StatusCode::MultipleChoices => "Multiple Choices",
            StatusCode::MovedPermanently => "Moved Permanently",
            StatusCode::Found => "Found",
            StatusCode::SeeOther => "See Other",
            StatusCode::NotModified => "Not Modified",
            StatusCode::TemporaryRedirect => "Temporary Redirect",
            StatusCode::PermanentRedirect => "Permanent Redirect",
            StatusCode::BadRequest => "Bad Request",
            StatusCode::Unauthorized => "Unauthorized",
            StatusCode::PaymentRequired => "Payment Required",
            StatusCode::Forbidden => "Forbidden",
            StatusCode::NotFound => "Not Found",
            StatusCode::MethodNotAllowed => "Method Not Allowed",
            StatusCode::NotAcceptable => "Not Acceptable",
            StatusCode::ProxyAuthenticationRequired => "Proxy Authentication Required",
            StatusCode::RequestTimeout => "Request Timeout",
            StatusCode::Conflict => "Conflict",
            StatusCode::Gone => "Gone",
            StatusCode::LengthRequired => "Length Required",
            StatusCode::PreconditionFailed => "Precondition Failed",
            StatusCode::ContentTooLarge => "Content Too Large",
            StatusCode::URITooLong => "URI Too Long",
            StatusCode::UnsupportedMediaType => "Unsupported Media Type",
            StatusCode::RangeNotSatisfiable => "Range Not Satisfiable",
            StatusCode::ExpectationFailed => "Expectation Failed",
            StatusCode::ImATeapot => "I'm a teapot",
            StatusCode::MisdirectedRequest => "Misdirected Request",
            StatusCode::UnprocessableContent => "Unprocessable Content",
            StatusCode::Locked => "Locked",
            StatusCode::FailedDependency => "Failed Dependency",
            StatusCode::TooEarly => "Too Early",
            StatusCode::UpgradeRequired => "Upgrade Required",
            StatusCode::PreconditionRequired => "Precondition Required",
            StatusCode::TooManyRequests => "Too Many Requests",
            StatusCode::RequestHeaderFieldsTooLarge => "Request Header Fields Too Large",
            StatusCode::UnavailableForLegalReasons => "Unavailable For Legal Reasons",
            StatusCode::InternalServerError => "Internal Server Error",
            StatusCode::NotImplemented => "Not Implemented",
            StatusCode::BadGateway => "Bad Gateway",
            StatusCode::ServiceUnavailable => "Service Unavailable",
            StatusCode::GatewayTimeout => "Gateway Timeout",
            StatusCode::HTTPVersionNotSupported => "HTTP Version Not Supported",
            StatusCode::VariantAlsoNegotiates => "Variant Also Negotiates",
            StatusCode::InsufficientStorage => "Insufficient Storage",
            StatusCode::LoopDetected => "Loop Detected",
            StatusCode::NotExtended => "Not Extended",
            StatusCode::NetworkAuthenticationRequired => "Network Authentication Required",
        }
    }

    /// The status whose number is `value`, if there is one.
    pub open spec fn with_code(value: u16) -> Option<StatusCode> {
        if exists|status: StatusCode| status.code() == value {
            Some(choose|status: StatusCode| status.code() == value)
        } else {
            None
        }
    }

    /// The canonical reason phrase, as it appears in a status line.
    pub fn text(&self) -> (phrase: &'static str)
        ensures
            phrase@ == self.phrase()@,
    {
        match self {
            StatusCode::Continue => "Continue",
            StatusCode::SwitchingProtocols => "Switching Protocols",
            StatusCode::Processing => "Processing",
            StatusCode::EarlyHints => "Early Hints",
            StatusCode::OK => "OK",
            StatusCode::Created => "Created",
            StatusCode::Accepted => "Accepted",
            StatusCode::NonAuthoritativeInformation => "Non-Authoritative Information",
            StatusCode::NoContent => "No Content",
            StatusCode::ResetContent => "Reset Content",
            StatusCode::PartialContent => "Partial Content",
            StatusCode::MultiStatus => "Multi-Status",
            StatusCode::AlreadyReported => "Already Reported",
            StatusCode::IMUsed => "IM Used",
            StatusCode::MultipleChoices => "Multiple Choices",
            StatusCode::MovedPermanently => "Moved Permanently",
            StatusCode::Found => "Found",
            StatusCode::SeeOther => "See Other",
            StatusCode::NotModified => "Not Modified",
            StatusCode::TemporaryRedirect => "Temporary Redirect",
            StatusCode::PermanentRedirect => "Permanent Redirect",
            StatusCode::BadRequest => "Bad Request",
            StatusCode::Unauthorized => "Unauthorized",
            StatusCode::PaymentRequired => "Payment Required",
            StatusCode::Forbidden => "Forbidden",
            StatusCode::NotFound => "Not Found",
            StatusCode::MethodNotAllowed => "Method Not Allowed",
            StatusCode::NotAcceptable => "Not Acceptable",
            StatusCode::ProxyAuthenticationRequired => "Proxy Authentication Required",
            StatusCode::RequestTimeout => "Request Timeout",
            StatusCode::Conflict => "Conflict",
            StatusCode::Gone => "Gone",
            StatusCode::LengthRequired => "Length Required",
            StatusCode::PreconditionFailed => "Precondition Failed",
            StatusCode::ContentTooLarge => "Content Too Large",
            StatusCode::URITooLong => "URI Too Long",
            StatusCode::UnsupportedMediaType => "Unsupported Media Type",
            StatusCode::RangeNotSatisfiable => "Range Not Satisfiable",
            StatusCode::ExpectationFailed => "Expectation Failed",
            StatusCode::ImATeapot => "I'm a teapot",
            StatusCode::MisdirectedRequest => "Misdirected Request",
            StatusCode::UnprocessableContent => "Unprocessable Content",
            StatusCode::Locked => "Locked",
            StatusCode::FailedDependency => "Failed Dependency",
            StatusCode::TooEarly => "Too Early",
            StatusCode::UpgradeRequired => "Upgrade Required",
            StatusCode::PreconditionRequired => "Precondition Required",
            StatusCode::TooManyRequests => "Too Many Requests",
            StatusCode::RequestHeaderFieldsTooLarge => "Request Header Fields Too Large",
            StatusCode::UnavailableForLegalReasons => "Unavailable For Legal Reasons",
            StatusCode::InternalServerError => "Internal Server Error",
            StatusCode::NotImplemented => "Not Implemented",
            StatusCode::BadGateway => "Bad Gateway",
            StatusCode::ServiceUnavailable => "Service Unavailable",
            StatusCode::GatewayTimeout => "Gateway Timeout",
            StatusCode::HTTPVersionNotSupported => "HTTP Version Not Supported",
            StatusCode::VariantAlsoNegotiates => "Variant Also Negotiates",
            StatusCode::InsufficientStorage => "Insufficient Storage",
            StatusCode::LoopDetected => "Loop Detected",
            StatusCode::NotExtended => "Not Extended",
            StatusCode::NetworkAuthenticationRequired => "Network Authentication Required",
        }
    }

    /// Every reason phrase is made of printable ASCII characters.
    pub proof fn lemma_phrase_printable(self)
        ensures
            is_printable(self.phrase().spec_bytes()),
    {
        match self {
            StatusCode::Continue => {
                reveal_strlit("Continue");
                vstd::string::is_ascii_spec_bytes("Continue");
            },
            StatusCode::SwitchingProtocols => {
                reveal_strlit("Switching Protocols");
                vstd::string::is_ascii_spec_bytes("Switching Protocols");
            },
            StatusCode::Processing => {
                reveal_strlit("Processing");
                vstd::string::is_ascii_spec_bytes("Processing");
            },
            StatusCode::EarlyHints => {
                reveal_strlit("Early Hints");
                vstd::string::is_ascii_spec_bytes("Early Hints");
            },
            StatusCode::OK => {
                reveal_strlit("OK");
                vstd::string::is_ascii_spec_bytes("OK");
            },
            StatusCode::Created => {
                reveal_strlit("Created");
                vstd::string::is_ascii_spec_bytes("Created");
            },
            StatusCode::Accepted => {
                reveal_strlit("Accepted");
                vstd::string::is_ascii_spec_bytes("Accepted");
            },
            StatusCode::NonAuthoritativeInformation => {
                reveal_strlit("Non-Authoritative Information");
                vstd::string::is_ascii_spec_bytes("Non-Authoritative Information");
            },
            StatusCode::NoContent => {
                reveal_strlit("No Content");
                vstd::string::is_ascii_spec_bytes("No Content");
            },
            StatusCode::ResetContent => {
                reveal_strlit("Reset Content");
                vstd::string::is_ascii_spec_bytes("Reset Content");
            },
            StatusCode::PartialContent => {
                reveal_strlit("Partial Content");
                vstd::string::is_ascii_spec_bytes("Partial Content");
            },
            StatusCode::MultiStatus => {
                reveal_strlit("Multi-Status");
                vstd::string::is_ascii_spec_bytes("Multi-Status");
            },
            StatusCode::AlreadyReported => {
                reveal_strlit("Already Reported");
                vstd::string::is_ascii_spec_bytes("Already Reported");
            },
            StatusCode::IMUsed => {
                reveal_strlit("IM Used");
                vstd::string::is_ascii_spec_bytes("IM Used");
            },
            StatusCode::MultipleChoices => {
                reveal_strlit("Multiple Choices");
                vstd::string::is_ascii_spec_bytes("Multiple Choices");
            },
            StatusCode::MovedPermanently => {
                reveal_strlit("Moved Permanently");
                vstd::string::is_ascii_spec_bytes("Moved Permanently");
            },
            StatusCode::Found => {
                reveal_strlit("Found");
                vstd::string::is_ascii_spec_bytes("Found");
            },
            StatusCode::SeeOther => {
                reveal_strlit("See Other");
                vstd::string::is_ascii_spec_bytes("See Other");
            },
            StatusCode::NotModified => {
                reveal_strlit("Not Modified");
                vstd::string::is_ascii_spec_bytes("Not Modified");
            },
            StatusCode::TemporaryRedirect => {
                reveal_strlit("Temporary Redirect");
                vstd::string::is_ascii_spec_bytes("Temporary Redirect");
            },
            StatusCode::PermanentRedirect => {
                reveal_strlit("Permanent Redirect");
                vstd::string::is_ascii_spec_bytes("Permanent Redirect");
            },
            StatusCode::BadRequest => {
                reveal_strlit("Bad Request");
                vstd::string::is_ascii_spec_bytes("Bad Request");
            },
            StatusCode::Unauthorized => {
                reveal_strlit("Unauthorized");
                vstd::string::is_ascii_spec_bytes("Unauthorized");
            },
            StatusCode::PaymentRequired => {
                reveal_strlit("Payment Required");
                vstd::string::is_ascii_spec_bytes("Payment Required");
            },
            StatusCode::Forbidden => {
                reveal_strlit("Forbidden");
                vstd::string::is_ascii_spec_bytes("Forbidden");
            },
            StatusCode::NotFound => {
                reveal_strlit("Not Found");
                vstd::string::is_ascii_spec_bytes("Not Found");
            },
            StatusCode::MethodNotAllowed => {
                reveal_strlit("Method Not Allowed");
                vstd::string::is_ascii_spec_bytes("Method Not Allowed");
            },
            StatusCode::NotAcceptable => {
                reveal_strlit("Not Acceptable");
                vstd::string::is_ascii_spec_bytes("Not Acceptable");
            },
            StatusCode::ProxyAuthenticationRequired => {
                reveal_strlit("Proxy Authentication Required");
                vstd::string::is_ascii_spec_bytes("Proxy Authentication Required");
            },
            StatusCode::RequestTimeout => {
                reveal_strlit("Request Timeout");
                vstd::string::is_ascii_spec_bytes("Request Timeout");
            },
            StatusCode::Conflict => {
                reveal_strlit("Conflict");
                vstd::string::is_ascii_spec_bytes("Conflict");
            },
            StatusCode::Gone => {
                reveal_strlit("Gone");
                vstd::string::is_ascii_spec_bytes("Gone");
            },
            StatusCode::LengthRequired => {
                reveal_strlit("Length Required");
                vstd::string::is_ascii_spec_bytes("Length Required");
            },
            StatusCode::PreconditionFailed => {
                reveal_strlit("Precondition Failed");
                vstd::string::is_ascii_spec_bytes("Precondition Failed");
            },
            StatusCode::ContentTooLarge => {
                reveal_strlit("Content Too Large");
                vstd::string::is_ascii_spec_bytes("Content Too Large");
            },
            StatusCode::URITooLong => {
                reveal_strlit("URI Too Long");
                vstd::string::is_ascii_spec_bytes("URI Too Long");
            },
            StatusCode::UnsupportedMediaType => {
                reveal_strlit("Unsupported Media Type");
                vstd::string::is_ascii_spec_bytes("Unsupported Media Type");
            },
            StatusCode::RangeNotSatisfiable => {
                reveal_strlit("Range Not Satisfiable");
                vstd::string::is_ascii_spec_bytes("Range Not Satisfiable");
            },
            StatusCode::ExpectationFailed => {
                reveal_strlit("Expectation Failed");
                vstd::string::is_ascii_spec_bytes("Expectation Failed");
            },
            StatusCode::ImATeapot => {
                reveal_strlit("I'm a teapot");
                vstd::string::is_ascii_spec_bytes("I'm a teapot");
            },
            StatusCode::MisdirectedRequest => {
                reveal_strlit("Misdirected Request");
                vstd::string::is_ascii_spec_bytes("Misdirected Request");
            },
            StatusCode::UnprocessableContent => {
                reveal_strlit("Unprocessable Content");
                vstd::string::is_ascii_spec_bytes("Unprocessable Content");
            },
            StatusCode::Locked => {
                reveal_strlit("Locked");
                vstd::string::is_ascii_spec_bytes("Locked");
            },
            StatusCode::FailedDependency => {
                reveal_strlit("Failed Dependency");
                vstd::string::is_ascii_spec_bytes("Failed Dependency");
            },
            StatusCode::TooEarly => {
                reveal_strlit("Too Early");
                vstd::string::is_ascii_spec_bytes("Too Early");
            },
            StatusCode::UpgradeRequired => {
                reveal_strlit("Upgrade Required");
                vstd::string::is_ascii_spec_bytes("Upgrade Required");
            },
            StatusCode::PreconditionRequired => {
                reveal_strlit("Precondition Required");
                vstd::string::is_ascii_spec_bytes("Precondition Required");
            },
            StatusCode::TooManyRequests => {
                reveal_strlit("Too Many Requests");
                vstd::string::is_ascii_spec_bytes("Too Many Requests");
            },
            StatusCode::RequestHeaderFieldsTooLarge => {
                reveal_strlit("Request Header Fields Too Large");
                vstd::string::is_ascii_spec_bytes("Request Header Fields Too Large");
            },
            StatusCode::UnavailableForLegalReasons => {
                reveal_strlit("Unavailable For Legal Reasons");
                vstd::string::is_ascii_spec_bytes("Unavailable For Legal Reasons");
            },
            StatusCode::InternalServerError => {
                reveal_strlit("Internal Server Error");
                vstd::string::is_ascii_spec_bytes("Internal Server Error");
            },
            StatusCode::NotImplemented => {
                reveal_strlit("Not Implemented");
                vstd::string::is_ascii_spec_bytes("Not Implemented");
            },
            StatusCode::BadGateway => {
                reveal_strlit("Bad Gateway");
                vstd::string::is_ascii_spec_bytes("Bad Gateway");
            },
            StatusCode::ServiceUnavailable => {
                reveal_strlit("Service Unavailable");
                vstd::string::is_ascii_spec_bytes("Service Unavailable");
            },
            StatusCode::GatewayTimeout => {
                reveal_strlit("Gateway Timeout");
                vstd::string::is_ascii_spec_bytes("Gateway Timeout");
            },
            StatusCode::HTTPVersionNotSupported => {
                reveal_strlit("HTTP Version Not Supported");
                vstd::string::is_ascii_spec_bytes("HTTP Version Not Supported");
            },
            StatusCode::VariantAlsoNegotiates => {
                reveal_strlit("Variant Also Negotiates");
                vstd::string::is_ascii_spec_bytes("Variant Also Negotiates");
            },
            StatusCode::InsufficientStorage => {
                reveal_strlit("Insufficient Storage");
                vstd::string::is_ascii_spec_bytes("Insufficient Storage");
            },
            StatusCode::LoopDetected => {
                reveal_strlit("Loop Detected");
                vstd::string::is_ascii_spec_bytes("Loop Detected");
            },
            StatusCode::NotExtended => {
                reveal_strlit("Not Extended");
                vstd::string::is_ascii_spec_bytes("Not Extended");
            },
            StatusCode::NetworkAuthenticationRequired => {
                reveal_strlit("Network Authentication Required");
                vstd::string::is_ascii_spec_bytes("Network Authentication Required");
            },
        }
    }

    /// Every recognised number lies between 100 and 511.
    pub proof fn lemma_code_range(self)
        ensures
            100 <= self.code() <= 511,
    {
    }

    /// Two statuses with the same number are the same status.
    pub proof fn lemma_code_injective(self, other: StatusCode)
        requires
            self.code() == other.code(),
        ensures
            self == other,
    {
    }

    /// Looking a status up by its own number gives that status back.
    pub proof fn lemma_with_code_inverts_code(self)
        ensures
            StatusCode::with_code(self.code()) == Some(self),
    {
        let found = choose|status: StatusCode| status.code() == self.code();
        found.lemma_code_injective(self);
    }

    /// A status found by number carries that number, and none is found only
    /// when no status carries it.
    pub proof fn lemma_with_code_sound(value: u16)
        ensures
            match StatusCode::with_code(value) {
                Some(status) => status.code() == value,
                None => forall|status: StatusCode| status.code() != value,
            },
    {
    }
}

impl From<StatusCode> for u16 {
    /// The number of a status.
    fn from(value: StatusCode) -> (number: u16) {
        match value {
            StatusCode::Continue => 100,
            StatusCode::SwitchingProtocols => 101,
            StatusCode::Processing => 102,
            StatusCode::EarlyHints => 103,
            StatusCode::OK => 200,
            StatusCode::Created => 201,
            StatusCode::Accepted => 202,
            StatusCode::NonAuthoritativeInformation => 203,
            StatusCode::NoContent => 204,
            StatusCode::ResetContent => 205,
            StatusCode::PartialContent => 206,
            StatusCode::MultiStatus => 207,
            StatusCode::AlreadyReported => 208,
            StatusCode::IMUsed => 226,
            StatusCode::MultipleChoices => 300,
            StatusCode::MovedPermanently => 301,
            StatusCode::Found => 302,
            StatusCode::SeeOther => 303,
            StatusCode::NotModified => 304,
            StatusCode::TemporaryRedirect => 307,
            StatusCode::PermanentRedirect => 308,
            StatusCode::BadRequest => 400,
            StatusCode::Unauthorized => 401,
            StatusCode::PaymentRequired => 402,
            StatusCode::Forbidden => 403,
            StatusCode::NotFound => 404,
            StatusCode::MethodNotAllowed => 405,
            StatusCode::NotAcceptable => 406,
            StatusCode::ProxyAuthenticationRequired => 407,
            StatusCode::RequestTimeout => 408,
            StatusCode::Conflict => 409,
            StatusCode::Gone => 410,
            StatusCode::LengthRequired => 411,
            StatusCode::PreconditionFailed => 412,
            StatusCode::ContentTooLarge => 413,
            StatusCode::URITooLong => 414,
            StatusCode::UnsupportedMediaType => 415,
            StatusCode::RangeNotSatisfiable => 416,
            StatusCode::ExpectationFailed => 417,
            StatusCode::ImATeapot => 418,
            StatusCode::MisdirectedRequest => 421,
            StatusCode::UnprocessableContent => 422,
            StatusCode::Locked => 423,
            StatusCode::FailedDependency => 424,
            StatusCode::TooEarly => 425,
            StatusCode::UpgradeRequired => 426,
            StatusCode::PreconditionRequired => 428,
            StatusCode::TooManyRequests => 429,
            StatusCode::RequestHeaderFieldsTooLarge => 431,
            StatusCode::UnavailableForLegalReasons => 451,
            StatusCode::InternalServerError => 500,
            StatusCode::NotImplemented => 501,
            StatusCode::BadGateway => 502,
            StatusCode::ServiceUnavailable => 503,
            StatusCode::GatewayTimeout => 504,
            StatusCode::HTTPVersionNotSupported => 505,
            StatusCode::VariantAlsoNegotiates => 506,
            StatusCode::InsufficientStorage => 507,
            StatusCode::LoopDetected => 508,
            StatusCode::NotExtended => 510,
            StatusCode::NetworkAuthenticationRequired => 511,
        }
    }
}

impl FromSpecImpl<StatusCode> for u16 {
    open spec fn obeys_from_spec() -> bool {
        true
    }

    open spec fn from_spec(value: StatusCode) -> u16 {
        value.code()
    }
}

impl TryFrom<u16> for StatusCode {
    type Error = Error;

    /// The status with the given number, or `Error::InvalidStatusCode` when
    /// no status has it.
    fn try_from(value: u16) -> (found: Result<StatusCode, Error>) {
        let found = match value {
            100 => Ok(StatusCode::Continue),
            101 => Ok(StatusCode::SwitchingProtocols),
            102 => Ok(StatusCode::Processing),
            103 => Ok(StatusCode::EarlyHints),
            200 => Ok(StatusCode::OK),
            201 => Ok(StatusCode::Created),
            202 => Ok(StatusCode::Accepted),
            203 => Ok(StatusCode::NonAuthoritativeInformation),
            204 => Ok(StatusCode::NoContent),
            205 => Ok(StatusCode::ResetContent),
            206 => Ok(StatusCode::PartialContent),
            207 => Ok(StatusCode::MultiStatus),
            208 => Ok(StatusCode::AlreadyReported),
            226 => Ok(StatusCode::IMUsed),
            300 => Ok(StatusCode::MultipleChoices),
            301 => Ok(StatusCode::MovedPermanently),
            302 => Ok(StatusCode::Found),
            303 => Ok(StatusCode::SeeOther),
            304 => Ok(StatusCode::NotModified),
            307 => Ok(StatusCode::TemporaryRedirect),
            308 => Ok(StatusCode::PermanentRedirect),
            400 => Ok(StatusCode::BadRequest),
            401 => Ok(StatusCode::Unauthorized),
            402 => Ok(StatusCode::PaymentRequired),
            403 => Ok(StatusCode::Forbidden),
            404 => Ok(StatusCode::NotFound),
            405 => Ok(StatusCode::MethodNotAllowed),
            406 => Ok(StatusCode::NotAcceptable),
            407 => Ok(StatusCode::ProxyAuthenticationRequired),
            408 => Ok(StatusCode::RequestTimeout),
            409 => Ok(StatusCode::Conflict),
            410 => Ok(StatusCode::Gone),
            411 => Ok(StatusCode::LengthRequired),
            412 => Ok(StatusCode::PreconditionFailed),
            413 => Ok(StatusCode::ContentTooLarge),
            414 => Ok(StatusCode::URITooLong),
            415 => Ok(StatusCode::UnsupportedMediaType),
            416 => Ok(StatusCode::RangeNotSatisfiable),
            417 => Ok(StatusCode::ExpectationFailed),
            418 => Ok(StatusCode::ImATeapot),
            421 => Ok(StatusCode::MisdirectedRequest),
            422 => Ok(StatusCode::UnprocessableContent),
            423 => Ok(StatusCode::Locked),
            424 => Ok(StatusCode::FailedDependency),
            425 => Ok(StatusCode::TooEarly),
            426 => Ok(StatusCode::UpgradeRequired),
            428 => Ok(StatusCode::PreconditionRequired),
            429 => Ok(StatusCode::TooManyRequests),
            431 => Ok(StatusCode::RequestHeaderFieldsTooLarge),
            451 => Ok(StatusCode::UnavailableForLegalReasons),
            500 => Ok(StatusCode::InternalServerError),
            501 => Ok(StatusCode::NotImplemented),
            502 => Ok(StatusCode::BadGateway),
            503 => Ok(StatusCode::ServiceUnavailable),
            504 => Ok(StatusCode::GatewayTimeout),
            505 => Ok(StatusCode::HTTPVersionNotSupported),
            506 => Ok(StatusCode::VariantAlsoNegotiates),
            507 => Ok(StatusCode::InsufficientStorage),
            508 => Ok(StatusCode::LoopDetected),
            510 => Ok(StatusCode::NotExtended),
            511 => Ok(StatusCode::NetworkAuthenticationRequired),
            _ => Err(Error::InvalidStatusCode),
        };
        proof {
            if let Ok(status) = found {
                status.lemma_with_code_inverts_code();
            }
        }
        found
    }
}

impl TryFromSpecImpl<u16> for StatusCode {
    open spec fn obeys_try_from_spec() -> bool {
        true
    }

    open spec fn try_from_spec(value: u16) -> Result<StatusCode, Error> {
        match StatusCode::with_code(value) {
            Some(status) => Ok(status),
            None => Err(Error::InvalidStatusCode),
        }
    }
}

} // verus!
