use crate::bytes;
use crate::bytes::occurs_at;
use crate::error::Error;
use crate::headers::lookup;
use crate::request::Request;
use crate::response::is_framed;
use crate::response::Response;
use crate::status_code::StatusCode;
use crate::text::lemma_boundary_after_prefix;
use vstd::prelude::*;
use vstd::string::StringSliceAdditionalSpecFns;

verus! {

/// What a request target asks for.
pub enum Route {
    /// The target is `/`.
    Root,
    /// The target starts with `/echo/`; what follows that prefix is to be sent
    /// back as it is.
    Echo(Seq<u8>),
    /// The target is `/user-agent`.
    UserAgent,
    /// The target starts with `/files/`; what follows its leading `/files/`
    /// prefixes names a file.
    File(Seq<u8>),
    /// Anything else.
    Unknown,
}

/// What is to be done for a request.
#[derive(Debug)]
pub enum Reply<'a> {
    /// This response is to be sent.
    Ready(Response),
    /// The file of this name, below the directory that is served, is to be read
    /// and the answer made from it by [`file_response`].
    NeedsFile(&'a str),
}

/// `text` without its leading occurrences of `prefix`, however many there are.
pub open spec fn trimmed(text: Seq<u8>, prefix: Seq<u8>) -> Seq<u8>
    decreases text.len(),
{
    if prefix.len() > 0 && occurs_at(text, prefix, 0) {
        trimmed(text.skip(prefix.len() as int), prefix)
    } else {
        text
    }
}

/// The prefix of the targets whose rest is sent back.
pub open spec fn echo_prefix() -> Seq<u8> {
    "/echo/".spec_bytes()
}

/// The prefix of the targets that name a file.
pub open spec fn files_prefix() -> Seq<u8> {
    "/files/".spec_bytes()
}

/// The name of the header that the `/user-agent` route sends back.
pub open spec fn user_agent_name() -> Seq<u8> {
    "User-Agent".spec_bytes()
}

/// The route of a request target. Targets are compared byte for byte.
pub open spec fn route(target: Seq<u8>) -> Route {
    if target == "/".spec_bytes() {
        Route::Root
    } else if occurs_at(target, echo_prefix(), 0) {
        Route::Echo(target.skip(echo_prefix().len() as int))
    } else if target == "/user-agent".spec_bytes() {
        Route::UserAgent
    } else if occurs_at(target, files_prefix(), 0) {
        Route::File(trimmed(target, files_prefix()))
    } else {
        Route::Unknown
    }
}

/// `text` without `prefix` at its start, where it starts with it.
pub fn strip_prefix<'a>(text: &'a str, prefix: &str) -> (rest: Option<&'a str>)
    ensures
        match rest {
            Some(rest) => occurs_at(text.spec_bytes(), prefix.spec_bytes(), 0) && rest.spec_bytes()
                == text.spec_bytes().skip(prefix.spec_bytes().len() as int),
            None => !occurs_at(text.spec_bytes(), prefix.spec_bytes(), 0),
        },
{
    let pattern = prefix.as_bytes();
    if !bytes::starts_with(text.as_bytes(), pattern) {
        return None;
    }
    proof {
        assert(text.spec_bytes().take(pattern@.len() as int) =~= pattern@);
        vstd::utf8::encode_utf8_valid_utf8(text@);
        vstd::utf8::encode_utf8_valid_utf8(prefix@);
        lemma_boundary_after_prefix(text.spec_bytes(), pattern@);
    }
    let (_, rest) = text.split_at(pattern.len());
    assert(rest.spec_bytes() =~= text.spec_bytes().skip(pattern@.len() as int));
    Some(rest)
}

/// `text` without its leading occurrences of `prefix`.
pub fn trim_start<'a>(text: &'a str, prefix: &str) -> (rest: &'a str)
    ensures
        rest.spec_bytes() == trimmed(text.spec_bytes(), prefix.spec_bytes()),
{
    let mut rest: &'a str = text;
    if prefix.as_bytes().len() == 0 {
        return rest;
    }
    loop
        invariant
            prefix.spec_bytes().len() > 0,
            trimmed(rest.spec_bytes(), prefix.spec_bytes()) == trimmed(
                text.spec_bytes(),
                prefix.spec_bytes(),
            ),
        decreases rest.spec_bytes().len(),
    {
        match strip_prefix(rest, prefix) {
            Some(shorter) => {
                rest = shorter;
            },
            None => {
                return rest;
            },
        }
    }
}

/// The answer to a head that was refused: `400 Bad Request`, whatever the
/// error.
pub fn error_response(error: Error) -> (response: Response)
    ensures
        response.is_bare(StatusCode::BadRequest),
        is_framed(response.message()),
{
    Response::from_status_code(StatusCode::BadRequest)
}

/// The answer to a request for a file: the contents as a body where the file
/// was there to read, else `404 Not Found`.
pub fn file_response(contents: Option<Vec<u8>>) -> (response: Response)
    ensures
        match contents {
            Some(bytes) => response.is_text(bytes@),
            None => response.is_bare(StatusCode::NotFound),
        },
        is_framed(response.message()),
{
    match contents {
        Some(bytes) => Response::from_body(bytes),
        None => Response::from_status_code(StatusCode::NotFound),
    }
}

/// Decides what to answer to a request, whatever the request is. Only a
/// request for a file needs more than the request itself.
///
/// The `/user-agent` route sends the `User-Agent` header back; the name is
/// compared exactly, and without such a header the answer is
/// `400 Bad Request`. Every response that comes back is framed.
pub fn generate_response<'a>(request: &Request<'a>) -> (reply: Reply<'a>)
    ensures
        match route(request.target.spec_bytes()) {
            Route::Root => reply matches Reply::Ready(response) && response.is_bare(
                StatusCode::OK,
            ),
            Route::Echo(text) => reply matches Reply::Ready(response) && response.is_text(text),
            Route::UserAgent => match lookup(request.headers.entries(), user_agent_name()) {
                Some(agent) => reply matches Reply::Ready(response) && response.is_text(agent),
                None => reply matches Reply::Ready(response) && response.is_bare(
                    StatusCode::BadRequest,
                ),
            },
            Route::File(name) => reply matches Reply::NeedsFile(file) && file.spec_bytes() == name,
            Route::Unknown => reply matches Reply::Ready(response) && response.is_bare(
                StatusCode::NotFound,
            ),
        },
        reply matches Reply::Ready(response) ==> is_framed(response.message()),
{
    let target: &'a str = request.target;
    if bytes::equal(target.as_bytes(), "/".as_bytes()) {
        return Reply::Ready(Response::from_status_code(StatusCode::OK));
    }
    if let Some(text) = strip_prefix(target, "/echo/") {
        return Reply::Ready(Response::from_body(vstd::slice::slice_to_vec(text.as_bytes())));
    }
    if bytes::equal(target.as_bytes(), "/user-agent".as_bytes()) {
        return match request.headers.get("User-Agent") {
            Some(agent) => Reply::Ready(
                Response::from_body(vstd::slice::slice_to_vec(agent.as_bytes())),
            ),
            None => Reply::Ready(Response::from_status_code(StatusCode::BadRequest)),
        };
    }
    if bytes::starts_with(target.as_bytes(), "/files/".as_bytes()) {
        return Reply::NeedsFile(trim_start(target, "/files/"));
    }
    Reply::Ready(Response::from_status_code(StatusCode::NotFound))
}

} // verus!
