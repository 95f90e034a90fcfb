use crate::error::Error;
use crate::line::Outcome;
use crate::request::request_head;
use crate::request::Request;
use vstd::prelude::*;

verus! {

/// What a connection is to do next, given the bytes it has received so far.
#[derive(Debug)]
pub enum Step<'a> {
    /// The head is incomplete: read more, and ask again with the longer
    /// buffer.
    ReadMore,
    /// The head is complete and declares a body of which only `received` has
    /// come: read `missing` more bytes, then attach `received` followed by them.
    ReadBody { request: Request<'a>, received: &'a [u8], missing: usize },
    /// The request is complete, its body attached where it declares one.
    Respond(Request<'a>),
}

/// Decides the next step from everything received so far on a connection.
///
/// A request that declares no body is complete with its head, and its body
/// stays absent. Where more than the declared body has come, the body is the
/// first `body_len` bytes after the head.
pub fn advance<'a>(buffer: &'a [u8]) -> (step: Result<Step<'a>, Error>)
    ensures
        match request_head(buffer@) {
            Outcome::Incomplete => step matches Ok(Step::ReadMore),
            Outcome::Rejected(error) => step matches Err(e) && e == error,
            Outcome::Complete(whole) => if whole.head.body_len == 0 {
                step matches Ok(Step::Respond(request)) && request.head() == whole.head
                    && request.body is None
            } else if whole.rest.len() >= whole.head.body_len {
                step matches Ok(Step::Respond(request)) && request.head() == whole.head
                    && request.body is Some && request.body->0@ == whole.rest.take(
                    whole.head.body_len as int,
                )
            } else {
                step matches Ok(Step::ReadBody { request, received, missing }) && request.head()
                    == whole.head && request.body is None && received@ == whole.rest && missing
                    == whole.head.body_len - whole.rest.len()
            },
        },
{
    match Request::parse_header(buffer) {
        Err(error) => Err(error),
        Ok((_, None)) => Ok(Step::ReadMore),
        Ok((rest, Some(request))) => {
            let mut request = request;
            if request.body_len == 0 {
                Ok(Step::Respond(request))
            } else if rest.len() >= request.body_len {
                let (body, _) = rest.split_at(request.body_len);
                assert(body@ =~= rest@.take(request.body_len as int));
                request.set_body(body);
                Ok(Step::Respond(request))
            } else {
                let missing = request.body_len - rest.len();
                Ok(Step::ReadBody { request, received: rest, missing })
            }
        },
    }
}

} // verus!
