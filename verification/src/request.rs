use crate::block::content_length;
use crate::block::content_length_name;
use crate::block::declared_length;
use crate::block::field_lines;
use crate::block::field_separator;
use crate::block::fields_are_sound;
use crate::block::header_block;
use crate::block::is_sound_name;
use crate::block::is_sound_value;
use crate::block::lemma_header_block_of;
use crate::block::lemma_header_block_complete;
use crate::block::lemma_header_block_grows;
use crate::block::read_block;
use crate::bytes;
use crate::bytes::occurs_at;
use crate::bytes::split_once;
use crate::decimal::is_digit;
use crate::decimal::lemma_numeral;
use crate::decimal::numeral;
use crate::decimal::numeral_value;
use crate::error::Error;
use crate::headers::holds;
use crate::headers::lemma_index_of;
use crate::headers::lookup;
use crate::headers::names_distinct;
use crate::headers::Headers;
use crate::line::first_line;
use crate::line::http_version;
use crate::line::has_no_cr;
use crate::line::lemma_first_line_grows;
use crate::line::lemma_first_line_of;
use crate::line::lemma_first_line_splits;
use crate::line::lemma_http_version;
use crate::line::lemma_space;
use crate::line::line_ending;
use crate::line::next_line;
use crate::line::Outcome;
use crate::line::CR;
use crate::line::SP;
use crate::method::Method;
use crate::text;
use crate::text::is_plain;
use crate::text::lemma_plain_is_utf8;
use vstd::prelude::*;
use vstd::string::StringSliceAdditionalSpecFns;
use vstd::utf8::valid_utf8;

verus! {

/// What the head of a request says.
pub struct Head {
    /// The method of the start line.
    pub method: Method,
    /// The request target, as sent.
    pub target: Seq<u8>,
    /// The header fields, a later value for a name in place of an earlier one.
    pub fields: Seq<(Seq<u8>, Seq<u8>)>,
    /// The length of the body that the fields declare.
    pub body_len: nat,
}

/// The head of a request and what follows it.
pub struct Parsed {
    /// The head.
    pub head: Head,
    /// The input after the empty line that ends the head: the body, or the start
    /// of it.
    pub rest: Seq<u8>,
}

/// The method and the target of a start line `METHOD SP TARGET SP HTTP/1.1`.
/// The line is cut at its first space and at the first space after that one;
/// the version is looked at before the method is.
pub open spec fn start_line(line: Seq<u8>) -> Result<(Method, Seq<u8>), Error> {
    match split_once(line, seq![SP]) {
        None => Err(Error::MalformedStartLine),
        Some((token, remainder)) => match split_once(remainder, seq![SP]) {
            None => Err(Error::MalformedStartLine),
            Some((target, version)) => if version != http_version() {
                Err(Error::UnsupportedVersion)
            } else {
                match Method::with_token(token) {
                    None => Err(Error::InvalidMethod),
                    Some(method) => Ok((method, target)),
                }
            },
        },
    }
}

/// The head of the request that `input` begins with: a start line, header
/// lines, an empty line. The start line is judged as soon as it is complete,
/// each header line as it completes, and the declared body length once the
/// empty line has come.
pub open spec fn request_head(input: Seq<u8>) -> Outcome<Parsed> {
    match first_line(input) {
        Outcome::Incomplete => Outcome::Incomplete,
        Outcome::Rejected(error) => Outcome::Rejected(error),
        Outcome::Complete(line) => match start_line(line.text) {
            Err(error) => Outcome::Rejected(error),
            Ok((method, target)) => match header_block(line.rest, Seq::empty()) {
                Outcome::Incomplete => Outcome::Incomplete,
                Outcome::Rejected(error) => Outcome::Rejected(error),
                Outcome::Complete(block) => match declared_length(block.fields) {
                    None => Outcome::Rejected(Error::InvalidContentLength),
                    Some(body_len) => Outcome::Complete(
                        Parsed {
                            head: Head { method, target, fields: block.fields, body_len },
                            rest: block.rest,
                        },
                    ),
                },
            },
        },
    }
}

/// The start line of a request, without its ending.
pub open spec fn request_line(method: Method, target: Seq<u8>) -> Seq<u8> {
    method.token() + seq![SP] + target + seq![SP] + http_version()
}

/// The bytes of a request head: start line, header lines, an empty line.
pub open spec fn head_bytes(head: Head) -> Seq<u8> {
    request_line(head.method, head.target) + line_ending() + field_lines(head.fields)
        + line_ending()
}

/// A target that can be written on a start line and read back: well-formed
/// UTF-8 without carriage return and without space.
pub open spec fn is_sound_target(target: Seq<u8>) -> bool {
    &&& valid_utf8(target)
    &&& has_no_cr(target)
    &&& forall|i: int| 0 <= i < target.len() ==> target[i] != SP
}

/// The head can be read back from its bytes: a sound target, no name twice,
/// names and values that fit on a line, and the body length that the fields
/// declare.
pub open spec fn is_sound_head(head: Head) -> bool {
    &&& is_sound_target(head.target)
    &&& names_distinct(head.fields)
    &&& fields_are_sound(head.fields)
    &&& declared_length(head.fields) == Some(head.body_len)
}

/// All the chunks, one after the other.
pub open spec fn joined(chunks: Seq<Seq<u8>>) -> Seq<u8>
    decreases chunks.len(),
{
    if chunks.len() == 0 {
        Seq::empty()
    } else {
        joined(chunks.drop_last()) + chunks.last()
    }
}

/// What a reader comes to that receives `chunks` one by one, appends each to
/// its buffer, reads the head from the whole buffer again, and stops at the
/// first outcome other than `Incomplete`.
pub open spec fn fed(chunks: Seq<Seq<u8>>) -> Outcome<Parsed>
    decreases chunks.len(),
{
    if chunks.len() == 0 {
        Outcome::Incomplete
    } else {
        match fed(chunks.drop_last()) {
            Outcome::Incomplete => request_head(joined(chunks)),
            decided => decided,
        }
    }
}

/// The rest of a complete head is a proper suffix of the input, and the names
/// of its fields are distinct.
pub proof fn lemma_request_head_complete(input: Seq<u8>)
    requires
        request_head(input) is Complete,
    ensures
        request_head(input)->Complete_0.rest.len() < input.len(),
        request_head(input)->Complete_0.rest == input.skip(
            input.len() - request_head(input)->Complete_0.rest.len(),
        ),
        names_distinct(request_head(input)->Complete_0.head.fields),
{
    lemma_first_line_splits(input);
    let line = first_line(input)->Complete_0;
    lemma_header_block_complete(line.rest, Seq::empty());
    let rest = request_head(input)->Complete_0.rest;
    assert(rest =~= input.skip(input.len() - rest.len()));
}

/// Once the head of a request is complete or refused, bytes that arrive later
/// do not change the outcome: the same head or the same error comes out, and
/// the later bytes only lengthen the rest.
pub proof fn lemma_request_head_grows(input: Seq<u8>, more: Seq<u8>)
    requires
        !(request_head(input) is Incomplete),
    ensures
        request_head(input + more) == match request_head(input) {
            Outcome::Complete(parsed) => Outcome::Complete(
                Parsed { head: parsed.head, rest: parsed.rest + more },
            ),
            refused => refused,
        },
{
    lemma_first_line_grows(input, more);
    if let Outcome::Complete(line) = first_line(input) {
        if start_line(line.text) is Ok {
            lemma_header_block_grows(line.rest, more, Seq::empty());
        }
    }
}

/// A start line with a sound target holds no carriage return, is well-formed
/// UTF-8, and is read back as its method and its target.
pub proof fn lemma_start_line_of(method: Method, target: Seq<u8>)
    requires
        is_sound_target(target),
    ensures
        has_no_cr(request_line(method, target)),
        valid_utf8(request_line(method, target)),
        start_line(request_line(method, target)) == Ok::<(Method, Seq<u8>), Error>(
            (method, target),
        ),
{
    let token = method.token();
    let version = http_version();
    let line = request_line(method, target);
    method.lemma_token_upper_case();
    method.lemma_with_token_inverts_token();
    lemma_http_version();
    let remainder = target + seq![SP] + version;
    assert(line =~= token + seq![SP] + remainder);
    bytes::lemma_split_once_byte(token, SP, remainder);
    bytes::lemma_split_once_byte(target, SP, version);
    assert(is_plain(token));
    assert(is_plain(seq![SP]));
    assert(is_plain(version));
    lemma_plain_is_utf8(token);
    lemma_plain_is_utf8(seq![SP]);
    lemma_plain_is_utf8(version);
    vstd::utf8::valid_utf8_concat(token, seq![SP]);
    vstd::utf8::valid_utf8_concat(token + seq![SP], target);
    vstd::utf8::valid_utf8_concat(token + seq![SP] + target, seq![SP]);
    vstd::utf8::valid_utf8_concat(token + seq![SP] + target + seq![SP], version);
}

/// Reading the bytes of a sound head gives the head back, and what stood
/// after those bytes as the rest.
pub proof fn lemma_request_head_of(head: Head, rest: Seq<u8>)
    requires
        is_sound_head(head),
    ensures
        request_head(head_bytes(head) + rest) == Outcome::Complete(Parsed { head, rest }),
{
    let line = request_line(head.method, head.target);
    let after = field_lines(head.fields) + line_ending() + rest;
    assert(head_bytes(head) + rest =~= line + line_ending() + after);
    lemma_start_line_of(head.method, head.target);
    lemma_first_line_of(line, after);
    assert(Seq::<(Seq<u8>, Seq<u8>)>::empty() + head.fields =~= head.fields);
    lemma_header_block_of(head.fields, Seq::empty(), rest);
}

/// Feeding a request in chunks, in whatever way it is cut, comes to what
/// reading it in one piece comes to: the same head, the same error, or in both
/// cases the need for more bytes.
pub proof fn lemma_chunked_feeding(chunks: Seq<Seq<u8>>)
    ensures
        match request_head(joined(chunks)) {
            Outcome::Incomplete => fed(chunks) is Incomplete,
            Outcome::Rejected(error) => fed(chunks) == Outcome::<Parsed>::Rejected(error),
            Outcome::Complete(whole) => fed(chunks) is Complete && fed(chunks)->Complete_0.head
                == whole.head,
        },
    decreases chunks.len(),
{
    if chunks.len() == 0 {
        bytes::lemma_first_occurrence(joined(chunks), seq![CR]);
    } else {
        lemma_chunked_feeding(chunks.drop_last());
        if !(request_head(joined(chunks.drop_last())) is Incomplete) {
            lemma_request_head_grows(joined(chunks.drop_last()), chunks.last());
        }
    }
}

/// The body length of a complete head is what its `Content-Length` field
/// says: the number that the last such field denotes, and zero without one.
pub proof fn lemma_content_length_fidelity(input: Seq<u8>)
    requires
        request_head(input) is Complete,
    ensures
        match lookup(request_head(input)->Complete_0.head.fields, content_length_name()) {
            Some(value) => numeral_value(value) == Some(
                request_head(input)->Complete_0.head.body_len,
            ),
            None => request_head(input)->Complete_0.head.body_len == 0,
        },
{
}

/// A request that declares `Content-Length: N` in its last header has a body
/// length of `N`, whatever its other headers are.
pub proof fn lemma_declared_length_is_read(
    method: Method,
    target: Seq<u8>,
    fields: Seq<(Seq<u8>, Seq<u8>)>,
    n: nat,
    rest: Seq<u8>,
)
    requires
        n <= usize::MAX,
        is_sound_target(target),
        fields_are_sound(fields),
        names_distinct(fields),
        !holds(fields, content_length_name()),
    ensures
        ({
            let head = Head {
                method,
                target,
                fields: fields.push((content_length_name(), numeral(n))),
                body_len: n,
            };
            request_head(head_bytes(head) + rest) == Outcome::Complete(Parsed { head, rest })
        }),
{
    let name = content_length_name();
    let value = numeral(n);
    let all = fields.push((name, value));
    let head = Head { method, target, fields: all, body_len: n };
    lemma_numeral(n);
    lemma_plain_is_utf8(value);
    reveal_strlit("Content-Length");
    vstd::string::is_ascii_spec_bytes("Content-Length");
    assert(is_plain(name));
    lemma_plain_is_utf8(name);
    assert forall|at: int| !occurs_at(name, field_separator(), at) by {
        if occurs_at(name, field_separator(), at) {
            assert(name.subrange(at, at + 2)[0] == name[at]);
        }
    }
    assert forall|i: int| 0 <= i < value.len() implies value[i] != CR by {
        assert(is_digit(value[i]));
    }
    assert(names_distinct(all)) by {
        assert forall|i: int, j: int| 0 <= i < j < all.len() implies (#[trigger] all[i]).0 != (
        #[trigger] all[j]).0 by {
            if j == fields.len() {
                assert(fields[i].0 == all[i].0);
            } else {
                assert(fields[i] == all[i] && fields[j] == all[j]);
            }
        }
    }
    assert(fields_are_sound(all)) by {
        assert forall|i: int| 0 <= i < all.len() implies is_sound_name((#[trigger] all[i]).0)
            && is_sound_value(all[i].1) by {
            if i < fields.len() {
                assert(all[i] == fields[i]);
            }
        }
    }
    lemma_index_of(all, fields.len() as int);
    lemma_request_head_of(head, rest);
}

/// One HTTP/1.1 request. Its strings and its body are slices of the buffer it
/// was read from.
#[derive(Debug)]
pub struct Request<'request> {
    /// The method of the start line.
    pub method: Method,
    /// The request target as it was sent: neither normalised nor decoded.
    pub target: &'request str,
    /// The header fields. Names are kept and compared as they were sent.
    pub headers: Headers<&'request str>,
    /// The length of the body that the headers declare.
    pub body_len: usize,
    /// The body, once `body_len` bytes have been collected and attached.
    pub body: Option<&'request [u8]>,
}

fn parse_start_line<'a>(line: &'a str) -> (found: Result<(Method, &'a str), Error>)
    ensures
        match start_line(line.spec_bytes()) {
            Ok((method, target)) => found matches Ok((m, t)) && m == method && t.spec_bytes()
                == target,
            Err(error) => found matches Err(e) && e == error,
        },
{
    proof {
        lemma_space();
    }
    match text::split_once(line, " ") {
        None => Err(Error::MalformedStartLine),
        Some((token, remainder)) => match text::split_once(remainder, " ") {
            None => Err(Error::MalformedStartLine),
            Some((target, version)) => {
                if !bytes::equal(version.as_bytes(), "HTTP/1.1".as_bytes()) {
                    return Err(Error::UnsupportedVersion);
                }
                match Method::from_str(token) {
                    Err(error) => Err(error),
                    Ok(method) => Ok((method, target)),
                }
            },
        },
    }
}

impl<'request> Request<'request> {
    /// What the request says, apart from its body.
    pub open spec fn head(&self) -> Head {
        Head {
            method: self.method,
            target: self.target.spec_bytes(),
            fields: self.headers.entries(),
            body_len: self.body_len as nat,
        }
    }

    /// Tries to read the head of a request from the bytes received so far.
    ///
    /// While the head is incomplete, the input comes back whole with `None`.
    /// Once it is complete, what follows the head comes back with a request
    /// whose `body_len` is the declared length of the body and whose `body` is
    /// still absent. A malformed head is an error.
    pub fn parse_header(input: &'request [u8]) -> (parsed: Result<
        (&'request [u8], Option<Request<'request>>),
        Error,
    >)
        ensures
            match request_head(input@) {
                Outcome::Incomplete => parsed matches Ok((rest, None)) && rest@ == input@,
                Outcome::Rejected(error) => parsed matches Err(e) && e == error,
                Outcome::Complete(whole) => parsed matches Ok((rest, Some(request))) && rest@
                    == whole.rest && request.head() == whole.head && request.body is None,
            },
    {
        let (line, after) = match next_line(input) {
            Err(error) => {
                return Err(error);
            },
            Ok(None) => {
                return Ok((input, None));
            },
            Ok(Some(found)) => found,
        };
        let (method, target) = match parse_start_line(line) {
            Err(error) => {
                return Err(error);
            },
            Ok(found) => found,
        };
        let (headers, rest) = match read_block(after) {
            Err(error) => {
                return Err(error);
            },
            Ok(None) => {
                return Ok((input, None));
            },
            Ok(Some(found)) => found,
        };
        let body_len = match content_length(&headers) {
            Err(error) => {
                return Err(error);
            },
            Ok(length) => length,
        };
        Ok((rest, Some(Request { method, target, headers, body_len, body: None })))
    }

    /// Attaches the body. It must have exactly the declared length.
    pub fn set_body(&mut self, body: &'request [u8])
        requires
            body@.len() == old(self).body_len,
        ensures
            final(self).body == Some(body),
            final(self).head() == old(self).head(),
            final(self).body_len == old(self).body_len,
    {
        self.body = Some(body);
    }
}

} // verus!
