use crate::block::content_length;
use crate::block::content_length_name;
use crate::block::declared_length;
use crate::block::field_lines;
use crate::block::field_line;
use crate::block::field_separator;
use crate::block::fields_are_sound;
use crate::block::header_block;
use crate::block::lemma_header_block_of;
use crate::block::read_block;
use crate::bytes;
use crate::bytes::occurs_at;
use crate::bytes::split_once;
use crate::decimal;
use crate::decimal::numeral;
use crate::decimal::numeral_value;
use crate::error::Error;
use crate::headers::lemma_index_of;
use crate::headers::lookup;
use crate::headers::names_distinct;
use crate::headers::Headers;
use crate::line::first_line;
use crate::line::has_no_cr;
use crate::line::http_version;
use crate::line::lemma_http_version;
use crate::line::lemma_space;
use crate::line::lemma_first_line_of;
use crate::line::line_ending;
use crate::line::next_line;
use crate::line::Outcome;
use crate::line::COLON;
use crate::line::CR;
use crate::line::LF;
use crate::line::SP;
use crate::status_code::StatusCode;
use crate::text;
use crate::text::is_printable;
use crate::text::lemma_plain_is_utf8;
use crate::text::Text;
use vstd::prelude::*;
use vstd::string::StringSliceAdditionalSpecFns;
use vstd::utf8::valid_utf8;

verus! {

/// The name of the header that says what kind of body follows.
pub open spec fn content_type_name() -> Seq<u8> {
    "Content-Type".spec_bytes()
}

/// The kind of body that `Response::from_body` announces.
pub open spec fn text_plain() -> Seq<u8> {
    "text/plain".spec_bytes()
}

/// The status line without its ending: `HTTP/1.1 SP number SP phrase`.
pub open spec fn status_line(status: StatusCode) -> Seq<u8> {
    http_version() + seq![SP] + numeral(status.code() as nat) + seq![SP]
        + status.phrase().spec_bytes()
}

/// What a response says.
pub struct Message {
    /// The status of the status line.
    pub status: StatusCode,
    /// The header fields, in order.
    pub fields: Seq<(Seq<u8>, Seq<u8>)>,
    /// The body, where the fields declare one.
    pub body: Option<Seq<u8>>,
}

/// A response and what follows it.
pub struct Decoded {
    /// The response.
    pub message: Message,
    /// The input after the response.
    pub rest: Seq<u8>,
}

/// The bytes of a response: status line, header lines, an empty line, and the
/// body as it is.
pub open spec fn encoded(message: Message) -> Seq<u8> {
    status_line(message.status) + line_ending() + field_lines(message.fields) + line_ending()
        + match message.body {
        Some(bytes) => bytes,
        None => Seq::empty(),
    }
}

/// The status that a numeral names.
pub open spec fn status_numbered(number: Seq<u8>) -> Option<StatusCode> {
    match numeral_value(number) {
        Some(value) => if value <= u16::MAX {
            StatusCode::with_code(value as u16)
        } else {
            None
        },
        None => None,
    }
}

/// The status of a status line `HTTP/1.1 SP number SP phrase`. The line is cut
/// at its first space and at the first space after that one, and the phrase
/// must be the canonical phrase of the number.
pub open spec fn status_of(line: Seq<u8>) -> Result<StatusCode, Error> {
    match split_once(line, seq![SP]) {
        None => Err(Error::MalformedStatusLine),
        Some((version, remainder)) => if version != http_version() {
            Err(Error::UnsupportedVersion)
        } else {
            match split_once(remainder, seq![SP]) {
                None => Err(Error::MalformedStatusLine),
                Some((number, phrase)) => match status_numbered(number) {
                    None => Err(Error::InvalidStatusCode),
                    Some(status) => if phrase == status.phrase().spec_bytes() {
                        Ok(status)
                    } else {
                        Err(Error::MalformedStatusLine)
                    },
                },
            }
        },
    }
}

/// The response that `input` begins with: a status line, header lines, an
/// empty line, and a body of the length that a `Content-Length` field
/// declares. Without such a field there is no body.
pub open spec fn response_message(input: Seq<u8>) -> Outcome<Decoded> {
    match first_line(input) {
        Outcome::Incomplete => Outcome::Incomplete,
        Outcome::Rejected(error) => Outcome::Rejected(error),
        Outcome::Complete(line) => match status_of(line.text) {
            Err(error) => Outcome::Rejected(error),
            Ok(status) => match header_block(line.rest, Seq::empty()) {
                Outcome::Incomplete => Outcome::Incomplete,
                Outcome::Rejected(error) => Outcome::Rejected(error),
                Outcome::Complete(block) => if lookup(block.fields, content_length_name())
                    is None {
                    Outcome::Complete(
                        Decoded {
                            message: Message { status, fields: block.fields, body: None },
                            rest: block.rest,
                        },
                    )
                } else {
                    match declared_length(block.fields) {
                        None => Outcome::Rejected(Error::InvalidContentLength),
                        Some(length) => if block.rest.len() < length {
                            Outcome::Incomplete
                        } else {
                            Outcome::Complete(
                                Decoded {
                                    message: Message {
                                        status,
                                        fields: block.fields,
                                        body: Some(block.rest.take(length as int)),
                                    },
                                    rest: block.rest.skip(length as int),
                                },
                            )
                        },
                    }
                },
            },
        },
    }
}

/// The fields say how long the body is: a `Content-Length` field with the
/// body's length where there is a body, none where there is none.
pub open spec fn body_is_declared(fields: Seq<(Seq<u8>, Seq<u8>)>, body: Option<Seq<u8>>) -> bool {
    match body {
        Some(bytes) => bytes.len() <= usize::MAX && lookup(fields, content_length_name())
            is Some && numeral_value(lookup(fields, content_length_name())->0) == Some(
            bytes.len(),
        ),
        None => lookup(fields, content_length_name()) is None,
    }
}

/// The message can be read back from its bytes: no name twice, names and
/// values that fit on a line, and a body that the fields declare.
pub open spec fn is_framed(message: Message) -> bool {
    &&& names_distinct(message.fields)
    &&& fields_are_sound(message.fields)
    &&& body_is_declared(message.fields, message.body)
}

/// A status line is printable, and is read back as its status.
pub proof fn lemma_status_line(status: StatusCode)
    ensures
        is_printable(status_line(status)),
        has_no_cr(status_line(status)),
        valid_utf8(status_line(status)),
        status_of(status_line(status)) == Ok::<StatusCode, Error>(status),
{
    let version = http_version();
    let number = numeral(status.code() as nat);
    let phrase = status.phrase().spec_bytes();
    let line = status_line(status);
    lemma_http_version();
    decimal::lemma_numeral(status.code() as nat);
    status.lemma_phrase_printable();
    status.lemma_with_code_inverts_code();
    let remainder = number + seq![SP] + phrase;
    assert(line =~= version + seq![SP] + remainder);
    bytes::lemma_split_once_byte(version, SP, remainder);
    assert forall|i: int| 0 <= i < number.len() implies number[i] != SP by {
        assert(decimal::is_digit(number[i]));
    }
    bytes::lemma_split_once_byte(number, SP, phrase);
    assert forall|i: int| 0 <= i < line.len() implies 32 <= #[trigger] line[i] < 127 by {
        if i < 8 {
            assert(line[i] == version[i]);
        } else if i == 8 {
        } else if i < 9 + number.len() {
            assert(line[i] == number[i - 9]);
            assert(decimal::is_digit(number[i - 9]));
        } else if i == 9 + number.len() {
        } else {
            assert(line[i] == phrase[i - 10 - number.len()]);
        }
    }
    lemma_plain_is_utf8(line);
}

/// Reading the bytes of a framed message gives the message back, and what
/// stood after those bytes as the rest.
pub proof fn lemma_decode_inverts_encode(message: Message, more: Seq<u8>)
    requires
        is_framed(message),
    ensures
        response_message(encoded(message) + more) == Outcome::Complete(
            Decoded { message, rest: more },
        ),
{
    let input = encoded(message) + more;
    let body = match message.body {
        Some(bytes) => bytes,
        None => Seq::empty(),
    };
    let after_status = field_lines(message.fields) + line_ending() + (body + more);
    assert(input =~= status_line(message.status) + line_ending() + after_status);
    lemma_status_line(message.status);
    lemma_first_line_of(status_line(message.status), after_status);
    assert(Seq::<(Seq<u8>, Seq<u8>)>::empty() + message.fields =~= message.fields);
    lemma_header_block_of(message.fields, Seq::empty(), body + more);
    match message.body {
        Some(bytes) => {
            assert((body + more).take(bytes.len() as int) =~= bytes);
            assert((body + more).skip(bytes.len() as int) =~= more);
        },
        None => {
            assert(body + more =~= more);
        },
    }
}

/// The two header names that `Response::from_body` writes differ.
pub proof fn lemma_body_header_names()
    ensures
        content_type_name() != content_length_name(),
{
    reveal_strlit("Content-Type");
    reveal_strlit("Content-Length");
    vstd::string::is_ascii_spec_bytes("Content-Type");
    vstd::string::is_ascii_spec_bytes("Content-Length");
}

/// A message without header and without body is framed.
pub proof fn lemma_bare_is_framed(status: StatusCode)
    ensures
        is_framed(Message { status, fields: Seq::empty(), body: None }),
{
}

/// A message with a body and the two headers that announce it is framed.
pub proof fn lemma_text_is_framed(body: Seq<u8>)
    requires
        body.len() <= usize::MAX,
    ensures
        is_framed(
            Message {
                status: StatusCode::OK,
                fields: seq![
                    (content_type_name(), text_plain()),
                    (content_length_name(), numeral(body.len())),
                ],
                body: Some(body),
            },
        ),
{
    let length = numeral(body.len());
    let fields = seq![(content_type_name(), text_plain()), (content_length_name(), length)];
    lemma_body_header_names();
    reveal_strlit("Content-Type");
    reveal_strlit("Content-Length");
    reveal_strlit("text/plain");
    vstd::string::is_ascii_spec_bytes("Content-Type");
    vstd::string::is_ascii_spec_bytes("Content-Length");
    vstd::string::is_ascii_spec_bytes("text/plain");
    decimal::lemma_numeral(body.len());
    lemma_plain_is_utf8(content_type_name());
    lemma_plain_is_utf8(content_length_name());
    lemma_plain_is_utf8(text_plain());
    lemma_plain_is_utf8(length);
    assert forall|at: int| !occurs_at(content_type_name(), field_separator(), at) by {
        if occurs_at(content_type_name(), field_separator(), at) {
            assert(content_type_name().subrange(at, at + 2)[0] == content_type_name()[at]);
        }
    }
    assert forall|at: int| !occurs_at(content_length_name(), field_separator(), at) by {
        if occurs_at(content_length_name(), field_separator(), at) {
            assert(content_length_name().subrange(at, at + 2)[0] == content_length_name()[at]);
        }
    }
    assert forall|i: int| 0 <= i < length.len() implies length[i] != CR by {
        assert(decimal::is_digit(length[i]));
    }
    assert(fields[1].0 == content_length_name());
    lemma_index_of(fields, 1);
}

fn parse_status_line(line: &str) -> (found: Result<StatusCode, Error>)
    ensures
        found == status_of(line.spec_bytes()),
{
    proof {
        lemma_space();
    }
    match text::split_once(line, " ") {
        None => Err(Error::MalformedStatusLine),
        Some((version, remainder)) => {
            if !bytes::equal(version.as_bytes(), "HTTP/1.1".as_bytes()) {
                return Err(Error::UnsupportedVersion);
            }
            match text::split_once(remainder, " ") {
                None => Err(Error::MalformedStatusLine),
                Some((number, phrase)) => {
                    let value = match decimal::parse_usize(number.as_bytes()) {
                        Some(value) => value,
                        None => {
                            return Err(Error::InvalidStatusCode);
                        },
                    };
                    if value > 65535 {
                        return Err(Error::InvalidStatusCode);
                    }
                    match StatusCode::try_from(value as u16) {
                        Err(error) => Err(error),
                        Ok(status) => {
                            if bytes::equal(phrase.as_bytes(), status.text().as_bytes()) {
                                Ok(status)
                            } else {
                                Err(Error::MalformedStatusLine)
                            }
                        },
                    }
                },
            }
        },
    }
}

/// One HTTP/1.1 response.
#[derive(Debug)]
pub struct Response {
    /// The status of the status line.
    pub status_code: StatusCode,
    /// The header fields, written in the order in which they were stored.
    pub headers: Headers<String>,
    /// The body, written as it is after the empty line.
    pub body: Option<Vec<u8>>,
}

impl Response {
    /// The body as a sequence of bytes.
    pub open spec fn body_bytes(&self) -> Option<Seq<u8>> {
        match self.body {
            Some(bytes) => Some(bytes@),
            None => None,
        }
    }

    /// What the response says.
    pub open spec fn message(&self) -> Message {
        Message {
            status: self.status_code,
            fields: self.headers.entries(),
            body: self.body_bytes(),
        }
    }

    /// The bytes that `encode` writes for this response.
    pub open spec fn wire(&self) -> Seq<u8> {
        encoded(self.message())
    }

    /// The response has the given status, no header and no body.
    pub open spec fn is_bare(&self, status: StatusCode) -> bool {
        &&& self.status_code == status
        &&& self.headers.entries() == Seq::<(Seq<u8>, Seq<u8>)>::empty()
        &&& self.body is None
    }

    /// The response is `200 OK`, has the given body, and says in two headers
    /// that the body is `text/plain` and how long it is.
    pub open spec fn is_text(&self, body: Seq<u8>) -> bool {
        &&& self.status_code == StatusCode::OK
        &&& self.headers.entries() == seq![
            (content_type_name(), text_plain()),
            (content_length_name(), numeral(body.len())),
        ]
        &&& self.body_bytes() == Some(body)
    }

    /// A response with the given status, no header and no body.
    pub fn from_status_code(status_code: StatusCode) -> (response: Response)
        ensures
            response.is_bare(status_code),
            is_framed(response.message()),
    {
        proof {
            lemma_bare_is_framed(status_code);
        }
        Response { status_code, headers: Headers::new(), body: None }
    }

    /// A `200 OK` response with the given body, announced as `text/plain` of
    /// the body's length.
    pub fn from_body(body: Vec<u8>) -> (response: Response)
        ensures
            response.is_text(body@),
            response.body == Some(body),
            is_framed(response.message()),
    {
        let length = body.len();
        proof {
            lemma_text_is_framed(body@);
        }
        let mut headers: Headers<String> = Headers::new();
        headers.insert("Content-Type".to_owned(), "text/plain".to_owned());
        headers.insert("Content-Length".to_owned(), decimal::numeral_string(length));
        proof {
            lemma_body_header_names();
            let first = (content_type_name(), text_plain());
            let one = seq![first];
            assert(one[0].0 == content_type_name());
            assert(headers.entries() =~= seq![
                first,
                (content_length_name(), numeral(body@.len())),
            ]);
        }
        Response { status_code: StatusCode::OK, headers, body: Some(body) }
    }

    /// Tries to read a response from the bytes received so far.
    ///
    /// While the response is incomplete, the input comes back whole with
    /// `None`. Once it is complete, what follows it comes back with the
    /// response. A malformed response is an error.
    pub fn decode(input: &[u8]) -> (decoded: Result<(&[u8], Option<Response>), Error>)
        ensures
            match response_message(input@) {
                Outcome::Incomplete => decoded matches Ok((rest, None)) && rest@ == input@,
                Outcome::Rejected(error) => decoded matches Err(e) && e == error,
                Outcome::Complete(whole) => decoded matches Ok((rest, Some(response))) && rest@
                    == whole.rest && response.message() == whole.message,
            },
    {
        let (line, after) = match next_line(input) {
            Err(error) => {
                return Err(error);
            },
            Ok(None) => {
                return Ok((input, None));
            },
            Ok(Some(found)) => found,
        };
        let status_code = match parse_status_line(line) {
            Err(error) => {
                return Err(error);
            },
            Ok(status) => status,
        };
        let (fields, rest) = match read_block(after) {
            Err(error) => {
                return Err(error);
            },
            Ok(None) => {
                return Ok((input, None));
            },
            Ok(Some(found)) => found,
        };
        if fields.get("Content-Length").is_none() {
            let headers = fields.to_owned();
            return Ok((rest, Some(Response { status_code, headers, body: None })));
        }
        let length = match content_length(&fields) {
            Err(error) => {
                return Err(error);
            },
            Ok(length) => length,
        };
        if rest.len() < length {
            return Ok((input, None));
        }
        let (body, rest) = rest.split_at(length);
        let headers = fields.to_owned();
        let body = vstd::slice::slice_to_vec(body);
        Ok((rest, Some(Response { status_code, headers, body: Some(body) })))
    }

    /// The bytes to send for this response. Where the response is framed,
    /// `decode` reads it back from them.
    pub fn encode(&self) -> (output: Vec<u8>)
        ensures
            output@ == self.wire(),
            is_framed(self.message()) ==> response_message(output@) == Outcome::Complete(
                Decoded { message: self.message(), rest: Seq::empty() },
            ),
    {
        proof {
            if is_framed(self.message()) {
                lemma_decode_inverts_encode(self.message(), Seq::empty());
                assert(self.wire() + Seq::<u8>::empty() =~= self.wire());
            }
        }
        let mut output: Vec<u8> = Vec::new();
        let number: u16 = u16::from(self.status_code);
        bytes::append(&mut output, "HTTP/1.1".as_bytes());
        output.push(SP);
        decimal::push_numeral(&mut output, number as usize);
        output.push(SP);
        bytes::append(&mut output, self.status_code.text().as_bytes());
        output.push(CR);
        output.push(LF);
        assert(output@ =~= status_line(self.status_code) + line_ending());
        let ghost fields = self.headers.entries();
        let count = self.headers.len();
        let mut index: usize = 0;
        while index < count
            invariant
                index <= count,
                count == fields.len(),
                fields == self.headers.entries(),
                output@ == status_line(self.status_code) + line_ending() + field_lines(
                    fields.take(index as int),
                ),
            decreases count - index,
        {
            let ghost before = output@;
            match self.headers.field(index) {
                Some((name, value)) => {
                    bytes::append(&mut output, name.as_str().as_bytes());
                    output.push(COLON);
                    output.push(SP);
                    bytes::append(&mut output, value.as_str().as_bytes());
                    output.push(CR);
                    output.push(LF);
                },
                None => {},
            }
            proof {
                let longer = fields.take(index + 1);
                assert(longer.drop_last() =~= fields.take(index as int));
                assert(longer.last() == fields[index as int]);
                assert(output@ =~= before + field_line(fields[index as int]));
            }
            index += 1;
        }
        assert(fields.take(index as int) =~= fields);
        output.push(CR);
        output.push(LF);
        match &self.body {
            Some(body) => {
                bytes::append(&mut output, body.as_slice());
            },
            None => {},
        }
        assert(output@ =~= self.wire());
        output
    }
}

} // verus!
