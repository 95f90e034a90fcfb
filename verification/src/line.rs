use crate::bytes;
use crate::bytes::first_occurrence;
use crate::bytes::occurs_at;
use crate::error::Error;
use crate::text::is_printable;
use vstd::prelude::*;
use vstd::string::StringSliceAdditionalSpecFns;
use vstd::utf8::valid_utf8;

verus! {

/// Carriage return, the first byte of a line ending.
pub const CR: u8 = 13;

/// Line feed, the second byte of a line ending.
pub const LF: u8 = 10;

/// The space that separates the fields of a start line.
pub const SP: u8 = 32;

/// The colon that, with a space after it, separates a header's name from its
/// value.
pub const COLON: u8 = 58;

/// What reading a prefix of a byte stream can come to.
pub enum Outcome<T> {
    /// The bytes so far decide nothing: more are needed.
    Incomplete,
    /// The bytes so far are malformed, whatever follows them.
    Rejected(Error),
    /// The bytes so far hold a whole item.
    Complete(T),
}

/// A line and what follows its ending.
pub struct Line {
    /// The line, without its ending.
    pub text: Seq<u8>,
    /// The input after the line's ending.
    pub rest: Seq<u8>,
}

/// The only protocol version that is accepted.
pub open spec fn http_version() -> Seq<u8> {
    "HTTP/1.1".spec_bytes()
}

/// The two bytes that end a line.
pub open spec fn line_ending() -> Seq<u8> {
    seq![CR, LF]
}

/// The first line of `input`: the bytes before the first carriage return,
/// which a line feed must follow and which must be well-formed UTF-8. While no
/// carriage return has come, or none with a byte after it, the line is
/// incomplete.
pub open spec fn first_line(input: Seq<u8>) -> Outcome<Line> {
    match first_occurrence(input, seq![CR]) {
        None => Outcome::Incomplete,
        Some(end) => if end + 1 >= input.len() {
            Outcome::Incomplete
        } else if input[end + 1] != LF {
            Outcome::Rejected(Error::MalformedLineEnding)
        } else if !valid_utf8(input.take(end)) {
            Outcome::Rejected(Error::InvalidUtf8)
        } else {
            Outcome::Complete(Line { text: input.take(end), rest: input.skip(end + 2) })
        },
    }
}

/// No byte of `text` is a carriage return.
pub open spec fn has_no_cr(text: Seq<u8>) -> bool {
    forall|i: int| 0 <= i < text.len() ==> text[i] != CR
}

/// The separator written as a string is the space of the grammar.
pub proof fn lemma_space()
    ensures
        " ".spec_bytes() == seq![SP],
{
    reveal_strlit(" ");
    vstd::string::is_ascii_spec_bytes(" ");
    assert(" ".spec_bytes() =~= seq![SP]);
}

/// The version written as a string is eight printable characters, none of
/// them a space.
pub proof fn lemma_http_version()
    ensures
        http_version().len() == 8,
        is_printable(http_version()),
        forall|i: int| 0 <= i < 8 ==> http_version()[i] != SP,
{
    reveal_strlit("HTTP/1.1");
    vstd::string::is_ascii_spec_bytes("HTTP/1.1");
}

/// A complete first line together with its ending and the rest make up the
/// input, and the line holds no carriage return.
pub proof fn lemma_first_line_splits(input: Seq<u8>)
    requires
        first_line(input) is Complete,
    ensures
        input == first_line(input)->Complete_0.text + line_ending() + first_line(
            input,
        )->Complete_0.rest,
        has_no_cr(first_line(input)->Complete_0.text),
        valid_utf8(first_line(input)->Complete_0.text),
        first_line(input)->Complete_0.rest.len() < input.len(),
{
    bytes::lemma_first_occurrence(input, seq![CR]);
    let end = first_occurrence(input, seq![CR])->0;
    let line = first_line(input)->Complete_0;
    bytes::lemma_occurs_at_byte(input, CR, end);
    assert(input =~= line.text + line_ending() + line.rest);
    assert forall|i: int| 0 <= i < line.text.len() implies line.text[i] != CR by {
        bytes::lemma_occurs_at_byte(input, CR, i);
    }
}

/// A text without carriage return, followed by a line ending, is read back as
/// the first line, and what follows the ending as the rest.
pub proof fn lemma_first_line_of(text: Seq<u8>, rest: Seq<u8>)
    requires
        has_no_cr(text),
        valid_utf8(text),
    ensures
        first_line(text + line_ending() + rest) == Outcome::Complete(Line { text, rest }),
{
    let input = text + line_ending() + rest;
    let end = text.len() as int;
    bytes::lemma_occurs_at_byte(input, CR, end);
    assert forall|earlier: int| 0 <= earlier < end implies !occurs_at(
        input,
        seq![CR],
        earlier,
    ) by {
        bytes::lemma_occurs_at_byte(input, CR, earlier);
    }
    bytes::lemma_first_occurrence_at(input, seq![CR], end);
    assert(input.take(end) =~= text);
    assert(input.skip(end + 2) =~= rest);
}

/// Once the first line is complete or refused, bytes that arrive later do not
/// change it: they only lengthen the rest.
pub proof fn lemma_first_line_grows(input: Seq<u8>, more: Seq<u8>)
    requires
        !(first_line(input) is Incomplete),
    ensures
        first_line(input + more) == match first_line(input) {
            Outcome::Complete(line) => Outcome::Complete(
                Line { text: line.text, rest: line.rest + more },
            ),
            refused => refused,
        },
{
    bytes::lemma_first_occurrence_grows(input, more, seq![CR]);
    bytes::lemma_first_occurrence(input, seq![CR]);
    let end = first_occurrence(input, seq![CR])->0;
    bytes::lemma_occurs_at_byte(input, CR, end);
    let longer = input + more;
    assert(longer[end + 1] == input[end + 1]);
    assert(longer.take(end) =~= input.take(end));
    assert(longer.skip(end + 2) =~= input.skip(end + 2) + more);
}

/// Reads the first line of `input`. `Ok(None)` means that the line is not
/// complete yet.
pub fn next_line<'a>(input: &'a [u8]) -> (found: Result<Option<(&'a str, &'a [u8])>, Error>)
    ensures
        match first_line(input@) {
            Outcome::Incomplete => found == Ok::<Option<(&str, &[u8])>, Error>(None),
            Outcome::Rejected(error) => found == Err::<Option<(&str, &[u8])>, Error>(error),
            Outcome::Complete(line) => found matches Ok(Some((text, rest))) && text.spec_bytes()
                == line.text && rest@ == line.rest,
        },
{
    let pattern: [u8; 1] = [CR];
    assert(pattern@ =~= seq![CR]);
    let len = input.len();
    match bytes::find(input, &pattern) {
        None => Ok(None),
        Some(end) => {
            proof {
                bytes::lemma_first_occurrence(input@, seq![CR]);
                bytes::lemma_occurs_at_byte(input@, CR, end as int);
            }
            if end + 1 >= len {
                return Ok(None);
            }
            if input[end + 1] != LF {
                return Err(Error::MalformedLineEnding);
            }
            let (head, tail) = input.split_at(end);
            assert(head@ =~= input@.take(end as int));
            match core::str::from_utf8(head) {
                Err(_) => Err(Error::InvalidUtf8),
                Ok(text) => {
                    let (_, rest) = tail.split_at(2);
                    assert(rest@ =~= input@.skip(end + 2));
                    Ok(Some((text, rest)))
                },
            }
        },
    }
}

} // verus!
