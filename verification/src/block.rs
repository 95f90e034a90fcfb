use crate::bytes;
use crate::bytes::occurs_at;
use crate::bytes::split_once;
use crate::decimal;
use crate::decimal::numeral_value;
use crate::error::Error;
use crate::headers::holds;
use crate::headers::index_of;
use crate::headers::lemma_upsert;
use crate::headers::lookup;
use crate::headers::names_distinct;
use crate::headers::upsert;
use crate::headers::Headers;
use crate::line::first_line;
use crate::line::has_no_cr;
use crate::line::lemma_first_line_grows;
use crate::line::lemma_first_line_of;
use crate::line::lemma_first_line_splits;
use crate::line::line_ending;
use crate::line::next_line;
use crate::line::Outcome;
use crate::line::COLON;
use crate::line::SP;
use crate::text;
use crate::text::Text;
use vstd::prelude::*;
use vstd::string::StringSliceAdditionalSpecFns;
use vstd::utf8::valid_utf8;

verus! {

/// A header block that was read to its end, and what follows it.
pub struct Block {
    /// The fields of the block, a later value for a name in place of an
    /// earlier one.
    pub fields: Seq<(Seq<u8>, Seq<u8>)>,
    /// The input after the empty line that ends the block.
    pub rest: Seq<u8>,
}

/// What stands between a header's name and its value.
pub open spec fn field_separator() -> Seq<u8> {
    seq![COLON, SP]
}

/// The name and the value of a header line: what stands before and after its
/// first `": "`.
pub open spec fn header_field(line: Seq<u8>) -> Result<(Seq<u8>, Seq<u8>), Error> {
    match split_once(line, field_separator()) {
        Some(field) => Ok(field),
        None => Err(Error::MalformedHeader),
    }
}

/// Reads header lines from `input` up to the empty line that ends the block,
/// storing each field into `fields` as it comes. The first line that is
/// incomplete or malformed decides the outcome.
pub open spec fn header_block(input: Seq<u8>, fields: Seq<(Seq<u8>, Seq<u8>)>) -> Outcome<Block>
    decreases input.len(),
    via header_block_decreases
{
    match first_line(input) {
        Outcome::Incomplete => Outcome::Incomplete,
        Outcome::Rejected(error) => Outcome::Rejected(error),
        Outcome::Complete(line) => if line.text.len() == 0 {
            Outcome::Complete(Block { fields, rest: line.rest })
        } else {
            match header_field(line.text) {
                Err(error) => Outcome::Rejected(error),
                Ok((name, value)) => header_block(line.rest, upsert(fields, name, value)),
            }
        },
    }
}

#[via_fn]
proof fn header_block_decreases(input: Seq<u8>, fields: Seq<(Seq<u8>, Seq<u8>)>) {
    if first_line(input) is Complete {
        lemma_first_line_splits(input);
    }
}

/// The name of the header that declares the length of the body.
pub open spec fn content_length_name() -> Seq<u8> {
    "Content-Length".spec_bytes()
}

/// The body length that `fields` declare: zero without a `Content-Length`
/// field, else the number its value denotes. `None` where the value is no
/// numeral, or one too large for a `usize`.
pub open spec fn declared_length(fields: Seq<(Seq<u8>, Seq<u8>)>) -> Option<nat> {
    match lookup(fields, content_length_name()) {
        None => Some(0),
        Some(value) => match numeral_value(value) {
            Some(length) => if length <= usize::MAX {
                Some(length)
            } else {
                None
            },
            None => None,
        },
    }
}

/// The separator written as a string is the separator of the grammar.
pub proof fn lemma_field_separator()
    ensures
        ": ".spec_bytes() == field_separator(),
{
    reveal_strlit(": ");
    vstd::string::is_ascii_spec_bytes(": ");
    assert(": ".spec_bytes() =~= field_separator());
}

/// A block read to its end has distinct names if it started with distinct
/// names, and its rest is a proper suffix of the input.
pub proof fn lemma_header_block_complete(input: Seq<u8>, fields: Seq<(Seq<u8>, Seq<u8>)>)
    requires
        header_block(input, fields) is Complete,
        names_distinct(fields),
    ensures
        names_distinct(header_block(input, fields)->Complete_0.fields),
        header_block(input, fields)->Complete_0.rest.len() < input.len(),
        header_block(input, fields)->Complete_0.rest == input.skip(
            input.len() - header_block(input, fields)->Complete_0.rest.len(),
        ),
    decreases input.len(),
{
    lemma_first_line_splits(input);
    let line = first_line(input)->Complete_0;
    let rest = header_block(input, fields)->Complete_0.rest;
    if line.text.len() != 0 {
        let (name, value) = header_field(line.text)->Ok_0;
        lemma_upsert(fields, name, value);
        lemma_header_block_complete(line.rest, upsert(fields, name, value));
        assert(rest =~= input.skip(input.len() - rest.len()));
    } else {
        assert(rest =~= input.skip(input.len() - rest.len()));
    }
}

/// Once a header block is read to its end or refused, bytes that arrive later
/// do not change the outcome: they only lengthen the rest.
pub proof fn lemma_header_block_grows(
    input: Seq<u8>,
    more: Seq<u8>,
    fields: Seq<(Seq<u8>, Seq<u8>)>,
)
    requires
        !(header_block(input, fields) is Incomplete),
    ensures
        header_block(input + more, fields) == match header_block(input, fields) {
            Outcome::Complete(block) => Outcome::Complete(
                Block { fields: block.fields, rest: block.rest + more },
            ),
            refused => refused,
        },
    decreases input.len(),
{
    lemma_first_line_grows(input, more);
    if let Outcome::Complete(line) = first_line(input) {
        lemma_first_line_splits(input);
        if line.text.len() != 0 {
            if let Ok((name, value)) = header_field(line.text) {
                lemma_header_block_grows(line.rest, more, upsert(fields, name, value));
            }
        }
    }
}

/// One header line with its ending: `name ": " value CR LF`.
pub open spec fn field_line(field: (Seq<u8>, Seq<u8>)) -> Seq<u8> {
    field.0 + field_separator() + field.1 + line_ending()
}

/// The header lines of `fields`, in order.
pub open spec fn field_lines(fields: Seq<(Seq<u8>, Seq<u8>)>) -> Seq<u8>
    decreases fields.len(),
{
    if fields.len() == 0 {
        Seq::empty()
    } else {
        field_lines(fields.drop_last()) + field_line(fields.last())
    }
}

/// A header name that can be written on a line and read back: well-formed
/// UTF-8 without carriage return and without `": "`.
pub open spec fn is_sound_name(name: Seq<u8>) -> bool {
    &&& valid_utf8(name)
    &&& has_no_cr(name)
    &&& forall|at: int| !occurs_at(name, field_separator(), at)
}

/// A header value that can be written on a line and read back: well-formed
/// UTF-8 without carriage return.
pub open spec fn is_sound_value(value: Seq<u8>) -> bool {
    valid_utf8(value) && has_no_cr(value)
}

/// Every name and every value can be written on a line and read back.
pub open spec fn fields_are_sound(fields: Seq<(Seq<u8>, Seq<u8>)>) -> bool {
    forall|i: int|
        0 <= i < fields.len() ==> is_sound_name((#[trigger] fields[i]).0) && is_sound_value(
            fields[i].1,
        )
}

/// The lines of a non-empty sequence of fields are the line of the first field
/// and then the lines of the others.
pub proof fn lemma_field_lines_front(fields: Seq<(Seq<u8>, Seq<u8>)>)
    requires
        fields.len() > 0,
    ensures
        field_lines(fields) == field_line(fields[0]) + field_lines(fields.skip(1)),
    decreases fields.len(),
{
    if fields.len() == 1 {
        assert(fields.drop_last() =~= Seq::<(Seq<u8>, Seq<u8>)>::empty());
        assert(fields.skip(1) =~= Seq::<(Seq<u8>, Seq<u8>)>::empty());
        assert(field_lines(fields) =~= field_line(fields[0]) + field_lines(fields.skip(1)));
    } else {
        lemma_field_lines_front(fields.drop_last());
        assert(fields.skip(1).drop_last() =~= fields.drop_last().skip(1));
        assert(field_lines(fields) =~= field_line(fields[0]) + field_lines(fields.skip(1)));
    }
}

/// A sound name, the separator and a value make a line that is read back as
/// that name and that value.
pub proof fn lemma_header_field_of(name: Seq<u8>, value: Seq<u8>)
    requires
        is_sound_name(name),
    ensures
        header_field(name + field_separator() + value) == Ok::<(Seq<u8>, Seq<u8>), Error>(
            (name, value),
        ),
{
    let separator = field_separator();
    let line = name + separator + value;
    let at = name.len() as int;
    assert(line.subrange(at, at + 2) =~= separator);
    assert forall|earlier: int| 0 <= earlier < at implies !occurs_at(line, separator, earlier) by {
        if occurs_at(line, separator, earlier) {
            let window = line.subrange(earlier, earlier + 2);
            assert(window[0] == line[earlier]);
            assert(window[1] == line[earlier + 1]);
            if earlier + 2 <= at {
                assert(name.subrange(earlier, earlier + 2) =~= window);
                assert(occurs_at(name, separator, earlier));
            } else {
                assert(line[earlier + 1] == separator[0]);
            }
        }
    }
    bytes::lemma_first_occurrence_at(line, separator, at);
    assert(line.take(at) =~= name);
    assert(line.skip(at + 2) =~= value);
}

/// The lines of sound fields, followed by an empty line, are read back as
/// those fields, stored after the fields that were there, where no name occurs
/// twice among them all.
pub proof fn lemma_header_block_of(
    fields: Seq<(Seq<u8>, Seq<u8>)>,
    stored: Seq<(Seq<u8>, Seq<u8>)>,
    tail: Seq<u8>,
)
    requires
        fields_are_sound(fields),
        names_distinct(stored + fields),
    ensures
        header_block(field_lines(fields) + line_ending() + tail, stored) == Outcome::Complete(
            Block { fields: stored + fields, rest: tail },
        ),
    decreases fields.len(),
{
    let input = field_lines(fields) + line_ending() + tail;
    if fields.len() == 0 {
        assert(input =~= Seq::<u8>::empty() + line_ending() + tail);
        lemma_first_line_of(Seq::empty(), tail);
        assert(stored + fields =~= stored);
    } else {
        let (name, value) = fields[0];
        let others = fields.skip(1);
        let text = name + field_separator() + value;
        let rest = field_lines(others) + line_ending() + tail;
        lemma_field_lines_front(fields);
        assert(input =~= text + line_ending() + rest);
        assert(is_sound_name(fields[0].0) && is_sound_value(fields[0].1));
        assert(has_no_cr(text));
        assert(crate::text::is_plain(field_separator()));
        crate::text::lemma_plain_is_utf8(field_separator());
        vstd::utf8::valid_utf8_concat(name, field_separator());
        vstd::utf8::valid_utf8_concat(name + field_separator(), value);
        lemma_first_line_of(text, rest);
        lemma_header_field_of(name, value);
        let all = stored + fields;
        assert(!holds(stored, name)) by {
            if holds(stored, name) {
                let i = index_of(stored, name);
                assert(all[i].0 == name);
                assert(all[stored.len() as int].0 == name);
            }
        }
        let grown = upsert(stored, name, value);
        assert(grown + others =~= all);
        assert forall|i: int| 0 <= i < others.len() implies is_sound_name(
            (#[trigger] others[i]).0,
        ) && is_sound_value(others[i].1) by {
            assert(others[i] == fields[i + 1]);
        }
        lemma_header_block_of(others, grown, tail);
    }
}

/// Reads a header block from `input`. `Ok(None)` means that the block is not
/// complete yet.
pub fn read_block<'a>(input: &'a [u8]) -> (found: Result<
    Option<(Headers<&'a str>, &'a [u8])>,
    Error,
>)
    ensures
        match header_block(input@, Seq::empty()) {
            Outcome::Incomplete => found matches Ok(None),
            Outcome::Rejected(error) => found matches Err(e) && e == error,
            Outcome::Complete(block) => found matches Ok(Some((headers, rest)))
                && headers.entries() == block.fields && rest@ == block.rest,
        },
{
    let mut headers: Headers<&'a str> = Headers::new();
    let mut rest: &'a [u8] = input;
    loop
        invariant
            header_block(rest@, headers.entries()) == header_block(input@, Seq::empty()),
        decreases rest@.len(),
    {
        match next_line(rest) {
            Err(error) => {
                return Err(error);
            },
            Ok(None) => {
                return Ok(None);
            },
            Ok(Some((line, after))) => {
                proof {
                    lemma_first_line_splits(rest@);
                }
                if line.as_bytes().len() == 0 {
                    return Ok(Some((headers, after)));
                }
                proof {
                    lemma_field_separator();
                }
                match text::split_once(line, ": ") {
                    None => {
                        return Err(Error::MalformedHeader);
                    },
                    Some((name, value)) => {
                        headers.insert(name, value);
                        rest = after;
                    },
                }
            },
        }
    }
}

/// The body length that the headers declare.
pub fn content_length<S: Text>(headers: &Headers<S>) -> (length: Result<usize, Error>)
    ensures
        length == match declared_length(headers.entries()) {
            Some(n) => Ok::<usize, Error>(n as usize),
            None => Err(Error::InvalidContentLength),
        },
{
    match headers.get("Content-Length") {
        None => Ok(0),
        Some(value) => match decimal::parse_usize(value.as_str().as_bytes()) {
            Some(n) => Ok(n),
            None => Err(Error::InvalidContentLength),
        },
    }
}

} // verus!
