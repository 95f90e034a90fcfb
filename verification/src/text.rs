use crate::bytes;
use vstd::prelude::*;
use vstd::string::StringSliceAdditionalSpecFns;
use vstd::utf8::encode_utf8;
use vstd::utf8::is_char_boundary;
use vstd::utf8::valid_utf8;

verus! {

/// Every byte is below 128.
pub open spec fn is_plain(bytes: Seq<u8>) -> bool {
    forall|i: int| 0 <= i < bytes.len() ==> bytes[i] < 128
}

/// Every byte is a printable ASCII character: a space, a letter, a digit or a
/// mark; no control character.
pub open spec fn is_printable(bytes: Seq<u8>) -> bool {
    forall|i: int| 0 <= i < bytes.len() ==> 32 <= #[trigger] bytes[i] < 127
}

/// `core::str::Utf8Error`: why `core::str::from_utf8` refused its input.
/// Nothing is said of what it holds.
#[verifier::external_type_specification]
#[verifier::external_body]
pub struct ExUtf8Error(core::str::Utf8Error);

/// `core::str::from_utf8`: succeeds exactly on well-formed UTF-8, and the
/// string it returns is made of the very bytes it was given.
pub assume_specification[ core::str::from_utf8 ](v: &[u8]) -> (r: Result<&str, core::str::Utf8Error>)
    ensures
        r is Ok <==> valid_utf8(v@),
        r matches Ok(s) ==> s.spec_bytes() == v@,
;

/// A string that can be read as its UTF-8 bytes.
pub trait Text {
    /// The UTF-8 encoding of the string.
    spec fn wire(&self) -> Seq<u8>;

    /// The string as a slice.
    fn as_str(&self) -> (s: &str)
        ensures
            s.spec_bytes() == self.wire(),
    ;
}

impl<'a> Text for &'a str {
    open spec fn wire(&self) -> Seq<u8> {
        self.spec_bytes()
    }

    fn as_str(&self) -> (s: &str) {
        *self
    }
}

impl Text for String {
    open spec fn wire(&self) -> Seq<u8> {
        encode_utf8(self@)
    }

    fn as_str(&self) -> (s: &str) {
        String::as_str(self)
    }
}

/// Plain bytes are well-formed UTF-8.
pub proof fn lemma_plain_is_utf8(bytes: Seq<u8>)
    requires
        is_plain(bytes),
    ensures
        valid_utf8(bytes),
{
    vstd::utf8::partial_valid_utf8_extend_ascii_block(bytes, 0, bytes.len() as int);
    assert(bytes.subrange(0, bytes.len() as int) =~= bytes);
    assert(bytes.subrange(0, 0) =~= Seq::<u8>::empty());
}

/// Where a well-formed text begins with a well-formed text, the end of the
/// latter is a character boundary of the former.
pub proof fn lemma_boundary_after_prefix(bytes: Seq<u8>, prefix: Seq<u8>)
    requires
        valid_utf8(bytes),
        valid_utf8(prefix),
        prefix.len() <= bytes.len(),
        bytes.take(prefix.len() as int) == prefix,
    ensures
        is_char_boundary(bytes, prefix.len() as int),
    decreases prefix.len(),
{
    if prefix.len() > 0 {
        let width = vstd::utf8::length_of_first_scalar(prefix);
        assert(bytes.take(prefix.len() as int)[0] == bytes[0]);
        assert(width <= prefix.len());
        assert(width == vstd::utf8::length_of_first_scalar(bytes));
        let rest = vstd::utf8::pop_first_scalar(bytes);
        let shorter = vstd::utf8::pop_first_scalar(prefix);
        assert(rest.take(shorter.len() as int) =~= shorter) by {
            assert forall|i: int| 0 <= i < shorter.len() implies rest.take(
                shorter.len() as int,
            )[i] == shorter[i] by {
                assert(bytes.take(prefix.len() as int)[i + width] == prefix[i + width]);
            }
        }
        lemma_boundary_after_prefix(rest, shorter);
    }
}

/// The parts of `text` before and after the first occurrence of `pattern`.
pub fn split_once<'a>(text: &'a str, pattern: &str) -> (parts: Option<(&'a str, &'a str)>)
    ensures
        match parts {
            Some((before, after)) => bytes::split_once(text.spec_bytes(), pattern.spec_bytes())
                == Some((before.spec_bytes(), after.spec_bytes())),
            None => bytes::split_once(text.spec_bytes(), pattern.spec_bytes()) is None,
        },
{
    let needle = pattern.as_bytes();
    match bytes::find(text.as_bytes(), needle) {
        None => None,
        Some(at) => {
            let ghost t = text.spec_bytes();
            let ghost p = pattern.spec_bytes();
            proof {
                vstd::utf8::encode_utf8_valid_utf8(text@);
                vstd::utf8::encode_utf8_valid_utf8(pattern@);
                bytes::lemma_first_occurrence(t, p);
                if p.len() > 0 {
                    assert(t.subrange(at as int, at + p.len())[0] == t[at as int]);
                    vstd::utf8::is_char_boundary_iff_not_is_continuation_byte(t, at as int);
                } else {
                    assert(bytes::occurs_at(t, p, 0)) by {
                        assert(t.subrange(0, 0) =~= p);
                    }
                }
            }
            let (before, tail) = text.split_at(at);
            proof {
                vstd::utf8::encode_utf8_valid_utf8(tail@);
                assert(tail.spec_bytes().take(p.len() as int) =~= p);
                lemma_boundary_after_prefix(tail.spec_bytes(), p);
            }
            let (_, after) = tail.split_at(needle.len());
            proof {
                assert(after.spec_bytes() =~= t.skip(at + p.len()));
                assert(before.spec_bytes() =~= t.take(at as int));
            }
            Some((before, after))
        },
    }
}

} // verus!
