use vstd::prelude::*;

verus! {

/// `pattern` occurs in `text` at position `at`.
pub open spec fn occurs_at(text: Seq<u8>, pattern: Seq<u8>, at: int) -> bool {
    &&& 0 <= at
    &&& at + pattern.len() <= text.len()
    &&& text.subrange(at, at + pattern.len()) == pattern
}

/// `pattern` occurs in `text` at `at` and nowhere before it.
pub open spec fn is_first_occurrence(text: Seq<u8>, pattern: Seq<u8>, at: int) -> bool {
    &&& occurs_at(text, pattern, at)
    &&& forall|earlier: int| 0 <= earlier < at ==> !occurs_at(text, pattern, earlier)
}

/// Where `pattern` first occurs in `text`, if it occurs at all.
pub open spec fn first_occurrence(text: Seq<u8>, pattern: Seq<u8>) -> Option<int> {
    if exists|at: int| occurs_at(text, pattern, at) {
        Some(choose|at: int| is_first_occurrence(text, pattern, at))
    } else {
        None
    }
}

/// The parts of `text` before and after the first occurrence of `pattern`.
pub open spec fn split_once(text: Seq<u8>, pattern: Seq<u8>) -> Option<(Seq<u8>, Seq<u8>)> {
    match first_occurrence(text, pattern) {
        Some(at) => Some((text.take(at), text.skip(at + pattern.len()))),
        None => None,
    }
}

/// An occurrence of a one-byte pattern is an index that holds that byte.
pub proof fn lemma_occurs_at_byte(text: Seq<u8>, byte: u8, at: int)
    ensures
        occurs_at(text, seq![byte], at) <==> 0 <= at < text.len() && text[at] == byte,
{
    if 0 <= at < text.len() {
        if text[at] == byte {
            assert(text.subrange(at, at + 1) =~= seq![byte]);
        } else {
            assert(text.subrange(at, at + 1)[0] == text[at]);
        }
    }
}

proof fn lemma_some_occurrence_is_first(text: Seq<u8>, pattern: Seq<u8>, at: int)
    requires
        occurs_at(text, pattern, at),
    ensures
        exists|first: int| is_first_occurrence(text, pattern, first),
    decreases at,
{
    if exists|earlier: int| 0 <= earlier < at && occurs_at(text, pattern, earlier) {
        let earlier = choose|earlier: int| 0 <= earlier < at && occurs_at(text, pattern, earlier);
        lemma_some_occurrence_is_first(text, pattern, earlier);
    } else {
        assert(is_first_occurrence(text, pattern, at));
    }
}

/// An occurrence with none before it is the first occurrence.
pub proof fn lemma_first_occurrence_at(text: Seq<u8>, pattern: Seq<u8>, at: int)
    requires
        is_first_occurrence(text, pattern, at),
    ensures
        first_occurrence(text, pattern) == Some(at),
{
    let first = choose|first: int| is_first_occurrence(text, pattern, first);
    assert(is_first_occurrence(text, pattern, first));
}

/// What `first_occurrence` returns is an occurrence with none before it, and
/// it returns `None` only when there is no occurrence.
pub proof fn lemma_first_occurrence(text: Seq<u8>, pattern: Seq<u8>)
    ensures
        match first_occurrence(text, pattern) {
            Some(at) => is_first_occurrence(text, pattern, at),
            None => forall|at: int| !occurs_at(text, pattern, at),
        },
{
    if exists|at: int| occurs_at(text, pattern, at) {
        let at = choose|at: int| occurs_at(text, pattern, at);
        lemma_some_occurrence_is_first(text, pattern, at);
    }
}

/// Appending bytes to `text` does not move an occurrence that `text` already
/// holds.
pub proof fn lemma_first_occurrence_grows(text: Seq<u8>, more: Seq<u8>, pattern: Seq<u8>)
    requires
        first_occurrence(text, pattern) is Some,
        pattern.len() > 0,
    ensures
        first_occurrence(text + more, pattern) == first_occurrence(text, pattern),
{
    lemma_first_occurrence(text, pattern);
    let at = first_occurrence(text, pattern)->0;
    let longer = text + more;
    assert(longer.subrange(at, at + pattern.len()) =~= text.subrange(at, at + pattern.len()));
    assert forall|earlier: int| 0 <= earlier < at implies !occurs_at(longer, pattern, earlier) by {
        assert(!occurs_at(text, pattern, earlier));
        assert(longer.subrange(earlier, earlier + pattern.len()) =~= text.subrange(
            earlier,
            earlier + pattern.len(),
        ));
    }
    lemma_first_occurrence_at(longer, pattern, at);
}

/// A text that lacks `byte`, then `byte`, then anything, splits at that byte.
pub proof fn lemma_split_once_byte(before: Seq<u8>, byte: u8, after: Seq<u8>)
    requires
        forall|i: int| 0 <= i < before.len() ==> before[i] != byte,
    ensures
        split_once(before + seq![byte] + after, seq![byte]) == Some((before, after)),
{
    let text = before + seq![byte] + after;
    let at = before.len() as int;
    lemma_occurs_at_byte(text, byte, at);
    assert forall|earlier: int| 0 <= earlier < at implies !occurs_at(text, seq![byte], earlier) by {
        lemma_occurs_at_byte(text, byte, earlier);
        assert(text[earlier] == before[earlier]);
    }
    lemma_first_occurrence_at(text, seq![byte], at);
    assert(text.take(at) =~= before);
    assert(text.skip(at + 1) =~= after);
}

/// Tells whether `pattern` occurs in `text` at `at`.
pub fn matches_at(text: &[u8], pattern: &[u8], at: usize) -> (found: bool)
    ensures
        found == occurs_at(text@, pattern@, at as int),
{
    if pattern.len() > text.len() || at > text.len() - pattern.len() {
        return false;
    }
    let mut k: usize = 0;
    while k < pattern.len()
        invariant
            k <= pattern@.len(),
            at + pattern@.len() <= text@.len() <= usize::MAX,
            forall|j: int| 0 <= j < k ==> text@[at + j] == pattern@[j],
        decreases pattern@.len() - k,
    {
        if text[at + k] != pattern[k] {
            assert(text@.subrange(at as int, at + pattern@.len())[k as int] == text@[at + k]);
            return false;
        }
        k += 1;
    }
    assert(text@.subrange(at as int, at + pattern@.len()) =~= pattern@);
    true
}

/// Tells whether the two slices hold the same bytes.
pub fn equal(left: &[u8], right: &[u8]) -> (same: bool)
    ensures
        same == (left@ == right@),
{
    if left.len() != right.len() {
        return false;
    }
    let same = matches_at(left, right, 0);
    assert(left@.subrange(0, left@.len() as int) =~= left@);
    same
}

/// Tells whether `text` begins with `pattern`.
pub fn starts_with(text: &[u8], pattern: &[u8]) -> (found: bool)
    ensures
        found == occurs_at(text@, pattern@, 0),
{
    matches_at(text, pattern, 0)
}

/// The position of the first occurrence of `pattern` in `text`.
pub fn find(text: &[u8], pattern: &[u8]) -> (found: Option<usize>)
    ensures
        match found {
            Some(at) => first_occurrence(text@, pattern@) == Some(at as int),
            None => first_occurrence(text@, pattern@) is None,
        },
{
    if pattern.len() > text.len() {
        return None;
    }
    let last: usize = text.len() - pattern.len();
    let mut at: usize = 0;
    loop
        invariant
            last == text@.len() - pattern@.len(),
            at <= last,
            forall|earlier: int| 0 <= earlier < at ==> !occurs_at(text@, pattern@, earlier),
        decreases last - at,
    {
        if matches_at(text, pattern, at) {
            proof {
                lemma_first_occurrence_at(text@, pattern@, at as int);
            }
            return Some(at);
        }
        if at == last {
            return None;
        }
        at += 1;
    }
}

/// Appends `bytes` to `out`.
pub fn append(out: &mut Vec<u8>, bytes: &[u8])
    ensures
        final(out)@ == old(out)@ + bytes@,
{
    out.extend_from_slice(bytes);
    assert(out@ =~= old(out)@ + bytes@);
}

} // verus!
