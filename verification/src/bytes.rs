//! Searching and splicing byte strings.
use vstd::prelude::*;

verus! {

/// The bytes of an ASCII text.
pub open spec fn ascii(text: &str) -> Seq<u8> {
    Seq::new(text@.len(), |i: int| text@[i] as u8)
}

/// `needle` stands in `haystack` at index `at`.
pub open spec fn occurs_at(haystack: Seq<u8>, needle: Seq<u8>, at: int) -> bool {
    &&& 0 <= at
    &&& at + needle.len() <= haystack.len()
    &&& haystack.subrange(at, at + needle.len()) == needle
}

/// `needle` stands somewhere in `haystack`.
pub open spec fn occurs(haystack: Seq<u8>, needle: Seq<u8>) -> bool {
    exists|at: int| occurs_at(haystack, needle, at)
}

/// `at` is the leftmost place where `needle` stands in `haystack`.
pub open spec fn is_first_occurrence(haystack: Seq<u8>, needle: Seq<u8>, at: int) -> bool {
    &&& occurs_at(haystack, needle, at)
    &&& forall|before: int| 0 <= before < at ==> !occurs_at(haystack, needle, before)
}

/// The leftmost place at or after `from` where `needle` stands, if any.
pub open spec fn first_occurrence_from(haystack: Seq<u8>, needle: Seq<u8>, from: int) -> Option<int>
    decreases haystack.len() - from,
{
    if from < 0 || from + needle.len() > haystack.len() {
        None
    } else if occurs_at(haystack, needle, from) {
        Some(from)
    } else if from >= haystack.len() {
        None
    } else {
        first_occurrence_from(haystack, needle, from + 1)
    }
}

/// The leftmost place where `needle` stands in `haystack`, if any.
pub open spec fn first_occurrence(haystack: Seq<u8>, needle: Seq<u8>) -> Option<int> {
    first_occurrence_from(haystack, needle, 0)
}

/// `code` with `insert` spliced in just before the leftmost `marker`; `code`
/// itself where there is no marker.
pub open spec fn inserted_before(code: Seq<u8>, marker: Seq<u8>, insert: Seq<u8>) -> Seq<u8> {
    match first_occurrence(code, marker) {
        Some(at) => code.subrange(0, at) + insert + code.subrange(at, code.len() as int),
        None => code,
    }
}

/// `first_occurrence_from` finds exactly the leftmost occurrence not before `from`.
pub proof fn lemma_first_occurrence_from(haystack: Seq<u8>, needle: Seq<u8>, from: int)
    requires
        0 <= from,
    ensures
        match first_occurrence_from(haystack, needle, from) {
            Some(at) => {
                &&& from <= at
                &&& occurs_at(haystack, needle, at)
                &&& forall|j: int| from <= j < at ==> !occurs_at(haystack, needle, j)
            },
            None => forall|j: int| from <= j ==> !occurs_at(haystack, needle, j),
        },
    decreases haystack.len() - from,
{
    if from + needle.len() > haystack.len() {
    } else if occurs_at(haystack, needle, from) {
    } else if from >= haystack.len() {
    } else {
        lemma_first_occurrence_from(haystack, needle, from + 1);
    }
}

/// The leftmost occurrence, stated with quantifiers, is what `first_occurrence` computes.
pub proof fn lemma_first_occurrence(haystack: Seq<u8>, needle: Seq<u8>)
    ensures
        match first_occurrence(haystack, needle) {
            Some(at) => is_first_occurrence(haystack, needle, at),
            None => !occurs(haystack, needle),
        },
        forall|at: int| is_first_occurrence(haystack, needle, at) ==> first_occurrence(haystack, needle) == Some(at),
{
    lemma_first_occurrence_from(haystack, needle, 0);
}

/// Leftmost occurrence of `needle` in `haystack`.
///
/// Trusted: calls `memchr::memmem::find`, which is documented to return the
/// index of the first occurrence of the needle, and `None` when the needle
/// does not occur. An empty needle is found at index 0.
#[verifier::external_body]
pub(crate) fn find(haystack: &[u8], needle: &[u8]) -> (found: Option<usize>)
    ensures
        match found {
            Some(at) => is_first_occurrence(haystack@, needle@, at as int),
            None => !occurs(haystack@, needle@),
        },
{
    memchr::memmem::find(haystack, needle)
}

/// Whether `needle` stands somewhere in `haystack`.
pub fn contains(haystack: &[u8], needle: &[u8]) -> (found: bool)
    ensures
        found == occurs(haystack@, needle@),
{
    find(haystack, needle).is_some()
}

/// Splices `replace_with` into `codebuf` just before the leftmost `marker`.
/// The marker and everything else stay; without a marker nothing changes.
pub fn add_bytes_before(codebuf: &mut Vec<u8>, marker: &[u8], replace_with: &[u8])
    ensures
        final(codebuf)@ == inserted_before(old(codebuf)@, marker@, replace_with@),
{
    proof {
        lemma_first_occurrence(codebuf@, marker@);
    }
    let position = match find(codebuf.as_slice(), marker) {
        Some(at) => at,
        None => {
            return ;
        },
    };
    let mut spliced: Vec<u8> = Vec::new();
    spliced.extend_from_slice(vstd::slice::slice_subrange(codebuf.as_slice(), 0, position));
    spliced.extend_from_slice(replace_with);
    spliced.extend_from_slice(
        vstd::slice::slice_subrange(codebuf.as_slice(), position, codebuf.len()),
    );
    *codebuf = spliced;
}

/// `text` ends with `suffix`.
pub open spec fn has_suffix(text: Seq<u8>, suffix: Seq<u8>) -> bool {
    suffix.len() <= text.len() && text.subrange(text.len() - suffix.len(), text.len() as int)
        == suffix
}

/// Whether two byte strings are the same.
pub fn bytes_eq(a: &[u8], b: &[u8]) -> (same: bool)
    ensures
        same == (a@ == b@),
{
    if a.len() != b.len() {
        return false;
    }
    let mut i: usize = 0;
    while i < a.len()
        invariant
            i <= a.len(),
            a.len() == b.len(),
            forall|k: int| 0 <= k < i ==> a@[k] == b@[k],
        decreases a.len() - i,
    {
        if a[i] != b[i] {
            return false;
        }
        i += 1;
    }
    assert(a@ =~= b@);
    true
}

/// Whether `text` ends with `suffix`.
pub fn ends_with(text: &[u8], suffix: &[u8]) -> (yes: bool)
    ensures
        yes == has_suffix(text@, suffix@),
{
    if suffix.len() > text.len() {
        return false;
    }
    bytes_eq(vstd::slice::slice_subrange(text, text.len() - suffix.len(), text.len()), suffix)
}

/// The bytes of a string literal: for ASCII text, one byte for each
/// character.
pub fn ascii_bytes(text: &'static str) -> (out: &'static [u8])
    ensures
        out@ == vstd::utf8::encode_utf8(text@),
        vstd::string::is_ascii(text) ==> out@ == ascii(text),
{
    proof {
        vstd::string::is_ascii_spec_bytes(text);
    }
    text.as_bytes()
}

} // verus!
