//! Finding a function in loaded code by the pattern of its machine code.
use vstd::prelude::*;
use crate::bytes::{find, occurs_at};
use crate::hooking::Arch;
use crate::maps::hex_digit;

verus! {

/// One position of a signature.
#[derive(Clone, Copy, Debug, PartialEq, Eq, Structural)]
pub struct PatternByte {
    /// The byte to find; of no account where `wildcard` is set.
    pub byte: u8,
    /// Whether any byte is accepted at this position.
    pub wildcard: bool,
}

/// A signature: the bytes of a function's code, with wildcards where builds
/// differ.
pub struct BytePattern {
    pub bytes: Vec<PatternByte>,
}

impl View for BytePattern {
    type V = Seq<PatternByte>;

    open spec fn view(&self) -> Seq<PatternByte> {
        self.bytes@
    }
}

/// How a signature is searched for. Both ways find the same place.
#[derive(Clone, Copy, Debug, PartialEq, Eq, Structural)]
pub enum Algorithm {
    /// Position by position.
    Scalar,
    /// By a fast search for the bytes the signature begins with.
    Simd,
}

/// The pattern lies in `haystack` at index `at`: every position that is no
/// wildcard holds the pattern's byte.
pub open spec fn matches_at(pattern: Seq<PatternByte>, haystack: Seq<u8>, at: int) -> bool {
    &&& 0 <= at
    &&& at + pattern.len() <= haystack.len()
    &&& forall|i: int|
        0 <= i < pattern.len() ==> (#[trigger] pattern[i]).wildcard || pattern[i].byte
            == haystack[at + i]
}

/// `at` is the leftmost place where the pattern lies in `haystack`.
pub open spec fn is_first_match(pattern: Seq<PatternByte>, haystack: Seq<u8>, at: int) -> bool {
    &&& matches_at(pattern, haystack, at)
    &&& forall|before: int| 0 <= before < at ==> !matches_at(pattern, haystack, before)
}

/// The pattern lies nowhere in `haystack`.
pub open spec fn no_match(pattern: Seq<PatternByte>, haystack: Seq<u8>) -> bool {
    forall|at: int| !matches_at(pattern, haystack, at)
}

/// The bytes the pattern begins with, up to its first wildcard.
pub open spec fn anchor(pattern: Seq<PatternByte>) -> Seq<u8>
    decreases pattern.len(),
{
    if pattern.len() == 0 || pattern[0].wildcard {
        Seq::empty()
    } else {
        seq![pattern[0].byte] + anchor(pattern.drop_first())
    }
}

/// The anchor is a prefix of the pattern without wildcards.
pub proof fn lemma_anchor(pattern: Seq<PatternByte>)
    ensures
        anchor(pattern).len() <= pattern.len(),
        forall|i: int|
            0 <= i < anchor(pattern).len() ==> !(#[trigger] pattern[i]).wildcard && pattern[i].byte
                == anchor(pattern)[i],
        anchor(pattern).len() < pattern.len() ==> pattern[anchor(pattern).len() as int].wildcard,
    decreases pattern.len(),
{
    if pattern.len() == 0 || pattern[0].wildcard {
    } else {
        let rest = pattern.drop_first();
        lemma_anchor(rest);
        assert forall|i: int| 0 <= i < anchor(pattern).len() implies !(#[trigger] pattern[i]).wildcard
            && pattern[i].byte == anchor(pattern)[i] by {
            if i > 0 {
                assert(pattern[i] == rest[i - 1]);
            }
        }
        if anchor(pattern).len() < pattern.len() {
            assert(pattern[anchor(pattern).len() as int] == rest[anchor(rest).len() as int]);
        }
    }
}

/// Where the pattern lies, its anchor stands.
pub proof fn lemma_match_has_anchor(pattern: Seq<PatternByte>, haystack: Seq<u8>, at: int)
    requires
        matches_at(pattern, haystack, at),
    ensures
        occurs_at(haystack, anchor(pattern), at),
{
    lemma_anchor(pattern);
    let a = anchor(pattern);
    assert forall|i: int| 0 <= i < a.len() implies haystack.subrange(at, at + a.len())[i]
        == a[i] by {
        assert(!pattern[i].wildcard);
    }
    assert(haystack.subrange(at, at + a.len()) =~= a);
}

impl BytePattern {
    /// A pattern of the given positions.
    pub fn new(bytes: Vec<PatternByte>) -> (pattern: Self)
        ensures
            pattern@ == bytes@,
    {
        BytePattern { bytes }
    }

    /// Whether the pattern lies in `haystack` at index `at`.
    pub fn matches(&self, haystack: &[u8], at: usize) -> (yes: bool)
        ensures
            yes == matches_at(self@, haystack@, at as int),
    {
        if at > haystack.len() || haystack.len() - at < self.bytes.len() {
            return false;
        }
        let mut i: usize = 0;
        while i < self.bytes.len()
            invariant
                i <= self.bytes.len(),
                at + self.bytes.len() <= haystack.len(),
                forall|k: int|
                    0 <= k < i ==> (#[trigger] self@[k]).wildcard || self@[k].byte == haystack@[at
                        + k],
            decreases self.bytes.len() - i,
        {
            let want = self.bytes[i];
            if !want.wildcard && want.byte != haystack[at + i] {
                return false;
            }
            i += 1;
        }
        true
    }

    /// The leftmost place where the pattern lies in `haystack`, looked for
    /// position by position.
    fn search_scalar(&self, haystack: &[u8]) -> (found: Option<usize>)
        ensures
            match found {
                Some(at) => is_first_match(self@, haystack@, at as int),
                None => no_match(self@, haystack@),
            },
    {
        if self.bytes.len() > haystack.len() {
            return None;
        }
        let last = haystack.len() - self.bytes.len();
        let mut at: usize = 0;
        while at <= last
            invariant
                at <= last + 1,
                last == haystack.len() - self.bytes.len(),
                forall|before: int| 0 <= before < at ==> !matches_at(self@, haystack@, before),
            decreases last + 1 - at,
        {
            if self.matches(haystack, at) {
                return Some(at);
            }
            at += 1;
        }
        None
    }

    /// The bytes the pattern begins with, up to its first wildcard.
    fn leading_bytes(&self) -> (lead: Vec<u8>)
        ensures
            lead@ == anchor(self@),
    {
        let mut lead: Vec<u8> = Vec::new();
        let mut i: usize = 0;
        proof {
            assert(self@.skip(0) =~= self@);
        }
        while i < self.bytes.len() && !self.bytes[i].wildcard
            invariant
                i <= self.bytes.len(),
                anchor(self@) == lead@ + anchor(self@.skip(i as int)),
            decreases self.bytes.len() - i,
        {
            proof {
                let rest = self@.skip(i as int);
                assert(rest.drop_first() =~= self@.skip(i + 1));
                assert(rest[0] == self@[i as int]);
                assert(lead@.push(self@[i as int].byte) + anchor(self@.skip(i + 1)) =~= lead@
                    + anchor(rest));
            }
            lead.push(self.bytes[i].byte);
            i += 1;
        }
        proof {
            let rest = self@.skip(i as int);
            if i < self.bytes.len() {
                assert(rest[0] == self@[i as int]);
            }
            assert(anchor(rest) =~= Seq::<u8>::empty());
            assert(lead@ + anchor(rest) =~= lead@);
        }
        lead
    }

    /// The leftmost place where the pattern lies in `haystack`, looked for
    /// by a fast search for the bytes the pattern begins with: the pattern
    /// can only lie where they stand.
    fn search_simd(&self, haystack: &[u8]) -> (found: Option<usize>)
        ensures
            match found {
                Some(at) => is_first_match(self@, haystack@, at as int),
                None => no_match(self@, haystack@),
            },
    {
        let lead = self.leading_bytes();
        if lead.len() == 0 {
            return self.search_scalar(haystack);
        }
        let mut from: usize = 0;
        while from < haystack.len()
            invariant
                from <= haystack.len(),
                lead@ == anchor(self@),
                lead@.len() > 0,
                forall|before: int| 0 <= before < from ==> !matches_at(self@, haystack@, before),
            decreases haystack.len() - from,
        {
            let tail = vstd::slice::slice_subrange(haystack, from, haystack.len());
            let hit = match find(tail, lead.as_slice()) {
                Some(hit) => hit,
                None => {
                    proof {
                        assert forall|at: int| !matches_at(self@, haystack@, at) by {
                            if matches_at(self@, haystack@, at) {
                                lemma_match_has_anchor(self@, haystack@, at);
                                assert(tail@.subrange(at - from, at - from + lead@.len())
                                    =~= haystack@.subrange(at, at + lead@.len()));
                                assert(occurs_at(tail@, lead@, at - from));
                            }
                        }
                    }
                    return None;
                },
            };
            let candidate = from + hit;
            proof {
                assert forall|before: int| from <= before < candidate implies !matches_at(
                    self@,
                    haystack@,
                    before,
                ) by {
                    if matches_at(self@, haystack@, before) {
                        lemma_match_has_anchor(self@, haystack@, before);
                        assert(tail@.subrange(before - from, before - from + lead@.len())
                            =~= haystack@.subrange(before, before + lead@.len()));
                        assert(occurs_at(tail@, lead@, before - from));
                    }
                }
            }
            if self.matches(haystack, candidate) {
                return Some(candidate);
            }
            from = candidate + 1;
        }
        proof {
            assert forall|at: int| !matches_at(self@, haystack@, at) by {
                if matches_at(self@, haystack@, at) {
                    lemma_anchor(self@);
                }
            }
        }
        None
    }

    /// The leftmost place where the pattern lies in `haystack`.
    pub fn search(&self, haystack: &[u8], algorithm: Algorithm) -> (found: Option<usize>)
        ensures
            match found {
                Some(at) => is_first_match(self@, haystack@, at as int),
                None => no_match(self@, haystack@),
            },
    {
        match algorithm {
            Algorithm::Scalar => self.search_scalar(haystack),
            Algorithm::Simd => self.search_simd(haystack),
        }
    }
}

/// What one word of a written pattern stands for: `?` and `??` for a
/// wildcard, two hexadecimal digits for that byte; nothing else is a word.
pub open spec fn word_byte(word: Seq<u8>) -> Option<PatternByte> {
    if word == seq![63u8] || word == seq![63u8, 63u8] {
        Some(PatternByte { byte: 0, wildcard: true })
    } else if word.len() == 2 && hex_digit(word[0]) is Some && hex_digit(word[1]) is Some {
        Some(
            PatternByte {
                byte: (16 * hex_digit(word[0]).unwrap() + hex_digit(word[1]).unwrap()) as u8,
                wildcard: false,
            },
        )
    } else {
        None
    }
}

/// The pattern written by `text` from index `at` on, where the word that
/// `at` lies in began at index `start`.
pub open spec fn written_from(text: Seq<u8>, start: int, at: int) -> Option<Seq<PatternByte>>
    decreases text.len() - at,
{
    if at < 0 || at >= text.len() {
        match word_byte(text.subrange(start, text.len() as int)) {
            Some(byte) => Some(seq![byte]),
            None => None,
        }
    } else if text[at] == 32 {
        match (word_byte(text.subrange(start, at)), written_from(text, at + 1, at + 1)) {
            (Some(byte), Some(rest)) => Some(seq![byte] + rest),
            _ => None,
        }
    } else {
        written_from(text, start, at + 1)
    }
}

/// The pattern that `text` writes: words with one blank between them, one
/// word for each position. `None` where some word is none.
pub open spec fn written_pattern(text: Seq<u8>) -> Option<Seq<PatternByte>> {
    written_from(text, 0, 0)
}

fn hex_digit_of(digit: u8) -> (value: Option<u8>)
    ensures
        match value {
            Some(v) => hex_digit(digit) == Some(v as nat),
            None => hex_digit(digit) is None,
        },
{
    if 48 <= digit && digit <= 57 {
        Some(digit - 48)
    } else if 65 <= digit && digit <= 70 {
        Some(digit - 55)
    } else if 97 <= digit && digit <= 102 {
        Some(digit - 87)
    } else {
        None
    }
}

fn byte_of_word(word: &[u8]) -> (byte: Option<PatternByte>)
    ensures
        byte == word_byte(word@),
{
    if word.len() == 1 && word[0] == 63 {
        assert(word@ =~= seq![63u8]);
        return Some(PatternByte { byte: 0, wildcard: true });
    }
    if word.len() != 2 {
        return None;
    }
    if word[0] == 63 && word[1] == 63 {
        assert(word@ =~= seq![63u8, 63u8]);
        return Some(PatternByte { byte: 0, wildcard: true });
    }
    match (hex_digit_of(word[0]), hex_digit_of(word[1])) {
        (Some(high), Some(low)) => Some(PatternByte { byte: 16 * high + low, wildcard: false }),
        _ => None,
    }
}

impl BytePattern {
    /// Reads a pattern written as words with one blank between them, such as
    /// `FF ?? 02 D1`: two hexadecimal digits for a byte, `?` or `??` for a
    /// wildcard.
    pub fn from_str(text: &str) -> (pattern: Option<BytePattern>)
        ensures
            match pattern {
                Some(p) => written_pattern(vstd::utf8::encode_utf8(text@)) == Some(p@),
                None => written_pattern(vstd::utf8::encode_utf8(text@)) is None,
            },
    {
        let bytes = text.as_bytes();
        let mut out: Vec<PatternByte> = Vec::new();
        let mut start: usize = 0;
        let mut at: usize = 0;
        while at < bytes.len()
            invariant
                start <= at <= bytes.len(),
                bytes@ == vstd::utf8::encode_utf8(text@),
                written_pattern(bytes@) == match written_from(bytes@, start as int, at as int) {
                    Some(rest) => Some(out@ + rest),
                    None => None,
                },
            decreases bytes.len() - at,
        {
            if bytes[at] == 32 {
                match byte_of_word(vstd::slice::slice_subrange(bytes, start, at)) {
                    Some(byte) => {
                        proof {
                            let rest = written_from(bytes@, at + 1, at + 1);
                            if rest is Some {
                                assert(out@.push(byte) + rest.unwrap() =~= out@ + (seq![byte]
                                    + rest.unwrap()));
                            }
                        }
                        out.push(byte);
                    },
                    None => {
                        return None;
                    },
                }
                start = at + 1;
            }
            at += 1;
        }
        match byte_of_word(vstd::slice::slice_subrange(bytes, start, bytes.len())) {
            Some(byte) => {
                proof {
                    assert(out@.push(byte) =~= out@ + seq![byte]);
                }
                out.push(byte);
                Some(BytePattern { bytes: out })
            },
            None => None,
        }
    }
}

/// A stretch of the process's memory.
#[derive(Clone, Copy, Debug, PartialEq, Eq, Structural)]
pub struct SimpleMapRange {
    pub start: u64,
    pub size: u64,
}

impl SimpleMapRange {
    /// The address where the range starts.
    pub fn start(&self) -> (start: u64)
        ensures
            start == self.start,
    {
        self.start
    }

    /// The length of the range in bytes.
    pub fn size(&self) -> (size: u64)
        ensures
            size == self.size,
    {
        self.size
    }
}

/// What is added to the address of a match to get the address to hook: on
/// 32-bit ARM the Thumb bit, elsewhere nothing.
pub open spec fn mode_bit(arch: Arch) -> int {
    if arch == Arch::Arm {
        1
    } else {
        0
    }
}

/// No pattern before index `upto` lies anywhere in `haystack`.
pub open spec fn none_match_before(signatures: Seq<BytePattern>, haystack: Seq<u8>, upto: int) -> bool {
    forall|k: int| 0 <= k < upto ==> no_match(#[trigger] signatures[k]@, haystack)
}

/// The pattern at index `k` is the first of `signatures` that lies anywhere
/// in `haystack`, and `at` is its leftmost place there.
pub open spec fn decides(signatures: Seq<BytePattern>, haystack: Seq<u8>, k: int, at: int) -> bool {
    &&& 0 <= k < signatures.len()
    &&& none_match_before(signatures, haystack, k)
    &&& is_first_match(signatures[k]@, haystack, at)
}

/// Looks for the function that one of `signatures` describes in the code of
/// a loaded module: `memory` holds the bytes of `range`. The signatures are
/// tried in order, and the first that lies anywhere in the code decides: the
/// result is the address of its leftmost match, on 32-bit ARM with the Thumb
/// bit set. `None` where no signature lies in the code, or the address does
/// not fit 64 bits.
pub fn find_signatures(
    signatures: &[BytePattern],
    memory: &[u8],
    range: SimpleMapRange,
    arch: Arch,
) -> (found: Option<u64>)
    ensures
        match found {
            Some(addr) => exists|k: int, at: int| #[trigger]
                decides(signatures@, memory@, k, at) && addr == range.start + at + mode_bit(arch),
            None => {
                ||| none_match_before(signatures@, memory@, signatures@.len() as int)
                ||| exists|k: int, at: int| #[trigger]
                    decides(signatures@, memory@, k, at) && range.start + at + mode_bit(arch)
                        > u64::MAX
            },
        },
{
    let mut k: usize = 0;
    while k < signatures.len()
        invariant
            k <= signatures.len(),
            none_match_before(signatures@, memory@, k as int),
        decreases signatures.len() - k,
    {
        match signatures[k].search(memory, Algorithm::Simd) {
            Some(at) => {
                let bit: u64 = match arch {
                    Arch::Arm => 1,
                    _ => 0,
                };
                let addr = match range.start.checked_add(at as u64) {
                    Some(addr) => addr.checked_add(bit),
                    None => None,
                };
                proof {
                    assert(decides(signatures@, memory@, k as int, at as int));
                }
                return addr;
            },
            None => {},
        }
        k += 1;
    }
    None
}

/// A pattern has one leftmost place at most, so both ways of searching give
/// the same answer.
pub proof fn lemma_first_match_once(
    pattern: Seq<PatternByte>,
    haystack: Seq<u8>,
    one: int,
    other: int,
)
    requires
        is_first_match(pattern, haystack, one),
        is_first_match(pattern, haystack, other),
    ensures
        one == other,
{
}

/// At most one pattern decides, at one place.
pub proof fn lemma_decides_once(
    signatures: Seq<BytePattern>,
    haystack: Seq<u8>,
    k1: int,
    at1: int,
    k2: int,
    at2: int,
)
    requires
        decides(signatures, haystack, k1, at1),
        decides(signatures, haystack, k2, at2),
    ensures
        k1 == k2,
        at1 == at2,
{
    if k1 < k2 {
        assert(no_match(signatures[k1]@, haystack));
    }
    if k2 < k1 {
        assert(no_match(signatures[k2]@, haystack));
    }
}

/// Whether a pattern lies at a place depends only on the bytes at its
/// positions that are no wildcards: two haystacks that agree there, whatever
/// they hold at the wildcards, both hold the pattern at that place or
/// neither does.
pub proof fn lemma_wildcards_do_not_matter(
    pattern: Seq<PatternByte>,
    one: Seq<u8>,
    other: Seq<u8>,
    at: int,
)
    requires
        one.len() == other.len(),
        forall|i: int|
            0 <= i < pattern.len() && !(#[trigger] pattern[i]).wildcard && 0 <= at + i < one.len()
                ==> one[at + i] == other[at + i],
    ensures
        matches_at(pattern, one, at) == matches_at(pattern, other, at),
{
    if matches_at(pattern, one, at) {
        assert forall|i: int| 0 <= i < pattern.len() implies (#[trigger] pattern[i]).wildcard
            || pattern[i].byte == other[at + i] by {}
    }
    if matches_at(pattern, other, at) {
        assert forall|i: int| 0 <= i < pattern.len() implies (#[trigger] pattern[i]).wildcard
            || pattern[i].byte == one[at + i] by {}
    }
}

/// Every position of the pattern that is no wildcard holds the pattern's
/// byte in `haystack` at offset `at`.
pub open spec fn fixed_bytes_agree(pattern: Seq<PatternByte>, haystack: Seq<u8>, at: int) -> bool {
    &&& 0 <= at
    &&& at + pattern.len() <= haystack.len()
    &&& forall|i: int|
        0 <= i < pattern.len() && !(#[trigger] pattern[i]).wildcard ==> pattern[i].byte
            == haystack[at + i]
}

/// A search finds a match if and only if at some offset all bytes that are
/// no wildcards agree; what the haystack holds at the wildcards plays no
/// part.
pub proof fn lemma_found_iff_agrees(pattern: Seq<PatternByte>, haystack: Seq<u8>)
    ensures
        forall|at: int| #[trigger]
            matches_at(pattern, haystack, at) <==> fixed_bytes_agree(pattern, haystack, at),
        !no_match(pattern, haystack) <==> exists|at: int| #[trigger]
            fixed_bytes_agree(pattern, haystack, at),
{
    assert forall|at: int| #[trigger]
        matches_at(pattern, haystack, at) <==> fixed_bytes_agree(pattern, haystack, at) by {}
    if !no_match(pattern, haystack) {
        let at = choose|at: int| matches_at(pattern, haystack, at);
        assert(fixed_bytes_agree(pattern, haystack, at));
    }
    if exists|at: int| #[trigger] fixed_bytes_agree(pattern, haystack, at) {
        let at = choose|at: int| #[trigger] fixed_bytes_agree(pattern, haystack, at);
        assert(matches_at(pattern, haystack, at));
    }
}

} // verus!
