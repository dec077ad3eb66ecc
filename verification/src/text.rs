//! Text helpers: character-wise operations on strings and the lossy UTF-8
//! decoding of raw bytes.

use vstd::prelude::*;
use vstd::utf8::*;

verus! {

/// What a lossy UTF-8 decoding of `bytes` yields.
pub uninterp spec fn lossy_utf8(bytes: Seq<u8>) -> Seq<char>;

/// Decodes bytes with `String::from_utf8_lossy`.
///
/// Trusted: the result is a function of the bytes alone, and bytes that are
/// valid UTF-8 decode to the text they encode.
#[verifier::external_body]
pub(crate) fn decode_lossy(bytes: &[u8]) -> (s: String)
    ensures
        s@ == lossy_utf8(bytes@),
        valid_utf8(bytes@) ==> s@ == decode_utf8(bytes@),
{
    String::from_utf8_lossy(bytes).into_owned()
}

/// Appends one character with `String::push`.
///
/// Trusted: the string afterwards is the string before, followed by `c`.
#[verifier::external_body]
pub(crate) fn push_char(s: &mut String, c: char)
    ensures
        final(s)@ == old(s)@.push(c),
{
    s.push(c);
}

/// The characters of `s`, each occurrence of `from` replaced by `to`.
pub open spec fn replace_char(s: Seq<char>, from: char, to: char) -> Seq<char> {
    s.map_values(
        |c: char|
            if c == from {
                to
            } else {
                c
            },
    )
}

/// The characters of a string, as a vector.
pub fn chars_of(s: &str) -> (v: Vec<char>)
    ensures
        v@ == s@,
{
    let mut v: Vec<char> = Vec::new();
    for c in it: s.chars()
        invariant
            it.seq() == s@,
            v@ == s@.take(it.index() as int),
    {
        v.push(c);
    }
    v
}

/// Appends `chars[from..to]` to `out`, replacing each `a` by `b`.
pub fn push_replaced(out: &mut String, chars: &Vec<char>, from: usize, to: usize, a: char, b: char)
    requires
        from <= to <= chars.len(),
    ensures
        final(out)@ == old(out)@ + replace_char(chars@.subrange(from as int, to as int), a, b),
{
    let ghost start = out@;
    let mut i = from;
    while i < to
        invariant
            from <= i <= to <= chars.len(),
            out@ == start + replace_char(chars@.subrange(from as int, i as int), a, b),
        decreases to - i,
    {
        let c = chars[i];
        push_char(
            out,
            if c == a {
                b
            } else {
                c
            },
        );
        assert(chars@.subrange(from as int, i + 1) == chars@.subrange(from as int, i as int).push(
            chars@[i as int],
        ));
        i += 1;
    }
}

/// Whether `chars` begins with the characters of `prefix`.
pub fn has_prefix(chars: &Vec<char>, prefix: &str) -> (r: bool)
    ensures
        r == prefix@.is_prefix_of(chars@),
{
    let p = chars_of(prefix);
    if p.len() > chars.len() {
        return false;
    }
    let mut i: usize = 0;
    while i < p.len()
        invariant
            p@ == prefix@,
            p.len() <= chars.len(),
            i <= p.len(),
            forall|k: int| 0 <= k < i ==> p@[k] == chars@[k],
        decreases p.len() - i,
    {
        if p[i] != chars[i] {
            return false;
        }
        i += 1;
    }
    true
}

/// Whether `p` occurs in `s` at position `i`.
pub open spec fn occurs_at(s: Seq<char>, p: Seq<char>, i: int) -> bool {
    0 <= i && i + p.len() <= s.len() && s.subrange(i, i + p.len()) == p
}

/// Whether `p` occurs somewhere in `s`.
pub open spec fn has_substring(s: Seq<char>, p: Seq<char>) -> bool {
    exists|i: int| #[trigger] occurs_at(s, p, i)
}

/// Whether the characters of `pattern` occur at position `at` of `chars`.
fn matches_at(chars: &Vec<char>, p: &Vec<char>, at: usize) -> (r: bool)
    requires
        at + p.len() <= chars.len(),
    ensures
        r == occurs_at(chars@, p@, at as int),
{
    let mut k: usize = 0;
    while k < p.len()
        invariant
            at + p.len() <= chars.len(),
            k <= p.len(),
            forall|j: int| 0 <= j < k ==> p@[j] == chars@[at + j],
        decreases p.len() - k,
    {
        if p[k] != chars[at + k] {
            return false;
        }
        k += 1;
    }
    assert(chars@.subrange(at as int, at + p@.len()) =~= p@);
    true
}

/// Whether the characters of `pattern` occur somewhere in `chars`.
pub fn contains_text(chars: &Vec<char>, pattern: &str) -> (r: bool)
    ensures
        r == has_substring(chars@, pattern@),
{
    let p = chars_of(pattern);
    if p.len() > chars.len() {
        assert forall|i: int| !#[trigger] occurs_at(chars@, p@, i) by {}
        return false;
    }
    let last = chars.len() - p.len();
    let mut i: usize = 0;
    loop
        invariant
            p@ == pattern@,
            p.len() <= chars.len(),
            last == chars.len() - p.len(),
            i <= last,
            forall|j: int| 0 <= j < i ==> !#[trigger] occurs_at(chars@, p@, j),
        decreases last - i,
    {
        if matches_at(chars, &p, i) {
            return true;
        }
        if i == last {
            assert forall|j: int| !#[trigger] occurs_at(chars@, p@, j) by {}
            return false;
        }
        i += 1;
    }
}

/// The characters that a run of ASCII bytes stands for.
pub open spec fn ascii_text(bytes: Seq<u8>) -> Seq<char> {
    Seq::new(bytes.len(), |i: int| bytes[i] as char)
}

/// Whether every byte is below 0x80.
pub open spec fn all_ascii(bytes: Seq<u8>) -> bool {
    forall|i: int| 0 <= i < bytes.len() ==> bytes[i] < 0x80
}

/// ASCII bytes are valid UTF-8 and decode to themselves.
pub proof fn lemma_ascii_decodes_to_itself(bytes: Seq<u8>)
    requires
        all_ascii(bytes),
    ensures
        valid_utf8(bytes),
        decode_utf8(bytes) == ascii_text(bytes),
{
    let chars = ascii_text(bytes);
    is_ascii_chars_encode_utf8(chars);
    assert(encode_utf8(chars) =~= bytes);
    encode_utf8_valid_utf8(chars);
    encode_utf8_decode_utf8(chars);
}

} // verus!
