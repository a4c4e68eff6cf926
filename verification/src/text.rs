//! Text: string comparisons stated over characters, UTF-8 decoding, and the
//! error that the two text parsers share.
use vstd::prelude::*;
use vstd::string::*;
use vstd::utf8::*;

verus! {

/// A text that a parser refused, with the line at which it gave up where the
/// parser got that far.
#[derive(Clone, Copy, Debug, PartialEq, Eq, Structural)]
pub struct ParseError {
    pub line: Option<usize>,
}

/// The characters of each string of a list, in the list's order.
pub open spec fn views(strings: Seq<String>) -> Seq<Seq<char>> {
    strings.map_values(|s: String| s@)
}

/// The characters of an optional string.
pub open spec fn optional_view(string: Option<String>) -> Option<Seq<char>> {
    match string {
        Some(s) => Some(s@),
        None => None,
    }
}

/// `suffix` closes `s`: the last `suffix.len()` items of `s` are `suffix`.
pub open spec fn is_suffix<T>(suffix: Seq<T>, s: Seq<T>) -> bool {
    suffix.len() <= s.len() && s.subrange(s.len() - suffix.len(), s.len() as int) == suffix
}

/// `name` ends with the characters of `suffix`.
pub open spec fn has_suffix(name: Seq<char>, suffix: Seq<char>) -> bool {
    is_suffix(suffix, name)
}

/// In an encoded string, the place where the encoding of a later part
/// begins is a character boundary.
proof fn lemma_boundary_before_encoding(bytes: Seq<u8>, at: int, tail: Seq<char>)
    requires
        valid_utf8(bytes),
        0 <= at <= bytes.len(),
        bytes.subrange(at, bytes.len() as int) == encode_utf8(tail),
    ensures
        is_char_boundary(bytes, at),
{
    let rest = encode_utf8(tail);
    encode_utf8_valid_utf8(tail);
    if at == bytes.len() {
        is_char_boundary_start_end_of_seq(bytes);
    } else {
        is_char_boundary_iff_not_is_continuation_byte(rest, 0);
        is_char_boundary_iff_not_is_continuation_byte(bytes, at);
    }
}

/// The encoding of a concatenation is the concatenation of the encodings.
pub proof fn lemma_encoding_of_concatenation(a: Seq<char>, b: Seq<char>)
    ensures
        encode_utf8(a + b) == encode_utf8(a) + encode_utf8(b),
{
    let x = encode_utf8(a);
    let y = encode_utf8(b);
    let whole = x + y;
    encode_utf8_valid_utf8(a);
    encode_utf8_valid_utf8(b);
    valid_utf8_concat(x, y);
    assert(whole.subrange(0, x.len() as int) == x);
    assert(whole.subrange(x.len() as int, whole.len() as int) == y);
    lemma_boundary_before_encoding(whole, x.len() as int, b);
    decode_utf8_split(whole, x.len() as int);
    encode_utf8_decode_utf8(a);
    encode_utf8_decode_utf8(b);
    decode_utf8_encode_utf8(whole);
}

/// A string ends with a suffix exactly where its encoding ends with the
/// encoding of the suffix.
pub proof fn lemma_suffix_of_encoding(name: Seq<char>, suffix: Seq<char>)
    ensures
        is_suffix(encode_utf8(suffix), encode_utf8(name)) <==> is_suffix(suffix, name),
{
    let bytes = encode_utf8(name);
    let tail = encode_utf8(suffix);
    encode_utf8_valid_utf8(name);
    encode_utf8_decode_utf8(name);
    encode_utf8_decode_utf8(suffix);
    if is_suffix(suffix, name) {
        let head = name.subrange(0, name.len() - suffix.len());
        assert(name == head + suffix);
        lemma_encoding_of_concatenation(head, suffix);
        let front = encode_utf8(head);
        assert((front + tail).subrange(front.len() as int, (front + tail).len() as int) == tail);
    }
    if is_suffix(tail, bytes) {
        let at = bytes.len() - tail.len();
        lemma_boundary_before_encoding(bytes, at, suffix);
        decode_utf8_split(bytes, at);
        let head = decode_utf8(bytes.subrange(0, at));
        assert((head + suffix).subrange(head.len() as int, (head + suffix).len() as int) == suffix);
    }
}

/// Two strings with the same encoding hold the same characters.
pub proof fn lemma_encoding_is_injective(a: Seq<char>, b: Seq<char>)
    requires
        encode_utf8(a) == encode_utf8(b),
    ensures
        a == b,
{
    encode_utf8_decode_utf8(a);
    encode_utf8_decode_utf8(b);
}

/// Whether two string slices hold the same characters.
pub fn str_eq(a: &str, b: &str) -> (r: bool)
    ensures
        r == (a@ == b@),
{
    let x = a.as_bytes();
    let y = b.as_bytes();
    if x.len() != y.len() {
        return false;
    }
    let mut i: usize = 0;
    while i < x.len()
        invariant
            i <= x.len(),
            x.len() == y.len(),
            x@ == encode_utf8(a@),
            y@ == encode_utf8(b@),
            forall|j: int| 0 <= j < i ==> x@[j] == y@[j],
        decreases x.len() - i,
    {
        if x[i] != y[i] {
            return false;
        }
        i += 1;
    }
    proof {
        assert(x@ =~= y@);
        lemma_encoding_is_injective(a@, b@);
    }
    true
}

/// Whether `name` ends with `suffix`.
pub fn ends_with(name: &str, suffix: &str) -> (r: bool)
    ensures
        r == has_suffix(name@, suffix@),
{
    let x = name.as_bytes();
    let y = suffix.as_bytes();
    proof {
        lemma_suffix_of_encoding(name@, suffix@);
    }
    if y.len() > x.len() {
        return false;
    }
    let offset: usize = x.len() - y.len();
    let mut i: usize = 0;
    while i < y.len()
        invariant
            i <= y.len(),
            y.len() <= x.len(),
            offset == x.len() - y.len(),
            x@ == encode_utf8(name@),
            y@ == encode_utf8(suffix@),
            forall|j: int| 0 <= j < i ==> x@[offset + j] == y@[j],
        decreases y.len() - i,
    {
        if x[offset + i] != y[i] {
            proof {
                lemma_suffix_of_encoding(name@, suffix@);
            }
            return false;
        }
        i += 1;
    }
    proof {
        assert(x@.subrange(x@.len() - y@.len(), x@.len() as int) =~= y@);
        lemma_suffix_of_encoding(name@, suffix@);
    }
    true
}

/// Calls `String::from_utf8`: the bytes as a string where they are valid
/// UTF-8, and `None` where they are not.
#[verifier::external_body]
pub(crate) fn string_from_utf8(bytes: Vec<u8>) -> (r: Option<String>)
    ensures
        match r {
            Some(text) => valid_utf8(bytes@) && text@ == decode_utf8(bytes@),
            None => !valid_utf8(bytes@),
        },
{
    String::from_utf8(bytes).ok()
}

} // verus!
