//! Text primitives that the classifiers and filters are built from.
//!
//! Names and URLs are handled as sequences of characters. Response bodies are
//! handled as their UTF-8 bytes, because the size thresholds of the
//! classifiers count bytes and ASCII case folding is a bytewise map.

use vstd::prelude::*;
use vstd::string::StringExecFns;
use vstd::utf8::*;

verus! {

/// What `str::to_lowercase` of std returns for a text: its lower case by the
/// rules of Unicode. Nothing else is claimed of it.
pub uninterp spec fn lowercase(s: Seq<char>) -> Seq<char>;

/// What `str::to_uppercase` of std returns for a text: its upper case by the
/// rules of Unicode. Nothing else is claimed of it.
pub uninterp spec fn uppercase(s: Seq<char>) -> Seq<char>;

/// `text` with every match of the non-empty `pattern` replaced by `with`,
/// matches taken from left to right and never overlapping.
pub open spec fn replaced(text: Seq<char>, pattern: Seq<char>, with: Seq<char>) -> Seq<char>
    decreases text.len(),
{
    if pattern.len() == 0 || text.len() < pattern.len() {
        text
    } else if text.subrange(0, pattern.len() as int) == pattern {
        with + replaced(text.skip(pattern.len() as int), pattern, with)
    } else {
        seq![text[0]] + replaced(text.skip(1), pattern, with)
    }
}

/// The UTF-8 bytes of a text.
pub open spec fn bytes_of(s: Seq<char>) -> Seq<u8> {
    encode_utf8(s)
}

/// One byte with an ASCII capital letter folded to its small letter.
pub open spec fn fold_byte(b: u8) -> u8 {
    if 0x41 <= b <= 0x5a {
        (b + 0x20) as u8
    } else {
        b
    }
}

/// A byte string with every ASCII capital letter folded to its small letter.
pub open spec fn folded(s: Seq<u8>) -> Seq<u8> {
    Seq::new(s.len(), |i: int| fold_byte(s[i]))
}

/// `needle` stands in `hay` at offset `at`.
pub open spec fn occurs_at(hay: Seq<u8>, needle: Seq<u8>, at: int) -> bool {
    &&& 0 <= at
    &&& at + needle.len() <= hay.len()
    &&& forall|k: int| 0 <= k < needle.len() ==> hay[at + k] == needle[k]
}

/// `needle` stands somewhere in `hay`.
pub open spec fn occurs(hay: Seq<u8>, needle: Seq<u8>) -> bool {
    exists|at: int| occurs_at(hay, needle, at)
}

/// The marker text stands somewhere in the body.
pub open spec fn has_marker(body: Seq<u8>, marker: &str) -> bool {
    occurs(body, bytes_of(marker@))
}

/// Calls `str::to_lowercase` of std. Believed, not proved: the result is the
/// lower case of the text, which `lowercase` names.
#[verifier::external_body]
pub(crate) fn to_lowercase(s: &str) -> (r: String)
    ensures
        r@ == lowercase(s@),
{
    s.to_lowercase()
}

/// Calls `str::to_uppercase` of std. Believed, not proved: the result is the
/// upper case of the text, which `uppercase` names.
#[verifier::external_body]
pub(crate) fn to_uppercase(s: &str) -> (r: String)
    ensures
        r@ == uppercase(s@),
{
    s.to_uppercase()
}

/// Calls `str::replace` of std. Believed, not proved: the result is the text
/// with every match of the pattern replaced, the matches found from left to
/// right without overlap, as `replaced` spells out. An empty pattern is left
/// out, because std matches it between all characters.
#[verifier::external_body]
pub(crate) fn replace_all(text: &str, pattern: &str, with: &str) -> (r: String)
    requires
        pattern@.len() > 0,
    ensures
        r@ == replaced(text@, pattern@, with@),
{
    text.replace(pattern, with)
}

/// Two texts with the same UTF-8 bytes are the same text.
pub proof fn lemma_bytes_of_injective(a: Seq<char>, b: Seq<char>)
    requires
        bytes_of(a) == bytes_of(b),
    ensures
        a == b,
{
    encode_utf8_decode_utf8(a);
    encode_utf8_decode_utf8(b);
}

/// Whether two texts are equal, character for character.
pub fn same_text(a: &str, b: &str) -> (r: bool)
    ensures
        r == (a@ == b@),
{
    let x = a.as_bytes();
    let y = b.as_bytes();
    if x.len() != y.len() {
        return false;
    }
    let mut i: usize = 0;
    while i < x.len()
        invariant
            x@ == bytes_of(a@),
            y@ == bytes_of(b@),
            x@.len() == y@.len(),
            i <= x@.len(),
            forall|k: int| 0 <= k < i ==> x@[k] == y@[k],
        decreases x@.len() - i,
    {
        if x[i] != y[i] {
            return false;
        }
        i += 1;
    }
    proof {
        assert(x@ =~= y@);
        lemma_bytes_of_injective(a@, b@);
    }
    true
}

/// The first text followed by the second.
pub fn joined(a: &str, b: &str) -> (r: String)
    ensures
        r@ == a@ + b@,
{
    a.to_owned().concat(b)
}

/// The bytes of a text with ASCII capital letters folded to small ones.
pub fn fold_ascii(text: &[u8]) -> (r: Vec<u8>)
    ensures
        r@ == folded(text@),
{
    let mut out: Vec<u8> = Vec::with_capacity(text.len());
    let mut i: usize = 0;
    while i < text.len()
        invariant
            i <= text@.len(),
            out@.len() == i,
            forall|k: int| 0 <= k < i ==> out@[k] == fold_byte(text@[k]),
        decreases text@.len() - i,
    {
        let b: u8 = text[i];
        if 0x41 <= b && b <= 0x5a {
            out.push(b + 0x20);
        } else {
            out.push(b);
        }
        i += 1;
    }
    proof {
        assert(out@ =~= folded(text@));
    }
    out
}

/// Whether `needle` stands in `hay` at offset `at`.
fn matches_at(hay: &[u8], needle: &[u8], at: usize) -> (r: bool)
    requires
        at + needle@.len() <= hay@.len(),
    ensures
        r == occurs_at(hay@, needle@, at as int),
{
    let size: usize = hay.len();
    let mut k: usize = 0;
    while k < needle.len()
        invariant
            at + needle@.len() <= hay@.len() == size,
            k <= needle@.len(),
            forall|j: int| 0 <= j < k ==> hay@[at + j] == needle@[j],
        decreases needle@.len() - k,
    {
        if hay[at + k] != needle[k] {
            return false;
        }
        k += 1;
    }
    true
}

/// Whether `needle` stands somewhere in `hay`.
pub fn contains_bytes(hay: &[u8], needle: &[u8]) -> (r: bool)
    ensures
        r == occurs(hay@, needle@),
{
    if needle.len() > hay.len() {
        return false;
    }
    let last: usize = hay.len() - needle.len();
    let mut at: usize = 0;
    while at < last
        invariant
            last == hay@.len() - needle@.len(),
            at <= last,
            forall|j: int| 0 <= j < at ==> !occurs_at(hay@, needle@, j),
        decreases last - at,
    {
        if matches_at(hay, needle, at) {
            return true;
        }
        at += 1;
    }
    matches_at(hay, needle, last)
}

/// Whether the marker text stands somewhere in the body.
pub fn contains_marker(body: &[u8], marker: &str) -> (r: bool)
    ensures
        r == has_marker(body@, marker),
{
    contains_bytes(body, marker.as_bytes())
}

} // verus!
