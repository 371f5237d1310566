use vstd::prelude::*;

use crate::order::Ranked;

verus! {

/// Strict lexicographic order on byte sequences: the order of `str` and `String` comparison.
pub open spec fn bytes_lt(a: Seq<u8>, b: Seq<u8>) -> bool
    decreases a.len(),
{
    if b.len() == 0 {
        false
    } else if a.len() == 0 {
        true
    } else if a[0] != b[0] {
        a[0] < b[0]
    } else {
        bytes_lt(a.drop_first(), b.drop_first())
    }
}

/// No byte sequence sorts before itself.
pub proof fn lemma_bytes_lt_irreflexive(a: Seq<u8>)
    ensures
        !bytes_lt(a, a),
    decreases a.len(),
{
    if a.len() > 0 {
        lemma_bytes_lt_irreflexive(a.drop_first());
    }
}

/// The byte order is transitive.
pub proof fn lemma_bytes_lt_transitive(a: Seq<u8>, b: Seq<u8>, c: Seq<u8>)
    requires
        bytes_lt(a, b),
        bytes_lt(b, c),
    ensures
        bytes_lt(a, c),
    decreases a.len(),
{
    if a.len() > 0 && b.len() > 0 && c.len() > 0 && a[0] == b[0] && b[0] == c[0] {
        lemma_bytes_lt_transitive(a.drop_first(), b.drop_first(), c.drop_first());
    }
}

/// Any two byte sequences are equal or ordered one way.
pub proof fn lemma_bytes_lt_total(a: Seq<u8>, b: Seq<u8>)
    ensures
        bytes_lt(a, b) || a == b || bytes_lt(b, a),
    decreases a.len(),
{
    if a.len() > 0 && b.len() > 0 && a[0] == b[0] {
        lemma_bytes_lt_total(a.drop_first(), b.drop_first());
        if a.drop_first() == b.drop_first() {
            assert(a =~= seq![a[0]] + a.drop_first());
            assert(b =~= seq![b[0]] + b.drop_first());
        }
    } else if a.len() == 0 && b.len() == 0 {
        assert(a =~= b);
    }
}

/// The UTF-8 bytes of a character sequence.
pub open spec fn utf8(s: Seq<char>) -> Seq<u8> {
    vstd::utf8::encode_utf8(s)
}

/// Whether `a` sorts strictly before `b` as Rust orders strings (by their UTF-8 bytes).
pub fn str_less(a: &str, b: &str) -> (r: bool)
    ensures
        r == bytes_lt(utf8(a@), utf8(b@)),
{
    let x = a.as_bytes();
    let y = b.as_bytes();
    let mut i: usize = 0;
    assert(x@.subrange(0, x@.len() as int) =~= x@);
    assert(y@.subrange(0, y@.len() as int) =~= y@);
    while i < x.len() && i < y.len()
        invariant
            x@ == utf8(a@),
            y@ == utf8(b@),
            i <= x@.len(),
            i <= y@.len(),
            x@.subrange(0, i as int) == y@.subrange(0, i as int),
            bytes_lt(x@, y@) == bytes_lt(x@.subrange(i as int, x@.len() as int), y@.subrange(i as int, y@.len() as int)),
        decreases x@.len() - i,
    {
        if x[i] != y[i] {
            return x[i] < y[i];
        }
        assert(x@.subrange(i as int, x@.len() as int).drop_first() =~= x@.subrange(i + 1, x@.len() as int));
        assert(y@.subrange(i as int, y@.len() as int).drop_first() =~= y@.subrange(i + 1, y@.len() as int));
        assert(x@.subrange(0, i + 1) =~= x@.subrange(0, i as int).push(x@[i as int]));
        assert(y@.subrange(0, i + 1) =~= y@.subrange(0, i as int).push(y@[i as int]));
        i += 1;
    }
    i < y.len()
}


/// Distinct character sequences have distinct UTF-8 encodings.
pub proof fn lemma_utf8_injective(a: Seq<char>, b: Seq<char>)
    requires
        utf8(a) == utf8(b),
    ensures
        a == b,
{
    vstd::utf8::encode_utf8_decode_utf8(a);
    vstd::utf8::encode_utf8_decode_utf8(b);
}

/// Whether two strings hold the same characters.
pub fn str_eq(a: &str, b: &str) -> (r: bool)
    ensures
        r == (a@ == b@),
{
    let x = a.as_bytes();
    let y = b.as_bytes();
    if x.len() != y.len() {
        return false;
    }
    let mut i: usize = 0;
    while i < x.len()
        invariant
            x@ == utf8(a@),
            y@ == utf8(b@),
            x@.len() == y@.len(),
            i <= x@.len(),
            forall|j: int| 0 <= j < i ==> x@[j] == y@[j],
        decreases x@.len() - i,
    {
        if x[i] != y[i] {
            return false;
        }
        i += 1;
    }
    assert(x@ =~= y@);
    proof {
        lemma_utf8_injective(a@, b@);
    }
    true
}

/// An owned copy of a string slice.
pub fn owned(s: &str) -> (r: String)
    ensures
        r@ == s@,
{
    s.to_owned()
}


/// The characters of a string, in order.
pub fn chars_of(s: &str) -> (r: Vec<char>)
    ensures
        r@ == s@,
{
    let mut out: Vec<char> = Vec::new();
    for c in it: s.chars()
        invariant
            out@ == it.seq().take(it.index() as int),
    {
        out.push(c);
    }
    out
}


/// What `str::to_lowercase` returns for a string: its lowercase form under
/// the Unicode `Lowercase` property.
pub uninterp spec fn lowercase(s: Seq<char>) -> Seq<char>;

/// What `char::is_alphanumeric` returns for a character.
pub uninterp spec fn alphanumeric(c: char) -> bool;

/// Calls `str::to_lowercase`; its result is `lowercase` of the argument.
#[verifier::external_body]
pub(crate) fn to_lowercase(s: &str) -> (r: String)
    ensures
        r@ == lowercase(s@),
{
    s.to_lowercase()
}

/// What `{:?}` prints for a string: the string in double quotes, with
/// quotes, backslashes and characters that do not print escaped.
pub uninterp spec fn quoted(s: Seq<char>) -> Seq<char>;

/// What `str::to_uppercase` returns for a string: its uppercase form under
/// the Unicode `Uppercase` property.
pub uninterp spec fn uppercase(s: Seq<char>) -> Seq<char>;

/// Formats a string with `{:?}` (its `Debug` form); the result is `quoted`
/// of the argument.
#[verifier::external_body]
pub(crate) fn debug_quoted(s: &str) -> (r: String)
    ensures
        r@ == quoted(s@),
{
    format!("{:?}", s)
}

/// Calls `str::to_uppercase`; its result is `uppercase` of the argument.
#[verifier::external_body]
pub(crate) fn to_uppercase(s: &str) -> (r: String)
    ensures
        r@ == uppercase(s@),
{
    s.to_uppercase()
}

/// Whether `c` is an ASCII letter or digit: `0`-`9`, `A`-`Z` or `a`-`z`.
pub open spec fn ascii_alphanumeric(c: char) -> bool {
    ||| 48 <= (c as u32) <= 57
    ||| 65 <= (c as u32) <= 90
    ||| 97 <= (c as u32) <= 122
}

/// Calls `char::is_alphanumeric`; its result is `alphanumeric` of the
/// argument, and for an ASCII character it is true exactly for the ASCII
/// letters and digits (the characters with the `Alphabetic` or a numeric
/// property among the first 128).
#[verifier::external_body]
pub(crate) fn is_alphanumeric(c: char) -> (r: bool)
    ensures
        r == alphanumeric(c),
        (c as u32) < 128 ==> (r <==> ascii_alphanumeric(c)),
{
    c.is_alphanumeric()
}

/// Calls `String::push`, which appends one character.
#[verifier::external_body]
pub(crate) fn push_char(s: &mut String, c: char)
    ensures
        final(s)@ == old(s)@.push(c),
{
    s.push(c)
}

/// Calls `String::push_str`, which appends a string slice.
#[verifier::external_body]
pub(crate) fn push_str(s: &mut String, t: &str)
    ensures
        final(s)@ == old(s)@ + t@,
{
    s.push_str(t)
}

/// Calls `String::insert`, which inserts a character at a byte position that
/// lies on a character boundary: the new bytes are the old ones with the
/// character's UTF-8 encoding spliced in at that position.
#[verifier::external_body]
pub(crate) fn insert_char(s: &mut String, idx: usize, c: char)
    requires
        vstd::utf8::is_char_boundary(utf8(old(s)@), idx as int),
    ensures
        utf8(final(s)@) == utf8(old(s)@).subrange(0, idx as int) + utf8(seq![c])
            + utf8(old(s)@).subrange(idx as int, utf8(old(s)@).len() as int),
{
    s.insert(idx, c)
}

/// Calls `String::remove`, which removes the character that starts at a byte
/// position on a character boundary, before the end, and returns it.
#[verifier::external_body]
pub(crate) fn remove_char(s: &mut String, idx: usize) -> (r: char)
    requires
        idx < utf8(old(s)@).len(),
        vstd::utf8::is_char_boundary(utf8(old(s)@), idx as int),
    ensures
        ({
            let b = utf8(old(s)@);
            let w = vstd::utf8::length_of_first_scalar(b.subrange(idx as int, b.len() as int));
            &&& utf8(seq![r]) == b.subrange(idx as int, idx + w)
            &&& utf8(final(s)@) == b.subrange(0, idx as int) + b.subrange(idx + w, b.len() as int)
        }),
{
    s.remove(idx)
}


/// Whether `s` begins with `prefix`.
pub fn starts_with(s: &str, prefix: &str) -> (r: bool)
    ensures
        r == (prefix@.len() <= s@.len() && s@.take(prefix@.len() as int) == prefix@),
{
    let a = chars_of(s);
    let b = chars_of(prefix);
    if b.len() > a.len() {
        return false;
    }
    let mut i: usize = 0;
    while i < b.len()
        invariant
            a@ == s@,
            b@ == prefix@,
            b@.len() <= a@.len(),
            i <= b@.len(),
            forall|j: int| 0 <= j < i ==> a@[j] == b@[j],
        decreases b@.len() - i,
    {
        if a[i] != b[i] {
            assert(s@.take(prefix@.len() as int)[i as int] != prefix@[i as int]);
            return false;
        }
        i += 1;
    }
    assert(s@.take(prefix@.len() as int) =~= prefix@);
    true
}

/// Whether `s` ends with `suffix`.
pub fn ends_with(s: &str, suffix: &str) -> (r: bool)
    ensures
        r == (suffix@.len() <= s@.len() && s@.skip(s@.len() - suffix@.len()) == suffix@),
{
    let a = chars_of(s);
    let b = chars_of(suffix);
    if b.len() > a.len() {
        return false;
    }
    let n = a.len();
    let off = n - b.len();
    let mut i: usize = 0;
    while i < b.len()
        invariant
            a@ == s@,
            b@ == suffix@,
            n == a@.len(),
            off == a@.len() - b@.len(),
            b@.len() <= a@.len(),
            i <= b@.len(),
            forall|j: int| 0 <= j < i ==> a@[off + j] == b@[j],
        decreases b@.len() - i,
    {
        if a[off + i] != b[i] {
            assert(s@.skip(off as int)[i as int] != suffix@[i as int]);
            return false;
        }
        i += 1;
    }
    assert(s@.skip(off as int) =~= suffix@);
    true
}

/// Strings sort in ascending order of their UTF-8 bytes, as `str` orders them.
impl Ranked for String {
    open spec fn outranks(&self, other: &Self) -> bool {
        bytes_lt(utf8(self@), utf8(other@))
    }

    proof fn lemma_irreflexive(a: &Self) {
        lemma_bytes_lt_irreflexive(utf8(a@));
    }

    proof fn lemma_transitive(a: &Self, b: &Self, c: &Self) {
        lemma_bytes_lt_transitive(utf8(a@), utf8(b@), utf8(c@));
    }

    proof fn lemma_negative_transitive(a: &Self, b: &Self, c: &Self) {
        let (x, y, z) = (utf8(a@), utf8(b@), utf8(c@));
        lemma_bytes_lt_total(x, y);
        lemma_bytes_lt_total(y, z);
        if bytes_lt(x, z) {
            if bytes_lt(z, y) {
                lemma_bytes_lt_transitive(x, z, y);
            }
        }
    }

    fn ranks_before(&self, other: &Self) -> (r: bool) {
        str_less(self.as_str(), other.as_str())
    }
}

} // verus!
