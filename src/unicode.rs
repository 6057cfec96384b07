//! Character classes, case mapping and UTF-8 encoding.
use vstd::prelude::*;
use vstd::utf8::*;

verus! {

/// Whether `c` has the Unicode White_Space property.
pub open spec fn is_white(c: char) -> bool {
    let v = c as u32;
    ||| 0x09 <= v <= 0x0D
    ||| v == 0x20
    ||| v == 0x85
    ||| v == 0xA0
    ||| v == 0x1680
    ||| 0x2000 <= v <= 0x200A
    ||| v == 0x2028
    ||| v == 0x2029
    ||| v == 0x202F
    ||| v == 0x205F
    ||| v == 0x3000
}

/// Tests the Unicode White_Space property, as `char::is_whitespace` does.
pub fn is_whitespace(c: char) -> (r: bool)
    ensures
        r == is_white(c),
{
    let v = c as u32;
    (0x09 <= v && v <= 0x0D) || v == 0x20 || v == 0x85 || v == 0xA0 || v == 0x1680 || (0x2000
        <= v && v <= 0x200A) || v == 0x2028 || v == 0x2029 || v == 0x202F || v == 0x205F || v
        == 0x3000
}

/// Whether `c` has the Unicode Alphabetic property.
pub uninterp spec fn alphabetic(c: char) -> bool;

/// Whether `c` has the Unicode Uppercase property.
pub uninterp spec fn uppercase(c: char) -> bool;

/// The characters of the Unicode lower-case mapping of `c`.
pub uninterp spec fn lowercase_of(c: char) -> Seq<char>;

/// Relies on `char::is_alphabetic`, which depends on the character alone.
#[verifier::external_body]
pub(crate) fn is_alphabetic(c: char) -> (r: bool)
    ensures
        r == alphabetic(c),
{
    c.is_alphabetic()
}

/// Relies on `char::is_uppercase`, which depends on the character alone.
#[verifier::external_body]
pub(crate) fn is_uppercase(c: char) -> (r: bool)
    ensures
        r == uppercase(c),
{
    c.is_uppercase()
}

/// Relies on `char::to_lowercase`: the characters that it yields for `c`.
#[verifier::external_body]
pub(crate) fn to_lowercase(c: char) -> (r: Vec<char>)
    ensures
        r@ == lowercase_of(c),
{
    c.to_lowercase().collect()
}

/// Relies on `String: FromIterator<&char>`: a string of the given characters, in order.
#[verifier::external_body]
pub(crate) fn string_of(chars: &[char]) -> (r: String)
    ensures
        r@ == chars@,
{
    chars.iter().collect()
}

/// The characters of a word, each replaced by its lower-case mapping.
pub open spec fn lowercase_word(w: Seq<char>) -> Seq<char>
    decreases w.len(),
{
    if w.len() == 0 {
        seq![]
    } else {
        lowercase_word(w.drop_last()) + lowercase_of(w.last())
    }
}

/// The characters of `s`, in order.
pub fn chars_of(s: &str) -> (r: Vec<char>)
    ensures
        r@ == s@,
{
    let mut v: Vec<char> = Vec::new();
    for c in it: s.chars()
        invariant
            it.seq() == s@,
            v@ == s@.take(it.index() as int),
    {
        v.push(c);
    }
    assert(v@ =~= s@);
    v
}

/// Whether two character slices are equal.
pub fn chars_equal(a: &[char], b: &[char]) -> (r: bool)
    ensures
        r == (a@ == b@),
{
    if a.len() != b.len() {
        return false;
    }
    let mut i: usize = 0;
    while i < a.len()
        invariant
            0 <= i <= a@.len(),
            a@.len() == b@.len(),
            forall|j: int| 0 <= j < i ==> a@[j] == b@[j],
        decreases a@.len() - i,
    {
        if a[i] != b[i] {
            return false;
        }
        i = i + 1;
    }
    assert(a@ =~= b@);
    true
}

/// Whether two strings hold the same characters.
pub fn same_text(a: &str, b: &str) -> (r: bool)
    ensures
        r == (a@ == b@),
{
    let x = chars_of(a);
    let y = chars_of(b);
    chars_equal(&x, &y)
}

/// Encoding a sequence with one more character appends that character's encoding.
pub proof fn lemma_encode_utf8_push(s: Seq<char>, c: char)
    ensures
        encode_utf8(s.push(c)) == encode_utf8(s) + encode_utf8(seq![c]),
    decreases s.len(),
{
    if s.len() == 0 {
        assert(s.push(c) =~= seq![c]);
        assert(encode_utf8(s) =~= seq![]);
    } else {
        assert(s.push(c).drop_first() =~= s.drop_first().push(c));
        lemma_encode_utf8_push(s.drop_first(), c);
        assert(encode_utf8(s.push(c)) =~= encode_utf8(s) + encode_utf8(seq![c]));
    }
}

/// Encoding a concatenation concatenates the encodings.
pub proof fn lemma_encode_utf8_append(s: Seq<char>, t: Seq<char>)
    ensures
        encode_utf8(s + t) == encode_utf8(s) + encode_utf8(t),
    decreases t.len(),
{
    if t.len() == 0 {
        assert(s + t =~= s);
        assert(encode_utf8(t) =~= seq![]);
        assert(encode_utf8(s) + encode_utf8(t) =~= encode_utf8(s));
    } else {
        lemma_encode_utf8_append(s, t.drop_last());
        assert(s + t =~= (s + t.drop_last()).push(t.last()));
        assert(t =~= t.drop_last().push(t.last()));
        lemma_encode_utf8_push(s + t.drop_last(), t.last());
        lemma_encode_utf8_push(t.drop_last(), t.last());
        assert(encode_utf8(s + t) =~= encode_utf8(s) + encode_utf8(t));
    }
}

/// The UTF-8 bytes of one character: four slots, of which the first `r.1` are used.
pub fn utf8_of_char(c: char) -> (r: ([u8; 4], usize))
    ensures
        1 <= r.1 <= 4,
        r.0@.take(r.1 as int) == encode_utf8(seq![c]),
{
    let v = c as u32;
    proof {
        assert(seq![c].drop_first() =~= Seq::<char>::empty());
        assert(encode_utf8(Seq::<char>::empty()) =~= Seq::<u8>::empty());
        assert(encode_utf8(seq![c]) =~= encode_scalar(v) + encode_utf8(Seq::<char>::empty()));
        assert(encode_utf8(seq![c]) =~= encode_scalar(v));
    }
    if v <= 0x7F {
        let r = ([(v & 0x7F) as u8, 0, 0, 0], 1);
        assert(r.0@.take(1) =~= encode_scalar(v));
        r
    } else if v <= 0x7FF {
        let r = ([0xC0 | ((v >> 6) & 0x1F) as u8, 0x80 | (v & 0x3F) as u8, 0, 0], 2);
        assert(r.0@.take(2) =~= encode_scalar(v));
        r
    } else if v <= 0xFFFF {
        let r = (
            [
                0xE0 | ((v >> 12) & 0x0F) as u8,
                0x80 | ((v >> 6) & 0x3F) as u8,
                0x80 | (v & 0x3F) as u8,
                0,
            ],
            3,
        );
        assert(r.0@.take(3) =~= encode_scalar(v));
        r
    } else {
        let r = (
            [
                0xF0 | ((v >> 18) & 0x7) as u8,
                0x80 | ((v >> 12) & 0x3F) as u8,
                0x80 | ((v >> 6) & 0x3F) as u8,
                0x80 | (v & 0x3F) as u8,
            ],
            4,
        );
        assert(r.0@.take(4) =~= encode_scalar(v));
        r
    }
}

/// Appends the UTF-8 bytes of `c`.
pub fn push_utf8(out: &mut Vec<u8>, c: char)
    ensures
        final(out)@ == old(out)@ + encode_utf8(seq![c]),
{
    let (bytes, n) = utf8_of_char(c);
    let ghost start = out@;
    let mut k: usize = 0;
    while k < n
        invariant
            n <= 4,
            0 <= k <= n,
            out@ == start + bytes@.take(k as int),
        decreases n - k,
    {
        out.push(bytes[k]);
        k = k + 1;
        assert(out@ =~= start + bytes@.take(k as int));
    }
}

/// The UTF-8 encoding of a character sequence.
pub fn utf8_of(chars: &[char]) -> (r: Vec<u8>)
    ensures
        r@ == encode_utf8(chars@),
{
    let mut out: Vec<u8> = Vec::new();
    let mut i: usize = 0;
    while i < chars.len()
        invariant
            0 <= i <= chars@.len(),
            out@ == encode_utf8(chars@.take(i as int)),
        decreases chars@.len() - i,
    {
        proof {
            lemma_encode_utf8_push(chars@.take(i as int), chars@[i as int]);
            assert(chars@.take(i as int).push(chars@[i as int]) =~= chars@.take(i + 1));
        }
        push_utf8(&mut out, chars[i]);
        i = i + 1;
    }
    assert(chars@.take(i as int) =~= chars@);
    out
}

/// The UTF-8 encoding of the lower-case form of a word.
pub fn lowercase_utf8(word: &[char]) -> (r: Vec<u8>)
    ensures
        r@ == encode_utf8(lowercase_word(word@)),
{
    let mut out: Vec<u8> = Vec::new();
    let mut i: usize = 0;
    while i < word.len()
        invariant
            0 <= i <= word@.len(),
            out@ == encode_utf8(lowercase_word(word@.take(i as int))),
        decreases word@.len() - i,
    {
        let lower = to_lowercase(word[i]);
        let ghost before = lowercase_word(word@.take(i as int));
        let mut j: usize = 0;
        while j < lower.len()
            invariant
                0 <= j <= lower@.len(),
                out@ == encode_utf8(before + lower@.take(j as int)),
            decreases lower@.len() - j,
        {
            proof {
                lemma_encode_utf8_push(before + lower@.take(j as int), lower@[j as int]);
                assert((before + lower@.take(j as int)).push(lower@[j as int]) =~= before
                    + lower@.take(j + 1));
            }
            push_utf8(&mut out, lower[j]);
            j = j + 1;
        }
        proof {
            assert(word@.take(i + 1).drop_last() =~= word@.take(i as int));
            assert(lower@.take(j as int) =~= lower@);
        }
        i = i + 1;
    }
    assert(word@.take(i as int) =~= word@);
    out
}

} // verus!
