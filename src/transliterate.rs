//! The transliteration engine: the word scanner, the digraph exception resolver
//! and the driver that splits text into words and whitespace.
use vstd::prelude::*;
use vstd::string::StringSliceAdditionalSpecFns;
use vstd::utf8::encode_utf8;

use crate::charmaps::{
    digraph_family, family_cyrillic, family_latin, family_latinized, family_words, glyph_value,
    Case, Character, Glyph, CYRILLIC_CLEAN, CYRILLIC_DIRTY, EMPTY, FAMILIES, LATIN_CLEAN,
    LATIN_CLEAN_UNICODE, LATIN_DIRTY, LATIN_DIRTY_UNICODE,
};
use crate::foreign::{foreign_patterns, matched_by, ForeignPatterns};
use crate::unicode::{
    alphabetic, chars_equal, chars_of, is_alphabetic, is_uppercase, is_white, is_whitespace,
    lemma_encode_utf8_append, lemma_encode_utf8_push, lowercase_utf8, lowercase_word, same_text,
    string_of, uppercase, utf8_of_char,
};

verus! {

/// A script representation of Serbian text.
#[derive(PartialEq, Eq, Structural, Clone, Copy, Debug)]
pub enum Charset {
    /// Latin with ASCII digraphs (`lj`, `nj`, `dž`).
    Latin,
    /// Latin with the precomposed digraph letters (`ǉ`, `ǌ`, `ǆ`).
    LatinUnicode,
    /// Cyrillic.
    Cyrillic,
}

/// The script that a name stands for: `latin`, `lat` or `l`; `latin8`, `lat8` or
/// `l8`; `cyrillic`, `cyr` or `c`.
pub open spec fn charset_named(name: Seq<char>) -> Option<Charset> {
    if name == "latin"@ || name == "lat"@ || name == "l"@ {
        Some(Charset::Latin)
    } else if name == "latin8"@ || name == "lat8"@ || name == "l8"@ {
        Some(Charset::LatinUnicode)
    } else if name == "cyrillic"@ || name == "cyr"@ || name == "c"@ {
        Some(Charset::Cyrillic)
    } else {
        None
    }
}

impl Charset {
    /// The script that `name` stands for, if any.
    pub fn parse(name: &str) -> (r: Option<Charset>)
        ensures
            r == charset_named(name@),
    {
        if same_text(name, "latin") || same_text(name, "lat") || same_text(name, "l") {
            Some(Charset::Latin)
        } else if same_text(name, "latin8") || same_text(name, "lat8") || same_text(name, "l8") {
            Some(Charset::LatinUnicode)
        } else if same_text(name, "cyrillic") || same_text(name, "cyr") || same_text(name, "c") {
            Some(Charset::Cyrillic)
        } else {
            None
        }
    }
}

/// An error of the engine.
#[derive(Debug)]
pub enum Error {
    /// An output buffer is too small for what is written to it.
    BufferOverflow,
}

/// The source table, the destination table and whether digraph exceptions
/// matter, for a pair of scripts.
pub open spec fn tables(from: Charset, into: Charset) -> (Seq<Glyph>, Seq<Glyph>, bool) {
    match (from, into) {
        (Charset::Latin, Charset::LatinUnicode) => (LATIN_DIRTY@, LATIN_DIRTY_UNICODE@, true),
        (Charset::LatinUnicode, Charset::Latin) => (LATIN_CLEAN_UNICODE@, LATIN_CLEAN@, false),
        (Charset::Latin, Charset::Cyrillic) => (LATIN_DIRTY@, CYRILLIC_DIRTY@, true),
        (Charset::LatinUnicode, Charset::Cyrillic) => (
            LATIN_CLEAN_UNICODE@,
            CYRILLIC_CLEAN@,
            false,
        ),
        (Charset::Cyrillic, Charset::Latin) => (CYRILLIC_CLEAN@, LATIN_CLEAN@, false),
        (Charset::Cyrillic, Charset::LatinUnicode) => (
            CYRILLIC_CLEAN@,
            LATIN_CLEAN_UNICODE@,
            false,
        ),
        _ => (EMPTY@, EMPTY@, false),
    }
}

/// What a transliterator does, as values.
pub struct Config {
    pub from: Seq<Glyph>,
    pub into: Seq<Glyph>,
    pub exceptions: bool,
    pub latinize: bool,
    pub skip_digraph: bool,
    pub force_foreign: bool,
    pub force_links: bool,
    pub patterns: Seq<Seq<char>>,
}

impl Config {
    /// Whether the scanner consults the digraph exceptions.
    pub open spec fn checks_exceptions(self) -> bool {
        !self.skip_digraph && self.exceptions
    }

    /// The configuration that `Transliterator::new` builds.
    pub open spec fn built_from(
        self,
        from: Charset,
        into: Charset,
        skip_digraph: bool,
        force_foreign: bool,
        force_links: bool,
    ) -> bool {
        &&& self.from == tables(from, into).0
        &&& self.into == tables(from, into).1
        &&& self.exceptions == tables(from, into).2
        &&& self.latinize == (into == Charset::LatinUnicode)
        &&& self.skip_digraph == skip_digraph
        &&& self.force_foreign == force_foreign
        &&& self.force_links == force_links
        &&& self.patterns == foreign_patterns()
    }
}

/// The number of leading characters of `input` whose UTF-8 encoding fits in `cap`
/// bytes, counting on from `k`.
pub open spec fn fitting_chars(input: Seq<char>, cap: int, k: int) -> int
    decreases input.len() - k,
{
    if 0 <= k < input.len() && encode_utf8(input.take(k + 1)).len() <= cap {
        fitting_chars(input, cap, k + 1)
    } else {
        k
    }
}

/// Whether `needle` occurs in `hay`.
pub open spec fn occurs_in(hay: Seq<u8>, needle: Seq<u8>) -> bool {
    exists|i: int|
        0 <= i && i + needle.len() <= hay.len() && #[trigger] hay.subrange(i, i + needle.len())
            == needle
}

/// Whether one of `words`, in UTF-8, occurs in `lowered`.
pub open spec fn fires(words: Seq<&'static str>, lowered: Seq<u8>) -> bool {
    exists|k: int| 0 <= k < words.len() && #[trigger] occurs_in(lowered, words[k].spec_bytes())
}

/// The first index from `i` on at which `t` holds the grapheme `cand`.
pub open spec fn index_from(t: Seq<Glyph>, cand: Seq<char>, i: int) -> Option<int>
    decreases t.len() - i,
{
    if i < 0 || i >= t.len() {
        None
    } else if glyph_value(t[i]) == cand {
        Some(i)
    } else {
        index_from(t, cand, i + 1)
    }
}

/// The two-letter replacement of the grapheme `cand`, looked up in the families from
/// index `k` on, in a word whose lower-case form in UTF-8 is `lowered`.
pub open spec fn exception_from(lowered: Seq<u8>, cand: Seq<char>, latinize: bool, k: int) -> Option<
    Glyph,
>
    decreases 3 - k,
{
    if k >= 3 {
        None
    } else {
        match index_from(family_latin(k), cand, 0) {
            Some(i) if fires(family_words(k), lowered) => Some(
                if latinize {
                    family_latinized(k)[i]
                } else {
                    family_cyrillic(k)[i]
                },
            ),
            _ => exception_from(lowered, cand, latinize, k + 1),
        }
    }
}

/// The two-letter replacement of the grapheme `cand` in a word whose lower-case form
/// in UTF-8 is `lowered`, if a digraph exception applies.
pub open spec fn digraph_exception_of(lowered: Seq<u8>, cand: Seq<char>, latinize: bool) -> Option<
    Glyph,
> {
    exception_from(lowered, cand, latinize, 0)
}

/// Whether `v` stands in `w` from position `pos` on.
pub open spec fn starts_at(w: Seq<char>, pos: int, v: Seq<char>) -> bool {
    0 <= pos && pos + v.len() <= w.len() && w.subrange(pos, pos + v.len()) == v
}

/// The grapheme written for position `pos` of `w` and how far the scan moves, trying
/// the source table's entries from index `i - 1` down to 0; `None` where none applies.
/// `uppercase[j]` tells whether `w[j]` is upper case.
pub open spec fn pick(
    c: Config,
    w: Seq<char>,
    lowered: Seq<u8>,
    uppercase: Seq<bool>,
    pos: int,
    i: int,
) -> Option<(Glyph, int)>
    decreases i,
{
    if i <= 0 {
        None
    } else {
        let g = c.from[i - 1];
        let v = glyph_value(g);
        if !starts_at(w, pos, v) {
            pick(c, w, lowered, uppercase, pos, i - 1)
        } else if c.checks_exceptions() && digraph_exception_of(lowered, v, c.latinize) is Some {
            let e = digraph_exception_of(lowered, v, c.latinize)->Some_0;
            Some((e, glyph_value(e).len() as int))
        } else if g.2 == Case::Mixed && pos + v.len() < w.len() && uppercase[pos + v.len()] {
            pick(c, w, lowered, uppercase, pos, i - 1)
        } else {
            Some((c.into[i - 1], v.len() as int))
        }
    }
}

/// The transliteration of `w` from position `pos` on, or `None` where a foreign
/// letter is met. `alphabetic[j]` tells whether `w[j]` is a letter.
pub open spec fn scan(
    c: Config,
    w: Seq<char>,
    lowered: Seq<u8>,
    alphabetic: Seq<bool>,
    uppercase: Seq<bool>,
    forced: bool,
    pos: int,
) -> Option<Seq<char>>
    decreases w.len() - pos,
{
    if pos >= w.len() {
        Some(seq![])
    } else {
        match pick(c, w, lowered, uppercase, pos, c.from.len() as int) {
            Some((g, adv)) => if adv <= 0 {
                None
            } else if pos + adv >= w.len() {
                Some(glyph_value(g))
            } else {
                match scan(c, w, lowered, alphabetic, uppercase, forced, pos + adv) {
                    Some(rest) => Some(glyph_value(g) + rest),
                    None => None,
                }
            },
            None => if !forced && !c.force_foreign && alphabetic[pos] {
                None
            } else {
                match scan(c, w, lowered, alphabetic, uppercase, forced, pos + 1) {
                    Some(rest) => Some(seq![w[pos]] + rest),
                    None => None,
                }
            },
        }
    }
}

/// The transliteration of the word `w`, given its lower-case form in UTF-8, which of
/// its characters are letters and which are upper case, and whether it matched a
/// pattern of foreign content.
pub open spec fn word_output(
    c: Config,
    w: Seq<char>,
    lowered: Seq<u8>,
    alphabetic: Seq<bool>,
    uppercase: Seq<bool>,
    foreign: bool,
) -> Seq<char> {
    if foreign && !c.force_links {
        w
    } else {
        match scan(c, w, lowered, alphabetic, uppercase, foreign, 0) {
            Some(out) => out,
            None => w,
        }
    }
}

/// Which characters of `w` are letters.
pub open spec fn letters_of(w: Seq<char>) -> Seq<bool> {
    w.map_values(|ch: char| alphabetic(ch))
}

/// Which characters of `w` are upper case.
pub open spec fn capitals_of(w: Seq<char>) -> Seq<bool> {
    w.map_values(|ch: char| uppercase(ch))
}

/// The transliteration of the word `w`.
pub open spec fn word_result(c: Config, w: Seq<char>) -> Seq<char> {
    word_output(
        c,
        w,
        encode_utf8(lowercase_word(w)),
        letters_of(w),
        capitals_of(w),
        matched_by(c.patterns, w),
    )
}

/// A run of `n` characters at the start of `s` that are whitespace exactly when
/// `white` holds, and that the next character ends, is the run that `run_length` measures.
pub proof fn lemma_run_length(s: Seq<char>, white: bool, n: int)
    requires
        0 <= n <= s.len(),
        forall|j: int| 0 <= j < n ==> is_white(#[trigger] s[j]) == white,
        n == s.len() || is_white(s[n]) != white,
    ensures
        run_length(s, white) == n,
    decreases n,
{
    if n > 0 {
        assert forall|j: int| 0 <= j < n - 1 implies is_white(#[trigger] s.drop_first()[j])
            == white by {
            assert(s.drop_first()[j] == s[j + 1]);
        }
        lemma_run_length(s.drop_first(), white, n - 1);
    }
}

/// The length of the run at the start of `s` of characters that are whitespace
/// exactly when `white` holds.
pub open spec fn run_length(s: Seq<char>, white: bool) -> nat
    decreases s.len(),
{
    if s.len() > 0 && is_white(s[0]) == white {
        1 + run_length(s.drop_first(), white)
    } else {
        0
    }
}

/// The transliteration of the text `s`: its whitespace runs are kept as they are
/// and each maximal run of other characters is transliterated as a word.
pub open spec fn process_text(c: Config, s: Seq<char>) -> Seq<char>
    decreases s.len(),
{
    if s.len() == 0 {
        seq![]
    } else {
        let white = is_white(s[0]);
        let n = run_length(s, white);
        if n == 0 || n > s.len() {
            seq![]
        } else {
            let run = s.take(n as int);
            (if white {
                run
            } else {
                word_result(c, run)
            }) + process_text(c, s.skip(n as int))
        }
    }
}

/// Relies on `subslice::bmh::find`: the position of an occurrence of `pat` in `text`,
/// if there is one. It panics on an empty pattern, which is therefore left out.
#[verifier::external_body]
fn bmh_find(text: &[u8], pat: &[u8]) -> (r: Option<usize>)
    requires
        pat@.len() > 0,
    ensures
        r is Some <==> occurs_in(text@, pat@),
{
    subslice::bmh::find(text, pat)
}

/// Converts text between the scripts of Serbian.
pub struct Transliterator {
    charset_from: &'static [Glyph],
    charset_into: &'static [Glyph],
    exceptions: bool,
    latinize: bool,
    skip_digraph: bool,
    force_foreign: bool,
    force_links: bool,
    patterns: ForeignPatterns,
}

impl View for Transliterator {
    type V = Config;

    closed spec fn view(&self) -> Config {
        Config {
            from: self.charset_from@,
            into: self.charset_into@,
            exceptions: self.exceptions,
            latinize: self.latinize,
            skip_digraph: self.skip_digraph,
            force_foreign: self.force_foreign,
            force_links: self.force_links,
            patterns: self.patterns@,
        }
    }
}

impl Transliterator {
    /// The source and destination tables correspond position by position.
    #[verifier::type_invariant]
    spec fn tables_aligned(&self) -> bool {
        self.charset_from@.len() == self.charset_into@.len()
    }

    /// A transliterator from `from` to `into`.
    pub fn new(
        from: Charset,
        into: Charset,
        skip_digraph: bool,
        force_foreign: bool,
        force_links: bool,
    ) -> (r: Self)
        ensures
            r@.built_from(from, into, skip_digraph, force_foreign, force_links),
    {
        let (f, i, e): (&'static [Glyph], &'static [Glyph], bool) = match (from, into) {
            (Charset::Latin, Charset::LatinUnicode) => (&LATIN_DIRTY, &LATIN_DIRTY_UNICODE, true),
            (Charset::LatinUnicode, Charset::Latin) => (&LATIN_CLEAN_UNICODE, &LATIN_CLEAN, false),
            (Charset::Latin, Charset::Cyrillic) => (&LATIN_DIRTY, &CYRILLIC_DIRTY, true),
            (Charset::LatinUnicode, Charset::Cyrillic) => (
                &LATIN_CLEAN_UNICODE,
                &CYRILLIC_CLEAN,
                false,
            ),
            (Charset::Cyrillic, Charset::Latin) => (&CYRILLIC_CLEAN, &LATIN_CLEAN, false),
            (Charset::Cyrillic, Charset::LatinUnicode) => (
                &CYRILLIC_CLEAN,
                &LATIN_CLEAN_UNICODE,
                false,
            ),
            _ => (&EMPTY, &EMPTY, false),
        };
        let latinize = match into {
            Charset::LatinUnicode => true,
            _ => false,
        };
        Transliterator {
            charset_from: f,
            charset_into: i,
            exceptions: e,
            latinize,
            skip_digraph,
            force_foreign,
            force_links,
            patterns: ForeignPatterns::new(),
        }
    }

    /// Writes the UTF-8 encoding of `input` at the start of `output` and returns its
    /// length. Where `output` is too short, the characters that fit are written, in
    /// order, and the call fails.
    pub fn chars_to_utf8(input: &[char], output: &mut Vec<u8>) -> (r: Result<usize, Error>)
        ensures
            encode_utf8(input@).len() <= old(output)@.len() ==> (r matches Ok(n) && n
                == encode_utf8(input@).len() && final(output)@ == encode_utf8(input@) + old(
                output,
            )@.skip(n as int)),
            encode_utf8(input@).len() > old(output)@.len() ==> (r matches Err(
                Error::BufferOverflow,
            ) && ({
                let written = encode_utf8(
                    input@.take(fitting_chars(input@, old(output)@.len() as int, 0)),
                );
                final(output)@ == written + old(output)@.skip(written.len() as int)
            })),
    {
        let ghost start = output@;
        let ghost cap = start.len() as int;
        let mut cursor: usize = 0;
        let mut i: usize = 0;
        assert(input@.take(0) =~= Seq::<char>::empty());
        assert(encode_utf8(Seq::<char>::empty()) =~= Seq::<u8>::empty());
        assert(output@ =~= encode_utf8(input@.take(0)) + start.skip(0));
        while i < input.len()
            invariant
                0 <= i <= input@.len(),
                input@.len() == input.len(),
                start == old(output)@,
                start.len() == cap,
                output@.len() == cap,
                cursor as int == encode_utf8(input@.take(i as int)).len(),
                cursor <= cap,
                output@ == encode_utf8(input@.take(i as int)) + start.skip(cursor as int),
                fitting_chars(input@, cap, 0) == fitting_chars(input@, cap, i as int),
            decreases input@.len() - i,
        {
            let (bytes, w) = utf8_of_char(input[i]);
            let ghost done = encode_utf8(input@.take(i as int));
            proof {
                lemma_encode_utf8_push(input@.take(i as int), input@[i as int]);
                assert(input@.take(i as int).push(input@[i as int]) =~= input@.take(i + 1));
            }
            if w > output.len() - cursor {
                assert(cursor + w > cap);
                proof {
                    assert(encode_utf8(seq![input@[i as int]]).len() == w);
                    assert(encode_utf8(input@.take(i + 1)).len() == cursor + w);
                    lemma_encode_utf8_append(input@.take(i + 1), input@.skip(i + 1));
                    assert(input@.take(i + 1) + input@.skip(i + 1) =~= input@);
                    assert(encode_utf8(input@).len() >= encode_utf8(input@.take(i + 1)).len());
                    assert(fitting_chars(input@, cap, i as int) == i);
                }
                return Err(Error::BufferOverflow);
            }
            let mut j: usize = 0;
            while j < w
                invariant
                    1 <= w <= 4,
                    0 <= j <= w,
                    i < input@.len(),
                    cursor + w <= cap,
                    start.len() == cap,
                    output@.len() == cap,
                    output.len() == cap,
                    done.len() == cursor,
                    bytes@.take(w as int) == encode_utf8(seq![input@[i as int]]),
                    output@ == done + bytes@.take(j as int) + start.skip(cursor + j),
                decreases w - j,
            {
                let ghost prev = output@;
                output.set(cursor + j, bytes[j]);
                assert(output@ == prev.update(cursor + j, bytes@[j as int]));
                j = j + 1;
                let ghost want = done + bytes@.take(j as int) + start.skip(cursor + j);
                assert forall|k: int| 0 <= k < cap implies output@[k] == want[k] by {
                    if k < cursor {
                        assert(want[k] == done[k]);
                        assert(prev[k] == done[k]);
                    } else if k < cursor + j {
                        assert(want[k] == bytes@[k - cursor]);
                        if k < cursor + j - 1 {
                            assert(prev[k] == bytes@[k - cursor]);
                        }
                    } else {
                        assert(want[k] == start[k]);
                        assert(prev[k] == start[k]);
                    }
                }
                assert(output@ =~= want);
            }
            proof {
                assert(encode_utf8(seq![input@[i as int]]).len() == w);
                assert(encode_utf8(input@.take(i + 1)).len() == cursor + w);
                assert(fitting_chars(input@, cap, i as int) == fitting_chars(input@, cap, i + 1));
                assert(bytes@.take(j as int) == encode_utf8(seq![input@[i as int]]));
            }
            cursor = cursor + w;
            i = i + 1;
            assert(output@ =~= encode_utf8(input@.take(i as int)) + start.skip(cursor as int));
        }
        assert(input@.take(i as int) =~= input@);
        Ok(cursor)
    }

    /// Whether one of `words` occurs, in UTF-8, in `lowered`.
    fn family_fires(words: &[&'static str], lowered: &[u8]) -> (r: bool)
        ensures
            r == fires(words@, lowered@),
    {
        let mut k: usize = 0;
        while k < words.len()
            invariant
                0 <= k <= words@.len(),
                forall|j: int| 0 <= j < k ==> !occurs_in(lowered@, #[trigger] words@[j].spec_bytes()),
            decreases words@.len() - k,
        {
            let bytes = words[k].as_bytes();
            if bytes.len() == 0 {
                assert(lowered@.subrange(0, 0 + bytes@.len() as int) =~= bytes@);
                assert(occurs_in(lowered@, words@[k as int].spec_bytes()));
                return true;
            }
            if bmh_find(lowered, bytes).is_some() {
                assert(occurs_in(lowered@, words@[k as int].spec_bytes()));
                return true;
            }
            k = k + 1;
        }
        false
    }

    /// The first index of `table` that holds the grapheme `cand`.
    fn index_of(table: &[Glyph], cand: &[char]) -> (r: Option<usize>)
        ensures
            r matches Some(i) ==> i < table@.len() && index_from(table@, cand@, 0) == Some(
                i as int,
            ),
            r is None ==> index_from(table@, cand@, 0) is None,
    {
        let mut i: usize = 0;
        while i < table.len()
            invariant
                0 <= i <= table@.len(),
                index_from(table@, cand@, 0) == index_from(table@, cand@, i as int),
            decreases table@.len() - i,
        {
            let g = table[i];
            let v = Character::from_glyph(g);
            if chars_equal(&v.value, cand) {
                return Some(i);
            }
            i = i + 1;
        }
        None
    }

    /// The replacement of `character` that the digraph exceptions give in a word whose
    /// lower-case form in UTF-8 is `lowered`.
    pub fn exception_in(lowered: &[u8], character: &[char], latinize: bool) -> (r: Option<
        Glyph,
    >)
        ensures
            r == digraph_exception_of(lowered@, character@, latinize),
    {
        let mut k: usize = 0;
        while k < FAMILIES
            invariant
                0 <= k <= 3,
                FAMILIES == 3,
                digraph_exception_of(lowered@, character@, latinize) == exception_from(
                    lowered@,
                    character@,
                    latinize,
                    k as int,
                ),
            decreases 3 - k,
        {
            let family = digraph_family(k);
            if let Some(i) = Self::index_of(family.latin, character) {
                if Self::family_fires(family.exceptions, lowered) {
                    return if latinize {
                        Some(family.latinized[i])
                    } else {
                        Some(family.cyrillic[i])
                    };
                }
            }
            k = k + 1;
        }
        None
    }

    /// The table entry that applies at position `pos` of `word` and how far the scan
    /// moves past it, trying the source table from its end towards its start.
    fn pick_at(&self, word: &[char], lowered: &[u8], uppercase: &[bool], pos: usize) -> (r:
        Option<(Glyph, usize)>)
        requires
            pos < word@.len(),
            uppercase@.len() == word@.len(),
        ensures
            match pick(self@, word@, lowered@, uppercase@, pos as int, self@.from.len() as int) {
                Some((g, adv)) => r matches Some((h, n)) && h == g && n as int == adv && 1 <= n
                    <= 2,
                None => r is None,
            },
    {
        proof {
            use_type_invariant(self);
        }
        let checks = !self.skip_digraph && self.exceptions;
        let mut i: usize = self.charset_from.len();
        while i > 0
            invariant
                i <= self@.from.len(),
                self@.from.len() == self@.into.len(),
                word@.len() == word.len(),
                uppercase@.len() == word@.len(),
                pos < word@.len(),
                checks == self@.checks_exceptions(),
                pick(self@, word@, lowered@, uppercase@, pos as int, self@.from.len() as int)
                    == pick(self@, word@, lowered@, uppercase@, pos as int, i as int),
            decreases i,
        {
            let g = self.charset_from[i - 1];
            let v = Character::from_glyph(g);
            if starts_with_at(word, pos, &v.value) {
                if checks {
                    if let Some(e) = Self::exception_in(lowered, &v.value, self.latinize) {
                        let n: usize = if e.1 == '\0' {
                            1
                        } else {
                            2
                        };
                        return Some((e, n));
                    }
                }
                let next = pos + v.value.len();
                let guarded = match g.2 {
                    Case::Mixed => next < word.len() && uppercase[next],
                    _ => false,
                };
                if !guarded {
                    return Some((self.charset_into[i - 1], v.value.len()));
                }
            }
            i = i - 1;
        }
        None
    }

    /// The transliteration of `word`, given its lower-case form in UTF-8, which of
    /// its characters are letters and which are upper case, and whether it matched a
    /// pattern of foreign content.
    pub fn transliterate_chars(
        &self,
        word: &[char],
        lowered: &[u8],
        alphabetic: &[bool],
        uppercase: &[bool],
        foreign: bool,
    ) -> (r: Vec<char>)
        requires
            alphabetic@.len() == word@.len(),
            uppercase@.len() == word@.len(),
        ensures
            r@ == word_output(self@, word@, lowered@, alphabetic@, uppercase@, foreign),
    {
        let mut unchanged: Vec<char> = Vec::new();
        extend_chars(&mut unchanged, word);
        assert(unchanged@ =~= word@);
        if foreign && !self.force_links {
            return unchanged;
        }
        let ghost c = self@;
        let mut out: Vec<char> = Vec::new();
        let mut pos: usize = 0;
        assert(out@ + seq![] =~= out@);
        while pos < word.len()
            invariant
                pos <= word@.len(),
                word@.len() == word.len(),
                c == self@,
                unchanged@ == word@,
                alphabetic@.len() == word@.len(),
                uppercase@.len() == word@.len(),
                scan(c, word@, lowered@, alphabetic@, uppercase@, foreign, 0) == match scan(
                    c,
                    word@,
                    lowered@,
                    alphabetic@,
                    uppercase@,
                    foreign,
                    pos as int,
                ) {
                    Some(rest) => Some(out@ + rest),
                    None => None::<Seq<char>>,
                },
            decreases word@.len() - pos,
        {
            let ghost before = out@;
            match self.pick_at(word, lowered, uppercase, pos) {
                Some((g, adv)) => {
                    push_glyph(&mut out, g);
                    if adv >= word.len() - pos {
                        assert(before + glyph_value(g) =~= out@ + seq![]);
                        pos = word.len();
                    } else {
                        proof {
                            let rest = scan(c, word@, lowered@, alphabetic@, uppercase@, foreign, pos + adv);
                            if let Some(r) = rest {
                                assert(before + (glyph_value(g) + r) =~= out@ + r);
                            }
                        }
                        pos = pos + adv;
                    }
                },
                None => {
                    if !foreign && !self.force_foreign && alphabetic[pos] {
                        return unchanged;
                    }
                    out.push(word[pos]);
                    proof {
                        let rest = scan(c, word@, lowered@, alphabetic@, uppercase@, foreign, pos + 1);
                        if let Some(r) = rest {
                            assert(before + (seq![word@[pos as int]] + r) =~= out@ + r);
                        }
                    }
                    pos = pos + 1;
                },
            }
        }
        assert(out@ + seq![] =~= out@);
        out
    }

    /// The transliteration of the word whose characters are `chars` and whose text is `text`.
    fn convert_word(&self, chars: &[char], text: &str) -> (r: Vec<char>)
        requires
            chars@ == text@,
        ensures
            r@ == word_result(self@, chars@),
    {
        let foreign = self.patterns.matches(text);
        if foreign && !self.force_links {
            let mut unchanged: Vec<char> = Vec::new();
            extend_chars(&mut unchanged, chars);
            assert(unchanged@ =~= chars@);
            return unchanged;
        }
        let lowered = lowercase_utf8(chars);
        let (letters, capitals) = classify(chars);
        self.transliterate_chars(chars, &lowered, &letters, &capitals, foreign)
    }

    /// Transliterates one word: a word that matches a pattern of foreign content is
    /// kept unless links are forced, and a word with a letter that the source table
    /// lacks is kept unless foreign words are forced. This does not fail.
    pub fn process_word(&self, word: &str) -> (r: Result<String, Error>)
        ensures
            r matches Ok(s) && s@ == word_result(self@, word@),
    {
        let chars = chars_of(word);
        let out = self.convert_word(&chars, word);
        Ok(string_of(&out))
    }

    /// Transliterates a text: whitespace runs are kept as they are and every other
    /// run is transliterated as a word. This does not fail.
    pub fn process(&self, input: &str) -> (r: Result<String, Error>)
        ensures
            r matches Ok(s) && s@ == process_text(self@, input@),
    {
        let chars = chars_of(input);
        let ghost c = self@;
        let mut out: Vec<char> = Vec::new();
        let mut pos: usize = 0;
        assert(chars@.skip(0) =~= chars@);
        assert(out@ + process_text(c, chars@) =~= process_text(c, chars@));
        while pos < chars.len()
            invariant
                pos <= chars@.len(),
                c == self@,
                process_text(c, chars@) == out@ + process_text(c, chars@.skip(pos as int)),
            decreases chars@.len() - pos,
        {
            let white = is_whitespace(chars[pos]);
            let mut run: Vec<char> = Vec::new();
            run.push(chars[pos]);
            let mut end: usize = pos + 1;
            let mut more = end < chars.len();
            while more
                invariant
                    pos < end <= chars@.len(),
                    chars@.len() == chars.len(),
                    white == is_white(chars@[pos as int]),
                    run@ == chars@.subrange(pos as int, end as int),
                    forall|j: int| pos <= j < end ==> is_white(#[trigger] chars@[j]) == white,
                    more ==> end < chars@.len(),
                    !more ==> end == chars@.len() || is_white(chars@[end as int]) != white,
                decreases chars@.len() - end + if more { 1int } else { 0int },
            {
                if is_whitespace(chars[end]) == white {
                    run.push(chars[end]);
                    end = end + 1;
                    assert(run@ =~= chars@.subrange(pos as int, end as int));
                    more = end < chars.len();
                } else {
                    more = false;
                }
            }
            let ghost s = chars@.skip(pos as int);
            proof {
                let n = end - pos;
                assert forall|j: int| 0 <= j < n implies is_white(#[trigger] s[j]) == white by {
                    assert(s[j] == chars@[pos + j]);
                }
                if end < chars@.len() {
                    assert(s[n] == chars@[end as int]);
                }
                lemma_run_length(s, white, n);
                assert(s.take(n) =~= run@);
                assert(s.skip(n) =~= chars@.skip(end as int));
            }
            let ghost before = out@;
            if white {
                extend_chars(&mut out, &run);
            } else {
                let text = string_of(&run);
                let w = self.convert_word(&run, text.as_str());
                extend_chars(&mut out, &w);
            }
            assert(before + (out@.skip(before.len() as int) + process_text(c, chars@.skip(end as int)))
                =~= out@ + process_text(c, chars@.skip(end as int)));
            pos = end;
        }
        assert(out@ + process_text(c, chars@.skip(pos as int)) =~= out@);
        Ok(string_of(&out))
    }

    /// The two-letter replacement that a digraph exception gives for `character` in
    /// `word`, if one applies: `word` is lower-cased and each family whose spellings
    /// hold `character` is searched for a word part that occurs in it. This does not
    /// fail.
    pub fn digraph_exception(word: &[char], character: &[char], latinize: bool) -> (r: Result<
        Option<Character>,
        Error,
    >)
        ensures
            r matches Ok(found) && match digraph_exception_of(
                encode_utf8(lowercase_word(word@)),
                character@,
                latinize,
            ) {
                Some(g) => found matches Some(x) && x.value@ == glyph_value(g) && x.case == g.2,
                None => found is None,
            },
    {
        let lowered = lowercase_utf8(word);
        match Self::exception_in(&lowered, character, latinize) {
            Some(g) => Ok(Some(Character::from_glyph(g))),
            None => Ok(None),
        }
    }
}

/// Whether `v` stands in `w` from position `pos` on.
fn starts_with_at(w: &[char], pos: usize, v: &[char]) -> (r: bool)
    ensures
        r == starts_at(w@, pos as int, v@),
{
    if pos > w.len() || v.len() > w.len() - pos {
        return false;
    }
    let mut i: usize = 0;
    while i < v.len()
        invariant
            0 <= i <= v@.len(),
            w@.len() == w.len(),
            pos + v@.len() <= w@.len(),
            forall|j: int| 0 <= j < i ==> w@[pos + j] == v@[j],
        decreases v@.len() - i,
    {
        if w[pos + i] != v[i] {
            assert(w@.subrange(pos as int, pos + v@.len())[i as int] != v@[i as int]);
            return false;
        }
        i = i + 1;
    }
    assert(w@.subrange(pos as int, pos + v@.len()) =~= v@);
    true
}

/// Appends the characters of a table entry.
fn push_glyph(out: &mut Vec<char>, g: Glyph)
    ensures
        final(out)@ == old(out)@ + glyph_value(g),
{
    out.push(g.0);
    if g.1 != '\0' {
        out.push(g.1);
    }
    assert(final(out)@ =~= old(out)@ + glyph_value(g));
}

/// Appends characters.
fn extend_chars(out: &mut Vec<char>, more: &[char])
    ensures
        final(out)@ == old(out)@ + more@,
{
    let ghost start = out@;
    let mut i: usize = 0;
    while i < more.len()
        invariant
            0 <= i <= more@.len(),
            out@ == start + more@.take(i as int),
        decreases more@.len() - i,
    {
        out.push(more[i]);
        i = i + 1;
        assert(out@ =~= start + more@.take(i as int));
    }
    assert(more@.take(i as int) =~= more@);
}

/// Which characters of `w` are letters, and which are upper case.
fn classify(w: &[char]) -> (r: (Vec<bool>, Vec<bool>))
    ensures
        r.0@ == letters_of(w@),
        r.1@ == capitals_of(w@),
{
    let mut letters: Vec<bool> = Vec::new();
    let mut capitals: Vec<bool> = Vec::new();
    let mut i: usize = 0;
    while i < w.len()
        invariant
            0 <= i <= w@.len(),
            letters@ == letters_of(w@).take(i as int),
            capitals@ == capitals_of(w@).take(i as int),
        decreases w@.len() - i,
    {
        letters.push(is_alphabetic(w[i]));
        capitals.push(is_uppercase(w[i]));
        i = i + 1;
        assert(letters@ =~= letters_of(w@).take(i as int));
        assert(capitals@ =~= capitals_of(w@).take(i as int));
    }
    assert(letters@ =~= letters_of(w@));
    assert(capitals@ =~= capitals_of(w@));
    (letters, capitals)
}

impl Default for Transliterator {
    /// Latin to Cyrillic, with exceptions checked and nothing forced.
    fn default() -> (r: Self)
        ensures
            r@.built_from(Charset::Latin, Charset::Cyrillic, false, false, false),
    {
        Self::new(Charset::Latin, Charset::Cyrillic, false, false, false)
    }
}

} // verus!
