//! Properties of the engine that hold for every input.
use vstd::prelude::*;

use vstd::utf8::encode_utf8;

use crate::charmaps::{
    family_cyrillic, family_latin, family_latinized, family_words, glyph_value, Case, Glyph,
    CYRILLIC_CLEAN, LATIN_DIRTY,
    CYRILLIC_DIRTY, DJ_CYRILLIC, DJ_LATINIZED, DZ_CYRILLIC, DZ_LATINIZED, EMPTY, LATIN_CLEAN,
    LATIN_CLEAN_UNICODE, LATIN_DIRTY_UNICODE, NJ_CYRILLIC, NJ_LATINIZED,
};
use crate::foreign::matched_by;
use crate::transliterate::{
    capitals_of, digraph_exception_of, exception_from, fires, index_from, letters_of,
    lemma_run_length, pick, process_text, run_length, scan, starts_at, tables, word_output,
    word_result, Charset, Config,
};
use crate::unicode::{is_white, lowercase_word};

verus! {

/// For every pair of scripts, the source table and the destination table have the
/// same length.
pub proof fn lemma_tables_aligned(from: Charset, into: Charset)
    ensures
        tables(from, into).0.len() == tables(from, into).1.len(),
{
}

/// With an empty source table, a scan gives back the rest of the word or gives up.
proof fn lemma_scan_empty_table(
    c: Config,
    w: Seq<char>,
    lowered: Seq<u8>,
    alphabetic: Seq<bool>,
    uppercase: Seq<bool>,
    forced: bool,
    pos: int,
)
    requires
        c.from.len() == 0,
        0 <= pos,
    ensures
        match scan(c, w, lowered, alphabetic, uppercase, forced, pos) {
            Some(out) => pos < w.len() ==> out == w.subrange(pos, w.len() as int),
            None => true,
        },
    decreases w.len() - pos,
{
    if pos < w.len() {
        assert(pick(c, w, lowered, uppercase, pos, 0) is None);
        lemma_scan_empty_table(c, w, lowered, alphabetic, uppercase, forced, pos + 1);
        if pos + 1 == w.len() {
            assert(scan(c, w, lowered, alphabetic, uppercase, forced, pos + 1) == Some(
                Seq::<char>::empty(),
            ));
        }
        match scan(c, w, lowered, alphabetic, uppercase, forced, pos) {
            Some(out) => {
                assert(out =~= w.subrange(pos, w.len() as int));
            },
            None => {},
        }
    }
}

/// Every character of the run that `run_length` measures is of its kind, and the
/// character after it is not.
proof fn lemma_run_facts(s: Seq<char>, white: bool)
    ensures
        run_length(s, white) <= s.len(),
        forall|j: int| 0 <= j < run_length(s, white) ==> is_white(#[trigger] s[j]) == white,
        run_length(s, white) < s.len() ==> is_white(s[run_length(s, white) as int]) != white,
    decreases s.len(),
{
    if s.len() > 0 && is_white(s[0]) == white {
        let t = s.drop_first();
        lemma_run_facts(t, white);
        let n = run_length(s, white);
        assert(n == 1 + run_length(t, white));
        assert forall|j: int| 0 <= j < n implies is_white(#[trigger] s[j]) == white by {
            if j > 0 {
                assert(s[j] == t[j - 1]);
            }
        }
        if n < s.len() {
            assert(s[n as int] == t[n - 1]);
        }
    }
}

/// The first run of a text is not empty, every character of it is of its kind,
/// and the character after it is of the other kind.
proof fn lemma_first_run(s: Seq<char>)
    requires
        s.len() > 0,
    ensures
        1 <= run_length(s, is_white(s[0])) <= s.len(),
        forall|j: int|
            0 <= j < run_length(s, is_white(s[0])) ==> is_white(#[trigger] s[j]) == is_white(
                s[0],
            ),
        run_length(s, is_white(s[0])) < s.len() ==> is_white(s[run_length(s, is_white(s[0])) as int])
            != is_white(s[0]),
{
    lemma_run_facts(s, is_white(s[0]));
}

/// Converting a text from a script to the same script gives the text back, whatever
/// the flags.
pub proof fn lemma_same_script_identity(
    c: Config,
    x: Charset,
    skip_digraph: bool,
    force_foreign: bool,
    force_links: bool,
    s: Seq<char>,
)
    requires
        c.built_from(x, x, skip_digraph, force_foreign, force_links),
    ensures
        process_text(c, s) == s,
    decreases s.len(),
{
    if s.len() > 0 {
        let white = is_white(s[0]);
        lemma_first_run(s);
        let n = run_length(s, white);
        let run = s.take(n as int);
        if !white {
            let w = run;
            let lowered = encode_utf8(lowercase_word(w));
            let letters = letters_of(w);
            let capitals = capitals_of(w);
            let foreign = matched_by(c.patterns, w);
            lemma_scan_empty_table(c, w, lowered, letters, capitals, foreign, 0);
            assert(w.subrange(0, w.len() as int) =~= w);
            assert(word_result(c, w) == w);
        }
        lemma_same_script_identity(c, x, skip_digraph, force_foreign, force_links, s.skip(n as int));
        assert(run + s.skip(n as int) =~= s);
    }
}

/// The whitespace runs of `s`, in order.
pub open spec fn white_runs(s: Seq<char>) -> Seq<Seq<char>>
    decreases s.len(),
{
    if s.len() == 0 {
        seq![]
    } else {
        let white = is_white(s[0]);
        let n = run_length(s, white);
        if n == 0 || n > s.len() {
            seq![]
        } else if white {
            seq![s.take(n as int)] + white_runs(s.skip(n as int))
        } else {
            white_runs(s.skip(n as int))
        }
    }
}

/// Whether no character of `s` is whitespace.
pub open spec fn no_white(s: Seq<char>) -> bool {
    forall|j: int| 0 <= j < s.len() ==> !is_white(#[trigger] s[j])
}

/// Whether a table entry holds no whitespace.
pub open spec fn glyph_clear(g: Glyph) -> bool {
    !is_white(g.0) && !is_white(g.1)
}

/// Whether the first `i` entries of `t` hold no whitespace.
pub open spec fn clear_upto(t: Seq<Glyph>, i: nat) -> bool
    decreases i,
{
    if i == 0 {
        true
    } else {
        glyph_clear(t[i - 1]) && clear_upto(t, (i - 1) as nat)
    }
}

/// Whether no entry of `t` holds whitespace.
pub open spec fn table_clear(t: Seq<Glyph>) -> bool {
    forall|j: int| 0 <= j < t.len() ==> glyph_clear(#[trigger] t[j])
}

proof fn lemma_clear_upto(t: Seq<Glyph>, i: nat)
    requires
        clear_upto(t, i),
        i <= t.len(),
    ensures
        forall|j: int| 0 <= j < i ==> glyph_clear(#[trigger] t[j]),
    decreases i,
{
    if i > 0 {
        lemma_clear_upto(t, (i - 1) as nat);
    }
}

proof fn lemma_clear_latin_clean()
    ensures
        table_clear(LATIN_CLEAN@),
{
    reveal_with_fuel(clear_upto, 64);
    assert(clear_upto(LATIN_CLEAN@, 63));
    lemma_clear_upto(LATIN_CLEAN@, 63);
}

proof fn lemma_clear_latin_clean_unicode()
    ensures
        table_clear(LATIN_CLEAN_UNICODE@),
{
    reveal_with_fuel(clear_upto, 64);
    assert(clear_upto(LATIN_CLEAN_UNICODE@, 63));
    lemma_clear_upto(LATIN_CLEAN_UNICODE@, 63);
}

proof fn lemma_clear_cyrillic_clean()
    ensures
        table_clear(CYRILLIC_CLEAN@),
{
    reveal_with_fuel(clear_upto, 64);
    assert(clear_upto(CYRILLIC_CLEAN@, 63));
    lemma_clear_upto(CYRILLIC_CLEAN@, 63);
}

proof fn lemma_clear_latin_dirty_unicode()
    ensures
        table_clear(LATIN_DIRTY_UNICODE@),
{
    reveal_with_fuel(clear_upto, 94);
    assert(clear_upto(LATIN_DIRTY_UNICODE@, 93));
    lemma_clear_upto(LATIN_DIRTY_UNICODE@, 93);
}

proof fn lemma_clear_cyrillic_dirty()
    ensures
        table_clear(CYRILLIC_DIRTY@),
{
    reveal_with_fuel(clear_upto, 94);
    assert(clear_upto(CYRILLIC_DIRTY@, 93));
    lemma_clear_upto(CYRILLIC_DIRTY@, 93);
}

proof fn lemma_clear_dj_latinized()
    ensures
        table_clear(DJ_LATINIZED@),
{
    reveal_with_fuel(clear_upto, 7);
    assert(clear_upto(DJ_LATINIZED@, 6));
    lemma_clear_upto(DJ_LATINIZED@, 6);
}

proof fn lemma_clear_dj_cyrillic()
    ensures
        table_clear(DJ_CYRILLIC@),
{
    reveal_with_fuel(clear_upto, 7);
    assert(clear_upto(DJ_CYRILLIC@, 6));
    lemma_clear_upto(DJ_CYRILLIC@, 6);
}

proof fn lemma_clear_dz_latinized()
    ensures
        table_clear(DZ_LATINIZED@),
{
    reveal_with_fuel(clear_upto, 9);
    assert(clear_upto(DZ_LATINIZED@, 8));
    lemma_clear_upto(DZ_LATINIZED@, 8);
}

proof fn lemma_clear_dz_cyrillic()
    ensures
        table_clear(DZ_CYRILLIC@),
{
    reveal_with_fuel(clear_upto, 9);
    assert(clear_upto(DZ_CYRILLIC@, 8));
    lemma_clear_upto(DZ_CYRILLIC@, 8);
}

proof fn lemma_clear_nj_latinized()
    ensures
        table_clear(NJ_LATINIZED@),
{
    reveal_with_fuel(clear_upto, 7);
    assert(clear_upto(NJ_LATINIZED@, 6));
    lemma_clear_upto(NJ_LATINIZED@, 6);
}

proof fn lemma_clear_nj_cyrillic()
    ensures
        table_clear(NJ_CYRILLIC@),
{
    reveal_with_fuel(clear_upto, 7);
    assert(clear_upto(NJ_CYRILLIC@, 6));
    lemma_clear_upto(NJ_CYRILLIC@, 6);
}

/// No entry of a destination table or of a digraph replacement holds whitespace.
proof fn lemma_tables_clear()
    ensures
        table_clear(LATIN_CLEAN@),
        table_clear(LATIN_CLEAN_UNICODE@),
        table_clear(CYRILLIC_CLEAN@),
        table_clear(LATIN_DIRTY_UNICODE@),
        table_clear(CYRILLIC_DIRTY@),
        table_clear(EMPTY@),
        forall|k: int| 0 <= k < 3 ==> table_clear(#[trigger] family_latinized(k)),
        forall|k: int| 0 <= k < 3 ==> table_clear(#[trigger] family_cyrillic(k)),
{
    lemma_clear_latin_clean();
    lemma_clear_latin_clean_unicode();
    lemma_clear_cyrillic_clean();
    lemma_clear_latin_dirty_unicode();
    lemma_clear_cyrillic_dirty();
    lemma_clear_dj_latinized();
    lemma_clear_dj_cyrillic();
    lemma_clear_dz_latinized();
    lemma_clear_dz_cyrillic();
    lemma_clear_nj_latinized();
    lemma_clear_nj_cyrillic();
}

/// An index that `index_from` finds lies in the table.
proof fn lemma_index_from_in_range(t: Seq<Glyph>, cand: Seq<char>, i: int)
    ensures
        index_from(t, cand, i) matches Some(j) ==> 0 <= j < t.len(),
    decreases t.len() - i,
{
    if 0 <= i < t.len() && glyph_value(t[i]) != cand {
        lemma_index_from_in_range(t, cand, i + 1);
    }
}

/// A digraph replacement holds no whitespace.
proof fn lemma_exception_clear(lowered: Seq<u8>, cand: Seq<char>, latinize: bool, k: int)
    requires
        0 <= k,
    ensures
        exception_from(lowered, cand, latinize, k) matches Some(g) ==> glyph_clear(g),
    decreases 3 - k,
{
    lemma_tables_clear();
    if k < 3 {
        lemma_index_from_in_range(family_latin(k), cand, 0);
        assert(family_latin(k).len() == family_latinized(k).len());
        assert(family_latin(k).len() == family_cyrillic(k).len());
        lemma_exception_clear(lowered, cand, latinize, k + 1);
    }
}

/// What the scanner picks holds no whitespace.
proof fn lemma_pick_clear(
    c: Config,
    w: Seq<char>,
    lowered: Seq<u8>,
    uppercase: Seq<bool>,
    pos: int,
    i: int,
)
    requires
        table_clear(c.into),
        i <= c.into.len(),
    ensures
        pick(c, w, lowered, uppercase, pos, i) matches Some((g, adv)) ==> glyph_clear(g),
    decreases i,
{
    if i > 0 {
        lemma_exception_clear(lowered, glyph_value(c.from[i - 1]), c.latinize, 0);
        lemma_pick_clear(c, w, lowered, uppercase, pos, i - 1);
    }
}

/// A scan of a word without whitespace gives a non-empty output without whitespace.
proof fn lemma_scan_clear(
    c: Config,
    w: Seq<char>,
    lowered: Seq<u8>,
    alphabetic: Seq<bool>,
    uppercase: Seq<bool>,
    forced: bool,
    pos: int,
)
    requires
        table_clear(c.into),
        c.from.len() == c.into.len(),
        no_white(w),
        0 <= pos,
    ensures
        scan(c, w, lowered, alphabetic, uppercase, forced, pos) matches Some(out) ==> no_white(out)
            && (pos < w.len() ==> out.len() > 0),
    decreases w.len() - pos,
{
    if pos < w.len() {
        lemma_pick_clear(c, w, lowered, uppercase, pos, c.from.len() as int);
        lemma_scan_clear(c, w, lowered, alphabetic, uppercase, forced, pos + 1);
        match pick(c, w, lowered, uppercase, pos, c.from.len() as int) {
            Some((g, adv)) => {
                if adv > 0 && pos + adv < w.len() {
                    lemma_scan_clear(c, w, lowered, alphabetic, uppercase, forced, pos + adv);
                }
                match scan(c, w, lowered, alphabetic, uppercase, forced, pos) {
                    Some(out) => {
                        assert forall|j: int| 0 <= j < out.len() implies !is_white(
                            #[trigger] out[j],
                        ) by {
                            if j >= glyph_value(g).len() {
                                let rest = scan(
                                    c,
                                    w,
                                    lowered,
                                    alphabetic,
                                    uppercase,
                                    forced,
                                    pos + adv,
                                )->Some_0;
                                assert(out[j] == rest[j - glyph_value(g).len()]);
                            }
                        }
                    },
                    None => {},
                }
            },
            None => {
                match scan(c, w, lowered, alphabetic, uppercase, forced, pos) {
                    Some(out) => {
                        let rest = scan(c, w, lowered, alphabetic, uppercase, forced, pos + 1)->Some_0;
                        assert forall|j: int| 0 <= j < out.len() implies !is_white(
                            #[trigger] out[j],
                        ) by {
                            if j >= 1 {
                                assert(out[j] == rest[j - 1]);
                            }
                        }
                    },
                    None => {},
                }
            },
        }
    }
}

/// The destination table of every pair of scripts holds no whitespace.
proof fn lemma_config_clear(c: Config, from: Charset, into: Charset, sd: bool, ff: bool, fl: bool)
    requires
        c.built_from(from, into, sd, ff, fl),
    ensures
        table_clear(c.into),
        c.from.len() == c.into.len(),
{
    lemma_tables_clear();
    lemma_tables_aligned(from, into);
}

/// A word without whitespace is transliterated to a non-empty word without whitespace.
proof fn lemma_word_clear(c: Config, from: Charset, into: Charset, sd: bool, ff: bool, fl: bool, w: Seq<char>)
    requires
        c.built_from(from, into, sd, ff, fl),
        no_white(w),
        w.len() > 0,
    ensures
        no_white(word_result(c, w)),
        word_result(c, w).len() > 0,
{
    lemma_config_clear(c, from, into, sd, ff, fl);
    let lowered = encode_utf8(lowercase_word(w));
    let foreign = matched_by(c.patterns, w);
    lemma_scan_clear(c, w, lowered, letters_of(w), capitals_of(w), foreign, 0);
}

/// A text whose first run is `x` and whose rest is `y` has the whitespace runs of `y`,
/// after `x` where `x` is whitespace.
proof fn lemma_white_runs_split(x: Seq<char>, y: Seq<char>, white: bool)
    requires
        x.len() > 0,
        forall|j: int| 0 <= j < x.len() ==> is_white(#[trigger] x[j]) == white,
        y.len() > 0 ==> is_white(y[0]) != white,
    ensures
        white_runs(x + y) == if white {
            seq![x] + white_runs(y)
        } else {
            white_runs(y)
        },
{
    let s = x + y;
    assert forall|j: int| 0 <= j < x.len() implies is_white(#[trigger] s[j]) == white by {
        assert(s[j] == x[j]);
    }
    if x.len() < s.len() {
        assert(s[x.len() as int] == y[0]);
    }
    lemma_run_length(s, white, x.len() as int);
    assert(s.take(x.len() as int) =~= x);
    assert(s.skip(x.len() as int) =~= y);
}

/// A transliterated text starts with a character of the kind its source starts with.
proof fn lemma_process_starts(c: Config, from: Charset, into: Charset, sd: bool, ff: bool, fl: bool, s: Seq<char>)
    requires
        c.built_from(from, into, sd, ff, fl),
        s.len() > 0,
    ensures
        process_text(c, s).len() > 0,
        is_white(process_text(c, s)[0]) == is_white(s[0]),
{
    lemma_first_run(s);
    let white = is_white(s[0]);
    let n = run_length(s, white);
    let run = s.take(n as int);
    if !white {
        assert forall|j: int| 0 <= j < run.len() implies !is_white(#[trigger] run[j]) by {
            assert(run[j] == s[j]);
        }
        lemma_word_clear(c, from, into, sd, ff, fl, run);
    }
}

/// Whitespace is kept: the whitespace runs of a transliterated text are those of its
/// source, in the same order and with the same characters.
pub proof fn lemma_whitespace_preserved(
    c: Config,
    from: Charset,
    into: Charset,
    skip_digraph: bool,
    force_foreign: bool,
    force_links: bool,
    s: Seq<char>,
)
    requires
        c.built_from(from, into, skip_digraph, force_foreign, force_links),
    ensures
        white_runs(process_text(c, s)) == white_runs(s),
    decreases s.len(),
{
    if s.len() > 0 {
        lemma_first_run(s);
        let white = is_white(s[0]);
        let n = run_length(s, white);
        let run = s.take(n as int);
        let rest = s.skip(n as int);
        let head = if white {
            run
        } else {
            word_result(c, run)
        };
        assert forall|j: int| 0 <= j < run.len() implies is_white(#[trigger] run[j]) == white by {
            assert(run[j] == s[j]);
        }
        if !white {
            lemma_word_clear(c, from, into, skip_digraph, force_foreign, force_links, run);
        }
        if rest.len() > 0 {
            assert(rest[0] == s[n as int]);
            lemma_process_starts(c, from, into, skip_digraph, force_foreign, force_links, rest);
        }
        lemma_whitespace_preserved(c, from, into, skip_digraph, force_foreign, force_links, rest);
        lemma_white_runs_split(head, process_text(c, rest), white);
    }
}


/// The Cyrillic letter of a one-character letter of the clean Latin table.
pub open spec fn cyrillic_letter(ch: char) -> Option<char> {
    match ch {
        'A' => Some('А'),
        'B' => Some('Б'),
        'V' => Some('В'),
        'G' => Some('Г'),
        'D' => Some('Д'),
        'Đ' => Some('Ђ'),
        'E' => Some('Е'),
        'Ž' => Some('Ж'),
        'Z' => Some('З'),
        'I' => Some('И'),
        'J' => Some('Ј'),
        'K' => Some('К'),
        'L' => Some('Л'),
        'M' => Some('М'),
        'N' => Some('Н'),
        'O' => Some('О'),
        'P' => Some('П'),
        'R' => Some('Р'),
        'S' => Some('С'),
        'T' => Some('Т'),
        'Ć' => Some('Ћ'),
        'U' => Some('У'),
        'F' => Some('Ф'),
        'H' => Some('Х'),
        'C' => Some('Ц'),
        'Č' => Some('Ч'),
        'Š' => Some('Ш'),
        'a' => Some('а'),
        'b' => Some('б'),
        'v' => Some('в'),
        'g' => Some('г'),
        'd' => Some('д'),
        'đ' => Some('ђ'),
        'e' => Some('е'),
        'ž' => Some('ж'),
        'z' => Some('з'),
        'i' => Some('и'),
        'j' => Some('ј'),
        'k' => Some('к'),
        'l' => Some('л'),
        'm' => Some('м'),
        'n' => Some('н'),
        'o' => Some('о'),
        'p' => Some('п'),
        'r' => Some('р'),
        's' => Some('с'),
        't' => Some('т'),
        'ć' => Some('ћ'),
        'u' => Some('у'),
        'f' => Some('ф'),
        'h' => Some('х'),
        'c' => Some('ц'),
        'č' => Some('ч'),
        'š' => Some('ш'),
        _ => None,
    }
}

/// The Latin letter of a Cyrillic letter that has a one-character Latin spelling.
pub open spec fn latin_letter(cy: char) -> Option<char> {
    match cy {
        'А' => Some('A'),
        'Б' => Some('B'),
        'В' => Some('V'),
        'Г' => Some('G'),
        'Д' => Some('D'),
        'Ђ' => Some('Đ'),
        'Е' => Some('E'),
        'Ж' => Some('Ž'),
        'З' => Some('Z'),
        'И' => Some('I'),
        'Ј' => Some('J'),
        'К' => Some('K'),
        'Л' => Some('L'),
        'М' => Some('M'),
        'Н' => Some('N'),
        'О' => Some('O'),
        'П' => Some('P'),
        'Р' => Some('R'),
        'С' => Some('S'),
        'Т' => Some('T'),
        'Ћ' => Some('Ć'),
        'У' => Some('U'),
        'Ф' => Some('F'),
        'Х' => Some('H'),
        'Ц' => Some('C'),
        'Ч' => Some('Č'),
        'Ш' => Some('Š'),
        'а' => Some('a'),
        'б' => Some('b'),
        'в' => Some('v'),
        'г' => Some('g'),
        'д' => Some('d'),
        'ђ' => Some('đ'),
        'е' => Some('e'),
        'ж' => Some('ž'),
        'з' => Some('z'),
        'и' => Some('i'),
        'ј' => Some('j'),
        'к' => Some('k'),
        'л' => Some('l'),
        'м' => Some('m'),
        'н' => Some('n'),
        'о' => Some('o'),
        'п' => Some('p'),
        'р' => Some('r'),
        'с' => Some('s'),
        'т' => Some('t'),
        'ћ' => Some('ć'),
        'у' => Some('u'),
        'ф' => Some('f'),
        'х' => Some('h'),
        'ц' => Some('c'),
        'ч' => Some('č'),
        'ш' => Some('š'),
        _ => None,
    }
}

/// An index of the dirty Latin table that holds the letter `ch` alone.
spec fn latin_index(ch: char) -> int {
    match ch {
        'A' => 0,
        'B' => 1,
        'V' => 2,
        'G' => 3,
        'D' => 4,
        'Đ' => 5,
        'E' => 9,
        'Ž' => 11,
        'Z' => 10,
        'I' => 13,
        'J' => 14,
        'K' => 15,
        'L' => 16,
        'M' => 21,
        'N' => 22,
        'O' => 27,
        'P' => 28,
        'R' => 29,
        'S' => 30,
        'T' => 31,
        'Ć' => 32,
        'U' => 34,
        'F' => 35,
        'H' => 36,
        'C' => 37,
        'Č' => 38,
        'Š' => 46,
        'a' => 48,
        'b' => 50,
        'v' => 51,
        'g' => 52,
        'd' => 53,
        'đ' => 54,
        'e' => 56,
        'ž' => 58,
        'z' => 57,
        'i' => 60,
        'j' => 62,
        'k' => 63,
        'l' => 64,
        'm' => 67,
        'n' => 68,
        'o' => 71,
        'p' => 73,
        'r' => 74,
        's' => 75,
        't' => 77,
        'ć' => 78,
        'u' => 80,
        'f' => 81,
        'h' => 84,
        'c' => 85,
        'č' => 86,
        'š' => 91,
        _ => 0,
    }
}

/// An index of the clean Cyrillic table that holds the letter `cy` alone.
spec fn cyrillic_index(cy: char) -> int {
    match cy {
        'А' => 0,
        'Б' => 1,
        'В' => 2,
        'Г' => 3,
        'Д' => 4,
        'Ђ' => 5,
        'Е' => 6,
        'Ж' => 7,
        'З' => 8,
        'И' => 9,
        'Ј' => 10,
        'К' => 11,
        'Л' => 12,
        'М' => 15,
        'Н' => 16,
        'О' => 19,
        'П' => 20,
        'Р' => 21,
        'С' => 22,
        'Т' => 23,
        'Ћ' => 24,
        'У' => 25,
        'Ф' => 26,
        'Х' => 27,
        'Ц' => 28,
        'Ч' => 29,
        'Ш' => 32,
        'а' => 33,
        'б' => 34,
        'в' => 35,
        'г' => 36,
        'д' => 37,
        'ђ' => 38,
        'е' => 39,
        'ж' => 40,
        'з' => 41,
        'и' => 42,
        'ј' => 43,
        'к' => 44,
        'л' => 45,
        'м' => 47,
        'н' => 48,
        'о' => 50,
        'п' => 51,
        'р' => 52,
        'с' => 53,
        'т' => 54,
        'ћ' => 55,
        'у' => 56,
        'ф' => 57,
        'х' => 58,
        'ц' => 59,
        'ч' => 60,
        'ш' => 62,
        _ => 0,
    }
}

/// Whether the table entries `g` and `h` at one index write the letter `g` stands
/// for as its counterpart under `f`, where it has one.
pub open spec fn entry_ok(g: Glyph, h: Glyph, f: spec_fn(char) -> Option<char>) -> bool {
    (g.1 == '\0' && f(g.0) is Some) ==> (g.2 != Case::Mixed && h.1 == '\0' && Some(h.0) == f(
        g.0,
    ))
}

/// Whether the first `i` entries of `from` and `into` are as `entry_ok` says.
pub open spec fn maps_upto(
    from: Seq<Glyph>,
    into: Seq<Glyph>,
    f: spec_fn(char) -> Option<char>,
    i: nat,
) -> bool
    decreases i,
{
    if i == 0 {
        true
    } else {
        entry_ok(from[i - 1], into[i - 1], f) && maps_upto(from, into, f, (i - 1) as nat)
    }
}

proof fn lemma_maps_upto(
    from: Seq<Glyph>,
    into: Seq<Glyph>,
    f: spec_fn(char) -> Option<char>,
    i: nat,
)
    requires
        maps_upto(from, into, f, i),
        i <= from.len(),
    ensures
        forall|j: int| 0 <= j < i ==> entry_ok(#[trigger] from[j], into[j], f),
    decreases i,
{
    if i > 0 {
        lemma_maps_upto(from, into, f, (i - 1) as nat);
    }
}

/// Whether the one-character entries among the first `i` of the clean Latin table
/// have a Cyrillic letter.
pub open spec fn clean_upto_letters(i: nat) -> bool
    decreases i,
{
    if i == 0 {
        true
    } else {
        (LATIN_CLEAN@[i - 1].1 != '\0' || cyrillic_letter(LATIN_CLEAN@[i - 1].0) is Some)
            && clean_upto_letters((i - 1) as nat)
    }
}

proof fn lemma_clean_upto_letters(i: nat)
    requires
        clean_upto_letters(i),
        i <= 63,
    ensures
        forall|j: int|
            0 <= j < i ==> (#[trigger] LATIN_CLEAN@[j]).1 != '\0' || cyrillic_letter(
                LATIN_CLEAN@[j].0,
            ) is Some,
    decreases i,
{
    if i > 0 {
        lemma_clean_upto_letters((i - 1) as nat);
    }
}

/// Every one-character letter of the clean Latin table has a Cyrillic letter.
#[verifier::rlimit(50)]
proof fn lemma_clean_letters()
    ensures
        forall|ch: char| clean_letter(ch) ==> #[trigger] cyrillic_letter(ch) is Some,
{
    assert(clean_upto_letters(63)) by {
        reveal_with_fuel(clean_upto_letters, 64);
    }
    lemma_clean_upto_letters(63);
    assert forall|ch: char| clean_letter(ch) implies #[trigger] cyrillic_letter(ch) is Some by {
        let k = choose|k: int|
            0 <= k < LATIN_CLEAN@.len() && #[trigger] LATIN_CLEAN@[k].0 == ch && LATIN_CLEAN@[k].1
                == '\0';
        assert(LATIN_CLEAN@[k].1 != '\0' || cyrillic_letter(LATIN_CLEAN@[k].0) is Some);
    }
}

/// Latin to Cyrillic writes each letter that has a Cyrillic letter as that letter.
#[verifier::rlimit(50)]
proof fn lemma_dirty_entries()
    ensures
        forall|j: int|
            0 <= j < LATIN_DIRTY@.len() ==> entry_ok(
                #[trigger] LATIN_DIRTY@[j],
                CYRILLIC_DIRTY@[j],
                |ch: char| cyrillic_letter(ch),
            ),
{
    assert(maps_upto(LATIN_DIRTY@, CYRILLIC_DIRTY@, |ch: char| cyrillic_letter(ch), 93)) by {
        reveal_with_fuel(maps_upto, 94);
    }
    lemma_maps_upto(LATIN_DIRTY@, CYRILLIC_DIRTY@, |ch: char| cyrillic_letter(ch), 93);
}

/// Cyrillic to Latin writes each letter that has a Latin letter as that letter.
#[verifier::rlimit(50)]
proof fn lemma_clean_entries()
    ensures
        forall|j: int|
            0 <= j < CYRILLIC_CLEAN@.len() ==> entry_ok(
                #[trigger] CYRILLIC_CLEAN@[j],
                LATIN_CLEAN@[j],
                |cy: char| latin_letter(cy),
            ),
{
    assert(maps_upto(CYRILLIC_CLEAN@, LATIN_CLEAN@, |cy: char| latin_letter(cy), 63)) by {
        reveal_with_fuel(maps_upto, 64);
    }
    lemma_maps_upto(CYRILLIC_CLEAN@, LATIN_CLEAN@, |cy: char| latin_letter(cy), 63);
}

/// The two letter maps are inverse, and each letter stands alone in its table.
#[verifier::rlimit(50)]
proof fn lemma_letter_indices()
    ensures
        forall|ch: char| #[trigger]
            cyrillic_letter(ch) matches Some(cy) ==> latin_letter(cy) == Some(ch),
        forall|ch: char| #[trigger]
            cyrillic_letter(ch) is Some ==> 0 <= latin_index(ch) < LATIN_DIRTY@.len()
                && LATIN_DIRTY@[latin_index(ch)].0 == ch && LATIN_DIRTY@[latin_index(ch)].1 == '\0',
        forall|cy: char| #[trigger]
            latin_letter(cy) is Some ==> 0 <= cyrillic_index(cy) < CYRILLIC_CLEAN@.len()
                && CYRILLIC_CLEAN@[cyrillic_index(cy)].0 == cy && CYRILLIC_CLEAN@[cyrillic_index(
                cy,
            )].1 == '\0',
{
}

/// Whether the table `t` reads the neighbours `a` and `b` as one grapheme.
pub open spec fn reads_as_digraph(t: Seq<Glyph>, a: char, b: char) -> bool {
    exists|i: int| 0 <= i < t.len() && t[i].0 == a && t[i].1 == b && b != '\0'
}

/// Whether `ch` is a one-character grapheme of the clean Latin table.
pub open spec fn clean_letter(ch: char) -> bool {
    exists|k: int|
        0 <= k < LATIN_CLEAN@.len() && #[trigger] LATIN_CLEAN@[k].0 == ch && LATIN_CLEAN@[k].1
            == '\0'
}

/// Whether the first `i` entries of `t` are one-character graphemes.
pub open spec fn single_upto(t: Seq<Glyph>, i: nat) -> bool
    decreases i,
{
    if i == 0 {
        true
    } else {
        t[i - 1].1 == '\0' && single_upto(t, (i - 1) as nat)
    }
}

proof fn lemma_single_upto(t: Seq<Glyph>, i: nat)
    requires
        single_upto(t, i),
        i <= t.len(),
    ensures
        forall|j: int| 0 <= j < i ==> (#[trigger] t[j]).1 == '\0',
    decreases i,
{
    if i > 0 {
        lemma_single_upto(t, (i - 1) as nat);
    }
}

/// The clean Cyrillic table has no two-character graphemes.
proof fn lemma_cyrillic_single()
    ensures
        forall|j: int| 0 <= j < CYRILLIC_CLEAN@.len() ==> (#[trigger] CYRILLIC_CLEAN@[j]).1 == '\0',
{
    reveal_with_fuel(single_upto, 64);
    assert(single_upto(CYRILLIC_CLEAN@, 63));
    lemma_single_upto(CYRILLIC_CLEAN@, 63);
}

/// Where no family finds its word parts, no digraph exception applies.
proof fn lemma_no_exception(lowered: Seq<u8>, cand: Seq<char>, latinize: bool, k: int)
    requires
        forall|f: int| 0 <= f < 3 ==> !fires(#[trigger] family_words(f), lowered),
        0 <= k,
    ensures
        exception_from(lowered, cand, latinize, k) is None,
    decreases 3 - k,
{
    if k < 3 {
        lemma_no_exception(lowered, cand, latinize, k + 1);
    }
}

/// Whether the scanner, picking `r`, takes one character and writes `ch`.
pub open spec fn writes_one(r: Option<(Glyph, int)>, ch: char) -> bool {
    r matches Some((g, adv)) && adv == 1 && g.0 == ch && g.1 == '\0'
}

/// Where the character at `pos` is no part of a digraph, no exception applies and
/// the table holds it alone at index `x`, the scanner writes its counterpart under `f`.
proof fn lemma_pick_one(
    c: Config,
    w: Seq<char>,
    lowered: Seq<u8>,
    uppercase: Seq<bool>,
    pos: int,
    i: int,
    f: spec_fn(char) -> Option<char>,
    x: int,
)
    requires
        0 <= pos < w.len(),
        0 <= x < i <= c.from.len(),
        c.from[x].0 == w[pos] && c.from[x].1 == '\0',
        f(w[pos]) is Some,
        forall|y: int| 0 <= y < c.from.len() ==> entry_ok(#[trigger] c.from[y], c.into[y], f),
        pos + 1 < w.len() ==> !reads_as_digraph(c.from, w[pos], w[pos + 1]),
        !c.checks_exceptions() || digraph_exception_of(lowered, seq![w[pos]], c.latinize) is None,
    ensures
        writes_one(pick(c, w, lowered, uppercase, pos, i), f(w[pos])->Some_0),
    decreases i,
{
    let g = c.from[i - 1];
    if g.0 == w[pos] && g.1 == '\0' {
        assert(glyph_value(g) =~= seq![w[pos]]);
        assert(w.subrange(pos, pos + 1) =~= glyph_value(g));
        assert(entry_ok(c.from[i - 1], c.into[i - 1], f));
    } else {
        if starts_at(w, pos, glyph_value(g)) {
            if g.1 == '\0' {
                assert(w.subrange(pos, pos + 1)[0] == glyph_value(g)[0]);
            } else {
                assert(w.subrange(pos, pos + 2)[0] == glyph_value(g)[0]);
                assert(w.subrange(pos, pos + 2)[1] == glyph_value(g)[1]);
                assert(c.from[i - 1].0 == w[pos] && c.from[i - 1].1 == w[pos + 1]);
            }
        }
        lemma_pick_one(c, w, lowered, uppercase, pos, i - 1, f, x);
    }
}

/// Where the scanner takes one character at a time and writes `f` of it, a scan
/// writes `f` of each character.
proof fn lemma_scan_letters(
    c: Config,
    w: Seq<char>,
    lowered: Seq<u8>,
    alphabetic: Seq<bool>,
    uppercase: Seq<bool>,
    forced: bool,
    pos: int,
    f: spec_fn(char) -> char,
)
    requires
        0 <= pos <= w.len(),
        forall|p: int|
            pos <= p < w.len() ==> writes_one(
                #[trigger] pick(c, w, lowered, uppercase, p, c.from.len() as int),
                f(w[p]),
            ),
    ensures
        scan(c, w, lowered, alphabetic, uppercase, forced, pos) == Some(w.skip(pos).map_values(f)),
    decreases w.len() - pos,
{
    if pos < w.len() {
        let g = pick(c, w, lowered, uppercase, pos, c.from.len() as int)->Some_0.0;
        assert(glyph_value(g) =~= seq![f(w[pos])]);
        if pos + 1 < w.len() {
            lemma_scan_letters(c, w, lowered, alphabetic, uppercase, forced, pos + 1, f);
        }
        assert(w.skip(pos).map_values(f) =~= seq![f(w[pos])] + w.skip(pos + 1).map_values(f));
        if pos + 1 == w.len() {
            assert(w.skip(pos + 1).map_values(f) =~= Seq::<char>::empty());
        }
    } else {
        assert(w.skip(pos).map_values(f) =~= Seq::<char>::empty());
    }
}

/// The Cyrillic letter of a letter that has one.
pub open spec fn cyrillic_of(ch: char) -> char {
    cyrillic_letter(ch)->Some_0
}

/// The Latin letter of a letter that has one.
pub open spec fn latin_of(cy: char) -> char {
    latin_letter(cy)->Some_0
}

/// Latin to Cyrillic writes a word of clean letters, no two of which spell a digraph
/// and in which no exception applies, letter by letter.
#[verifier::rlimit(50)]
proof fn lemma_word_to_cyrillic(
    lc: Config,
    w: Seq<char>,
    lowered: Seq<u8>,
    alphabetic: Seq<bool>,
    uppercase: Seq<bool>,
)
    requires
        lc.built_from(Charset::Latin, Charset::Cyrillic, false, false, false),
        forall|i: int| 0 <= i < w.len() ==> clean_letter(#[trigger] w[i]),
        forall|i: int|
            0 <= i < w.len() - 1 ==> !reads_as_digraph(LATIN_DIRTY@, #[trigger] w[i], w[i + 1]),
        forall|k: int| 0 <= k < 3 ==> !fires(#[trigger] family_words(k), lowered),
    ensures
        word_output(lc, w, lowered, alphabetic, uppercase, false) == w.map_values(
            |ch: char| cyrillic_of(ch),
        ),
{
    lemma_clean_letters();
    lemma_dirty_entries();
    lemma_letter_indices();
    assert forall|p: int| 0 <= p < w.len() implies writes_one(
        #[trigger] pick(lc, w, lowered, uppercase, p, lc.from.len() as int),
        cyrillic_of(w[p]),
    ) by {
        assert(clean_letter(w[p]));
        lemma_no_exception(lowered, seq![w[p]], lc.latinize, 0);
        lemma_pick_one(
            lc,
            w,
            lowered,
            uppercase,
            p,
            93,
            |ch: char| cyrillic_letter(ch),
            latin_index(w[p]),
        );
    }
    lemma_scan_letters(lc, w, lowered, alphabetic, uppercase, false, 0, |ch: char| cyrillic_of(ch));
    assert(w.skip(0) =~= w);
}

/// Cyrillic to Latin writes a word of letters that have Latin letters letter by letter.
#[verifier::rlimit(50)]
proof fn lemma_word_to_latin(
    cl: Config,
    w: Seq<char>,
    lowered: Seq<u8>,
    alphabetic: Seq<bool>,
    uppercase: Seq<bool>,
)
    requires
        cl.built_from(Charset::Cyrillic, Charset::Latin, false, false, false),
        forall|i: int| 0 <= i < w.len() ==> #[trigger] latin_letter(w[i]) is Some,
    ensures
        word_output(cl, w, lowered, alphabetic, uppercase, false) == w.map_values(
            |cy: char| latin_of(cy),
        ),
{
    lemma_clean_entries();
    lemma_letter_indices();
    lemma_cyrillic_single();
    assert forall|p: int| 0 <= p < w.len() implies writes_one(
        #[trigger] pick(cl, w, lowered, uppercase, p, cl.from.len() as int),
        latin_of(w[p]),
    ) by {
        assert(latin_letter(w[p]) is Some);
        if p + 1 < w.len() {
            if reads_as_digraph(CYRILLIC_CLEAN@, w[p], w[p + 1]) {
                let i = choose|i: int|
                    0 <= i < CYRILLIC_CLEAN@.len() && CYRILLIC_CLEAN@[i].0 == w[p]
                        && CYRILLIC_CLEAN@[i].1 == w[p + 1] && w[p + 1] != '\0';
                assert(CYRILLIC_CLEAN@[i].1 == '\0');
            }
        }
        lemma_pick_one(
            cl,
            w,
            lowered,
            uppercase,
            p,
            63,
            |cy: char| latin_letter(cy),
            cyrillic_index(w[p]),
        );
    }
    lemma_scan_letters(cl, w, lowered, alphabetic, uppercase, false, 0, |cy: char| latin_of(cy));
    assert(w.skip(0) =~= w);
}

/// Whether the word `w` is made of one-character letters of the clean Latin table, no
/// two neighbours of which spell a digraph, with no digraph exception found in its
/// lower-case form, and neither it nor its Cyrillic spelling matched as foreign
/// content by the patterns of `lc` and `cl`.
pub open spec fn trip_word(lc: Config, cl: Config, w: Seq<char>) -> bool {
    &&& forall|i: int| 0 <= i < w.len() ==> clean_letter(#[trigger] w[i])
    &&& forall|i: int|
        0 <= i < w.len() - 1 ==> !reads_as_digraph(LATIN_DIRTY@, #[trigger] w[i], w[i + 1])
    &&& forall|k: int|
        0 <= k < 3 ==> !fires(#[trigger] family_words(k), encode_utf8(lowercase_word(w)))
    &&& !matched_by(lc.patterns, w)
    &&& !matched_by(cl.patterns, w.map_values(|ch: char| cyrillic_of(ch)))
}

/// Whether every word of `s`, that is every maximal run of characters that are not
/// whitespace, is as `trip_word` says.
pub open spec fn trip_text(lc: Config, cl: Config, s: Seq<char>) -> bool
    decreases s.len(),
{
    if s.len() == 0 {
        true
    } else {
        let white = is_white(s[0]);
        let n = run_length(s, white);
        if n == 0 || n > s.len() {
            true
        } else {
            (white || trip_word(lc, cl, s.take(n as int))) && trip_text(lc, cl, s.skip(n as int))
        }
    }
}

/// A text whose first run is `x` and whose rest `y` starts with the other kind of
/// character is transliterated as `x` followed by the rest.
proof fn lemma_process_split(c: Config, x: Seq<char>, y: Seq<char>, white: bool)
    requires
        x.len() > 0,
        forall|j: int| 0 <= j < x.len() ==> is_white(#[trigger] x[j]) == white,
        y.len() > 0 ==> is_white(y[0]) != white,
    ensures
        process_text(c, x + y) == (if white {
            x
        } else {
            word_result(c, x)
        }) + process_text(c, y),
{
    let s = x + y;
    assert forall|j: int| 0 <= j < x.len() implies is_white(#[trigger] s[j]) == white by {
        assert(s[j] == x[j]);
    }
    if x.len() < s.len() {
        assert(s[x.len() as int] == y[0]);
    }
    lemma_run_length(s, white, x.len() as int);
    assert(s.take(x.len() as int) =~= x);
    assert(s.skip(x.len() as int) =~= y);
}

/// A text whose words are made of clean Latin letters, no two neighbours of which spell
/// a digraph and in which no digraph exception applies, goes to Cyrillic and back
/// unchanged with the default flags, where none of its words nor of their Cyrillic
/// spellings is matched as foreign content.
pub proof fn lemma_round_trip(lc: Config, cl: Config, s: Seq<char>)
    requires
        lc.built_from(Charset::Latin, Charset::Cyrillic, false, false, false),
        cl.built_from(Charset::Cyrillic, Charset::Latin, false, false, false),
        trip_text(lc, cl, s),
    ensures
        process_text(cl, process_text(lc, s)) == s,
    decreases s.len(),
{
    if s.len() > 0 {
        lemma_first_run(s);
        let white = is_white(s[0]);
        let n = run_length(s, white);
        let run = s.take(n as int);
        let rest = s.skip(n as int);
        assert forall|j: int| 0 <= j < run.len() implies is_white(#[trigger] run[j]) == white by {
            assert(run[j] == s[j]);
        }
        let head = if white {
            run
        } else {
            word_result(lc, run)
        };
        if !white {
            lemma_word_clear(lc, Charset::Latin, Charset::Cyrillic, false, false, false, run);
            lemma_word_to_cyrillic(
                lc,
                run,
                encode_utf8(lowercase_word(run)),
                letters_of(run),
                capitals_of(run),
            );
            let mid = run.map_values(|ch: char| cyrillic_of(ch));
            assert(head == mid);
            lemma_clean_letters();
            lemma_letter_indices();
            assert forall|i: int| 0 <= i < mid.len() implies #[trigger] latin_letter(mid[i]) is Some by {
                assert(clean_letter(run[i]));
            }
            lemma_word_to_latin(
                cl,
                mid,
                encode_utf8(lowercase_word(mid)),
                letters_of(mid),
                capitals_of(mid),
            );
            let back = mid.map_values(|cy: char| latin_of(cy));
            assert forall|p: int| 0 <= p < run.len() implies #[trigger] back[p] == run[p] by {
                assert(clean_letter(run[p]));
            }
            assert(back =~= run);
            assert(word_result(cl, head) == run);
        }
        assert forall|j: int| 0 <= j < head.len() implies is_white(#[trigger] head[j]) == white by {
            if !white {
                assert(no_white(head));
            }
        }
        if rest.len() > 0 {
            assert(rest[0] == s[n as int]);
            lemma_process_starts(lc, Charset::Latin, Charset::Cyrillic, false, false, false, rest);
        }
        lemma_round_trip(lc, cl, rest);
        lemma_process_split(cl, head, process_text(lc, rest), white);
        assert(run + rest =~= s);
    }
}

/// A capitalised digraph (`Lj`, `ǈ`, `Љ`) that stands at `pos` and for which no
/// exception applies is passed over where an upper-case letter follows it, and the
/// scanner goes on to the lower entries; otherwise it is written as its counterpart.
pub proof fn lemma_capitalization_guard(
    c: Config,
    w: Seq<char>,
    lowered: Seq<u8>,
    uppercase: Seq<bool>,
    pos: int,
    i: int,
)
    requires
        0 < i <= c.from.len(),
        starts_at(w, pos, glyph_value(c.from[i - 1])),
        c.from[i - 1].2 == Case::Mixed,
        !c.checks_exceptions() || digraph_exception_of(
            lowered,
            glyph_value(c.from[i - 1]),
            c.latinize,
        ) is None,
    ensures
        ({
            let next = pos + glyph_value(c.from[i - 1]).len();
            if next < w.len() && uppercase[next] {
                pick(c, w, lowered, uppercase, pos, i) == pick(c, w, lowered, uppercase, pos, i - 1)
            } else {
                pick(c, w, lowered, uppercase, pos, i) == Some(
                    (c.into[i - 1], glyph_value(c.from[i - 1]).len() as int),
                )
            }
        }),
{
}

} // verus!
