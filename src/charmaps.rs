//! Character tables of the three scripts and the digraph exception dictionaries.
//!
//! A table is an ordered array of graphemes. Two tables that are used together
//! correspond position by position: the grapheme at index `i` of the source table
//! is written as the grapheme at index `i` of the destination table.
use vstd::prelude::*;

verus! {

/// How a grapheme is capitalised.
#[derive(PartialEq, Eq, Structural, Clone, Copy, Debug)]
pub enum Case {
    /// Every letter is upper case.
    Upper,
    /// The first letter is upper case and the second lower case (`Lj`).
    Mixed,
    /// Every letter is lower case.
    Lower,
}

/// One grapheme of a table: its first character, its second character
/// (`'\0'` for a one-character grapheme) and its case.
pub type Glyph = (char, char, Case);

/// The characters that a table entry stands for.
pub open spec fn glyph_value(g: Glyph) -> Seq<char> {
    if g.1 == '\0' {
        seq![g.0]
    } else {
        seq![g.0, g.1]
    }
}

/// A grapheme with its characters held in a vector.
#[derive(Debug)]
pub struct Character {
    pub value: Vec<char>,
    pub case: Case,
}

impl Character {
    /// The grapheme that a table entry stands for.
    pub fn from_glyph(g: Glyph) -> (r: Character)
        ensures
            r.value@ == glyph_value(g),
            r.case == g.2,
    {
        let value = if g.1 == '\0' {
            vec![g.0]
        } else {
            vec![g.0, g.1]
        };
        Character { value, case: g.2 }
    }
}

/// The table of a script pair that changes nothing.
pub const EMPTY: [Glyph; 0] = [];

/// Latin letters, written with ASCII digraphs, in canonical spelling only.
pub const LATIN_CLEAN: [Glyph; 63] = [
    ('A', '\0', Case::Upper),
    ('B', '\0', Case::Upper),
    ('V', '\0', Case::Upper),
    ('G', '\0', Case::Upper),
    ('D', '\0', Case::Upper),
    ('Đ', '\0', Case::Upper),
    ('E', '\0', Case::Upper),
    ('Ž', '\0', Case::Upper),
    ('Z', '\0', Case::Upper),
    ('I', '\0', Case::Upper),
    ('J', '\0', Case::Upper),
    ('K', '\0', Case::Upper),
    ('L', '\0', Case::Upper),
    ('L', 'J', Case::Upper),
    ('L', 'j', Case::Mixed),
    ('M', '\0', Case::Upper),
    ('N', '\0', Case::Upper),
    ('N', 'J', Case::Upper),
    ('N', 'j', Case::Mixed),
    ('O', '\0', Case::Upper),
    ('P', '\0', Case::Upper),
    ('R', '\0', Case::Upper),
    ('S', '\0', Case::Upper),
    ('T', '\0', Case::Upper),
    ('Ć', '\0', Case::Upper),
    ('U', '\0', Case::Upper),
    ('F', '\0', Case::Upper),
    ('H', '\0', Case::Upper),
    ('C', '\0', Case::Upper),
    ('Č', '\0', Case::Upper),
    ('D', 'Ž', Case::Upper),
    ('D', 'ž', Case::Mixed),
    ('Š', '\0', Case::Upper),
    ('a', '\0', Case::Lower),
    ('b', '\0', Case::Lower),
    ('v', '\0', Case::Lower),
    ('g', '\0', Case::Lower),
    ('d', '\0', Case::Lower),
    ('đ', '\0', Case::Lower),
    ('e', '\0', Case::Lower),
    ('ž', '\0', Case::Lower),
    ('z', '\0', Case::Lower),
    ('i', '\0', Case::Lower),
    ('j', '\0', Case::Lower),
    ('k', '\0', Case::Lower),
    ('l', '\0', Case::Lower),
    ('l', 'j', Case::Lower),
    ('m', '\0', Case::Lower),
    ('n', '\0', Case::Lower),
    ('n', 'j', Case::Lower),
    ('o', '\0', Case::Lower),
    ('p', '\0', Case::Lower),
    ('r', '\0', Case::Lower),
    ('s', '\0', Case::Lower),
    ('t', '\0', Case::Lower),
    ('ć', '\0', Case::Lower),
    ('u', '\0', Case::Lower),
    ('f', '\0', Case::Lower),
    ('h', '\0', Case::Lower),
    ('c', '\0', Case::Lower),
    ('č', '\0', Case::Lower),
    ('d', 'ž', Case::Lower),
    ('š', '\0', Case::Lower),
];

/// Latin letters with the precomposed digraph letters, in canonical spelling only.
pub const LATIN_CLEAN_UNICODE: [Glyph; 63] = [
    ('A', '\0', Case::Upper),
    ('B', '\0', Case::Upper),
    ('V', '\0', Case::Upper),
    ('G', '\0', Case::Upper),
    ('D', '\0', Case::Upper),
    ('Đ', '\0', Case::Upper),
    ('E', '\0', Case::Upper),
    ('Ž', '\0', Case::Upper),
    ('Z', '\0', Case::Upper),
    ('I', '\0', Case::Upper),
    ('J', '\0', Case::Upper),
    ('K', '\0', Case::Upper),
    ('L', '\0', Case::Upper),
    ('Ǉ', '\0', Case::Upper),
    ('ǈ', '\0', Case::Mixed),
    ('M', '\0', Case::Upper),
    ('N', '\0', Case::Upper),
    ('Ǌ', '\0', Case::Upper),
    ('ǋ', '\0', Case::Mixed),
    ('O', '\0', Case::Upper),
    ('P', '\0', Case::Upper),
    ('R', '\0', Case::Upper),
    ('S', '\0', Case::Upper),
    ('T', '\0', Case::Upper),
    ('Ć', '\0', Case::Upper),
    ('U', '\0', Case::Upper),
    ('F', '\0', Case::Upper),
    ('H', '\0', Case::Upper),
    ('C', '\0', Case::Upper),
    ('Č', '\0', Case::Upper),
    ('Ǆ', '\0', Case::Upper),
    ('ǅ', '\0', Case::Mixed),
    ('Š', '\0', Case::Upper),
    ('a', '\0', Case::Lower),
    ('b', '\0', Case::Lower),
    ('v', '\0', Case::Lower),
    ('g', '\0', Case::Lower),
    ('d', '\0', Case::Lower),
    ('đ', '\0', Case::Lower),
    ('e', '\0', Case::Lower),
    ('ž', '\0', Case::Lower),
    ('z', '\0', Case::Lower),
    ('i', '\0', Case::Lower),
    ('j', '\0', Case::Lower),
    ('k', '\0', Case::Lower),
    ('l', '\0', Case::Lower),
    ('ǉ', '\0', Case::Lower),
    ('m', '\0', Case::Lower),
    ('n', '\0', Case::Lower),
    ('ǌ', '\0', Case::Lower),
    ('o', '\0', Case::Lower),
    ('p', '\0', Case::Lower),
    ('r', '\0', Case::Lower),
    ('s', '\0', Case::Lower),
    ('t', '\0', Case::Lower),
    ('ć', '\0', Case::Lower),
    ('u', '\0', Case::Lower),
    ('f', '\0', Case::Lower),
    ('h', '\0', Case::Lower),
    ('c', '\0', Case::Lower),
    ('č', '\0', Case::Lower),
    ('ǆ', '\0', Case::Lower),
    ('š', '\0', Case::Lower),
];

/// Cyrillic letters, aligned with the two clean Latin tables.
pub const CYRILLIC_CLEAN: [Glyph; 63] = [
    ('А', '\0', Case::Upper),
    ('Б', '\0', Case::Upper),
    ('В', '\0', Case::Upper),
    ('Г', '\0', Case::Upper),
    ('Д', '\0', Case::Upper),
    ('Ђ', '\0', Case::Upper),
    ('Е', '\0', Case::Upper),
    ('Ж', '\0', Case::Upper),
    ('З', '\0', Case::Upper),
    ('И', '\0', Case::Upper),
    ('Ј', '\0', Case::Upper),
    ('К', '\0', Case::Upper),
    ('Л', '\0', Case::Upper),
    ('Љ', '\0', Case::Upper),
    ('Љ', '\0', Case::Mixed),
    ('М', '\0', Case::Upper),
    ('Н', '\0', Case::Upper),
    ('Њ', '\0', Case::Upper),
    ('Њ', '\0', Case::Mixed),
    ('О', '\0', Case::Upper),
    ('П', '\0', Case::Upper),
    ('Р', '\0', Case::Upper),
    ('С', '\0', Case::Upper),
    ('Т', '\0', Case::Upper),
    ('Ћ', '\0', Case::Upper),
    ('У', '\0', Case::Upper),
    ('Ф', '\0', Case::Upper),
    ('Х', '\0', Case::Upper),
    ('Ц', '\0', Case::Upper),
    ('Ч', '\0', Case::Upper),
    ('Џ', '\0', Case::Upper),
    ('Џ', '\0', Case::Mixed),
    ('Ш', '\0', Case::Upper),
    ('а', '\0', Case::Lower),
    ('б', '\0', Case::Lower),
    ('в', '\0', Case::Lower),
    ('г', '\0', Case::Lower),
    ('д', '\0', Case::Lower),
    ('ђ', '\0', Case::Lower),
    ('е', '\0', Case::Lower),
    ('ж', '\0', Case::Lower),
    ('з', '\0', Case::Lower),
    ('и', '\0', Case::Lower),
    ('ј', '\0', Case::Lower),
    ('к', '\0', Case::Lower),
    ('л', '\0', Case::Lower),
    ('љ', '\0', Case::Lower),
    ('м', '\0', Case::Lower),
    ('н', '\0', Case::Lower),
    ('њ', '\0', Case::Lower),
    ('о', '\0', Case::Lower),
    ('п', '\0', Case::Lower),
    ('р', '\0', Case::Lower),
    ('с', '\0', Case::Lower),
    ('т', '\0', Case::Lower),
    ('ћ', '\0', Case::Lower),
    ('у', '\0', Case::Lower),
    ('ф', '\0', Case::Lower),
    ('х', '\0', Case::Lower),
    ('ц', '\0', Case::Lower),
    ('ч', '\0', Case::Lower),
    ('џ', '\0', Case::Lower),
    ('ш', '\0', Case::Lower),
];

/// Latin letters, written with ASCII digraphs, together with legacy spellings,
/// ligatures and alternative code points of the same letters.
pub const LATIN_DIRTY: [Glyph; 93] = [
    ('A', '\0', Case::Upper),
    ('B', '\0', Case::Upper),
    ('V', '\0', Case::Upper),
    ('G', '\0', Case::Upper),
    ('D', '\0', Case::Upper),
    ('Đ', '\0', Case::Upper),
    ('Ð', '\0', Case::Upper),
    ('D', 'J', Case::Upper),
    ('D', 'j', Case::Mixed),
    ('E', '\0', Case::Upper),
    ('Z', '\0', Case::Upper),
    ('Ž', '\0', Case::Upper),
    ('Ž', '\0', Case::Upper),
    ('I', '\0', Case::Upper),
    ('J', '\0', Case::Upper),
    ('K', '\0', Case::Upper),
    ('L', '\0', Case::Upper),
    ('L', 'J', Case::Upper),
    ('Ǉ', '\0', Case::Upper),
    ('L', 'j', Case::Mixed),
    ('ǈ', '\0', Case::Mixed),
    ('M', '\0', Case::Upper),
    ('N', '\0', Case::Upper),
    ('N', 'J', Case::Upper),
    ('Ǌ', '\0', Case::Upper),
    ('N', 'j', Case::Mixed),
    ('ǋ', '\0', Case::Mixed),
    ('O', '\0', Case::Upper),
    ('P', '\0', Case::Upper),
    ('R', '\0', Case::Upper),
    ('S', '\0', Case::Upper),
    ('T', '\0', Case::Upper),
    ('Ć', '\0', Case::Upper),
    ('Ć', '\0', Case::Upper),
    ('U', '\0', Case::Upper),
    ('F', '\0', Case::Upper),
    ('H', '\0', Case::Upper),
    ('C', '\0', Case::Upper),
    ('Č', '\0', Case::Upper),
    ('Č', '\0', Case::Upper),
    ('D', 'Ž', Case::Upper),
    ('Ǆ', '\0', Case::Upper),
    ('D', 'Ž', Case::Upper),
    ('D', 'ž', Case::Mixed),
    ('ǅ', '\0', Case::Mixed),
    ('D', 'ž', Case::Mixed),
    ('Š', '\0', Case::Upper),
    ('Š', '\0', Case::Upper),
    ('a', '\0', Case::Lower),
    ('æ', '\0', Case::Lower),
    ('b', '\0', Case::Lower),
    ('v', '\0', Case::Lower),
    ('g', '\0', Case::Lower),
    ('d', '\0', Case::Lower),
    ('đ', '\0', Case::Lower),
    ('d', 'j', Case::Lower),
    ('e', '\0', Case::Lower),
    ('z', '\0', Case::Lower),
    ('ž', '\0', Case::Lower),
    ('ž', '\0', Case::Lower),
    ('i', '\0', Case::Lower),
    ('ĳ', '\0', Case::Lower),
    ('j', '\0', Case::Lower),
    ('k', '\0', Case::Lower),
    ('l', '\0', Case::Lower),
    ('l', 'j', Case::Lower),
    ('ǉ', '\0', Case::Lower),
    ('m', '\0', Case::Lower),
    ('n', '\0', Case::Lower),
    ('n', 'j', Case::Lower),
    ('ǌ', '\0', Case::Lower),
    ('o', '\0', Case::Lower),
    ('œ', '\0', Case::Lower),
    ('p', '\0', Case::Lower),
    ('r', '\0', Case::Lower),
    ('s', '\0', Case::Lower),
    ('ﬆ', '\0', Case::Lower),
    ('t', '\0', Case::Lower),
    ('ć', '\0', Case::Lower),
    ('ć', '\0', Case::Lower),
    ('u', '\0', Case::Lower),
    ('f', '\0', Case::Lower),
    ('ﬁ', '\0', Case::Lower),
    ('ﬂ', '\0', Case::Lower),
    ('h', '\0', Case::Lower),
    ('c', '\0', Case::Lower),
    ('č', '\0', Case::Lower),
    ('č', '\0', Case::Lower),
    ('d', 'ž', Case::Lower),
    ('ǆ', '\0', Case::Lower),
    ('d', 'ž', Case::Lower),
    ('š', '\0', Case::Lower),
    ('š', '\0', Case::Lower),
];

/// Precomposed Latin letters, aligned with the dirty Latin table.
pub const LATIN_DIRTY_UNICODE: [Glyph; 93] = [
    ('A', '\0', Case::Upper),
    ('B', '\0', Case::Upper),
    ('V', '\0', Case::Upper),
    ('G', '\0', Case::Upper),
    ('D', '\0', Case::Upper),
    ('Đ', '\0', Case::Upper),
    ('Đ', '\0', Case::Upper),
    ('Đ', '\0', Case::Upper),
    ('Đ', '\0', Case::Upper),
    ('E', '\0', Case::Upper),
    ('Z', '\0', Case::Upper),
    ('Ž', '\0', Case::Upper),
    ('Ž', '\0', Case::Upper),
    ('I', '\0', Case::Upper),
    ('J', '\0', Case::Upper),
    ('K', '\0', Case::Upper),
    ('L', '\0', Case::Upper),
    ('Ǉ', '\0', Case::Upper),
    ('Ǉ', '\0', Case::Upper),
    ('ǈ', '\0', Case::Mixed),
    ('ǈ', '\0', Case::Mixed),
    ('M', '\0', Case::Upper),
    ('N', '\0', Case::Upper),
    ('Ǌ', '\0', Case::Upper),
    ('Ǌ', '\0', Case::Upper),
    ('ǋ', '\0', Case::Mixed),
    ('ǋ', '\0', Case::Mixed),
    ('O', '\0', Case::Upper),
    ('P', '\0', Case::Upper),
    ('R', '\0', Case::Upper),
    ('S', '\0', Case::Upper),
    ('T', '\0', Case::Upper),
    ('Ć', '\0', Case::Upper),
    ('Ć', '\0', Case::Upper),
    ('U', '\0', Case::Upper),
    ('F', '\0', Case::Upper),
    ('H', '\0', Case::Upper),
    ('C', '\0', Case::Upper),
    ('Č', '\0', Case::Upper),
    ('Č', '\0', Case::Upper),
    ('Ǆ', '\0', Case::Upper),
    ('Ǆ', '\0', Case::Upper),
    ('Ǆ', '\0', Case::Upper),
    ('ǅ', '\0', Case::Mixed),
    ('ǅ', '\0', Case::Mixed),
    ('ǅ', '\0', Case::Mixed),
    ('Š', '\0', Case::Upper),
    ('Š', '\0', Case::Upper),
    ('a', '\0', Case::Lower),
    ('a', 'e', Case::Lower),
    ('b', '\0', Case::Lower),
    ('v', '\0', Case::Lower),
    ('g', '\0', Case::Lower),
    ('d', '\0', Case::Lower),
    ('đ', '\0', Case::Lower),
    ('đ', '\0', Case::Lower),
    ('e', '\0', Case::Lower),
    ('z', '\0', Case::Lower),
    ('ž', '\0', Case::Lower),
    ('ž', '\0', Case::Lower),
    ('i', '\0', Case::Lower),
    ('i', 'j', Case::Lower),
    ('j', '\0', Case::Lower),
    ('k', '\0', Case::Lower),
    ('l', '\0', Case::Lower),
    ('ǉ', '\0', Case::Lower),
    ('ǉ', '\0', Case::Lower),
    ('m', '\0', Case::Lower),
    ('n', '\0', Case::Lower),
    ('ǌ', '\0', Case::Lower),
    ('ǌ', '\0', Case::Lower),
    ('o', '\0', Case::Lower),
    ('o', 'e', Case::Lower),
    ('p', '\0', Case::Lower),
    ('r', '\0', Case::Lower),
    ('s', '\0', Case::Lower),
    ('š', 't', Case::Lower),
    ('t', '\0', Case::Lower),
    ('ć', '\0', Case::Lower),
    ('ć', '\0', Case::Lower),
    ('u', '\0', Case::Lower),
    ('f', '\0', Case::Lower),
    ('f', 'i', Case::Lower),
    ('f', 'l', Case::Lower),
    ('h', '\0', Case::Lower),
    ('c', '\0', Case::Lower),
    ('č', '\0', Case::Lower),
    ('č', '\0', Case::Lower),
    ('ǆ', '\0', Case::Lower),
    ('ǆ', '\0', Case::Lower),
    ('ǆ', '\0', Case::Lower),
    ('š', '\0', Case::Lower),
    ('š', '\0', Case::Lower),
];

/// Cyrillic letters, aligned with the dirty Latin table.
pub const CYRILLIC_DIRTY: [Glyph; 93] = [
    ('А', '\0', Case::Upper),
    ('Б', '\0', Case::Upper),
    ('В', '\0', Case::Upper),
    ('Г', '\0', Case::Upper),
    ('Д', '\0', Case::Upper),
    ('Ђ', '\0', Case::Upper),
    ('Ђ', '\0', Case::Upper),
    ('Ђ', '\0', Case::Upper),
    ('Ђ', '\0', Case::Upper),
    ('Е', '\0', Case::Upper),
    ('З', '\0', Case::Upper),
    ('Ж', '\0', Case::Upper),
    ('Ж', '\0', Case::Upper),
    ('И', '\0', Case::Upper),
    ('Ј', '\0', Case::Upper),
    ('К', '\0', Case::Upper),
    ('Л', '\0', Case::Upper),
    ('Љ', '\0', Case::Upper),
    ('Љ', '\0', Case::Upper),
    ('Љ', '\0', Case::Mixed),
    ('Љ', '\0', Case::Mixed),
    ('М', '\0', Case::Upper),
    ('Н', '\0', Case::Upper),
    ('Њ', '\0', Case::Upper),
    ('Њ', '\0', Case::Upper),
    ('Њ', '\0', Case::Mixed),
    ('Њ', '\0', Case::Mixed),
    ('О', '\0', Case::Upper),
    ('П', '\0', Case::Upper),
    ('Р', '\0', Case::Upper),
    ('С', '\0', Case::Upper),
    ('Т', '\0', Case::Upper),
    ('Ћ', '\0', Case::Upper),
    ('Ћ', '\0', Case::Upper),
    ('У', '\0', Case::Upper),
    ('Ф', '\0', Case::Upper),
    ('Х', '\0', Case::Upper),
    ('Ц', '\0', Case::Upper),
    ('Ч', '\0', Case::Upper),
    ('Ч', '\0', Case::Upper),
    ('Џ', '\0', Case::Upper),
    ('Џ', '\0', Case::Upper),
    ('Џ', '\0', Case::Upper),
    ('Џ', '\0', Case::Mixed),
    ('Џ', '\0', Case::Mixed),
    ('Џ', '\0', Case::Mixed),
    ('Ш', '\0', Case::Upper),
    ('Ш', '\0', Case::Upper),
    ('а', '\0', Case::Lower),
    ('а', 'е', Case::Lower),
    ('б', '\0', Case::Lower),
    ('в', '\0', Case::Lower),
    ('г', '\0', Case::Lower),
    ('д', '\0', Case::Lower),
    ('ђ', '\0', Case::Lower),
    ('ђ', '\0', Case::Lower),
    ('е', '\0', Case::Lower),
    ('з', '\0', Case::Lower),
    ('ж', '\0', Case::Lower),
    ('ж', '\0', Case::Lower),
    ('и', '\0', Case::Lower),
    ('и', 'ј', Case::Lower),
    ('ј', '\0', Case::Lower),
    ('к', '\0', Case::Lower),
    ('л', '\0', Case::Lower),
    ('љ', '\0', Case::Lower),
    ('љ', '\0', Case::Lower),
    ('м', '\0', Case::Lower),
    ('н', '\0', Case::Lower),
    ('њ', '\0', Case::Lower),
    ('њ', '\0', Case::Lower),
    ('о', '\0', Case::Lower),
    ('о', 'е', Case::Lower),
    ('п', '\0', Case::Lower),
    ('р', '\0', Case::Lower),
    ('с', '\0', Case::Lower),
    ('с', 'т', Case::Lower),
    ('т', '\0', Case::Lower),
    ('ћ', '\0', Case::Lower),
    ('ћ', '\0', Case::Lower),
    ('у', '\0', Case::Lower),
    ('ф', '\0', Case::Lower),
    ('ф', 'и', Case::Lower),
    ('ф', 'л', Case::Lower),
    ('х', '\0', Case::Lower),
    ('ц', '\0', Case::Lower),
    ('ч', '\0', Case::Lower),
    ('ч', '\0', Case::Lower),
    ('џ', '\0', Case::Lower),
    ('џ', '\0', Case::Lower),
    ('џ', '\0', Case::Lower),
    ('ш', '\0', Case::Lower),
    ('ш', '\0', Case::Lower),
];

/// The spellings of the ambiguous `dj` letter in Latin text.
pub const DJ_LATIN: [Glyph; 6] = [
    ('Đ', '\0', Case::Upper),
    ('Ð', '\0', Case::Upper),
    ('D', 'J', Case::Upper),
    ('D', 'j', Case::Mixed),
    ('đ', '\0', Case::Lower),
    ('d', 'j', Case::Lower),
];

/// The two-letter Latin spelling of each entry of `DJ_LATIN`.
pub const DJ_LATINIZED: [Glyph; 6] = [
    ('D', 'J', Case::Upper),
    ('D', 'J', Case::Upper),
    ('D', 'J', Case::Upper),
    ('D', 'j', Case::Mixed),
    ('d', 'j', Case::Lower),
    ('d', 'j', Case::Lower),
];

/// The two-letter Cyrillic spelling of each entry of `DJ_LATIN`.
pub const DJ_CYRILLIC: [Glyph; 6] = [
    ('Д', 'Ј', Case::Upper),
    ('Д', 'Ј', Case::Upper),
    ('Д', 'Ј', Case::Upper),
    ('Д', 'ј', Case::Mixed),
    ('д', 'ј', Case::Lower),
    ('д', 'ј', Case::Lower),
];

/// The spellings of the ambiguous `dž` letter in Latin text.
pub const DZ_LATIN: [Glyph; 8] = [
    ('D', 'Ž', Case::Upper),
    ('Ǆ', '\0', Case::Upper),
    ('D', 'Ž', Case::Upper),
    ('D', 'ž', Case::Mixed),
    ('ǅ', '\0', Case::Mixed),
    ('D', 'ž', Case::Mixed),
    ('d', 'ž', Case::Lower),
    ('ǆ', '\0', Case::Lower),
];

/// The two-letter Latin spelling of each entry of `DZ_LATIN`.
pub const DZ_LATINIZED: [Glyph; 8] = [
    ('D', 'Ž', Case::Upper),
    ('D', 'Ž', Case::Upper),
    ('D', 'Ž', Case::Upper),
    ('D', 'ž', Case::Mixed),
    ('D', 'ž', Case::Mixed),
    ('D', 'ž', Case::Mixed),
    ('d', 'ž', Case::Lower),
    ('d', 'ž', Case::Lower),
];

/// The two-letter Cyrillic spelling of each entry of `DZ_LATIN`.
pub const DZ_CYRILLIC: [Glyph; 8] = [
    ('Д', 'Ж', Case::Upper),
    ('Д', 'Ж', Case::Upper),
    ('Д', 'Ж', Case::Upper),
    ('Д', 'ж', Case::Mixed),
    ('Д', 'ж', Case::Mixed),
    ('Д', 'ж', Case::Mixed),
    ('д', 'ж', Case::Lower),
    ('д', 'ж', Case::Lower),
];

/// The spellings of the ambiguous `nj` letter in Latin text.
pub const NJ_LATIN: [Glyph; 6] = [
    ('N', 'J', Case::Upper),
    ('Ǌ', '\0', Case::Upper),
    ('N', 'j', Case::Mixed),
    ('ǋ', '\0', Case::Mixed),
    ('n', 'j', Case::Lower),
    ('ǌ', '\0', Case::Lower),
];

/// The two-letter Latin spelling of each entry of `NJ_LATIN`.
pub const NJ_LATINIZED: [Glyph; 6] = [
    ('N', 'J', Case::Upper),
    ('N', 'J', Case::Upper),
    ('N', 'j', Case::Mixed),
    ('N', 'j', Case::Mixed),
    ('n', 'j', Case::Lower),
    ('n', 'j', Case::Lower),
];

/// The two-letter Cyrillic spelling of each entry of `NJ_LATIN`.
pub const NJ_CYRILLIC: [Glyph; 6] = [
    ('Н', 'Ј', Case::Upper),
    ('Н', 'Ј', Case::Upper),
    ('Н', 'ј', Case::Mixed),
    ('Н', 'ј', Case::Mixed),
    ('н', 'ј', Case::Lower),
    ('н', 'ј', Case::Lower),
];

/// Lower-case word parts in which `dj` stands for two letters.
pub const DIGRAPH_EXCEPTIONS_DJ: [&'static str; 217] = [
    "adjektiv",
    "adjunkt",
    "bazdje",
    "bdje",
    "bezdje",
    "blijedje",
    "bludje",
    "bridjе",
    "vidjel",
    "vidjet",
    "vindjakn",
    "višenedje",
    "vrijedje",
    "gdje",
    "gudje",
    "gdjir",
    "daždje",
    "dvonedje",
    "devetonedje",
    "desetonedje",
    "djb",
    "djeva",
    "djevi",
    "djevo",
    "djed",
    "djejstv",
    "djel",
    "djenem",
    "djeneš",
    "djenu",
    "djet",
    "djec",
    "dječ",
    "djuar",
    "djubison",
    "djubouz",
    "djuer",
    "djui",
    "djuks",
    "djulej",
    "djumars",
    "djupont",
    "djurant",
    "djusenberi",
    "djuharst",
    "djuherst",
    "dovdje",
    "dogrdje",
    "dodjel",
    "drvodje",
    "drugdje",
    "elektrosnabdje",
    "žudje",
    "zabludje",
    "zavidje",
    "zavrijedje",
    "zagudje",
    "zadjev",
    "zadjen",
    "zalebdje",
    "zaludje",
    "zaodje",
    "zapodje",
    "zarudje",
    "zasjedje",
    "zasmrdje",
    "zastidje",
    "zaštedje",
    "zdje",
    "zlodje",
    "igdje",
    "izbledje",
    "izblijedje",
    "izvidje",
    "izdjejst",
    "izdjelj",
    "izludje",
    "isprdje",
    "jednonedje",
    "kojegdje",
    "kudjelj",
    "lebdje",
    "ludjel",
    "ludjet",
    "makfadjen",
    "marmadjuk",
    "međudjel",
    "nadjaha",
    "nadjača",
    "nadjeb",
    "nadjev",
    "nadjenul",
    "nadjenuo",
    "nadjenut",
    "negdje",
    "nedjel",
    "nadjunač",
    "nenadjača",
    "nenadjebi",
    "nenavidje",
    "neodje",
    "nepodjarm",
    "nerazdje",
    "nigdje",
    "obdjel",
    "obnevidje",
    "ovdje",
    "odjav",
    "odjah",
    "odjaš",
    "odjeb",
    "odjev",
    "odjed",
    "odjezd",
    "odjek",
    "odjel",
    "odjen",
    "odjeć",
    "odjec",
    "odjur",
    "odsjedje",
    "ondje",
    "opredje",
    "osijedje",
    "osmonedje",
    "pardju",
    "perdju",
    "petonedje",
    "poblijedje",
    "povidje",
    "pogdjegdje",
    "pogdje",
    "podjakn",
    "podjamč",
    "podjastu",
    "podjemč",
    "podjar",
    "podjeb",
    "podjed",
    "podjezič",
    "podjel",
    "podjen",
    "podjet",
    "pododjel",
    "pozavidje",
    "poludje",
    "poljodjel",
    "ponegdje",
    "ponedjelj",
    "porazdje",
    "posijedje",
    "posjedje",
    "postidje",
    "potpodjel",
    "poštedje",
    "pradjed",
    "prdje",
    "preblijedje",
    "previdje",
    "predvidje",
    "predjel",
    "preodjen",
    "preraspodje",
    "presjedje",
    "pridjev",
    "pridjen",
    "prismrdje",
    "prištedje",
    "probdje",
    "problijedje",
    "prodjen",
    "prolebdje",
    "prosijedje",
    "prosjedje",
    "protivdjel",
    "prošlonedje",
    "radjard",
    "razvidje",
    "razdjev",
    "razdjel",
    "razodje",
    "raspodje",
    "rasprdje",
    "remekdjel",
    "rudjen",
    "rudjet",
    "sadje",
    "svagdje",
    "svidje",
    "svugdje",
    "sedmonedjelj",
    "sijedje",
    "sjedje",
    "smrdje",
    "snabdje",
    "snovidje",
    "starosjedje",
    "stidje",
    "studje",
    "sudjel",
    "tronedje",
    "ublijedje",
    "uvidje",
    "udjel",
    "udjen",
    "uprdje",
    "usidjel",
    "usjedje",
    "usmrdje",
    "uštedje",
    "cjelonedje",
    "četvoronedje",
    "čukundjed",
    "šestonedjelj",
    "štedje",
    "štogdje",
    "šukundjed",
];

/// Lower-case word parts in which `dž` stands for two letters.
pub const DIGRAPH_EXCEPTIONS_DZ: [&'static str; 30] = [
    "feldžandarm",
    "nadžanj",
    "nadždrel",
    "nadžel",
    "nadžeo",
    "nadžet",
    "nadživ",
    "nadžinj",
    "nadžnj",
    "nadžrec",
    "nadžup",
    "odžali",
    "odžari",
    "odžel",
    "odžive",
    "odživljava",
    "odžubor",
    "odžvaka",
    "odžval",
    "odžvać",
    "podžanr",
    "podžel",
    "podže",
    "podžig",
    "podžiz",
    "podžil",
    "podžnje",
    "podžupan",
    "predželu",
    "predživot",
];

/// Lower-case word parts in which `nj` stands for two letters.
pub const DIGRAPH_EXCEPTIONS_NJ: [&'static str; 14] = [
    "anjon",
    "injaric",
    "injekc",
    "injekt",
    "injicira",
    "injurij",
    "kenjon",
    "konjug",
    "konjunk",
    "nekonjug",
    "nekonjunk",
    "ssrnj",
    "tanjug",
    "vanjezičk",
];

/// The number of digraph exception families.
pub const FAMILIES: usize = 3;

/// A digraph family: the spellings of one ambiguous Latin digraph, their
/// two-letter replacements, and the word parts in which the replacement applies.
pub struct DigraphException {
    pub latin: &'static [Glyph],
    pub latinized: &'static [Glyph],
    pub cyrillic: &'static [Glyph],
    pub exceptions: &'static [&'static str],
}

pub open spec fn family_latin(k: int) -> Seq<Glyph> {
    if k == 0 {
        DJ_LATIN@
    } else if k == 1 {
        DZ_LATIN@
    } else {
        NJ_LATIN@
    }
}

pub open spec fn family_latinized(k: int) -> Seq<Glyph> {
    if k == 0 {
        DJ_LATINIZED@
    } else if k == 1 {
        DZ_LATINIZED@
    } else {
        NJ_LATINIZED@
    }
}

pub open spec fn family_cyrillic(k: int) -> Seq<Glyph> {
    if k == 0 {
        DJ_CYRILLIC@
    } else if k == 1 {
        DZ_CYRILLIC@
    } else {
        NJ_CYRILLIC@
    }
}

pub open spec fn family_words(k: int) -> Seq<&'static str> {
    if k == 0 {
        DIGRAPH_EXCEPTIONS_DJ@
    } else if k == 1 {
        DIGRAPH_EXCEPTIONS_DZ@
    } else {
        DIGRAPH_EXCEPTIONS_NJ@
    }
}

/// The digraph family with index `k`: `dj`, `dž`, then `nj`.
pub fn digraph_family(k: usize) -> (r: DigraphException)
    requires
        k < FAMILIES,
    ensures
        r.latin@ == family_latin(k as int),
        r.latinized@ == family_latinized(k as int),
        r.cyrillic@ == family_cyrillic(k as int),
        r.exceptions@ == family_words(k as int),
        r.latin@.len() == r.latinized@.len(),
        r.latin@.len() == r.cyrillic@.len(),
{
    if k == 0 {
        DigraphException {
            latin: &DJ_LATIN,
            latinized: &DJ_LATINIZED,
            cyrillic: &DJ_CYRILLIC,
            exceptions: &DIGRAPH_EXCEPTIONS_DJ,
        }
    } else if k == 1 {
        DigraphException {
            latin: &DZ_LATIN,
            latinized: &DZ_LATINIZED,
            cyrillic: &DZ_CYRILLIC,
            exceptions: &DIGRAPH_EXCEPTIONS_DZ,
        }
    } else {
        DigraphException {
            latin: &NJ_LATIN,
            latinized: &NJ_LATINIZED,
            cyrillic: &NJ_CYRILLIC,
            exceptions: &DIGRAPH_EXCEPTIONS_NJ,
        }
    }
}

} // verus!
