use serbian_translit::{Charset, Error, Transliterator};

fn lat_cyr() -> Transliterator {
    Transliterator::new(Charset::Latin, Charset::Cyrillic, false, false, false)
}

fn cyr_lat() -> Transliterator {
    Transliterator::new(Charset::Cyrillic, Charset::Latin, false, false, false)
}

#[test]
fn exception_keeps_two_letters() -> Result<(), Error> {
    assert_eq!(lat_cyr().process_word("gdje")?, "гдје");
    assert_eq!(lat_cyr().process_word("Ljubiša")?, "Љубиша");
    Ok(())
}

#[test]
fn exception_found_in_upper_case_word() -> Result<(), Error> {
    assert_eq!(lat_cyr().process_word("GDJE")?, "ГДЈЕ");
    assert_eq!(lat_cyr().process_word("djevojka")?, "дјевојка");
    assert_eq!(lat_cyr().process_word("Đorđe")?, "Ђорђе");
    Ok(())
}

#[test]
fn skipped_digraph_check_merges() -> Result<(), Error> {
    let t = Transliterator::new(Charset::Latin, Charset::Cyrillic, true, false, false);
    assert_eq!(t.process_word("gdje")?, "гђе");
    Ok(())
}

#[test]
fn exception_latinized_for_unicode_latin() -> Result<(), Error> {
    let t = Transliterator::new(Charset::Latin, Charset::LatinUnicode, false, false, false);
    assert_eq!(t.process_word("gdje")?, "gdje");
    assert_eq!(t.process_word("Anja")?, "Aǌa");
    assert_eq!(t.process_word("konjugacija")?, "konjugacija");
    Ok(())
}

#[test]
fn all_caps_digraph_merges() -> Result<(), Error> {
    assert_eq!(lat_cyr().process_word("NALJUTITI")?, "НАЉУТИТИ");
    Ok(())
}

#[test]
fn mixed_digraph_before_capital_splits() -> Result<(), Error> {
    // `Lj` followed by an upper-case letter is read as two letters.
    assert_eq!(lat_cyr().process_word("LjUBIŠA")?, "ЛјУБИША");
    // `Љ` followed by an upper-case letter is written `LJ`, otherwise `Lj`.
    assert_eq!(cyr_lat().process_word("ЉУБИША")?, "LJUBIŠA");
    assert_eq!(cyr_lat().process_word("Љубиша")?, "Ljubiša");
    assert_eq!(cyr_lat().process_word("Љ")?, "Lj");
    Ok(())
}

#[test]
fn foreign_patterns_are_kept() -> Result<(), Error> {
    assert_eq!(lat_cyr().process_word("user@example.com")?, "user@example.com");
    assert_eq!(lat_cyr().process_word("https://primer.rs")?, "https://primer.rs");
    assert_eq!(lat_cyr().process_word("5km")?, "5km");
    Ok(())
}

#[test]
fn forced_links_are_transliterated() -> Result<(), Error> {
    let t = Transliterator::new(Charset::Latin, Charset::Cyrillic, false, false, true);
    assert_eq!(t.process_word("user@example.com")?, "усер@еxампле.цом");
    Ok(())
}

#[test]
fn sentence_scenario() -> Result<(), Error> {
    assert_eq!(
        lat_cyr().process("Stala mala Mara na kraj stara hana sama.")?,
        "Стала мала Мара на крај стара хана сама."
    );
    Ok(())
}

#[test]
fn exception_scenario() -> Result<(), Error> {
    assert_eq!(
        lat_cyr().process("Adjektivisati|ZABLUDJE|odžvać")?,
        "Адјективисати|ЗАБЛУДЈЕ|оджваћ"
    );
    Ok(())
}

#[test]
fn whitespace_runs_kept() -> Result<(), Error> {
    assert_eq!(lat_cyr().process("  ja\t\tti \n\u{a0}on\u{3000}")?, "  ја\t\tти \n\u{a0}он\u{3000}");
    assert_eq!(lat_cyr().process("")?, "");
    assert_eq!(lat_cyr().process(" \t ")?, " \t ");
    Ok(())
}

#[test]
fn same_script_changes_nothing() -> Result<(), Error> {
    let text = "Ljubiša, ЉУБИША i ǈubiša: gdje 5km user@example.com!";
    for cs in [Charset::Latin, Charset::LatinUnicode, Charset::Cyrillic] {
        let t = Transliterator::new(cs, cs, false, false, false);
        assert_eq!(t.process(text)?, text);
        let t = Transliterator::new(cs, cs, true, true, true);
        assert_eq!(t.process(text)?, text);
    }
    Ok(())
}

#[test]
fn round_trip_clean_words() -> Result<(), Error> {
    let text = "Ovo je Kratak TEKST o čaši i žabi, šećer i ćup.";
    let cyr = lat_cyr().process(text)?;
    assert_eq!(cyr, "Ово је Кратак ТЕКСТ о чаши и жаби, шећер и ћуп.");
    assert_eq!(cyr_lat().process(&cyr)?, text);
    Ok(())
}

#[test]
fn unicode_latin_round_trip() -> Result<(), Error> {
    let t = Transliterator::new(Charset::LatinUnicode, Charset::Latin, false, false, false);
    assert_eq!(t.process("ǈubav i ǆep")?, "Ljubav i džep");
    Ok(())
}

#[test]
fn short_buffer_overflows() {
    let mut output: Vec<u8> = vec![7; 2];
    let res = Transliterator::chars_to_utf8(&['ž', 'a'], &mut output);
    assert!(matches!(res, Err(Error::BufferOverflow)));
    assert_eq!(output, vec![0xc5, 0xbe]);
    let mut output: Vec<u8> = vec![7; 1];
    let res = Transliterator::chars_to_utf8(&['a', 'b'], &mut output);
    assert!(matches!(res, Err(Error::BufferOverflow)));
    assert_eq!(output, vec![b'a']);
    let mut output: Vec<u8> = vec![7; 3];
    let res = Transliterator::chars_to_utf8(&['a', 'ž', 'b'], &mut output);
    assert!(matches!(res, Err(Error::BufferOverflow)));
    assert_eq!(output, vec![b'a', 0xc5, 0xbe]);
    let mut output: Vec<u8> = vec![7; 5];
    let n = Transliterator::chars_to_utf8(&['ž', 'a'], &mut output).unwrap();
    assert_eq!(n, 3);
    assert_eq!(output, vec![0xc5, 0xbe, b'a', 7, 7]);
}

#[test]
fn default_is_latin_to_cyrillic() -> Result<(), Error> {
    let t = Transliterator::default();
    assert_eq!(t.process("njiva")?, "њива");
    Ok(())
}

#[test]
fn capital_dj_exception_is_cyrillic() -> Result<(), Error> {
    let word = ['a', 'D', 'r', 'u', 'g', 'd', 'j', 'e', 'd'];
    for cand in [['Đ'], ['Ð']] {
        let r = Transliterator::digraph_exception(&word, &cand, false)?.unwrap();
        assert_eq!(r.value, vec!['Д', '\u{408}']);
        let r = Transliterator::digraph_exception(&word, &cand, true)?.unwrap();
        assert_eq!(r.value, vec!['D', 'J']);
    }
    Ok(())
}

#[test]
fn no_exceptions_from_unicode_latin() -> Result<(), Error> {
    let t = Transliterator::new(Charset::LatinUnicode, Charset::Cyrillic, false, false, false);
    let skip = Transliterator::new(Charset::LatinUnicode, Charset::Cyrillic, true, false, false);
    assert_eq!(t.process_word("međudjelovaǌe")?, "међудјеловање");
    assert_eq!(skip.process_word("međudjelovaǌe")?, "међудјеловање");
    assert_eq!(t.process_word("gđe")?, "гђе");
    Ok(())
}
