use serbian_translit::{Charset, Error, Transliterator};

const EXAMPLES: &'static [(&str, &str, bool)] = &[
    ("", "", true),
    ("1234567890", "1234567890", true),
    (
        "A B V G D Đ E Ž Z I J K L Lj M N Nj O P R S T Ć U F H C Č Dž Š a b v g d đ e ž z i j k l lj m n nj o p r s t ć u f h c č dž š",
        "А Б В Г Д Ђ Е Ж З И Ј К Л Љ М Н Њ О П Р С Т Ћ У Ф Х Ц Ч Џ Ш а б в г д ђ е ж з и ј к л љ м н њ о п р с т ћ у ф х ц ч џ ш",
        true,
    ),
    (
        "Stala mala Mara na kraj stara hana sama.",
        "Стала мала Мара на крај стара хана сама.",
        true,
    ),
    (
        "Nevesele snene žene plele teške mreže",
        "Невеселе снене жене плеле тешке мреже",
        true,
    ),
    (
        "Javorov jaram, javorova ralica, ralo drvo javorovo.",
        "Јаворов јарам, јаворова ралица, рало дрво јаворово.",
        true,
    ),
    (
        "Jesi li to ti to tu? Jesi li to tu ti? Jesi li to ti tu? Jesi li tu ti to?",
        "Јеси ли то ти то ту? Јеси ли то ту ти? Јеси ли то ти ту? Јеси ли ту ти то?",
        true,
    ),
    (
        "Adjektivisati|ZABLUDJE|odžvać|PredŽivot|kenjon|konjug|TANJug",
        "Адјективисати|ЗАБЛУДЈЕ|оджваћ|ПредЖивот|кенјон|конјуг|ТАНЈуг",
        true,
    ),
    (
        "A B V G D Đ Ð DJ Dj E Z Ž Ž I J K L LJ Ǉ Lj ǈ M N NJ Ǌ Nj ǋ O P R S T Ć Ć U F H C Č Č DŽ Ǆ DŽ Dž ǅ Dž Š Š",
        "А Б В Г Д Ђ Ђ Ђ Ђ Е З Ж Ж И Ј К Л Љ Љ Љ Љ М Н Њ Њ Њ Њ О П Р С Т Ћ Ћ У Ф Х Ц Ч Ч Џ Џ Џ Џ Џ Џ Ш Ш",
        false,
    ),
    (
        "a æ b v g d đ dj e z ž ž i ĳ j k l lj ǉ m n nj ǌ o œ p r s ﬆ t ć ć u f ﬁ ﬂ h c č č dž ǆ dž š š",
        "а ае б в г д ђ ђ е з ж ж и иј ј к л љ љ м н њ њ о ое п р с ст т ћ ћ у ф фи фл х ц ч ч џ џ џ ш ш",
        false,
    ),
    (
        "A B V G D Đ Ð DJ Dj e z ž ž i ĳ j k l lj ǉ M N NJ Ǌ Nj ǋ O P R s ﬆ t ć ć u f ﬁ ﬂ h c č č dž Ǆ DŽ Dž ǅ Dž Š Š",
        "А Б В Г Д Ђ Ђ Ђ Ђ е з ж ж и иј ј к л љ љ М Н Њ Њ Њ Њ О П Р с ст т ћ ћ у ф фи фл х ц ч ч џ Џ Џ Џ Џ Џ Ш Ш",
        false,
    ),
];

#[test]
fn test_charsets() -> Result<(), Error> {
    let charsets = vec![Charset::Latin, Charset::LatinUnicode, Charset::Cyrillic];
    for f in charsets.clone() {
        for i in charsets.clone() {
            let _ = Transliterator::new(f.clone(), i.clone(), false, false, false);
        }
    }
    Ok(())
}

#[test]
fn test_chars_to_utf8() -> Result<(), Error> {
    let mut output: Vec<u8> = vec![0; 100];
    let len = Transliterator::chars_to_utf8(
        &['В', 'у', 'к', ' ', 'к', 'a', 'r', 'a', 'd', 'ž'],
        &mut output,
    )?;
    assert_eq!(String::from_utf8_lossy(&output[..len]), "Вук кaradž");
    Ok(())
}

#[test]
fn test_digraph_exception() -> Result<(), Error> {
    assert_eq!(
        Transliterator::digraph_exception(
            &['a', 'D', 'r', 'u', 'g', 'd', 'j', 'e', 'd'],
            &['đ'],
            false
        )?
        .unwrap()
        .value,
        &['д', 'ј']
    );
    assert_eq!(
        Transliterator::digraph_exception(
            &['a', 'D', 'r', 'u', 'g', 'd', 'j', 'e', 'd'],
            &['đ'],
            true
        )?
        .unwrap()
        .value,
        &['d', 'j']
    );
    assert_eq!(
        Transliterator::digraph_exception(
            &['n', 'a', 'D', 'ž', 'i', 'v', 'e', 't', 'i'],
            &['D', 'ž'],
            false
        )?
        .unwrap()
        .value,
        &['Д', 'ж']
    );
    assert_eq!(
        Transliterator::digraph_exception(
            &['n', 'a', 'D', 'ž', 'i', 'v', 'e', 't', 'i'],
            &['D', 'ž'],
            true
        )?
        .unwrap()
        .value,
        &['D', 'ž']
    );
    assert_eq!(
        Transliterator::digraph_exception(
            &['d', 'a', 'N', 'J', 'o', 'n', 'i'],
            &['N', 'J'],
            false
        )?
        .unwrap()
        .value,
        &['Н', 'Ј']
    );
    assert_eq!(
        Transliterator::digraph_exception(
            &['d', 'a', 'N', 'J', 'o', 'n', 'i'],
            &['N', 'J'],
            true
        )?
        .unwrap()
        .value,
        &['N', 'J']
    );
    Ok(())
}

#[test]
fn test_transliterate_lat_cyr() -> Result<(), Error> {
    for (lat, cyr, _) in EXAMPLES {
        let t = Transliterator::new(Charset::Latin, Charset::Cyrillic, false, false, false);
        let res = t.process(lat)?;
        assert_eq!(&&res, cyr);
    }
    Ok(())
}

#[test]
fn test_transliterate_cyr_lat() -> Result<(), Error> {
    for (lat, cyr, clean) in EXAMPLES {
        if !clean {
            continue;
        }
        let t = Transliterator::new(Charset::Cyrillic, Charset::Latin, false, false, false);
        let res = t.process(cyr)?;
        assert_eq!(&&res, lat);
    }
    Ok(())
}

#[test]
fn test_skip_foreign() -> Result<(), Error> {
    let t = Transliterator::new(Charset::Latin, Charset::Cyrillic, false, false, false);
    for text in vec!["example", "例子", "مثال", "példa"] {
        assert_eq!(text, t.process_word(text)?);
    }
    let t = Transliterator::new(Charset::Latin, Charset::Cyrillic, false, true, false);
    for (text, expected) in vec![
        ("example", "еxампле"),
        ("例子", "例子"),
        ("مثال", "مثال"),
        ("példa", "пéлда"),
    ] {
        assert_eq!(expected, t.process_word(text)?);
    }
    Ok(())
}

#[test]
fn test_digraph_capitalization() -> Result<(), Error> {
    let t_lat_cyr = Transliterator::new(Charset::Latin, Charset::Cyrillic, false, false, false);
    let t_lat8_cyr =
        Transliterator::new(Charset::LatinUnicode, Charset::Cyrillic, false, false, false);
    //
    let t_lat_lat8 =
        Transliterator::new(Charset::Latin, Charset::LatinUnicode, false, false, false);
    let t_lat8_lat =
        Transliterator::new(Charset::LatinUnicode, Charset::Latin, false, false, false);
    //
    let t_cyr_lat = Transliterator::new(Charset::Cyrillic, Charset::Latin, false, false, false);
    let t_cyr_lat8 =
        Transliterator::new(Charset::Cyrillic, Charset::LatinUnicode, false, false, false);
    for (latin, latin8, cyrillic) in vec![
        // Љ
        ("Ljubiša", "ǈubiša", "Љубиша"),
        ("ljubiša", "ǉubiša", "љубиша"),
        ("LJUBIŠA", "ǇUBIŠA", "ЉУБИША"),
        ("Naljutiti", "Naǉutiti", "Наљутити"),
        ("naljutiti", "naǉutiti", "наљутити"),
        ("NALJUTITI", "NAǇUTITI", "НАЉУТИТИ"),
        // Њ
        ("Njiva", "ǋiva", "Њива"),
        ("njiva", "ǌiva", "њива"),
        ("NJIVA", "ǊIVA", "ЊИВА"),
        ("Anja", "Aǌa", "Ања"),
        ("anja", "aǌa", "ања"),
        ("ANJA", "AǊA", "АЊА"),
        // Џ
        ("Džonatan", "ǅonatan", "Џонатан"),
        ("džonatan", "ǆonatan", "џонатан"),
        ("DŽONATAN", "ǄONATAN", "ЏОНАТАН"),
        ("Midžor", "Miǆor", "Миџор"),
        ("midžor", "miǆor", "миџор"),
        ("MIDŽOR", "MIǄOR", "МИЏОР"),
    ] {
        assert_eq!(cyrillic, t_lat_cyr.process_word(latin)?);
        assert_eq!(cyrillic, t_lat8_cyr.process_word(latin8)?);
        //
        assert_eq!(latin8, t_lat_lat8.process_word(latin)?);
        assert_eq!(latin, t_lat8_lat.process_word(latin8)?);
        //
        assert_eq!(latin, t_cyr_lat.process_word(cyrillic)?);
        assert_eq!(latin8, t_cyr_lat8.process_word(cyrillic)?);
    }
    Ok(())
}
