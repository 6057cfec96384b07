use serbian_translit::processor::{
    Direction, Error, StreamProcessor, CONSUMED_BUFFER, DIGESTED_BUFFER,
};

const EXAMPLES: &'static [(&str, &str)] = &[
    ("", ""),
    ("1234567890", "1234567890"),
    (
        "ABVGDĐEŽZIJKLLjMNNjOPRSTĆUFHCČDžŠabvgdđežzijklljmnnjoprstćufhcčdžš",
        "АБВГДЂЕЖЗИЈКЛЉМНЊОПРСТЋУФХЦЧЏШабвгдђежзијклљмнњопрстћуфхцчџш",
    ),
    (
        "Stala mala Mara na kraj stara hana sama.",
        "Стала мала Мара на крај стара хана сама.",
    ),
    (
        "Nevesele snene žene plele teške mreže",
        "Невеселе снене жене плеле тешке мреже",
    ),
    (
        "Javorov jaram, javorova ralica, ralo drvo javorovo.",
        "Јаворов јарам, јаворова ралица, рало дрво јаворово.",
    ),
    (
        "Jesi li to ti to tu? Jesi li to tu ti? Jesi li to ti tu? Jesi li tu ti to?",
        "Јеси ли то ти то ту? Јеси ли то ту ти? Јеси ли то ти ту? Јеси ли ту ти то?",
    ),
    (
        "Adjektivisati|ZABLUDJE|odžvać|PredŽivot|kenjon|konjug|TANJug",
        "Адјективисати|ЗАБЛУДЈЕ|оджваћ|ПредЖивот|кенјон|конјуг|ТАНЈуг",
    ),
    (
        "ABVGDĐÐDJDjEZŽŽIJKLLJǇLjǈMNNJǊNjǋOPRSTĆĆUFHCČČDŽǄDŽDžǅDžŠŠ",
        "АБВГДЂЂЂЂЕЗЖЖИЈКЛЉЉЉЉМНЊЊЊЊОПРСТЋЋУФХЦЧЧЏЏЏЏЏЏШШ",
    ),
    (
        "aæbvgdđdjezžžiĳjklljǉmnnjǌoœprsﬆtććufﬁﬂhcččdžǆdžšš",
        "ааебвгдђђезжжиијјклљљмнњњооепрссттћћуффифлхцччџџџшш",
    ),
    (
        "ABVGDĐÐDJDjezžžiĳjklljǉMNNJǊNjǋOPRsﬆtććufﬁﬂhcččdžǄDŽDžǅDžŠŠ",
        "АБВГДЂЂЂЂезжжиијјклљљМНЊЊЊЊОПРссттћћуффифлхцччџЏЏЏЏЏШШ",
    ),
];

#[test]
fn test_consume() -> Result<(), usize> {
    for e in 0..CONSUMED_BUFFER {
        let mut proc = StreamProcessor::new(Direction::LatToCyr);
        proc.buffer_consumed[..e].copy_from_slice(&EXAMPLES[e].0.as_bytes()[..e]);
        let mut consumed: usize = 0;
        while consumed < EXAMPLES[e].0.as_bytes().len() {
            match proc.consume(&EXAMPLES[e].0.as_bytes()[consumed..]) {
                Ok(_) => {
                    break;
                }
                Err(v) => {
                    consumed += v;
                    // Fake digest
                    proc.digested = 0;
                    proc.consumed = 0;
                    // Clear buffer
                    proc.buffer_consumed = [0u8; CONSUMED_BUFFER];
                }
            }
        }
    }
    Ok(())
}

#[test]
fn test_digest() -> Result<(), Error> {
    for (_, e) in EXAMPLES {
        let mut proc = StreamProcessor::new(Direction::LatToCyr);
        let mut chars: Vec<char> = vec![];
        e.chars().for_each(|c| chars.push(c));
        if chars.len() < DIGESTED_BUFFER / 3 {
            continue;
        }
        // Fill up a part of digested buffer
        proc.buffer_digested[..DIGESTED_BUFFER / 3]
            .copy_from_slice(&chars[..DIGESTED_BUFFER / 3]);
        proc.digested = DIGESTED_BUFFER / 3;
        let mut remaining_char: Vec<u8> = vec![];
        for c in &chars[DIGESTED_BUFFER / 3..] {
            let mut b = c.to_string().as_bytes().to_vec();
            if b.len() > 1 && proc.consumed >= CONSUMED_BUFFER - 5 {
                // Intentionally break last character
                proc.buffer_consumed[proc.consumed] = b[0];
                proc.consumed += 1;
                b.remove(0);
                remaining_char.append(&mut b);
                break;
            }
            proc.buffer_consumed[proc.consumed..proc.consumed + b.len()].copy_from_slice(&b);
            proc.consumed += b.len();
            if proc.consumed >= CONSUMED_BUFFER {
                break;
            }
        }
        proc.digest()?;
        let mut d = proc.digested;
        assert_eq!(
            proc.buffer_digested[..proc.digested],
            chars[..proc.digested]
        );
        if remaining_char.is_empty() {
            continue;
        }
        // Check if last caracter gets stitched
        proc.buffer_consumed[proc.consumed..proc.consumed + remaining_char.len()]
            .copy_from_slice(&remaining_char);
        proc.consumed += remaining_char.len();
        proc.digest()?;
        assert!(proc.digested == d + 1);
        assert_eq!(
            proc.buffer_digested[..proc.digested],
            chars[..proc.digested]
        );
    }
    Ok(())
}
