//! Recognition of words that are not prose: domain names, e-mail addresses,
//! URLs and measurements.
use vstd::prelude::*;

verus! {

#[verifier::external_type_specification]
#[verifier::external_body]
pub struct ExRegex(regex::Regex);

/// Whether the regular expression `pattern` matches somewhere in `text`.
pub uninterp spec fn regex_matches(pattern: Seq<char>, text: Seq<char>) -> bool;

/// Domain names: labels separated by dots, ending in a top-level domain.
pub const DOMAIN_PATTERN: &'static str = r"[a-zA-Z0-9][a-zA-Z0-9-]{1,61}[a-zA-Z0-9](?:\.[a-zA-Z]{2,})+";

/// E-mail addresses.
pub const EMAIL_PATTERN: &'static str = r"\b[A-Za-z0-9._%+-]+@[A-Za-z0-9.-]+\.[A-Za-z]{2,6}\b";

/// URLs and paths.
pub const URL_PATTERN: &'static str = r"((http[s]?://)|(./)|(/))(?:[a-zA-Z]|[0-9]|[$-_@.&+]|[!*\(\),]|(?:%[0-9a-fA-F][0-9a-fA-F]))+";

/// A number followed by a unit symbol, with or without an SI prefix.
pub const MEASUREMENT_PATTERN: &'static str = r"(\d+([\.,]\d)*)((K|°[FC]|[kKMGTPEY](ib|b|iB|B|Hz)|[pnμmcdhk]m[²³]?|m[²³]|[mcdkh][lg])|([zafpnμmcdhKMGTPEY]?([BVWJFSHCΩATNhlmg]|m[²³]|s[²]|cd|Pa|Wb|Hz|deg|rad)))";

/// Whether `regex::Regex::new` accepts `source`, with its default settings.
pub uninterp spec fn compiles(source: Seq<char>) -> bool;

/// The four patterns of foreign content, in order: domain, e-mail, URL, measurement.
pub open spec fn foreign_sources() -> Seq<Seq<char>> {
    seq![DOMAIN_PATTERN@, EMAIL_PATTERN@, URL_PATTERN@, MEASUREMENT_PATTERN@]
}

/// The patterns of foreign content that compile, in order.
pub open spec fn foreign_patterns() -> Seq<Seq<char>> {
    foreign_sources().filter(|s: Seq<char>| compiles(s))
}

/// A compiled regular expression, kept with the text it was compiled from.
pub struct ForeignPattern {
    source: String,
    regex: regex::Regex,
}

impl View for ForeignPattern {
    type V = Seq<char>;

    closed spec fn view(&self) -> Seq<char> {
        self.source@
    }
}

/// Relies on `regex::Regex::new`: compiles `source`, or gives `None` where it fails;
/// whether it fails depends on `source` alone.
#[verifier::external_body]
fn compile(source: &str) -> (r: Option<ForeignPattern>)
    ensures
        r is Some <==> compiles(source@),
        r matches Some(p) ==> p@ == source@,
{
    match regex::Regex::new(source) {
        Ok(regex) => Some(ForeignPattern { source: source.to_string(), regex }),
        Err(_) => None,
    }
}

/// Relies on `regex::Regex::is_match`: whether the regex matches somewhere in `text`.
#[verifier::external_body]
fn is_match(p: &ForeignPattern, text: &str) -> (r: bool)
    ensures
        r == regex_matches(p@, text@),
{
    p.regex.is_match(text)
}

/// Whether one of the patterns whose sources are `sources` matches in `word`.
pub open spec fn matched_by(sources: Seq<Seq<char>>, word: Seq<char>) -> bool {
    exists|k: int| 0 <= k < sources.len() && regex_matches(sources[k], word)
}

/// The compiled patterns of foreign content.
pub struct ForeignPatterns {
    patterns: Vec<ForeignPattern>,
}

impl View for ForeignPatterns {
    type V = Seq<Seq<char>>;

    closed spec fn view(&self) -> Seq<Seq<char>> {
        self.patterns@.map_values(|p: ForeignPattern| p@)
    }
}

impl ForeignPatterns {
    /// Compiles the four patterns of foreign content and keeps, in order, each one
    /// that compiles.
    pub fn new() -> (r: ForeignPatterns)
        ensures
            r@ == foreign_patterns(),
    {
        let mut patterns: Vec<ForeignPattern> = Vec::new();
        let sources: [&'static str; 4] = [
            DOMAIN_PATTERN,
            EMAIL_PATTERN,
            URL_PATTERN,
            MEASUREMENT_PATTERN,
        ];
        let ghost all = foreign_sources();
        let ghost keep = |s: Seq<char>| compiles(s);
        assert(all.take(0).filter(keep) =~= Seq::<Seq<char>>::empty()) by {
            reveal(Seq::filter);
        }
        let mut i: usize = 0;
        while i < 4
            invariant
                0 <= i <= 4,
                all == foreign_sources(),
                keep == (|s: Seq<char>| compiles(s)),
                sources@ == seq![DOMAIN_PATTERN, EMAIL_PATTERN, URL_PATTERN, MEASUREMENT_PATTERN],
                patterns@.map_values(|p: ForeignPattern| p@) == all.take(i as int).filter(keep),
            decreases 4 - i,
        {
            let ghost before = patterns@;
            let found = compile(sources[i]);
            assert(sources@[i as int]@ == all[i as int]);
            proof {
                assert(all.take(i + 1).drop_last() =~= all.take(i as int));
                assert(all.take(i + 1).last() == all[i as int]);
                reveal(Seq::filter);
            }
            if let Some(p) = found {
                patterns.push(p);
                assert(patterns@.map_values(|p: ForeignPattern| p@) =~= before.map_values(
                    |p: ForeignPattern| p@,
                ).push(all[i as int]));
            }
            i = i + 1;
        }
        assert(all.take(4) =~= all);
        ForeignPatterns { patterns }
    }

    /// Whether one of the patterns matches in `word`.
    pub fn matches(&self, word: &str) -> (r: bool)
        ensures
            r == matched_by(self@, word@),
    {
        let mut i: usize = 0;
        while i < self.patterns.len()
            invariant
                0 <= i <= self.patterns@.len(),
                forall|k: int| 0 <= k < i ==> !regex_matches(#[trigger] self@[k], word@),
            decreases self.patterns@.len() - i,
        {
            if is_match(&self.patterns[i], word) {
                assert(regex_matches(self@[i as int], word@));
                return true;
            }
            i = i + 1;
        }
        false
    }
}

} // verus!
