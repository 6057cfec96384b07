//! The command-line options of the transliterator.
use vstd::prelude::*;

use crate::transliterate::{charset_named, Charset};
use crate::unicode::same_text;

verus! {

/// The options of a run. A path is given as the index of the argument that holds it.
#[derive(Clone, Copy, Debug)]
pub struct Options {
    pub from: Charset,
    pub into: Charset,
    pub skip_digraph: bool,
    pub force_foreign: bool,
    pub force_links: bool,
    pub pandoc_mode: bool,
    pub input: Option<usize>,
    pub output: Option<usize>,
}

/// What the command line asks for.
#[derive(Clone, Copy, Debug)]
pub enum Request {
    Run(Options),
    Help,
    Version,
}

/// A fault in the command line.
#[derive(Clone, Copy, Debug)]
pub enum ArgumentError {
    /// An option lacks its value.
    ArgumentMissing,
    /// An argument is no known option.
    ArgumentUnknown,
    /// The value of an option is not a script name.
    ArgumentInvalid,
}

/// The options of a run without arguments: Latin to Cyrillic, nothing forced, standard
/// input and output.
pub open spec fn default_options() -> Options {
    Options {
        from: Charset::Latin,
        into: Charset::Cyrillic,
        skip_digraph: false,
        force_foreign: false,
        force_links: false,
        pandoc_mode: false,
        input: None,
        output: None,
    }
}

/// Whether `a` is one of the two spellings of an option.
pub open spec fn is_option(a: Seq<char>, short: Seq<char>, long: Seq<char>) -> bool {
    a == short || a == long
}

/// What the arguments from index `i` on ask for, given the options read before.
/// Arguments are read in order; help and version end the reading, and so does the
/// first fault.
pub open spec fn parse_from(args: Seq<Seq<char>>, i: int, acc: Options) -> Result<
    Request,
    ArgumentError,
>
    decreases args.len() - i,
{
    if i < 0 || i >= args.len() {
        Ok(Request::Run(acc))
    } else {
        let a = args[i];
        if is_option(a, "-v"@, "--version"@) {
            Ok(Request::Version)
        } else if is_option(a, "-h"@, "--help"@) {
            Ok(Request::Help)
        } else if is_option(a, "-t"@, "--into"@) || is_option(a, "-f"@, "--from"@) {
            if i + 1 >= args.len() {
                Err(ArgumentError::ArgumentMissing)
            } else {
                match charset_named(args[i + 1]) {
                    Some(c) => if is_option(a, "-t"@, "--into"@) {
                        parse_from(args, i + 2, Options { into: c, ..acc })
                    } else {
                        parse_from(args, i + 2, Options { from: c, ..acc })
                    },
                    None => Err(ArgumentError::ArgumentInvalid),
                }
            }
        } else if is_option(a, "-i"@, "--input"@) || is_option(a, "-o"@, "--output"@) {
            if i + 1 >= args.len() {
                Err(ArgumentError::ArgumentMissing)
            } else if is_option(a, "-i"@, "--input"@) {
                parse_from(args, i + 2, Options { input: Some((i + 1) as usize), ..acc })
            } else {
                parse_from(args, i + 2, Options { output: Some((i + 1) as usize), ..acc })
            }
        } else if is_option(a, "-d"@, "--skip-digraph"@) {
            parse_from(args, i + 1, Options { skip_digraph: true, ..acc })
        } else if is_option(a, "-u"@, "--force-foreign"@) {
            parse_from(args, i + 1, Options { force_foreign: true, ..acc })
        } else if is_option(a, "-l"@, "--force-links"@) {
            parse_from(args, i + 1, Options { force_links: true, ..acc })
        } else if is_option(a, "-p"@, "--pandoc-filter"@) {
            parse_from(args, i + 1, Options { pandoc_mode: true, ..acc })
        } else {
            Err(ArgumentError::ArgumentUnknown)
        }
    }
}

/// The views of the arguments.
pub open spec fn views(args: Seq<String>) -> Seq<Seq<char>> {
    args.map_values(|a: String| a@)
}

fn matches_option(a: &str, short: &str, long: &str) -> (r: bool)
    ensures
        r == is_option(a@, short@, long@),
{
    same_text(a, short) || same_text(a, long)
}

/// Reads the command-line arguments, without the program's name.
pub fn parse_arguments(args: &Vec<String>) -> (r: Result<Request, ArgumentError>)
    ensures
        r == parse_from(views(args@), 0, default_options()),
{
    let ghost v = views(args@);
    let mut acc = Options {
        from: Charset::Latin,
        into: Charset::Cyrillic,
        skip_digraph: false,
        force_foreign: false,
        force_links: false,
        pandoc_mode: false,
        input: None,
        output: None,
    };
    let mut i: usize = 0;
    while i < args.len()
        invariant
            v == views(args@),
            v.len() == args@.len(),
            i <= args@.len(),
            parse_from(v, 0, default_options()) == parse_from(v, i as int, acc),
        decreases args@.len() - i,
    {
        let a = args[i].as_str();
        assert(a@ == v[i as int]);
        if matches_option(a, "-v", "--version") {
            return Ok(Request::Version);
        } else if matches_option(a, "-h", "--help") {
            return Ok(Request::Help);
        } else if matches_option(a, "-t", "--into") || matches_option(a, "-f", "--from") {
            if i + 1 >= args.len() {
                return Err(ArgumentError::ArgumentMissing);
            }
            let value = args[i + 1].as_str();
            assert(value@ == v[i + 1]);
            match Charset::parse(value) {
                Some(c) => {
                    if matches_option(a, "-t", "--into") {
                        acc = Options { into: c, ..acc };
                    } else {
                        acc = Options { from: c, ..acc };
                    }
                },
                None => {
                    return Err(ArgumentError::ArgumentInvalid);
                },
            }
            i = i + 2;
        } else if matches_option(a, "-i", "--input") || matches_option(a, "-o", "--output") {
            if i + 1 >= args.len() {
                return Err(ArgumentError::ArgumentMissing);
            }
            if matches_option(a, "-i", "--input") {
                acc = Options { input: Some(i + 1), ..acc };
            } else {
                acc = Options { output: Some(i + 1), ..acc };
            }
            i = i + 2;
        } else if matches_option(a, "-d", "--skip-digraph") {
            acc = Options { skip_digraph: true, ..acc };
            i = i + 1;
        } else if matches_option(a, "-u", "--force-foreign") {
            acc = Options { force_foreign: true, ..acc };
            i = i + 1;
        } else if matches_option(a, "-l", "--force-links") {
            acc = Options { force_links: true, ..acc };
            i = i + 1;
        } else if matches_option(a, "-p", "--pandoc-filter") {
            acc = Options { pandoc_mode: true, ..acc };
            i = i + 1;
        } else {
            return Err(ArgumentError::ArgumentUnknown);
        }
    }
    Ok(Request::Run(acc))
}

/// The value of a yes-or-no setting: `default` where it is unset, false where it is
/// `0`, `false` or `no`, and true for any other value.
pub open spec fn flag_value(value: Option<Seq<char>>, default: bool) -> bool {
    match value {
        None => default,
        Some(v) => !(v == "0"@ || v == "false"@ || v == "no"@),
    }
}

/// Reads a yes-or-no setting.
pub fn env_flag(value: Option<&str>, default: bool) -> (r: bool)
    ensures
        r == flag_value(
            match value {
                Some(v) => Some(v@),
                None => None,
            },
            default,
        ),
{
    match value {
        None => default,
        Some(v) => !(same_text(v, "0") || same_text(v, "false") || same_text(v, "no")),
    }
}

/// Reads a script setting: `default` where it is unset or empty, the script it names
/// otherwise, and `ArgumentInvalid` where it names none.
pub fn env_charset(value: Option<&str>, default: Charset) -> (r: Result<Charset, ArgumentError>)
    ensures
        match value {
            None => r == Ok::<Charset, ArgumentError>(default),
            Some(v) => if v@.len() == 0 {
                r == Ok::<Charset, ArgumentError>(default)
            } else {
                match charset_named(v@) {
                    Some(c) => r == Ok::<Charset, ArgumentError>(c),
                    None => r matches Err(ArgumentError::ArgumentInvalid),
                }
            },
        },
{
    match value {
        None => Ok(default),
        Some(v) => {
            if v.is_empty() {
                Ok(default)
            } else {
                match Charset::parse(v) {
                    Some(c) => Ok(c),
                    None => Err(ArgumentError::ArgumentInvalid),
                }
            }
        },
    }
}

} // verus!
