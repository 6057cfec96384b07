use serbian_translit::cli::{env_charset, env_flag, parse_arguments, ArgumentError, Request};
use serbian_translit::Charset;

fn args(list: &[&str]) -> Vec<String> {
    list.iter().map(|a| a.to_string()).collect()
}

#[test]
fn charset_names() {
    for name in ["latin", "lat", "l"] {
        assert_eq!(Charset::parse(name), Some(Charset::Latin));
    }
    for name in ["latin8", "lat8", "l8"] {
        assert_eq!(Charset::parse(name), Some(Charset::LatinUnicode));
    }
    for name in ["cyrillic", "cyr", "c"] {
        assert_eq!(Charset::parse(name), Some(Charset::Cyrillic));
    }
    assert_eq!(Charset::parse("Latin"), None);
    assert_eq!(Charset::parse(""), None);
}

#[test]
fn no_arguments_give_defaults() {
    match parse_arguments(&args(&[])) {
        Ok(Request::Run(o)) => {
            assert_eq!(o.from, Charset::Latin);
            assert_eq!(o.into, Charset::Cyrillic);
            assert!(!o.skip_digraph && !o.force_foreign && !o.force_links && !o.pandoc_mode);
            assert_eq!(o.input, None);
            assert_eq!(o.output, None);
        }
        other => panic!("{:?}", other),
    }
}

#[test]
fn options_are_read() {
    let a = args(&["-f", "cyr", "--into", "lat8", "-d", "-u", "-l", "-i", "in.txt", "--output", "out.txt"]);
    match parse_arguments(&a) {
        Ok(Request::Run(o)) => {
            assert_eq!(o.from, Charset::Cyrillic);
            assert_eq!(o.into, Charset::LatinUnicode);
            assert!(o.skip_digraph && o.force_foreign && o.force_links && !o.pandoc_mode);
            assert_eq!(o.input, Some(8));
            assert_eq!(o.output, Some(10));
        }
        other => panic!("{:?}", other),
    }
}

#[test]
fn argument_faults() {
    assert!(matches!(parse_arguments(&args(&["-t"])), Err(ArgumentError::ArgumentMissing)));
    assert!(matches!(parse_arguments(&args(&["-o"])), Err(ArgumentError::ArgumentMissing)));
    assert!(matches!(parse_arguments(&args(&["-x"])), Err(ArgumentError::ArgumentUnknown)));
    assert!(matches!(
        parse_arguments(&args(&["-t", "greek"])),
        Err(ArgumentError::ArgumentInvalid)
    ));
}

#[test]
fn help_and_version_stop_reading() {
    assert!(matches!(parse_arguments(&args(&["-v", "-x"])), Ok(Request::Version)));
    assert!(matches!(parse_arguments(&args(&["-d", "--help", "-t"])), Ok(Request::Help)));
    assert!(matches!(parse_arguments(&args(&["-x", "-v"])), Err(ArgumentError::ArgumentUnknown)));
}

#[test]
fn environment_settings() {
    assert!(env_flag(None, true));
    assert!(!env_flag(None, false));
    for v in ["0", "false", "no"] {
        assert!(!env_flag(Some(v), true));
    }
    for v in ["1", "yes", "", "No"] {
        assert!(env_flag(Some(v), false));
    }
    assert_eq!(env_charset(None, Charset::Latin).unwrap(), Charset::Latin);
    assert_eq!(env_charset(Some(""), Charset::Cyrillic).unwrap(), Charset::Cyrillic);
    assert_eq!(env_charset(Some("lat8"), Charset::Latin).unwrap(), Charset::LatinUnicode);
    assert!(matches!(env_charset(Some("greek"), Charset::Latin), Err(ArgumentError::ArgumentInvalid)));
}
