use cinit::cflags::{add_flags, normalize_flag, remove_flags};
use cinit::common::{Error, UrlError, UrlParseErrorKind};
use cinit::text::{ends_with, is_whitespace, join_strings, split_lines, split_whitespace, starts_with_char, str_eq};

#[test]
fn whitespace_like_std() {
    for c in [' ', '\t', '\n', '\r', '\u{b}', '\u{c}', '\u{85}', '\u{a0}', '\u{2003}', '\u{3000}', 'a', '-', '越', '\u{200b}'] {
        assert_eq!(is_whitespace(c), c.is_whitespace(), "{:?}", c);
    }
}

#[test]
fn split_whitespace_like_std() {
    for s in ["", "  ", "a", " a  b\tc\n", "x\u{a0}y", "tok"] {
        let want: Vec<String> = s.split_whitespace().map(|t| t.to_string()).collect();
        assert_eq!(split_whitespace(s), want);
    }
}

#[test]
fn lines() {
    assert_eq!(split_lines(""), Vec::<String>::new());
    assert_eq!(split_lines("a\n"), vec!["a".to_string()]);
    assert_eq!(split_lines("\n"), vec!["".to_string()]);
    assert_eq!(split_lines("a\nb"), vec!["a".to_string(), "b".to_string()]);
    assert_eq!(split_lines("a\n\nb\n"), vec!["a".to_string(), "".to_string(), "b".to_string()]);
}

#[test]
fn join_and_compare() {
    assert_eq!(join_strings(&vec!["a".to_string(), "b".to_string()], ", "), "a, b");
    assert_eq!(join_strings(&vec![], ", "), "");
    assert!(str_eq("abc", "abc"));
    assert!(!str_eq("abc", "abd"));
    assert!(ends_with("x.zip", ".zip"));
    assert!(!ends_with("zip", ".zip"));
    assert!(starts_with_char("-O2", '-'));
    assert!(!starts_with_char("", '-'));
}

#[test]
fn flag_normalization() {
    assert_eq!(normalize_flag("O2"), "-O2");
    assert_eq!(normalize_flag("-g"), "-g");
}

#[test]
fn adding_flags() {
    assert_eq!(add_flags("-Wall -O1", "g -O3").unwrap(), "-Wall -O1 -g -O3");
    assert_eq!(add_flags("-Wall", "").unwrap(), "-Wall ");
    assert!(matches!(add_flags("-Wall -g", "x g Wall"), Err(Error::CFlagNotUnique(f)) if f == "-g"));
}

#[test]
fn removing_flags() {
    assert_eq!(remove_flags("-Wall -g -O2 -g", "g").unwrap(), "-Wall -O2");
    assert_eq!(remove_flags("-a -b", "-a -b").unwrap(), "");
    assert!(matches!(remove_flags("-a -b", "c"), Err(Error::CFlagNotFound(f)) if f == "-c"));
    assert!(matches!(remove_flags("-a -b", "a a"), Err(Error::CFlagNotFound(f)) if f == "-a"));
}

#[test]
fn add_then_remove_gives_back_the_flags() {
    let old = "-Wall -O2";
    let added = add_flags(old, "g pedantic").unwrap();
    assert_eq!(remove_flags(&added, "g pedantic").unwrap(), old);
}

#[test]
fn error_texts() {
    assert_eq!(Error::Io("x".to_string()).to_text(), "IO error: x");
    assert_eq!(Error::AlreadyExists("C:\\p\\.init".to_string()).to_text(), "Init failed: C:\\p\\.init already exists.");
    assert_eq!(
        Error::NeedInit("/p/.init".to_string()).to_text(),
        "Failed: unable to find .init directory at path: /p/.init. You need to run init to setup a project."
    );
    assert_eq!(Error::ParseError("bad".to_string()).to_text(), "Parsing cache file failed: bad.");
    assert_eq!(Error::CFlagNotUnique("-g".to_string()).to_text(), "Provided cflag '-g' already exists");
    assert_eq!(Error::CFlagNotFound("-g".to_string()).to_text(), "Provided cflag '-g' doesn't exists");
    assert_eq!(Error::DepNotFoundByName("z".to_string()).to_text(), "Dependency not found: z");
    assert_eq!(Error::UrlError(UrlError::NotZip).to_text(), "Url parse error: url does not point to a .zip file");
    assert_eq!(UrlError::NotGithub.to_text(), "url host is not github.com");
    assert_eq!(UrlError::NotHttps.to_text(), "url scheme is not https");
    assert_eq!(UrlError::NoFileName.to_text(), "could not determine file name from url");
    assert_eq!(
        Error::UrlError(UrlError::InvalidUrl(UrlParseErrorKind::EmptyHost)).to_text(),
        "Url parse error: invalid url: empty host"
    );
    assert_eq!(Error::from(UrlError::NotHttps), Error::UrlError(UrlError::NotHttps));
}
