use cinit::common::{Error, TemplateKind, UrlError, UrlParseErrorKind};
use cinit::common::UrlParseErrorKind as K;
use url::ParseError as P;
use cinit::dependency::{check_url_parts, parse_dependency_url, Dependencies, Dependency, UrlParts, URL_RAYLIB_DEFAULT};

#[test]
fn template_kind_names() {
    assert_eq!(TemplateKind::Main.as_str(), "main");
    assert_eq!(TemplateKind::Raylib.as_str(), "rl");
}

#[test]
fn url_gives_archive_name() {
    let r = parse_dependency_url("https://github.com/owner/repo/releases/download/v1/pkg-1.0.zip");
    assert_eq!(r, Ok("pkg-1.0".to_string()));
}

#[test]
fn raylib_url_is_accepted() {
    assert_eq!(parse_dependency_url(URL_RAYLIB_DEFAULT), Ok("raylib-5.5_win64_mingw-w64".to_string()));
}

#[test]
fn url_query_is_not_part_of_the_name() {
    let r = parse_dependency_url("https://github.com/a/b.zip?x=1");
    assert_eq!(r, Ok("b".to_string()));
}

#[test]
fn url_not_https() {
    assert_eq!(parse_dependency_url("http://github.com/a/b.zip"), Err(UrlError::NotHttps));
}

#[test]
fn url_not_github() {
    assert_eq!(parse_dependency_url("https://gitlab.com/a/b.zip"), Err(UrlError::NotGithub));
}

#[test]
fn url_host_checked_before_path() {
    assert_eq!(parse_dependency_url("https://example.com/a/b.tar"), Err(UrlError::NotGithub));
}

#[test]
fn url_not_zip() {
    assert_eq!(parse_dependency_url("https://github.com/a/b.tar.gz"), Err(UrlError::NotZip));
}

#[test]
fn url_invalid() {
    assert_eq!(
        parse_dependency_url("github.com/a/b.zip"),
        Err(UrlError::InvalidUrl(UrlParseErrorKind::RelativeUrlWithoutBase))
    );
}

#[test]
fn url_parts_checked_in_order() {
    let parts = UrlParts { scheme: "ftp".to_string(), host: None, path: "/x".to_string() };
    assert_eq!(check_url_parts(&parts), Err(UrlError::NotHttps));
    let parts = UrlParts { scheme: "https".to_string(), host: None, path: "/x.zip".to_string() };
    assert_eq!(check_url_parts(&parts), Err(UrlError::NotGithub));
    let parts = UrlParts {
        scheme: "https".to_string(),
        host: Some("github.com".to_string()),
        path: "/a/.zip".to_string(),
    };
    assert_eq!(check_url_parts(&parts), Ok(String::new()));
    let parts = UrlParts {
        scheme: "https".to_string(),
        host: Some("github.com".to_string()),
        path: "lib.zip".to_string(),
    };
    assert_eq!(check_url_parts(&parts), Ok("lib".to_string()));
}

#[test]
fn dependency_builder() {
    let d = Dependency::new("a".to_string(), "u".to_string());
    assert!(!d.no_root);
    let d = d.no_root(true);
    assert!(d.no_root);
    assert_eq!(d.name, "a");
    assert_eq!(d.url, "u");
}

#[test]
fn template_dependencies() {
    assert!(Dependencies::from_template(TemplateKind::Main).is_none());
    let d = Dependencies::from_template(TemplateKind::Raylib).unwrap();
    assert_eq!(d.len(), 1);
    assert_eq!(d.get(0).name, "raylib");
    assert_eq!(d.get(0).url, URL_RAYLIB_DEFAULT);
    assert!(!d.get(0).no_root);
    assert_eq!(Dependencies::empty().len(), 0);
}

#[test]
fn add_dependency_named_or_from_url() {
    let mut d = Dependencies::empty();
    assert_eq!(d.add_dependency(None, "https://github.com/a/glfw.zip", false), Ok(()));
    assert_eq!(d.add_dependency(Some("x".to_string()), "https://github.com/a/y.zip", true), Ok(()));
    assert_eq!(d.add_dependency(Some("z".to_string()), "https://github.com/a/y.tar", true), Err(UrlError::NotZip));
    assert_eq!(d.len(), 2);
    assert_eq!(d.get(0).name, "glfw");
    assert_eq!(d.get(1).name, "x");
    assert!(d.get(1).no_root);
}

fn three() -> Dependencies {
    let mut d = Dependencies::empty();
    d.add_dependency(None, "https://github.com/a/a.zip", false).unwrap();
    d.add_dependency(None, "https://github.com/a/b.zip", false).unwrap();
    d.add_dependency(None, "https://github.com/a/c.zip", false).unwrap();
    d
}

#[test]
fn remove_dependencies_in_turn() {
    let mut d = three();
    // removing position 0, then position 1 of what is left: a, then c
    d.remove_dependencies(&[0, 1]);
    assert_eq!(d.len(), 1);
    assert_eq!(d.get(0).name, "b");
}

#[test]
fn deps_file_text() {
    let mut d = Dependencies::empty();
    d.add_dependency(None, "https://github.com/a/a.zip", true).unwrap();
    d.add_dependency(None, "https://github.com/a/b.zip", false).unwrap();
    assert_eq!(d.file_text(), "a nr https://github.com/a/a.zip\nb r https://github.com/a/b.zip");
    assert_eq!(Dependencies::empty().file_text(), "");
}

#[test]
fn deps_file_round_trip() {
    let d = three();
    let text = d.file_text();
    let back = Dependencies::parse(&text).unwrap();
    assert_eq!(back.file_text(), text);
    assert_eq!(back.len(), 3);
    assert_eq!(back.get(2).name, "c");
}

#[test]
fn parse_deps_lines() {
    let d = Dependencies::parse("x nr https://github.com/a/b.zip extra\r\n  y   r   https://github.com/a/c.zip\n").unwrap();
    assert_eq!(d.len(), 2);
    assert_eq!(d.get(0).name, "x");
    assert!(d.get(0).no_root);
    assert_eq!(d.get(1).name, "y");
    assert_eq!(d.get(1).url, "https://github.com/a/c.zip");
    assert_eq!(Dependencies::parse("").unwrap().len(), 0);
}

#[test]
fn parse_deps_errors() {
    let msg = |r: Result<Dependencies, Error>| match r {
        Err(Error::ParseError(m)) => m,
        _ => panic!("expected a parse error"),
    };
    assert_eq!(msg(Dependencies::parse("\n")), "Deps file has no dependency name");
    assert_eq!(msg(Dependencies::parse("a r https://github.com/a/b.zip\n\n")), "Deps file has no dependency name");
    assert_eq!(msg(Dependencies::parse("a")), "Deps file has no dependency name");
    assert_eq!(msg(Dependencies::parse("a x")), "Deps file has an invalid no_root flag");
    assert_eq!(msg(Dependencies::parse("a x u")), "Deps file has an invalid no_root flag");
    assert_eq!(msg(Dependencies::parse("a nr")), "Deps file has no url");
    assert!(matches!(
        Dependencies::parse("a r https://gitlab.com/a.zip"),
        Err(Error::UrlError(UrlError::NotGithub))
    ));
}

#[test]
fn deps_from_file_if_exists() {
    assert!(matches!(Dependencies::from_file_if_exists(Ok(None)), Ok(None)));
    assert!(matches!(
        Dependencies::from_file_if_exists(Err(Error::Io("denied".to_string()))),
        Err(Error::Io(m)) if m == "denied"
    ));
    let r = Dependencies::from_file_if_exists(Ok(Some("q r https://github.com/a/q.zip".to_string()))).unwrap().unwrap();
    assert_eq!(r.get(0).name, "q");
}

#[test]
fn deps_flags_and_listing() {
    let d = three();
    assert_eq!(d.flags("-Ilib\\", "\\include"), "-Ilib\\a\\include -Ilib\\b\\include -Ilib\\c\\include");
    assert_eq!(
        d.listing(),
        "a: https://github.com/a/a.zip\nb: https://github.com/a/b.zip\nc: https://github.com/a/c.zip\n"
    );
    assert_eq!(d.duplicate().file_text(), d.file_text());
    assert_eq!(d.as_slice().len(), 3);
}

#[test]
fn bare_zip_name_is_empty_not_refused() {
    assert_eq!(parse_dependency_url("https://github.com/a/.zip"), Ok(String::new()));
}

#[test]
fn empty_url_is_relative_without_base() {
    assert_eq!(parse_dependency_url(""), Err(UrlError::InvalidUrl(UrlParseErrorKind::RelativeUrlWithoutBase)));
}

#[test]
fn url_error_kind_follows_the_url_crate() {
    assert_eq!(
        parse_dependency_url("https://github.com:99999/a.zip"),
        Err(UrlError::InvalidUrl(UrlParseErrorKind::InvalidPort))
    );
    assert_eq!(parse_dependency_url("https:///a.zip").is_err(), true);
    assert_eq!(parse_dependency_url("https://[::1/a.zip"), Err(UrlError::InvalidUrl(UrlParseErrorKind::InvalidIpv6Address)));
}

#[test]
fn error_kind_descriptions_match_the_url_crate() {
    let pairs = [
        (P::EmptyHost, K::EmptyHost),
        (P::IdnaError, K::IdnaError),
        (P::InvalidPort, K::InvalidPort),
        (P::InvalidIpv4Address, K::InvalidIpv4Address),
        (P::InvalidIpv6Address, K::InvalidIpv6Address),
        (P::InvalidDomainCharacter, K::InvalidDomainCharacter),
        (P::RelativeUrlWithoutBase, K::RelativeUrlWithoutBase),
        (P::RelativeUrlWithCannotBeABaseBase, K::RelativeUrlWithCannotBeABaseBase),
        (P::SetHostOnCannotBeABaseUrl, K::SetHostOnCannotBeABaseUrl),
        (P::Overflow, K::Overflow),
    ];
    for (p, k) in pairs {
        assert_eq!(p.to_string(), k.description());
    }
}
