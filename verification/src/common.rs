use vstd::prelude::*;

verus! {

/// The starting point a new project is created from.
#[derive(Clone, Copy, Debug, PartialEq, Eq)]
pub enum TemplateKind {
    Main,
    Raylib,
}

impl TemplateKind {
    /// The name under which the kind is stored in the project's cache file.
    pub open spec fn spec_name(self) -> Seq<char> {
        match self {
            TemplateKind::Main => "main"@,
            TemplateKind::Raylib => "rl"@,
        }
    }

    pub fn as_str(&self) -> (r: &'static str)
        ensures
            r@ == self.spec_name(),
    {
        match self {
            TemplateKind::Main => "main",
            TemplateKind::Raylib => "rl",
        }
    }
}

/// The kinds of error with which the url crate (`url::ParseError`) refuses
/// to parse a URL; `Unknown` stands for a kind that the crate's version in
/// use does not have.
#[derive(Clone, Copy, Debug, PartialEq, Eq)]
pub enum UrlParseErrorKind {
    EmptyHost,
    IdnaError,
    InvalidPort,
    InvalidIpv4Address,
    InvalidIpv6Address,
    InvalidDomainCharacter,
    RelativeUrlWithoutBase,
    RelativeUrlWithCannotBeABaseBase,
    SetHostOnCannotBeABaseUrl,
    Overflow,
    Unknown,
}

impl UrlParseErrorKind {
    /// How the url crate describes the error (its `Display`).
    pub open spec fn spec_description(self) -> Seq<char> {
        match self {
            UrlParseErrorKind::EmptyHost => "empty host"@,
            UrlParseErrorKind::IdnaError => "invalid international domain name"@,
            UrlParseErrorKind::InvalidPort => "invalid port number"@,
            UrlParseErrorKind::InvalidIpv4Address => "invalid IPv4 address"@,
            UrlParseErrorKind::InvalidIpv6Address => "invalid IPv6 address"@,
            UrlParseErrorKind::InvalidDomainCharacter => "invalid domain character"@,
            UrlParseErrorKind::RelativeUrlWithoutBase => "relative URL without a base"@,
            UrlParseErrorKind::RelativeUrlWithCannotBeABaseBase =>
                "relative URL with a cannot-be-a-base base"@,
            UrlParseErrorKind::SetHostOnCannotBeABaseUrl =>
                "a cannot-be-a-base URL doesn\u{2019}t have a host to set"@,
            UrlParseErrorKind::Overflow => "URLs more than 4 GB are not supported"@,
            UrlParseErrorKind::Unknown => "unknown URL parse error"@,
        }
    }

    pub fn description(&self) -> (r: &'static str)
        ensures
            r@ == self.spec_description(),
    {
        match self {
            UrlParseErrorKind::EmptyHost => "empty host",
            UrlParseErrorKind::IdnaError => "invalid international domain name",
            UrlParseErrorKind::InvalidPort => "invalid port number",
            UrlParseErrorKind::InvalidIpv4Address => "invalid IPv4 address",
            UrlParseErrorKind::InvalidIpv6Address => "invalid IPv6 address",
            UrlParseErrorKind::InvalidDomainCharacter => "invalid domain character",
            UrlParseErrorKind::RelativeUrlWithoutBase => "relative URL without a base",
            UrlParseErrorKind::RelativeUrlWithCannotBeABaseBase =>
                "relative URL with a cannot-be-a-base base",
            UrlParseErrorKind::SetHostOnCannotBeABaseUrl =>
                "a cannot-be-a-base URL doesn\u{2019}t have a host to set",
            UrlParseErrorKind::Overflow => "URLs more than 4 GB are not supported",
            UrlParseErrorKind::Unknown => "unknown URL parse error",
        }
    }
}

/// Why a dependency URL was refused.
#[derive(Debug, PartialEq, Eq)]
pub enum UrlError {
    /// The url crate could not parse it.
    InvalidUrl(UrlParseErrorKind),
    NotGithub,
    NotHttps,
    NoFileName,
    NotZip,
}

/// The errors of the tool.
#[derive(Debug, PartialEq, Eq)]
pub enum Error {
    /// Reading or writing a file failed; the system's message.
    Io(String),
    /// Setting up a project found this path already there.
    AlreadyExists(String),
    /// The project at this init directory has not been set up.
    NeedInit(String),
    /// A project file is malformed; what is wrong.
    ParseError(String),
    /// The project already has this flag.
    CFlagNotUnique(String),
    /// The project does not have this flag.
    CFlagNotFound(String),
    UrlError(UrlError),
    /// No dependency has this name.
    DepNotFoundByName(String),
}

/// The text of a refusal.
pub open spec fn url_error_text(e: UrlError) -> Seq<char> {
    match e {
        UrlError::InvalidUrl(k) => "invalid url: "@ + k.spec_description(),
        UrlError::NotGithub => "url host is not github.com"@,
        UrlError::NotHttps => "url scheme is not https"@,
        UrlError::NoFileName => "could not determine file name from url"@,
        UrlError::NotZip => "url does not point to a .zip file"@,
    }
}

/// The text of an error.
pub open spec fn error_text(e: Error) -> Seq<char> {
    match e {
        Error::Io(m) => "IO error: "@ + m@,
        Error::AlreadyExists(p) => "Init failed: "@ + p@ + " already exists."@,
        Error::NeedInit(p) => "Failed: unable to find .init directory at path: "@ + p@
            + ". You need to run init to setup a project."@,
        Error::ParseError(m) => "Parsing cache file failed: "@ + m@ + "."@,
        Error::CFlagNotUnique(f) => "Provided cflag '"@ + f@ + "' already exists"@,
        Error::CFlagNotFound(f) => "Provided cflag '"@ + f@ + "' doesn't exists"@,
        Error::UrlError(u) => "Url parse error: "@ + url_error_text(u),
        Error::DepNotFoundByName(n) => "Dependency not found: "@ + n@,
    }
}

/// Joins `a` and `b`.
fn concat2(a: &str, b: &str) -> (r: String)
    ensures
        r@ == a@ + b@,
{
    let mut s = a.to_owned();
    s.append(b);
    s
}

/// Joins `a`, `b` and `c`.
fn concat3(a: &str, b: &str, c: &str) -> (r: String)
    ensures
        r@ == a@ + b@ + c@,
{
    let mut s = a.to_owned();
    s.append(b);
    s.append(c);
    s
}

impl UrlError {
    /// The text that describes the refusal.
    pub fn to_text(&self) -> (r: String)
        ensures
            r@ == url_error_text(*self),
    {
        match self {
            UrlError::InvalidUrl(k) => concat2("invalid url: ", k.description()),
            UrlError::NotGithub => "url host is not github.com".to_owned(),
            UrlError::NotHttps => "url scheme is not https".to_owned(),
            UrlError::NoFileName => "could not determine file name from url".to_owned(),
            UrlError::NotZip => "url does not point to a .zip file".to_owned(),
        }
    }
}

impl Error {
    /// The text that describes the error.
    pub fn to_text(&self) -> (r: String)
        ensures
            r@ == error_text(*self),
    {
        match self {
            Error::Io(m) => concat2("IO error: ", m.as_str()),
            Error::AlreadyExists(p) => concat3("Init failed: ", p.as_str(), " already exists."),
            Error::NeedInit(p) => concat3(
                "Failed: unable to find .init directory at path: ",
                p.as_str(),
                ". You need to run init to setup a project.",
            ),
            Error::ParseError(m) => concat3("Parsing cache file failed: ", m.as_str(), "."),
            Error::CFlagNotUnique(f) => concat3("Provided cflag '", f.as_str(), "' already exists"),
            Error::CFlagNotFound(f) => concat3("Provided cflag '", f.as_str(), "' doesn't exists"),
            Error::UrlError(u) => {
                let t = u.to_text();
                concat2("Url parse error: ", t.as_str())
            },
            Error::DepNotFoundByName(n) => concat2("Dependency not found: ", n.as_str()),
        }
    }
}


impl From<UrlError> for Error {
    fn from(value: UrlError) -> (r: Self) {
        Error::UrlError(value)
    }
}

impl vstd::std_specs::convert::FromSpecImpl<UrlError> for Error {
    open spec fn obeys_from_spec() -> bool {
        true
    }

    open spec fn from_spec(v: UrlError) -> Error {
        Error::UrlError(v)
    }
}

} // verus!
