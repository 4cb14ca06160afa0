use vstd::prelude::*;

use crate::common::{Error, TemplateKind, UrlError, UrlParseErrorKind};
use crate::common::UrlParseErrorKind as K;
use url::ParseError as P;
use crate::text::{
    chars_of, ends_with, has_suffix, join, join_strings, lines_of, split_lines, split_whitespace,
    str_eq, views, ws_tokens, is_ws, ws_scan, lemma_ws_scan_word, lemma_ws_scan_space,
    lemma_lines_of_join, lemma_join_starts_with_first,
};

verus! {

/// Where the raylib template downloads raylib from.
pub const URL_RAYLIB_DEFAULT: &'static str =
    "https://github.com/raysan5/raylib/releases/download/5.5/raylib-5.5_win64_mingw-w64.zip";

/// The parts of a parsed URL that the dependency rules read.
pub struct UrlParts {
    pub scheme: String,
    pub host: Option<String>,
    pub path: String,
}

/// The view of an optional string.
pub open spec fn opt_view(o: Option<String>) -> Option<Seq<char>> {
    match o {
        Some(s) => Some(s@),
        None => None,
    }
}

/// What `url::Url::parse` makes of a non-empty `input`: the URL's scheme,
/// host (as `Url::host_str` gives it) and path, or the kind of error with
/// which it refuses the input.
pub uninterp spec fn url_parse_result(input: Seq<char>) -> Result<
    (Seq<char>, Option<Seq<char>>, Seq<char>),
    UrlParseErrorKind,
>;

/// What `url::Url::parse` makes of `input`: an empty input is refused as a
/// relative URL without a base.
pub open spec fn url_parse(input: Seq<char>) -> Result<
    (Seq<char>, Option<Seq<char>>, Seq<char>),
    UrlParseErrorKind,
> {
    if input.len() == 0 {
        Err(UrlParseErrorKind::RelativeUrlWithoutBase)
    } else {
        url_parse_result(input)
    }
}

/// A refusal to parse a URL, of the kind `k`.
pub open spec fn refusal(k: UrlParseErrorKind) -> Result<UrlParts, UrlParseErrorKind> {
    Err(k)
}

/// Parses `input` with `url::Url::parse` and, where it succeeds, reads the
/// URL's scheme, host and path with `Url::scheme`, `Url::host_str` and
/// `Url::path`; where it fails, gives the kind of the `url::ParseError`.
/// Trusted: for a non-empty input the outcome is what `url_parse_result`
/// names for it (WHATWG URL parsing, a function of the input alone); an
/// empty input has no scheme and, with no base URL, is refused as
/// `RelativeUrlWithoutBase` (url's `Parser::parse_url`).
#[verifier::external_body]
fn parse_url(input: &str) -> (r: Result<UrlParts, UrlParseErrorKind>)
    ensures
        input@.len() == 0 ==> r == refusal(K::RelativeUrlWithoutBase),
        input@.len() > 0 ==> match url_parse_result(input@) {
            Ok(p) => r matches Ok(parts) && parts.scheme@ == p.0 && opt_view(parts.host) == p.1
                && parts.path@ == p.2,
            Err(k) => r == refusal(k),
        },
{
    let u = match url::Url::parse(input) {
        Ok(u) => u,
        Err(e) => return Err(match e {
            P::EmptyHost => K::EmptyHost, P::IdnaError => K::IdnaError, P::InvalidPort => K::InvalidPort,
            P::InvalidIpv4Address => K::InvalidIpv4Address, P::InvalidIpv6Address => K::InvalidIpv6Address,
            P::InvalidDomainCharacter => K::InvalidDomainCharacter, P::Overflow => K::Overflow,
            P::RelativeUrlWithoutBase => K::RelativeUrlWithoutBase,
            P::RelativeUrlWithCannotBeABaseBase => K::RelativeUrlWithCannotBeABaseBase,
            P::SetHostOnCannotBeABaseUrl => K::SetHostOnCannotBeABaseUrl, _ => K::Unknown,
        }),
    };
    let host = u.host_str().map(str::to_owned);
    Ok(UrlParts { scheme: u.scheme().to_owned(), host, path: u.path().to_owned() })
}

/// The last segment of a path: what follows its last '/', or all of it.
pub open spec fn last_segment(p: Seq<char>) -> Seq<char>
    decreases p.len(),
{
    if p.len() == 0 {
        p
    } else if p.last() == '/' {
        seq![]
    } else {
        last_segment(p.drop_last()).push(p.last())
    }
}

/// The rules a parsed dependency URL must meet, in the order they are
/// checked, and the dependency name it gives: the file name of the archive
/// without ".zip".
pub open spec fn url_rule(scheme: Seq<char>, host: Option<Seq<char>>, path: Seq<char>) -> Result<
    Seq<char>,
    UrlError,
> {
    if scheme != "https"@ {
        Err(UrlError::NotHttps)
    } else if host != Some("github.com"@) {
        Err(UrlError::NotGithub)
    } else if !has_suffix(path, ".zip"@) {
        Err(UrlError::NotZip)
    } else {
        let seg = last_segment(path);
        Ok(seg.take(seg.len() - 4))
    }
}

/// What a dependency URL gives: the dependency name, or the error with
/// which it is refused.
pub open spec fn url_verdict(url: Seq<char>) -> Result<Seq<char>, UrlError> {
    match url_parse(url) {
        Err(k) => Err(UrlError::InvalidUrl(k)),
        Ok(p) => url_rule(p.0, p.1, p.2),
    }
}

/// The dependency name that `url` gives, where it is an accepted dependency
/// URL.
pub open spec fn url_accepted(url: Seq<char>) -> Option<Seq<char>> {
    match url_verdict(url) {
        Ok(name) => Some(name),
        Err(_) => None,
    }
}

/// `e` is the error with which `url` is refused.
pub open spec fn url_refusal(url: Seq<char>, e: UrlError) -> bool {
    url_verdict(url) == Err::<Seq<char>, UrlError>(e)
}

proof fn lemma_last_segment_suffix(p: Seq<char>, k: int)
    requires
        0 <= k <= p.len(),
        forall|j: int| p.len() - k <= j < p.len() ==> p[j] != '/',
    ensures
        last_segment(p).len() >= k,
        last_segment(p).skip(last_segment(p).len() - k) == p.skip(p.len() - k),
    decreases k,
{
    if k > 0 {
        lemma_last_segment_suffix(p.drop_last(), k - 1);
        let ls = last_segment(p.drop_last());
        assert(last_segment(p) == ls.push(p.last()));
        assert(last_segment(p).skip(last_segment(p).len() - k) =~= ls.skip(ls.len() - (k - 1)).push(
            p.last(),
        ));
        assert(p.skip(p.len() - k) =~= p.drop_last().skip(p.drop_last().len() - (k - 1)).push(
            p.last(),
        ));
    } else {
        assert(last_segment(p).skip(last_segment(p).len() - k) =~= seq![]);
        assert(p.skip(p.len() - k) =~= seq![]);
    }
}

/// Checks the parts of a parsed URL against the dependency rules and gives
/// the dependency name.
pub fn check_url_parts(parts: &UrlParts) -> (r: Result<String, UrlError>)
    ensures
        match url_rule(parts.scheme@, opt_view(parts.host), parts.path@) {
            Ok(name) => r matches Ok(n) && n@ == name,
            Err(e) => r == Err::<String, UrlError>(e),
        },
{
    if !str_eq(parts.scheme.as_str(), "https") {
        return Err(UrlError::NotHttps);
    }
    let is_github = match &parts.host {
        Some(h) => str_eq(h.as_str(), "github.com"),
        None => false,
    };
    if !is_github {
        proof {
            if opt_view(parts.host) == Some("github.com"@) {
                assert(parts.host is Some);
            }
        }
        return Err(UrlError::NotGithub);
    }
    let path = parts.path.as_str();
    if !ends_with(path, ".zip") {
        return Err(UrlError::NotZip);
    }
    // the last segment of the path
    let cs = chars_of(path);
    let n = cs.len();
    let mut start: usize = 0;
    let mut i: usize = 0;
    while i < n
        invariant
            n == cs@.len(),
            cs@ == path@,
            start <= i <= n,
            last_segment(path@.take(i as int)) == path@.subrange(start as int, i as int),
        decreases n - i,
    {
        proof {
            assert(path@.take(i + 1).drop_last() =~= path@.take(i as int));
        }
        if cs[i] == '/' {
            start = i + 1;
            assert(path@.subrange(start as int, i + 1) =~= seq![]);
        } else {
            assert(path@.subrange(start as int, i + 1) =~= path@.subrange(start as int, i as int).push(
                cs@[i as int],
            ));
        }
        i = i + 1;
    }
    assert(path@.take(n as int) =~= path@);
    let seg = path.substring_char(start, n);
    proof {
        reveal_strlit(".zip");
        assert(".zip"@ =~= seq!['.', 'z', 'i', 'p']);
        assert(path@.len() >= 4);
        assert forall|j: int| path@.len() - 4 <= j < path@.len() implies path@[j] != '/' by {
            assert(path@[j] == path@.skip(path@.len() - 4)[j - (path@.len() - 4)]);
        }
        lemma_last_segment_suffix(path@, 4);
    }
    if !ends_with(seg, ".zip") {
        return Err(UrlError::NoFileName);
    }
    let seg_len = seg.unicode_len();
    let name = seg.substring_char(0, seg_len - 4).to_owned();
    assert(name@ =~= last_segment(path@).take(last_segment(path@).len() - 4));
    Ok(name)
}

/// Parses a dependency URL and gives the dependency name it names.
pub fn parse_dependency_url(url: &str) -> (r: Result<String, UrlError>)
    ensures
        match url_accepted(url@) {
            Some(name) => r matches Ok(n) && n@ == name,
            None => r matches Err(e) && url_refusal(url@, e),
        },
{
    match parse_url(url) {
        Err(k) => Err(UrlError::InvalidUrl(k)),
        Ok(parts) => check_url_parts(&parts),
    }
}


/// A library the project downloads into `lib\<name>`.
#[derive(Debug)]
pub struct Dependency {
    pub name: String,
    pub url: String,
    /// Whether the archive has no single root folder to strip.
    pub no_root: bool,
}

impl View for Dependency {
    type V = (Seq<char>, Seq<char>, bool);

    open spec fn view(&self) -> (Seq<char>, Seq<char>, bool) {
        (self.name@, self.url@, self.no_root)
    }
}

impl Dependency {
    pub fn new(name: String, url: String) -> (r: Self)
        ensures
            r@ == (name@, url@, false),
    {
        Dependency { name, url, no_root: false }
    }

    pub fn no_root(self, no_root: bool) -> (r: Self)
        ensures
            r@ == (self@.0, self@.1, no_root),
    {
        let mut d = self;
        d.no_root = no_root;
        d
    }
}

/// The views of a sequence of dependencies.
pub open spec fn dep_views(s: Seq<Dependency>) -> Seq<(Seq<char>, Seq<char>, bool)> {
    Seq::new(s.len(), |i: int| s[i]@)
}

/// The list of a project's dependencies, in the order they were added.
#[derive(Debug)]
pub struct Dependencies {
    inner: Vec<Dependency>,
}

impl View for Dependencies {
    type V = Seq<(Seq<char>, Seq<char>, bool)>;

    closed spec fn view(&self) -> Seq<(Seq<char>, Seq<char>, bool)> {
        dep_views(self.inner@)
    }
}

/// The dependencies a template starts with.
pub open spec fn template_deps(kind: TemplateKind) -> Option<Seq<(Seq<char>, Seq<char>, bool)>> {
    match kind {
        TemplateKind::Main => None,
        TemplateKind::Raylib => Some(seq![("raylib"@, URL_RAYLIB_DEFAULT@, false)]),
    }
}

/// `s` with the positions `idx` removed one after the other, each index
/// counted in the list as it stands after the removals before it.
pub open spec fn remove_in_turn<A>(s: Seq<A>, idx: Seq<usize>) -> Seq<A>
    decreases idx.len(),
{
    if idx.len() == 0 {
        s
    } else {
        remove_in_turn(s, idx.drop_last()).remove(idx.last() as int)
    }
}

/// Each removal of `remove_in_turn(s, idx)` is in bounds.
pub open spec fn removals_in_bounds(len: nat, idx: Seq<usize>) -> bool {
    forall|k: int| 0 <= k < idx.len() ==> #[trigger] idx[k] < len - k
}

/// The line of the dependency file that records `d`.
pub open spec fn dep_line(d: (Seq<char>, Seq<char>, bool)) -> Seq<char> {
    d.0 + " "@ + (if d.2 {
        "nr"@
    } else {
        "r"@
    }) + " "@ + d.1
}

/// The text of the dependency file that records `s`.
pub open spec fn deps_text(s: Seq<(Seq<char>, Seq<char>, bool)>) -> Seq<char> {
    join(Seq::new(s.len(), |i: int| dep_line(s[i])), "\n"@)
}

/// What one line of a dependency file says: name, no_root flag and URL, or
/// the message of the parse error it causes.
pub open spec fn parse_line(line: Seq<char>) -> Result<(Seq<char>, bool, Seq<char>), Seq<char>> {
    let t = ws_tokens(line);
    if t.len() < 2 {
        Err("Deps file has no dependency name"@)
    } else if t[1] != "nr"@ && t[1] != "r"@ {
        Err("Deps file has an invalid no_root flag"@)
    } else if t.len() < 3 {
        Err("Deps file has no url"@)
    } else {
        Ok((t[0], t[1] == "nr"@, t[2]))
    }
}

/// Why reading a dependency file failed.
pub enum DepsFailure {
    /// A line is malformed; the parse error's message.
    Line(Seq<char>),
    /// A line names this URL, which is refused.
    Url(Seq<char>),
}

/// What the lines of a dependency file give, read in order.
pub open spec fn parse_lines(lines: Seq<Seq<char>>) -> Result<
    Seq<(Seq<char>, Seq<char>, bool)>,
    DepsFailure,
>
    decreases lines.len(),
{
    if lines.len() == 0 {
        Ok(seq![])
    } else {
        match parse_lines(lines.drop_last()) {
            Err(f) => Err(f),
            Ok(ds) => match parse_line(lines.last()) {
                Err(m) => Err(DepsFailure::Line(m)),
                Ok((name, no_root, url)) => if url_accepted(url) is Some {
                    Ok(ds.push((name, url, no_root)))
                } else {
                    Err(DepsFailure::Url(url))
                },
            },
        }
    }
}

/// What a dependency file's text gives.
pub open spec fn parse_deps_text(text: Seq<char>) -> Result<
    Seq<(Seq<char>, Seq<char>, bool)>,
    DepsFailure,
> {
    parse_lines(lines_of(text))
}

/// `r` is the error that the failure `f` is reported as.
pub open spec fn deps_error(f: DepsFailure, r: Error) -> bool {
    match f {
        DepsFailure::Line(m) => r matches Error::ParseError(msg) && msg@ == m,
        DepsFailure::Url(u) => r matches Error::UrlError(e) && url_refusal(u, e),
    }
}

/// The flag that a build script gives gcc for each dependency, joined by
/// spaces: `pre` + name + `post`.
pub open spec fn dep_flags(s: Seq<(Seq<char>, Seq<char>, bool)>, pre: Seq<char>, post: Seq<char>) -> Seq<
    char,
> {
    join(Seq::new(s.len(), |i: int| pre + s[i].0 + post), " "@)
}

/// The flags of a non-empty list of dependencies start with `pre`.
pub proof fn lemma_dep_flags_start(s: Seq<(Seq<char>, Seq<char>, bool)>, pre: Seq<char>, post: Seq<char>)
    requires
        s.len() > 0,
    ensures
        dep_flags(s, pre, post).len() >= pre.len(),
        dep_flags(s, pre, post).subrange(0, pre.len() as int) == pre,
{
    let parts = Seq::new(s.len(), |i: int| pre + s[i].0 + post);
    assert(dep_flags(s, pre, post) == join(parts, " "@));
    lemma_join_starts_with_first(parts, " "@);
    assert(parts[0].subrange(0, pre.len() as int) =~= pre);
    assert(join(parts, " "@).subrange(0, pre.len() as int) =~= join(parts, " "@).subrange(
        0,
        parts[0].len() as int,
    ).subrange(0, pre.len() as int));
}

/// "name: url" and a newline, for each dependency.
pub open spec fn deps_listing(s: Seq<(Seq<char>, Seq<char>, bool)>) -> Seq<char>
    decreases s.len(),
{
    if s.len() == 0 {
        seq![]
    } else {
        deps_listing(s.drop_last()) + s.last().0 + ": "@ + s.last().1 + "\n"@
    }
}

impl Dependencies {
    pub fn from_template(kind: TemplateKind) -> (r: Option<Self>)
        ensures
            match r {
                Some(d) => template_deps(kind) == Some(d@),
                None => template_deps(kind) is None,
            },
    {
        match kind {
            TemplateKind::Main => None,
            TemplateKind::Raylib => {
                let d = Dependency::new("raylib".to_owned(), URL_RAYLIB_DEFAULT.to_owned());
                let mut inner: Vec<Dependency> = Vec::new();
                inner.push(d);
                let r = Dependencies { inner };
                assert(r@ =~= seq![("raylib"@, URL_RAYLIB_DEFAULT@, false)]);
                Some(r)
            },
        }
    }

    pub fn empty() -> (r: Self)
        ensures
            r@ == Seq::<(Seq<char>, Seq<char>, bool)>::empty(),
    {
        let r = Dependencies { inner: Vec::new() };
        assert(r@ =~= seq![]);
        r
    }

    pub fn len(&self) -> (r: usize)
        ensures
            r == self@.len(),
    {
        self.inner.len()
    }

    pub fn get(&self, i: usize) -> (r: &Dependency)
        requires
            i < self@.len(),
        ensures
            r@ == self@[i as int],
    {
        &self.inner[i]
    }

    /// A copy of the list.
    pub fn duplicate(&self) -> (r: Self)
        ensures
            r@ == self@,
    {
        let mut inner: Vec<Dependency> = Vec::new();
        let n = self.inner.len();
        let mut i: usize = 0;
        while i < n
            invariant
                n == self.inner@.len(),
                i <= n,
                dep_views(inner@) == dep_views(self.inner@).take(i as int),
            decreases n - i,
        {
            let d = &self.inner[i];
            let c = Dependency { name: d.name.clone(), url: d.url.clone(), no_root: d.no_root };
            assert(c@ == self.inner@[i as int]@);
            let ghost before = dep_views(inner@);
            inner.push(c);
            assert(dep_views(inner@) =~= before.push(c@));
            assert(dep_views(self.inner@).take(i + 1) =~= dep_views(self.inner@).take(i as int).push(
                self.inner@[i as int]@,
            ));
            i = i + 1;
        }
        let r = Dependencies { inner };
        assert(r@ =~= self@);
        r
    }

    /// The dependencies as a slice.
    pub fn as_slice(&self) -> (r: &[Dependency])
        ensures
            dep_views(r@) == self@,
    {
        self.inner.as_slice()
    }

    /// Adds the dependency at `url`, named `name` or else after the archive
    /// the URL points to; refuses a URL that is not an https github.com link
    /// to a .zip file.
    pub fn add_dependency(&mut self, name: Option<String>, url: &str, no_root: bool) -> (r: Result<
        (),
        UrlError,
    >)
        ensures
            match url_accepted(url@) {
                Some(from_url) => r is Ok && final(self)@ == old(self)@.push(
                    (
                        match name {
                            Some(n) => n@,
                            None => from_url,
                        },
                        url@,
                        no_root,
                    ),
                ),
                None => r matches Err(e) && url_refusal(url@, e) && final(self)@ == old(self)@,
            },
    {
        let name_from_url = match parse_dependency_url(url) {
            Ok(n) => n,
            Err(e) => return Err(e),
        };
        let name = match name {
            Some(n) => n,
            None => name_from_url,
        };
        let d = Dependency::new(name, url.to_owned()).no_root(no_root);
        let ghost before = self@;
        self.inner.push(d);
        assert(self@ =~= before.push(d@));
        Ok(())
    }

    /// Removes the dependencies at `indices`, one after the other.
    pub fn remove_dependencies(&mut self, indices: &[usize])
        requires
            removals_in_bounds(old(self)@.len(), indices@),
        ensures
            final(self)@ == remove_in_turn(old(self)@, indices@),
    {
        let n = indices.len();
        let mut k: usize = 0;
        while k < n
            invariant
                n == indices@.len(),
                k <= n,
                removals_in_bounds(old(self)@.len(), indices@),
                self@ == remove_in_turn(old(self)@, indices@.take(k as int)),
                self@.len() == old(self)@.len() - k,
            decreases n - k,
        {
            let idx = indices[k];
            assert(indices@[k as int] < old(self)@.len() - k);
            assert(indices@.take(k + 1).drop_last() =~= indices@.take(k as int));
            let ghost before = self@;
            self.inner.remove(idx);
            assert(self@ =~= before.remove(idx as int));
            k = k + 1;
        }
        assert(indices@.take(n as int) =~= indices@);
    }

    /// Reads the dependencies that the text of a dependency file records: a
    /// line "name r|nr url" for each, extra words ignored. Lines end at '\n';
    /// a '\r' before it is whitespace, so it belongs to no word.
    pub fn parse(text: &str) -> (r: Result<Self, Error>)
        ensures
            match parse_deps_text(text@) {
                Ok(ds) => r matches Ok(d) && d@ == ds,
                Err(f) => r matches Err(e) && deps_error(f, e),
            },
    {
        let lines = split_lines(text);
        let mut result = Dependencies::empty();
        let n = lines.len();
        let mut i: usize = 0;
        while i < n
            invariant
                n == lines@.len(),
                i <= n,
                views(lines@) == lines_of(text@),
                parse_lines(views(lines@).take(i as int)) == Ok::<
                    Seq<(Seq<char>, Seq<char>, bool)>,
                    DepsFailure,
                >(result@),
            decreases n - i,
        {
            let ghost pre = views(lines@).take(i as int);
            assert(views(lines@).take(i + 1).drop_last() =~= pre);
            assert(views(lines@).take(i + 1).last() == lines@[i as int]@);
            let toks = split_whitespace(lines[i].as_str());
            if toks.len() < 2 {
                proof {
                    lemma_parse_lines_prefix_fail(views(lines@), i as int + 1);
                }
                return Err(Error::ParseError("Deps file has no dependency name".to_owned()));
            }
            let is_nr = str_eq(toks[1].as_str(), "nr");
            let is_r = str_eq(toks[1].as_str(), "r");
            if !is_nr && !is_r {
                proof {
                    lemma_parse_lines_prefix_fail(views(lines@), i as int + 1);
                }
                return Err(Error::ParseError("Deps file has an invalid no_root flag".to_owned()));
            }
            if toks.len() < 3 {
                proof {
                    lemma_parse_lines_prefix_fail(views(lines@), i as int + 1);
                }
                return Err(Error::ParseError("Deps file has no url".to_owned()));
            }
            let name = toks[0].clone();
            match result.add_dependency(Some(name), toks[2].as_str(), is_nr) {
                Ok(()) => {},
                Err(e) => {
                    proof {
                        lemma_parse_lines_prefix_fail(views(lines@), i as int + 1);
                    }
                    return Err(Error::from(e));
                },
            }
            i = i + 1;
        }
        assert(views(lines@).take(n as int) =~= views(lines@));
        Ok(result)
    }

    /// Reads the dependency file, where there is one: `contents` is what
    /// reading it gave.
    pub fn from_file_if_exists(contents: Result<Option<String>, Error>) -> (r: Result<
        Option<Self>,
        Error,
    >)
        ensures
            match contents {
                Err(e) => r == Err::<Option<Self>, Error>(e),
                Ok(None) => r matches Ok(None),
                Ok(Some(text)) => match parse_deps_text(text@) {
                    Ok(ds) => r matches Ok(Some(d)) && d@ == ds,
                    Err(f) => r matches Err(e) && deps_error(f, e),
                },
            },
    {
        match contents {
            Err(e) => Err(e),
            Ok(None) => Ok(None),
            Ok(Some(text)) => match Self::parse(text.as_str()) {
                Ok(d) => Ok(Some(d)),
                Err(e) => Err(e),
            },
        }
    }

    /// The text of the dependency file: a line "name r url" or "name nr url"
    /// for each dependency, joined by newlines.
    pub fn file_text(&self) -> (r: String)
        ensures
            r@ == deps_text(self@),
    {
        let mut lines: Vec<String> = Vec::new();
        let n = self.inner.len();
        let mut i: usize = 0;
        while i < n
            invariant
                n == self@.len(),
                n == self.inner@.len(),
                i <= n,
                lines@.len() == i,
                forall|j: int| 0 <= j < i ==> #[trigger] lines@[j]@ == dep_line(self@[j]),
            decreases n - i,
        {
            let d = &self.inner[i];
            let mut line = d.name.clone();
            line.append(" ");
            line.append(if d.no_root { "nr" } else { "r" });
            line.append(" ");
            line.append(d.url.as_str());
            assert(line@ =~= dep_line(self@[i as int]));
            lines.push(line);
            i = i + 1;
        }
        assert(views(lines@) =~= Seq::new(self@.len(), |i: int| dep_line(self@[i])));
        join_strings(&lines, "\n")
    }

    /// `pre` + name + `post` for each dependency, joined by spaces.
    pub fn flags(&self, pre: &str, post: &str) -> (r: String)
        ensures
            r@ == dep_flags(self@, pre@, post@),
    {
        let mut parts: Vec<String> = Vec::new();
        let n = self.inner.len();
        let mut i: usize = 0;
        while i < n
            invariant
                n == self@.len(),
                n == self.inner@.len(),
                i <= n,
                parts@.len() == i,
                forall|j: int| 0 <= j < i ==> #[trigger] parts@[j]@ == pre@ + self@[j].0 + post@,
            decreases n - i,
        {
            let mut p = pre.to_owned();
            p.append(self.inner[i].name.as_str());
            p.append(post);
            parts.push(p);
            i = i + 1;
        }
        assert(views(parts@) =~= Seq::new(self@.len(), |i: int| pre@ + self@[i].0 + post@));
        join_strings(&parts, " ")
    }

    /// "name: url" and a newline for each dependency.
    pub fn listing(&self) -> (r: String)
        ensures
            r@ == deps_listing(self@),
    {
        let mut res = String::new();
        let n = self.inner.len();
        let mut i: usize = 0;
        while i < n
            invariant
                n == self@.len(),
                n == self.inner@.len(),
                i <= n,
                res@ == deps_listing(self@.take(i as int)),
            decreases n - i,
        {
            assert(self@.take(i + 1).drop_last() =~= self@.take(i as int));
            res.append(self.inner[i].name.as_str());
            res.append(": ");
            res.append(self.inner[i].url.as_str());
            res.append("\n");
            i = i + 1;
        }
        assert(self@.take(n as int) =~= self@);
        res
    }
}

/// Where a prefix of the lines already fails, all of them fail the same way.
proof fn lemma_parse_lines_prefix_fail(lines: Seq<Seq<char>>, k: int)
    requires
        0 <= k <= lines.len(),
        parse_lines(lines.take(k)) is Err,
    ensures
        parse_lines(lines) == parse_lines(lines.take(k)),
    decreases lines.len() - k,
{
    if k < lines.len() {
        assert(lines.take(k + 1).drop_last() =~= lines.take(k));
        lemma_parse_lines_prefix_fail(lines, k + 1);
    } else {
        assert(lines.take(k) =~= lines);
    }
}


/// A dependency whose line in the dependency file reads back as itself: a
/// non-empty name and a URL without whitespace, and an accepted URL.
pub open spec fn storable(d: (Seq<char>, Seq<char>, bool)) -> bool {
    &&& d.0.len() > 0
    &&& forall|i: int| 0 <= i < d.0.len() ==> !is_ws(#[trigger] d.0[i])
    &&& forall|i: int| 0 <= i < d.1.len() ==> !is_ws(#[trigger] d.1[i])
    &&& url_accepted(d.1) is Some
}

/// An accepted URL is not empty.
pub proof fn lemma_accepted_url_not_empty(url: Seq<char>)
    requires
        url_accepted(url) is Some,
    ensures
        url.len() > 0,
{
}

proof fn lemma_parse_dep_line(d: (Seq<char>, Seq<char>, bool))
    requires
        storable(d),
    ensures
        parse_line(dep_line(d)) == Ok::<(Seq<char>, bool, Seq<char>), Seq<char>>((d.0, d.2, d.1)),
{
    lemma_accepted_url_not_empty(d.1);
    reveal_strlit("nr");
    reveal_strlit("r");
    reveal_strlit(" ");
    let flag = if d.2 {
        "nr"@
    } else {
        "r"@
    };
    assert(forall|i: int| 0 <= i < flag.len() ==> !is_ws(#[trigger] flag[i]));
    let e = Seq::<char>::empty();
    lemma_ws_scan_word(e, d.0);
    assert(e + d.0 =~= d.0);
    assert(ws_scan(e) == (Seq::<Seq<char>>::empty(), e));
    assert(e + d.0 =~= d.0);
    let a1 = d.0 + " "@;
    lemma_ws_scan_space(d.0);
    lemma_ws_scan_word(a1, flag);
    let a2 = a1 + flag;
    lemma_ws_scan_space(a2);
    let a3 = a2 + " "@;
    lemma_ws_scan_word(a3, d.1);
    assert(dep_line(d) == a3 + d.1);
    let t = ws_tokens(dep_line(d));
    assert(t =~= seq![d.0, flag, d.1]);
    assert(flag == "nr"@ <==> d.2);
}

proof fn lemma_parse_dep_lines(s: Seq<(Seq<char>, Seq<char>, bool)>)
    requires
        forall|i: int| 0 <= i < s.len() ==> storable(#[trigger] s[i]),
    ensures
        parse_lines(Seq::new(s.len(), |i: int| dep_line(s[i]))) == Ok::<
            Seq<(Seq<char>, Seq<char>, bool)>,
            DepsFailure,
        >(s),
    decreases s.len(),
{
    let ls = Seq::new(s.len(), |i: int| dep_line(s[i]));
    if s.len() > 0 {
        let p = s.drop_last();
        lemma_parse_dep_lines(p);
        assert(ls.drop_last() =~= Seq::new(p.len(), |i: int| dep_line(p[i])));
        lemma_parse_dep_line(s.last());
        assert(p.push(s.last()) =~= s);
    } else {
        assert(s =~= seq![]);
    }
}

/// Writing dependencies to the dependency file and reading the file back
/// gives the same dependencies, in the same order, where each has a
/// non-empty name without whitespace and an accepted URL without whitespace.
pub proof fn law_deps_file_round_trip(s: Seq<(Seq<char>, Seq<char>, bool)>)
    requires
        forall|i: int| 0 <= i < s.len() ==> storable(#[trigger] s[i]),
    ensures
        parse_deps_text(deps_text(s)) == Ok::<Seq<(Seq<char>, Seq<char>, bool)>, DepsFailure>(s),
{
    reveal_strlit("nr");
    reveal_strlit("r");
    reveal_strlit(" ");
    let ls = Seq::new(s.len(), |i: int| dep_line(s[i]));
    assert forall|k: int, i: int| 0 <= k < ls.len() && 0 <= i < ls[k].len() implies #[trigger] ls[k][i]
        != '\n' by {
        let d = s[k];
        assert(storable(d));
        let flag = if d.2 {
            "nr"@
        } else {
            "r"@
        };
        assert(ls[k] == d.0 + " "@ + flag + " "@ + d.1);
        let n0 = d.0.len();
        if i < n0 {
            assert(ls[k][i] == d.0[i]);
            assert(!is_ws(d.0[i]));
        } else if i == n0 {
        } else if i < n0 + 1 + flag.len() {
            assert(ls[k][i] == flag[i - n0 - 1]);
        } else if i == n0 + 1 + flag.len() {
        } else {
            assert(ls[k][i] == d.1[i - n0 - 2 - flag.len()]);
            assert(!is_ws(d.1[i - n0 - 2 - flag.len()]));
        }
    }
    assert forall|k: int| 0 <= k < ls.len() implies #[trigger] ls[k].len() > 0 by {
        assert(storable(s[k]));
        lemma_accepted_url_not_empty(s[k].1);
    }
    lemma_lines_of_join(ls);
    lemma_parse_dep_lines(s);
}


/// A dependency URL is never refused for want of a file name: a path that
/// ends in ".zip" always has one.
pub proof fn law_no_file_name_refusal(url: Seq<char>, e: UrlError)
    requires
        url_refusal(url, e),
    ensures
        !(e is NoFileName),
{
}

} // verus!
