use vstd::prelude::*;

use crate::common::{Error, TemplateKind};
use crate::cflags::{add_flags, add_flags_outcome, remove_flags, remove_flags_outcome};
use crate::dependency::{
    dep_flags, deps_error, deps_listing, deps_text, opt_view, parse_deps_text, remove_in_turn,
    removals_in_bounds, template_deps, url_accepted, url_refusal, Dependencies, DepsFailure,
    law_deps_file_round_trip, lemma_dep_flags_start, storable, URL_RAYLIB_DEFAULT,
};
use crate::script_builder::{
    build_script, run_script, setup_script, ScriptBuilder, ScriptKind, BUILD_CFLAGS, BUILD_HEAD,
    BUILD_INCLUDES, BUILD_LINKER, BUILD_SETUP_CALL, BUILD_SRC, BUILD_TAIL,
};
use crate::text::{
    chars_of, is_ws, lemma_ws_scan_space, lemma_ws_scan_word, split_whitespace, str_eq, views,
    ws_scan, ws_tokens,
};

verus! {

/// The files a new project is written from that ship with the tool.
#[derive(Clone, Copy, Debug, PartialEq, Eq)]
pub enum TemplateFile {
    MainDefault,
    MainRaylib,
    ClangFormatDefault,
    GitignoreDefault,
}

impl TemplateFile {
    pub open spec fn spec_file_name(self) -> Seq<char> {
        match self {
            TemplateFile::MainDefault => "main_default.c"@,
            TemplateFile::MainRaylib => "main_raylib.c"@,
            TemplateFile::ClangFormatDefault => "clang_format_default"@,
            TemplateFile::GitignoreDefault => "gitignore_default"@,
        }
    }

    /// The name of the template's file among the tool's templates.
    pub fn file_name(&self) -> (r: &'static str)
        ensures
            r@ == self.spec_file_name(),
    {
        match self {
            TemplateFile::MainDefault => "main_default.c",
            TemplateFile::MainRaylib => "main_raylib.c",
            TemplateFile::ClangFormatDefault => "clang_format_default",
            TemplateFile::GitignoreDefault => "gitignore_default",
        }
    }
}

pub const TEMPLATE_CFLAGS_DEFAULT: &'static str = "-Wall -Wextra -Wpedantic -fanalyzer -std=c11";

pub const TEMPLATE_CFLAGS_RAYLIB: &'static str =
    "-Wall -Wextra -Wpedantic -fanalyzer -std=c11 -lraylib -lgdi32 -lwinmm";

pub const TEMPLATE_FILE_NAMES_DEFAULT: &'static str = "main.c";

/// The cflags a template starts with.
pub open spec fn default_cflags(kind: TemplateKind) -> Seq<char> {
    match kind {
        TemplateKind::Main => TEMPLATE_CFLAGS_DEFAULT@,
        TemplateKind::Raylib => TEMPLATE_CFLAGS_RAYLIB@,
    }
}

/// A character in upper case by ASCII: 'a'..='z' to 'A'..='Z', others as
/// they are.
pub open spec fn ascii_upper(c: char) -> char {
    if 'a' <= c && c <= 'z' {
        ((c as u32) - 32) as char
    } else {
        c
    }
}

/// Whether every character of `s` is ASCII.
pub open spec fn all_ascii(s: Seq<char>) -> bool {
    forall|i: int| 0 <= i < s.len() ==> (s[i] as u32) < 128
}

/// What `str::to_uppercase` makes of a string that is not all ASCII: its
/// characters mapped to their Unicode upper-case forms.
pub uninterp spec fn unicode_uppercase(s: Seq<char>) -> Seq<char>;

/// What `str::to_uppercase` makes of a string: an ASCII string in upper case
/// by ASCII, character for character; any other by the Unicode mapping.
pub open spec fn uppercase(s: Seq<char>) -> Seq<char> {
    if all_ascii(s) {
        Seq::new(s.len(), |i: int| ascii_upper(s[i]))
    } else {
        unicode_uppercase(s)
    }
}

/// Calls `str::to_uppercase`. Trusted: for an ASCII string the result is its
/// ASCII upper case (the Unicode Uppercase mapping takes 'a'..='z' to
/// 'A'..='Z' and leaves every other ASCII character as it is); for any other
/// string it is `unicode_uppercase(s@)`, a name for the Unicode case mapping,
/// which depends on the string alone.
#[verifier::external_body]
fn to_uppercase(s: &str) -> (r: String)
    ensures
        all_ascii(s@) ==> r@ == Seq::new(s@.len(), |i: int| ascii_upper(s@[i])),
        !all_ascii(s@) ==> r@ == unicode_uppercase(s@),
{
    s.to_uppercase()
}

/// The template kind that the text of a cache file records: its second
/// token, in any case; or the message of the parse error.
pub open spec fn template_kind_of(cache: Seq<char>) -> Result<TemplateKind, Seq<char>> {
    let t = ws_tokens(cache);
    if t.len() < 2 {
        Err("Unable to locate 'template' parameter"@)
    } else if uppercase(t[1]) == "MAIN"@ {
        Ok(TemplateKind::Main)
    } else if uppercase(t[1]) == "RL"@ {
        Ok(TemplateKind::Raylib)
    } else {
        Err("Unrecognised 'template' parameter"@)
    }
}

/// The text of the cache file for a template kind.
pub open spec fn cache_text(kind: TemplateKind) -> Seq<char> {
    "template "@ + kind.spec_name() + "\n"@
}

/// Reads the template kind from the text of the cache file.
pub fn parse_template_kind(cache: &str) -> (r: Result<TemplateKind, Error>)
    ensures
        match template_kind_of(cache@) {
            Ok(k) => r == Ok::<TemplateKind, Error>(k),
            Err(m) => r matches Err(Error::ParseError(msg)) && msg@ == m,
        },
{
    let t = split_whitespace(cache);
    if t.len() < 2 {
        return Err(Error::ParseError("Unable to locate 'template' parameter".to_owned()));
    }
    let up = to_uppercase(t[1].as_str());
    if str_eq(up.as_str(), "MAIN") {
        Ok(TemplateKind::Main)
    } else if str_eq(up.as_str(), "RL") {
        Ok(TemplateKind::Raylib)
    } else {
        Err(Error::ParseError("Unrecognised 'template' parameter".to_owned()))
    }
}

/// What the configuration of a project holds.
pub struct ConfigModel {
    pub template_kind: TemplateKind,
    pub src_file_names: Seq<char>,
    pub target_executable_name: Seq<char>,
    pub cflags: Seq<char>,
    pub deps: Option<Seq<(Seq<char>, Seq<char>, bool)>>,
}

/// The configuration of a project, as the commands read and change it.
pub struct ConfigCache {
    template_kind: TemplateKind,
    src_file_names: String,
    target_executable_name: String,
    cflags: Option<String>,
    deps: Option<Dependencies>,
}

impl ConfigCache {
    /// Every configuration has its cflags.
    #[verifier::type_invariant]
    spec fn has_cflags(self) -> bool {
        self.cflags is Some
    }
}

impl View for ConfigCache {
    type V = ConfigModel;

    closed spec fn view(&self) -> ConfigModel {
        ConfigModel {
            template_kind: self.template_kind,
            src_file_names: self.src_file_names@,
            target_executable_name: self.target_executable_name@,
            cflags: self.cflags.unwrap()@,
            deps: match self.deps {
                Some(d) => Some(d@),
                None => None,
            },
        }
    }
}

/// The flags a build script gives gcc to find the dependencies' headers.
pub open spec fn include_flags_of(deps: Seq<(Seq<char>, Seq<char>, bool)>) -> Seq<char> {
    dep_flags(deps, "-Ilib\\"@, "\\include"@)
}

/// The flags a build script gives gcc to find the dependencies' libraries.
pub open spec fn linker_flags_of(deps: Seq<(Seq<char>, Seq<char>, bool)>) -> Seq<char> {
    dep_flags(deps, "-Llib\\"@, "\\lib"@)
}

/// The build script of a configuration, compiled with `cflags`.
pub open spec fn build_script_with(m: ConfigModel, cflags: Seq<char>) -> Seq<char> {
    match m.deps {
        Some(d) => build_script(
            m.target_executable_name,
            m.src_file_names,
            cflags,
            include_flags_of(d),
            linker_flags_of(d),
            true,
        ),
        None => build_script(
            m.target_executable_name,
            m.src_file_names,
            cflags,
            ""@,
            ""@,
            false,
        ),
    }
}

/// The template a configuration's main source file is written from.
pub open spec fn template_of(kind: TemplateKind) -> TemplateFile {
    match kind {
        TemplateKind::Main => TemplateFile::MainDefault,
        TemplateKind::Raylib => TemplateFile::MainRaylib,
    }
}

/// The configuration of a project created by command.
pub open spec fn model_from_command(
    exe: Option<Seq<char>>,
    kind: TemplateKind,
    folder_name: Seq<char>,
) -> ConfigModel {
    ConfigModel {
        template_kind: kind,
        src_file_names: TEMPLATE_FILE_NAMES_DEFAULT@,
        target_executable_name: match exe {
            Some(e) => e,
            None => folder_name,
        },
        cflags: default_cflags(kind),
        deps: template_deps(kind),
    }
}

/// What the project's configuration files held when they were read: the
/// result of reading "cflagswin", "cache", and "deps" where it exists.
pub struct ConfigFiles {
    pub cflags: Result<String, Error>,
    pub cache: Result<String, Error>,
    pub deps: Result<Option<String>, Error>,
}

/// Why loading a configuration failed.
pub enum LoadFailure {
    /// The project has not been set up.
    NeedInit,
    /// Reading a file failed with this error.
    Given(Error),
    /// A parse error with this message.
    Message(Seq<char>),
    /// The dependency file is malformed.
    Deps(DepsFailure),
}

/// `e` is the error that the failure `f` is reported as, where the project's
/// init directory is `init_path`.
pub open spec fn load_error(f: LoadFailure, e: Error, init_path: Seq<char>) -> bool {
    match f {
        LoadFailure::NeedInit => e matches Error::NeedInit(p) && p@ == init_path,
        LoadFailure::Given(g) => e == g,
        LoadFailure::Message(m) => e matches Error::ParseError(msg) && msg@ == m,
        LoadFailure::Deps(d) => deps_error(d, e),
    }
}

/// The configuration that the project's files give, in the order the files
/// are read.
pub open spec fn model_from_files(files: ConfigFiles, folder_name: Seq<char>) -> Result<
    ConfigModel,
    LoadFailure,
> {
    match files.cflags {
        Err(e) => Err(LoadFailure::Given(e)),
        Ok(cflags) => match files.cache {
            Err(e) => Err(LoadFailure::Given(e)),
            Ok(cache) => match template_kind_of(cache@) {
                Err(m) => Err(LoadFailure::Message(m)),
                Ok(kind) => {
                    let model = |deps: Option<Seq<(Seq<char>, Seq<char>, bool)>>|
                        ConfigModel {
                            template_kind: kind,
                            src_file_names: TEMPLATE_FILE_NAMES_DEFAULT@,
                            target_executable_name: folder_name,
                            cflags: cflags@,
                            deps,
                        };
                    match files.deps {
                        Err(e) => Err(LoadFailure::Given(e)),
                        Ok(None) => Ok(model(None)),
                        Ok(Some(text)) => match parse_deps_text(text@) {
                            Err(f) => Err(LoadFailure::Deps(f)),
                            Ok(ds) => Ok(model(Some(ds))),
                        },
                    }
                },
            },
        },
    }
}

impl ConfigCache {
    /// The configuration of a project created by command: the template's
    /// cflags and dependencies, and the executable named `exe` or else after
    /// the project's folder.
    pub fn from_command(exe: Option<String>, kind: TemplateKind, folder_name: &str) -> (r: Self)
        ensures
            r@ == model_from_command(
                match exe {
                    Some(e) => Some(e@),
                    None => None,
                },
                kind,
                folder_name@,
            ),
    {
        let target = match exe {
            Some(e) => e,
            None => folder_name.to_owned(),
        };
        ConfigCache {
            template_kind: kind,
            src_file_names: TEMPLATE_FILE_NAMES_DEFAULT.to_owned(),
            target_executable_name: target,
            cflags: Some(Self::cflags_default(kind).to_owned()),
            deps: Dependencies::from_template(kind),
        }
    }

    /// The configuration that the project's files hold.
    pub fn from_files(files: ConfigFiles, folder_name: &str) -> (r: Result<Self, Error>)
        ensures
            match model_from_files(files, folder_name@) {
                Ok(m) => r matches Ok(c) && c@ == m,
                Err(f) => r matches Err(e) && load_error(f, e, seq![]) && !(f is NeedInit),
            },
    {
        let cflags = match files.cflags {
            Ok(c) => c,
            Err(e) => return Err(e),
        };
        let cache = match files.cache {
            Ok(c) => c,
            Err(e) => return Err(e),
        };
        let kind = match parse_template_kind(cache.as_str()) {
            Ok(k) => k,
            Err(e) => return Err(e),
        };
        let deps = match Dependencies::from_file_if_exists(files.deps) {
            Ok(d) => d,
            Err(e) => return Err(e),
        };
        Ok(
            ConfigCache {
                template_kind: kind,
                src_file_names: TEMPLATE_FILE_NAMES_DEFAULT.to_owned(),
                target_executable_name: folder_name.to_owned(),
                cflags: Some(cflags),
                deps,
            },
        )
    }

    /// The template the main source file is written from.
    pub fn template(&self) -> (r: TemplateFile)
        ensures
            r == template_of(self@.template_kind),
    {
        match self.template_kind {
            TemplateKind::Main => TemplateFile::MainDefault,
            TemplateKind::Raylib => TemplateFile::MainRaylib,
        }
    }

    pub fn cflags(&self) -> (r: &str)
        ensures
            r@ == self@.cflags,
    {
        proof {
            use_type_invariant(self);
        }
        match &self.cflags {
            Some(c) => c.as_str(),
            None => Self::cflags_default(self.template_kind),
        }
    }

    pub fn cflags_default(kind: TemplateKind) -> (r: &'static str)
        ensures
            r@ == default_cflags(kind),
    {
        match kind {
            TemplateKind::Main => TEMPLATE_CFLAGS_DEFAULT,
            TemplateKind::Raylib => TEMPLATE_CFLAGS_RAYLIB,
        }
    }

    /// The text of the cache file.
    pub fn cache(&self) -> (r: String)
        ensures
            r@ == cache_text(self@.template_kind),
    {
        let mut s = "template ".to_owned();
        s.append(self.template_kind.as_str());
        s.append("\n");
        s
    }

    /// The text of the dependency file, where the project has dependencies.
    pub fn deps(&self) -> (r: Option<String>)
        ensures
            match self@.deps {
                Some(d) => r matches Some(t) && t@ == deps_text(d),
                None => r is None,
            },
    {
        match &self.deps {
            Some(d) => Some(d.file_text()),
            None => None,
        }
    }

    pub fn linker_flags(&self) -> (r: Option<String>)
        ensures
            match self@.deps {
                Some(d) => r matches Some(t) && t@ == linker_flags_of(d),
                None => r is None,
            },
    {
        match &self.deps {
            Some(d) => Some(d.flags("-Llib\\", "\\lib")),
            None => None,
        }
    }

    pub fn include_flags(&self) -> (r: Option<String>)
        ensures
            match self@.deps {
                Some(d) => r matches Some(t) && t@ == include_flags_of(d),
                None => r is None,
            },
    {
        match &self.deps {
            Some(d) => Some(d.flags("-Ilib\\", "\\include")),
            None => None,
        }
    }

    /// The build script, compiled with `cflags`.
    pub fn build_with_cflags(&self, cflags: &str) -> (r: String)
        ensures
            r@ == build_script_with(self@, cflags@),
    {
        let includes = self.include_flags();
        let linker = self.linker_flags();
        let mut builder = ScriptBuilder::new(ScriptKind::Build).cflags(cflags).src_file_names(
            self.src_file_names.as_str(),
        ).target_name(self.target_executable_name.as_str());
        match (&includes, &linker) {
            (Some(i), Some(l)) => {
                builder = builder.include_flags(i.as_str()).linker_flags(l.as_str());
            },
            _ => {},
        }
        match builder.build() {
            Ok(s) => s,
            Err(_) => {
                assert(false);
                String::new()
            },
        }
    }

    /// The build script.
    pub fn build(&self) -> (r: String)
        ensures
            r@ == build_script_with(self@, self@.cflags),
    {
        self.build_with_cflags(self.cflags())
    }

    /// The run script.
    pub fn run(&self) -> (r: String)
        ensures
            r@ == run_script(self@.target_executable_name),
    {
        match ScriptBuilder::new(ScriptKind::Run).target_name(
            self.target_executable_name.as_str(),
        ).build() {
            Ok(s) => s,
            Err(_) => {
                assert(false);
                String::new()
            },
        }
    }

    /// The setup script, where the project has dependencies.
    pub fn setup(&self) -> (r: Option<String>)
        ensures
            match self@.deps {
                Some(d) => r matches Some(t) && t@ == setup_script(d),
                None => r is None,
            },
    {
        match &self.deps {
            Some(d) => match ScriptBuilder::new(ScriptKind::Setup).dep_urls(d.as_slice()).build() {
                Ok(s) => Some(s),
                Err(_) => {
                    assert(false);
                    None
                },
            },
            None => None,
        }
    }

    /// Takes the dependencies out, leaving none.
    fn take_deps(&mut self) -> (r: Option<Dependencies>)
        ensures
            final(self)@ == (ConfigModel { deps: None, ..old(self)@ }),
            match r {
                Some(d) => old(self)@.deps == Some(d@),
                None => old(self)@.deps is None,
            },
    {
        proof {
            use_type_invariant(&*self);
        }
        let mut d: Option<Dependencies> = None;
        std::mem::swap(&mut d, &mut self.deps);
        d
    }

    /// Sets the dependencies.
    fn put_deps(&mut self, deps: Option<Dependencies>)
        ensures
            final(self)@ == (ConfigModel {
                deps: match deps {
                    Some(d) => Some(d@),
                    None => None,
                },
                ..old(self)@
            }),
    {
        proof {
            use_type_invariant(&*self);
        }
        self.deps = deps;
    }

    pub fn gitignore(&self) -> (r: TemplateFile)
        ensures
            r == TemplateFile::GitignoreDefault,
    {
        TemplateFile::GitignoreDefault
    }

    pub fn clang_format(&self) -> (r: TemplateFile)
        ensures
            r == TemplateFile::ClangFormatDefault,
    {
        TemplateFile::ClangFormatDefault
    }
}


/// `a` and `b` joined into one path, as `Path::join` joins a relative
/// name: with the separator `sep` between them unless `a` is empty or
/// already ends with a separator.
pub open spec fn path_join(a: Seq<char>, b: Seq<char>, sep: char) -> Seq<char> {
    if a.len() == 0 {
        b
    } else if a.last() == sep || a.last() == '/' {
        a + b
    } else {
        a.push(sep) + b
    }
}

/// `a` and `b` joined into one path, as `path_join` says.
pub fn join_path(a: &str, b: &str, sep: char) -> (r: String)
    requires
        sep == '\\' || sep == '/',
    ensures
        r@ == path_join(a@, b@, sep),
{
    let cs = chars_of(a);
    let n = cs.len();
    if n == 0 {
        b.to_owned()
    } else if cs[n - 1] == sep || cs[n - 1] == '/' {
        let mut s = a.to_owned();
        s.append(b);
        s
    } else {
        let mut s = a.to_owned();
        let mut one = String::new();
        proof {
            reveal_strlit("\\");
            reveal_strlit("/");
        }
        if sep == '\\' {
            one.append("\\");
        } else {
            one.append("/");
        }
        assert(one@ =~= seq![sep]);
        s.append(one.as_str());
        s.append(b);
        assert(s@ =~= a@.push(sep) + b@);
        s
    }
}

/// How a project is set up or its configuration is found.
pub enum InitOptions {
    FromCommand { target_executable_name: Option<String>, template_kind: TemplateKind },
    /// From the project's files, as they were read.
    FromFile(ConfigFiles),
}

impl InitOptions {
    pub fn raylib(exe_name: Option<String>) -> (r: Self)
        ensures
            r matches InitOptions::FromCommand { target_executable_name, template_kind }
                && target_executable_name == exe_name && template_kind == TemplateKind::Raylib,
    {
        InitOptions::FromCommand { target_executable_name: exe_name, template_kind: TemplateKind::Raylib }
    }

    pub fn from_file(files: ConfigFiles) -> (r: Self)
        ensures
            r == InitOptions::FromFile(files),
    {
        InitOptions::FromFile(files)
    }
}

impl Default for InitOptions {
    fn default() -> (r: Self)
        ensures
            r matches InitOptions::FromCommand { target_executable_name, template_kind }
                && target_executable_name is None && template_kind == TemplateKind::Main,
    {
        InitOptions::FromCommand { target_executable_name: None, template_kind: TemplateKind::Main }
    }
}

/// What a file is written with.
pub enum FileContents {
    Text(String),
    Template(TemplateFile),
}

/// A change to the project's files.
pub enum FileAction {
    Write { path: String, contents: FileContents },
    RemoveFileIfExists { path: String },
    RemoveDirAllIfExists { path: String },
}

/// The view of what a file is written with.
pub enum ContentsModel {
    Text(Seq<char>),
    Template(TemplateFile),
}

/// The view of a change to the project's files.
pub enum ActionModel {
    Write(Seq<char>, ContentsModel),
    RemoveFile(Seq<char>),
    RemoveDir(Seq<char>),
}

impl View for FileAction {
    type V = ActionModel;

    open spec fn view(&self) -> ActionModel {
        match self {
            FileAction::Write { path, contents } => ActionModel::Write(
                path@,
                match contents {
                    FileContents::Text(t) => ContentsModel::Text(t@),
                    FileContents::Template(t) => ContentsModel::Template(*t),
                },
            ),
            FileAction::RemoveFileIfExists { path } => ActionModel::RemoveFile(path@),
            FileAction::RemoveDirAllIfExists { path } => ActionModel::RemoveDir(path@),
        }
    }
}

pub open spec fn action_views(s: Seq<FileAction>) -> Seq<ActionModel> {
    Seq::new(s.len(), |i: int| s[i]@)
}

/// The files that setting up a project writes: the main source file, and
/// those written on Windows only.
pub struct InitWrites {
    pub main_source: FileAction,
    pub windows: Vec<FileAction>,
}

/// What setting up a project does: the directories it creates, then the
/// files it writes, or the error that loading the configuration gave.
pub struct InitPlan {
    pub dirs: Vec<String>,
    pub writes: Result<InitWrites, Error>,
}

/// A command's state: the project's root folder and configuration, and what
/// the command has changed that must be written back when it ends.
pub struct Init {
    root_folder: String,
    folder_name: String,
    separator: char,
    config: Option<ConfigCache>,
    updated_flags: Option<String>,
    need_update_deps: bool,
}

/// The text of a message `pre` + `body` + `post`.
pub open spec fn message(pre: Seq<char>, body: Seq<char>, post: Seq<char>) -> Seq<char> {
    pre + body + post
}

/// The dependencies after adding those at `urls` in turn: the list, and the
/// first URL that was refused, where one was (adding stops there).
pub open spec fn add_urls(ds: Seq<(Seq<char>, Seq<char>, bool)>, urls: Seq<Seq<char>>) -> (
    Seq<(Seq<char>, Seq<char>, bool)>,
    Option<Seq<char>>,
)
    decreases urls.len(),
{
    if urls.len() == 0 {
        (ds, None)
    } else {
        let (d, fail) = add_urls(ds, urls.drop_last());
        if fail is Some {
            (d, fail)
        } else {
            match url_accepted(urls.last()) {
                Some(name) => (d.push((name, urls.last(), false)), None),
                None => (d, Some(urls.last())),
            }
        }
    }
}

/// The position of the last dependency named `name`.
pub open spec fn last_index_of_name(ds: Seq<(Seq<char>, Seq<char>, bool)>, name: Seq<char>) -> Option<
    int,
>
    decreases ds.len(),
{
    if ds.len() == 0 {
        None
    } else if ds.last().0 == name {
        Some(ds.len() - 1)
    } else {
        last_index_of_name(ds.drop_last(), name)
    }
}

/// The positions of the dependencies named `names`, in turn: for each name
/// the last dependency with that name; or the first name that no
/// dependency has.
pub open spec fn name_indices(ds: Seq<(Seq<char>, Seq<char>, bool)>, names: Seq<Seq<char>>) -> Result<
    Seq<usize>,
    Seq<char>,
>
    decreases names.len(),
{
    if names.len() == 0 {
        Ok(seq![])
    } else {
        match name_indices(ds, names.drop_last()) {
            Err(n) => Err(n),
            Ok(idx) => match last_index_of_name(ds, names.last()) {
                Some(i) => Ok(idx.push(i as usize)),
                None => Err(names.last()),
            },
        }
    }
}

/// The dependencies of a configuration, an empty list where it has none.
pub open spec fn deps_or_empty(m: ConfigModel) -> Seq<(Seq<char>, Seq<char>, bool)> {
    match m.deps {
        Some(d) => d,
        None => seq![],
    }
}

/// The files that setting up a project in `root` writes on Windows, in order.
pub open spec fn init_windows_writes(m: ConfigModel, root: Seq<char>, sep: char) -> Seq<ActionModel> {
    let init = path_join(root, ".init"@, sep);
    let text = |p: Seq<char>, t: Seq<char>| ActionModel::Write(p, ContentsModel::Text(t));
    seq![
        text(path_join(init, "cflagswin"@, sep), m.cflags),
        text(path_join(init, "cache"@, sep), cache_text(m.template_kind)),
    ] + (match m.deps {
        Some(d) => seq![text(path_join(init, "deps"@, sep), deps_text(d))],
        None => seq![],
    }) + seq![
        text(path_join(root, "build.bat"@, sep), build_script_with(m, m.cflags)),
        text(path_join(root, "run.bat"@, sep), run_script(m.target_executable_name)),
    ] + (match m.deps {
        Some(d) => seq![text(path_join(root, "setup.bat"@, sep), setup_script(d))],
        None => seq![],
    }) + seq![
        ActionModel::Write(
            path_join(root, ".gitignore"@, sep),
            ContentsModel::Template(TemplateFile::GitignoreDefault),
        ),
        ActionModel::Write(
            path_join(root, ".clang-format"@, sep),
            ContentsModel::Template(TemplateFile::ClangFormatDefault),
        ),
    ]
}

/// What a command writes back when it ends, in order.
pub open spec fn finish_actions(
    m: Option<ConfigModel>,
    updated_flags: Option<Seq<char>>,
    need_update_deps: bool,
    root: Seq<char>,
    sep: char,
) -> Seq<ActionModel> {
    let init = path_join(root, ".init"@, sep);
    let text = |p: Seq<char>, t: Seq<char>| ActionModel::Write(p, ContentsModel::Text(t));
    (match (updated_flags, m) {
        (Some(c), Some(m)) => seq![
            text(path_join(init, "cflagswin"@, sep), c),
            text(path_join(root, "build.bat"@, sep), build_script_with(m, c)),
        ],
        _ => seq![],
    }) + (match m {
        Some(m) => if need_update_deps {
            (match m.deps {
                Some(d) => seq![text(path_join(init, "deps"@, sep), deps_text(d))],
                None => seq![
                    ActionModel::RemoveFile(path_join(init, "deps"@, sep)),
                    ActionModel::RemoveFile(path_join(root, "setup.bat"@, sep)),
                    ActionModel::RemoveDir(path_join(root, "lib"@, sep)),
                ],
            }) + seq![text(path_join(root, "build.bat"@, sep), build_script_with(m, m.cflags))] + (
            match m.deps {
                Some(d) => seq![text(path_join(root, "setup.bat"@, sep), setup_script(d))],
                None => seq![],
            })
        } else {
            seq![]
        },
        None => seq![],
    })
}

impl Init {
    /// The project's root folder.
    pub closed spec fn root(&self) -> Seq<char> {
        self.root_folder@
    }

    /// The name of the project's folder.
    pub closed spec fn folder(&self) -> Seq<char> {
        self.folder_name@
    }

    /// The path separator.
    pub closed spec fn sep(&self) -> char {
        self.separator
    }

    /// The configuration, once loaded.
    pub closed spec fn model(&self) -> Option<ConfigModel> {
        match self.config {
            Some(c) => Some(c@),
            None => None,
        }
    }

    /// The cflags a command has set, to be written back.
    pub closed spec fn updated(&self) -> Option<Seq<char>> {
        opt_view(self.updated_flags)
    }

    /// Whether a command has changed the dependencies, to be written back.
    pub closed spec fn need_update(&self) -> bool {
        self.need_update_deps
    }

    /// Paths are separated by '\\' or '/', and cflags are only ever set
    /// once the configuration is loaded.
    pub open spec fn wf(&self) -> bool {
        &&& self.sep() == '\\' || self.sep() == '/'
        &&& self.updated() is Some ==> self.model() is Some
    }

    /// The project's init directory.
    pub open spec fn spec_init_path(&self) -> Seq<char> {
        path_join(self.root(), ".init"@, self.sep())
    }

    /// The configuration that loading with `options` gives: the one already
    /// loaded, or else the one `options` describes (by default, a new
    /// project from the main template).
    pub open spec fn load(&self, options: Option<InitOptions>) -> Result<ConfigModel, LoadFailure> {
        match self.model() {
            Some(m) => Ok(m),
            None => match options {
                None => Ok(model_from_command(None, TemplateKind::Main, self.folder())),
                Some(InitOptions::FromCommand { target_executable_name, template_kind }) => Ok(
                    model_from_command(opt_view(target_executable_name), template_kind, self.folder()),
                ),
                Some(InitOptions::FromFile(files)) => model_from_files(files, self.folder()),
            },
        }
    }

    /// What the commands that work on a set-up project load first: they need
    /// the init directory, then read the configuration from the files.
    pub open spec fn prepare(&self, init_exists: bool, files: ConfigFiles) -> Result<
        ConfigModel,
        LoadFailure,
    > {
        if !init_exists {
            Err(LoadFailure::NeedInit)
        } else {
            self.load(Some(InitOptions::FromFile(files)))
        }
    }

    /// `self` and `other` are about the same project and hold the same
    /// pending changes.
    pub open spec fn same_project(&self, other: &Init) -> bool {
        &&& self.root() == other.root()
        &&& self.folder() == other.folder()
        &&& self.sep() == other.sep()
    }

    /// `self` results from `old` by the loading that `outcome` describes,
    /// its pending changes untouched.
    pub open spec fn loaded_from(&self, old: &Init, outcome: Result<ConfigModel, LoadFailure>) -> bool {
        &&& self.same_project(old)
        &&& self.updated() == old.updated()
        &&& self.need_update() == old.need_update()
        &&& self.model() == match outcome {
            Ok(m) => Some(m),
            Err(_) => old.model(),
        }
    }

    /// A command's state in the project whose root folder is `root_folder`,
    /// named `folder_name`, where paths are separated by `separator`.
    pub fn new(root_folder: String, folder_name: String, separator: char) -> (r: Self)
        requires
            separator == '\\' || separator == '/',
        ensures
            r.root() == root_folder@,
            r.folder() == folder_name@,
            r.sep() == separator,
            r.model() is None,
            r.updated() is None,
            !r.need_update(),
            r.wf(),
    {
        Init {
            root_folder,
            folder_name,
            separator,
            config: None,
            updated_flags: None,
            need_update_deps: false,
        }
    }

    /// The path of `name` in the project's root folder.
    pub fn project_path(&self, name: &str) -> (r: String)
        requires
            self.wf(),
        ensures
            r@ == path_join(self.root(), name@, self.sep()),
    {
        join_path(self.root_folder.as_str(), name, self.separator)
    }

    /// The project's init directory.
    pub fn init_path(&self) -> (r: String)
        requires
            self.wf(),
        ensures
            r@ == self.spec_init_path(),
    {
        self.project_path(".init")
    }

    /// The path of `name` in the project's init directory.
    pub fn init_file_path(&self, name: &str) -> (r: String)
        requires
            self.wf(),
        ensures
            r@ == path_join(self.spec_init_path(), name@, self.sep()),
    {
        let init = self.init_path();
        join_path(init.as_str(), name, self.separator)
    }

    /// The cflags a command has set, to be written back.
    pub fn updated_flags(&self) -> (r: Option<&String>)
        ensures
            match r {
                Some(s) => self.updated() == Some(s@),
                None => self.updated() is None,
            },
    {
        self.updated_flags.as_ref()
    }

    /// Loads the configuration, where it is not loaded yet.
    pub fn init_config_if_none(&mut self, init_options: Option<InitOptions>) -> (r: Result<(), Error>)
        ensures
            final(self).loaded_from(old(self), old(self).load(init_options)),
            match old(self).load(init_options) {
                Ok(_) => r is Ok,
                Err(f) => r matches Err(e) && load_error(f, e, old(self).spec_init_path())
                    && !(f is NeedInit),
            },
    {
        if self.config.is_none() {
            let options = match init_options {
                Some(o) => o,
                None => InitOptions::default(),
            };
            let config = match options {
                InitOptions::FromCommand { target_executable_name, template_kind } => {
                    ConfigCache::from_command(
                        target_executable_name,
                        template_kind,
                        self.folder_name.as_str(),
                    )
                },
                InitOptions::FromFile(files) => {
                    match ConfigCache::from_files(files, self.folder_name.as_str()) {
                        Ok(c) => c,
                        Err(e) => return Err(e),
                    }
                },
            };
            self.config = Some(config);
        }
        Ok(())
    }

    /// The configuration, loaded where it is not yet.
    pub fn config(&mut self, init_options: Option<InitOptions>) -> (r: Result<&ConfigCache, Error>)
        ensures
            final(self).loaded_from(old(self), old(self).load(init_options)),
            match old(self).load(init_options) {
                Ok(m) => r matches Ok(c) && c@ == m,
                Err(f) => r matches Err(e) && load_error(f, e, old(self).spec_init_path()),
            },
    {
        match self.init_config_if_none(init_options) {
            Ok(()) => {},
            Err(e) => return Err(e),
        }
        match &self.config {
            Some(c) => Ok(c),
            None => {
                assert(false);
                Err(Error::Io(String::new()))
            },
        }
    }

    /// The configuration, loaded where it is not yet, to be changed in place.
    pub fn config_mut(&mut self, init_options: Option<InitOptions>) -> (r: Result<
        &mut ConfigCache,
        Error,
    >)
        ensures
            match old(self).load(init_options) {
                Ok(m) => r matches Ok(c) && (*c)@ == m && final(self).model() == Some((*final(c))@),
                Err(f) => r matches Err(e) && load_error(f, e, old(self).spec_init_path())
                    && final(self).model() == old(self).model(),
            },
            final(self).same_project(old(self)),
            final(self).updated() == old(self).updated(),
            final(self).need_update() == old(self).need_update(),
    {
        match self.init_config_if_none(init_options) {
            Ok(()) => {},
            Err(e) => return Err(e),
        }
        match &mut self.config {
            Some(c) => Ok(c),
            None => {
                assert(false);
                Err(Error::Io(String::new()))
            },
        }
    }

    /// Checks that the project is set up, then loads its configuration from
    /// the files that were read.
    fn prepare_config(&mut self, init_exists: bool, files: ConfigFiles) -> (r: Result<(), Error>)
        requires
            old(self).wf(),
        ensures
            final(self).loaded_from(old(self), old(self).prepare(init_exists, files)),
            match old(self).prepare(init_exists, files) {
                Ok(m) => r is Ok && final(self).model() == Some(m),
                Err(f) => r matches Err(e) && load_error(f, e, old(self).spec_init_path()),
            },
    {
        if !init_exists {
            return Err(Error::NeedInit(self.init_path()));
        }
        self.init_config_if_none(Some(InitOptions::from_file(files)))
    }
}



/// Adds the dependencies at `urls` in turn, named after their archives,
/// stopping at the first URL that is refused.
fn add_urls_to(d: &mut Dependencies, urls: &Vec<String>) -> (r: Result<(), Error>)
    ensures
        final(d)@ == add_urls(old(d)@, views(urls@)).0,
        match add_urls(old(d)@, views(urls@)).1 {
            Some(u) => r matches Err(Error::UrlError(e)) && url_refusal(u, e),
            None => r is Ok,
        },
{
    let ghost d0 = d@;
    assert(views(urls@).take(0) =~= seq![]);
    let n = urls.len();
    let mut i: usize = 0;
    while i < n
        invariant
            n == urls@.len(),
            i <= n,
            d0 == old(d)@,
            add_urls(d0, views(urls@).take(i as int)) == (d@, None::<Seq<char>>),
        decreases n - i,
    {
        assert(views(urls@).take(i + 1).drop_last() =~= views(urls@).take(i as int));
        assert(views(urls@).take(i + 1).last() == urls@[i as int]@);
        match d.add_dependency(None, urls[i].as_str(), false) {
            Ok(()) => {},
            Err(e) => {
                proof {
                    lemma_add_urls_prefix_fail(d0, views(urls@), i as int + 1);
                }
                return Err(Error::from(e));
            },
        }
        i = i + 1;
    }
    assert(views(urls@).take(n as int) =~= views(urls@));
    Ok(())
}

proof fn lemma_add_urls_prefix_fail(
    d0: Seq<(Seq<char>, Seq<char>, bool)>,
    urls: Seq<Seq<char>>,
    k: int,
)
    requires
        0 <= k <= urls.len(),
        add_urls(d0, urls.take(k)).1 is Some,
    ensures
        add_urls(d0, urls) == add_urls(d0, urls.take(k)),
    decreases urls.len() - k,
{
    if k < urls.len() {
        assert(urls.take(k + 1).drop_last() =~= urls.take(k));
        lemma_add_urls_prefix_fail(d0, urls, k + 1);
    } else {
        assert(urls.take(k) =~= urls);
    }
}

/// The position of the last dependency named `name`.
fn last_index_by_name(d: &Dependencies, name: &str) -> (r: Option<usize>)
    ensures
        match last_index_of_name(d@, name@) {
            Some(i) => r == Some(i as usize),
            None => r is None,
        },
{
    let n = d.len();
    let mut found: Option<usize> = None;
    let mut i: usize = 0;
    while i < n
        invariant
            n == d@.len(),
            i <= n,
            match last_index_of_name(d@.take(i as int), name@) {
                Some(k) => found == Some(k as usize),
                None => found is None,
            },
        decreases n - i,
    {
        assert(d@.take(i + 1).drop_last() =~= d@.take(i as int));
        if str_eq(d.get(i).name.as_str(), name) {
            found = Some(i);
        }
        i = i + 1;
    }
    assert(d@.take(n as int) =~= d@);
    found
}

/// The positions of the dependencies named `names`, in turn.
fn indices_by_names(d: &Dependencies, names: &Vec<String>) -> (r: Result<Vec<usize>, Error>)
    ensures
        match name_indices(d@, views(names@)) {
            Ok(idx) => r matches Ok(v) && v@ == idx,
            Err(n) => r matches Err(Error::DepNotFoundByName(x)) && x@ == n,
        },
{
    let mut idx: Vec<usize> = Vec::new();
    let n = names.len();
    let mut i: usize = 0;
    while i < n
        invariant
            n == names@.len(),
            i <= n,
            name_indices(d@, views(names@).take(i as int)) == Ok::<Seq<usize>, Seq<char>>(idx@),
        decreases n - i,
    {
        assert(views(names@).take(i + 1).drop_last() =~= views(names@).take(i as int));
        assert(views(names@).take(i + 1).last() == names@[i as int]@);
        match last_index_by_name(d, names[i].as_str()) {
            Some(k) => idx.push(k),
            None => {
                proof {
                    lemma_name_indices_prefix_fail(d@, views(names@), i as int + 1);
                }
                return Err(Error::DepNotFoundByName(names[i].clone()));
            },
        }
        i = i + 1;
    }
    assert(views(names@).take(n as int) =~= views(names@));
    Ok(idx)
}

proof fn lemma_name_indices_prefix_fail(
    d: Seq<(Seq<char>, Seq<char>, bool)>,
    names: Seq<Seq<char>>,
    k: int,
)
    requires
        0 <= k <= names.len(),
        name_indices(d, names.take(k)) is Err,
    ensures
        name_indices(d, names) == name_indices(d, names.take(k)),
    decreases names.len() - k,
{
    if k < names.len() {
        assert(names.take(k + 1).drop_last() =~= names.take(k));
        lemma_name_indices_prefix_fail(d, names, k + 1);
    } else {
        assert(names.take(k) =~= names);
    }
}

/// Whether removing the positions `idx` in turn from a list of `len` stays
/// in bounds.
fn removals_fit(len: usize, idx: &Vec<usize>) -> (r: bool)
    ensures
        r == removals_in_bounds(len as nat, idx@),
{
    let n = idx.len();
    let mut k: usize = 0;
    while k < n
        invariant
            n == idx@.len(),
            k <= n,
            forall|j: int| 0 <= j < k ==> #[trigger] idx@[j] < len - j,
        decreases n - k,
    {
        if k >= len || idx[k] >= len - k {
            assert(idx@[k as int] >= len - k);
            return false;
        }
        k = k + 1;
    }
    true
}

impl Init {
    /// Whether removing the dependencies named `names` keeps each removal
    /// in bounds (see `remove_dependencies_by_names`).
    pub open spec fn removal_in_bounds(
        &self,
        names: Seq<char>,
        init_exists: bool,
        files: ConfigFiles,
    ) -> bool {
        match self.prepare(init_exists, files) {
            Err(_) => true,
            Ok(m) => match name_indices(deps_or_empty(m), ws_tokens(names)) {
                Err(_) => true,
                Ok(idx) => removals_in_bounds(deps_or_empty(m).len(), idx),
            },
        }
    }

    /// `new` and the answer `r` result from `old` by removing the
    /// dependencies named in `names`, as `remove_dependencies_by_names` does.
    pub open spec fn removed_by_names(
        old: Init,
        new: Init,
        names: Seq<char>,
        init_exists: bool,
        files: ConfigFiles,
        r: Result<(), Error>,
    ) -> bool {
        &&& new.same_project(&old)
        &&& new.updated() == old.updated()
        &&& match old.prepare(init_exists, files) {
            Err(f) => r matches Err(e) && load_error(f, e, old.spec_init_path()) && new.model()
                == old.model() && new.need_update() == old.need_update(),
            Ok(m) => {
                let d0 = deps_or_empty(m);
                match name_indices(d0, ws_tokens(names)) {
                    Err(n) => r matches Err(Error::DepNotFoundByName(x)) && x@ == n && new.model()
                        == Some(ConfigModel { deps: Some(d0), ..m }) && new.need_update()
                        == old.need_update(),
                    Ok(idx) => r is Ok && new.model() == Some(
                        ConfigModel { deps: Some(remove_in_turn(d0, idx)), ..m },
                    ) && new.need_update() == (idx.len() > 0),
                }
            },
        }
    }

    /// Adds the flags named in `cflags` (a leading '-' added where missing)
    /// to the project's cflags; refuses a flag the project already has.
    pub fn add_cflags(&mut self, cflags: &str, init_exists: bool, files: ConfigFiles) -> (r: Result<
        (),
        Error,
    >)
        requires
            old(self).wf(),
        ensures
            final(self).wf(),
            final(self).same_project(old(self)),
            final(self).need_update() == old(self).need_update(),
            match old(self).prepare(init_exists, files) {
                Err(f) => r matches Err(e) && load_error(f, e, old(self).spec_init_path())
                    && final(self).model() == old(self).model()
                        && final(self).updated() == old(self).updated(),
                Ok(m) => final(self).model() == Some(m) && match add_flags_outcome(m.cflags, cflags@) {
                    Ok(new) => r is Ok && final(self).updated() == Some(new),
                    Err(f) => r matches Err(Error::CFlagNotUnique(x))
                        && x@ == f
                        && final(self).updated() == old(self).updated(),
                },
            },
    {
        match self.prepare_config(init_exists, files) {
            Ok(()) => {},
            Err(e) => return Err(e),
        }
        let new_flags = match &self.config {
            Some(c) => match add_flags(c.cflags(), cflags) {
                Ok(f) => f,
                Err(e) => return Err(e),
            },
            None => {
                assert(false);
                return Err(Error::Io(String::new()));
            },
        };
        self.updated_flags = Some(new_flags);
        Ok(())
    }

    /// Removes the flags named in `cflags` (a leading '-' added where
    /// missing) from the project's cflags; refuses a flag the project does
    /// not have.
    pub fn remove_cflags(&mut self, cflags: &str, init_exists: bool, files: ConfigFiles) -> (r: Result<
        (),
        Error,
    >)
        requires
            old(self).wf(),
        ensures
            final(self).wf(),
            final(self).same_project(old(self)),
            final(self).need_update() == old(self).need_update(),
            match old(self).prepare(init_exists, files) {
                Err(f) => r matches Err(e) && load_error(f, e, old(self).spec_init_path())
                    && final(self).model() == old(self).model()
                        && final(self).updated() == old(self).updated(),
                Ok(m) => final(self).model() == Some(m) && match remove_flags_outcome(
                    m.cflags,
                    cflags@,
                ) {
                    Ok(new) => r is Ok && final(self).updated() == Some(new),
                    Err(f) => r matches Err(Error::CFlagNotFound(x))
                        && x@ == f
                        && final(self).updated() == old(self).updated(),
                },
            },
    {
        match self.prepare_config(init_exists, files) {
            Ok(()) => {},
            Err(e) => return Err(e),
        }
        let new_flags = match &self.config {
            Some(c) => match remove_flags(c.cflags(), cflags) {
                Ok(f) => f,
                Err(e) => return Err(e),
            },
            None => {
                assert(false);
                return Err(Error::Io(String::new()));
            },
        };
        self.updated_flags = Some(new_flags);
        Ok(())
    }

    /// Sets the project's cflags back to those of its template.
    pub fn reset_cflags(&mut self, init_exists: bool, files: ConfigFiles) -> (r: Result<(), Error>)
        requires
            old(self).wf(),
        ensures
            final(self).wf(),
            final(self).same_project(old(self)),
            final(self).need_update() == old(self).need_update(),
            match old(self).prepare(init_exists, files) {
                Err(f) => r matches Err(e) && load_error(f, e, old(self).spec_init_path())
                    && final(self).model() == old(self).model()
                        && final(self).updated() == old(self).updated(),
                Ok(m) => r is Ok && final(self).model() == Some(m) && final(self).updated() == Some(
                    default_cflags(m.template_kind),
                ),
            },
    {
        match self.prepare_config(init_exists, files) {
            Ok(()) => {},
            Err(e) => return Err(e),
        }
        let flags = match &self.config {
            Some(c) => ConfigCache::cflags_default(c.template_kind).to_owned(),
            None => {
                assert(false);
                return Err(Error::Io(String::new()));
            },
        };
        self.updated_flags = Some(flags);
        Ok(())
    }

    /// The message that lists the project's cflags.
    pub fn list_cflags(&mut self, init_exists: bool, files: ConfigFiles) -> (r: Result<String, Error>)
        requires
            old(self).wf(),
        ensures
            final(self).wf(),
            final(self).loaded_from(old(self), old(self).prepare(init_exists, files)),
            match old(self).prepare(init_exists, files) {
                Err(f) => r matches Err(e) && load_error(f, e, old(self).spec_init_path()),
                Ok(m) => r matches Ok(t) && t@ == message(
                    "You currently have these cflags set: '"@,
                    m.cflags,
                    "'."@,
                ),
            },
    {
        match self.prepare_config(init_exists, files) {
            Ok(()) => {},
            Err(e) => return Err(e),
        }
        match &self.config {
            Some(c) => {
                let mut t = "You currently have these cflags set: '".to_owned();
                t.append(c.cflags());
                t.append("'.");
                Ok(t)
            },
            None => {
                assert(false);
                Err(Error::Io(String::new()))
            },
        }
    }

    /// Adds a dependency for each URL in `dependencies`, named after the
    /// archive it points to.
    pub fn add_dependencies(&mut self, dependencies: &str, init_exists: bool, files: ConfigFiles) -> (r:
        Result<(), Error>)
        requires
            old(self).wf(),
        ensures
            final(self).wf(),
            final(self).same_project(old(self)),
            final(self).updated() == old(self).updated(),
            match old(self).prepare(init_exists, files) {
                Err(f) => r matches Err(e) && load_error(f, e, old(self).spec_init_path())
                    && final(self).model() == old(self).model()
                        && final(self).need_update() == old(self).need_update(),
                Ok(m) => {
                    let d0 = deps_or_empty(m);
                    let added = add_urls(d0, ws_tokens(dependencies@));
                    &&& final(self).model() == Some(ConfigModel { deps: Some(added.0), ..m })
                    &&& match added.1 {
                        Some(u) => r matches Err(Error::UrlError(e))
                            && url_refusal(u, e)
                            && final(self).need_update() == old(self).need_update(),
                        None => r is Ok && final(self).need_update() == (added.0.len() != d0.len()),
                    }
                },
            },
    {
        match self.prepare_config(init_exists, files) {
            Ok(()) => {},
            Err(e) => return Err(e),
        }
        let urls = split_whitespace(dependencies);
        let changed = match &mut self.config {
            Some(c) => {
                let mut d = match c.take_deps() {
                    Some(d) => d,
                    None => Dependencies::empty(),
                };
                let len = d.len();
                let res = add_urls_to(&mut d, &urls);
                let changed = len != d.len();
                c.put_deps(Some(d));
                match res {
                    Ok(()) => changed,
                    Err(e) => return Err(e),
                }
            },
            None => {
                assert(false);
                return Err(Error::Io(String::new()));
            },
        };
        self.need_update_deps = changed;
        Ok(())
    }

    /// Removes the dependencies named in `dep_names`: for each name in turn,
    /// the last dependency with that name, where the positions are those in
    /// the list before any removal and each removal is counted in the list
    /// as the removals before it left it. `requires` leaves out the names
    /// for which a position is then past the end of the list.
    pub fn remove_dependencies_by_names(
        &mut self,
        dep_names: &str,
        init_exists: bool,
        files: ConfigFiles,
    ) -> (r: Result<(), Error>)
        requires
            old(self).wf(),
            old(self).removal_in_bounds(dep_names@, init_exists, files),
        ensures
            final(self).wf(),
            Self::removed_by_names(*old(self), *final(self), dep_names@, init_exists, files, r),
    {
        match self.prepare_config(init_exists, files) {
            Ok(()) => {},
            Err(e) => return Err(e),
        }
        let names = split_whitespace(dep_names);
        let changed = match &mut self.config {
            Some(c) => {
                let mut d = match c.take_deps() {
                    Some(d) => d,
                    None => Dependencies::empty(),
                };
                let idx = match indices_by_names(&d, &names) {
                    Ok(idx) => idx,
                    Err(e) => {
                        c.put_deps(Some(d));
                        return Err(e);
                    },
                };
                d.remove_dependencies(idx.as_slice());
                c.put_deps(Some(d));
                idx.len() > 0
            },
            None => {
                assert(false);
                return Err(Error::Io(String::new()));
            },
        };
        self.need_update_deps = changed;
        Ok(())
    }

    /// Sets the project's dependencies back to those of its template.
    pub fn reset_dependencies(&mut self, init_exists: bool, files: ConfigFiles) -> (r: Result<(), Error>)
        requires
            old(self).wf(),
        ensures
            final(self).wf(),
            final(self).same_project(old(self)),
            final(self).updated() == old(self).updated(),
            match old(self).prepare(init_exists, files) {
                Err(f) => r matches Err(e) && load_error(f, e, old(self).spec_init_path())
                    && final(self).model() == old(self).model()
                        && final(self).need_update() == old(self).need_update(),
                Ok(m) => r is Ok && final(self).model() == Some(
                    ConfigModel { deps: template_deps(m.template_kind), ..m },
                ) && final(self).need_update(),
            },
    {
        match self.prepare_config(init_exists, files) {
            Ok(()) => {},
            Err(e) => return Err(e),
        }
        match &mut self.config {
            Some(c) => {
                let kind = c.template_kind;
                c.put_deps(Dependencies::from_template(kind));
            },
            None => {
                assert(false);
                return Err(Error::Io(String::new()));
            },
        }
        self.need_update_deps = true;
        Ok(())
    }

    /// The message that lists the project's dependencies.
    pub fn list_dependencies(&mut self, init_exists: bool, files: ConfigFiles) -> (r: Result<
        String,
        Error,
    >)
        requires
            old(self).wf(),
        ensures
            final(self).wf(),
            final(self).loaded_from(old(self), old(self).prepare(init_exists, files)),
            match old(self).prepare(init_exists, files) {
                Err(f) => r matches Err(e) && load_error(f, e, old(self).spec_init_path()),
                Ok(m) => r matches Ok(t) && t@ == match m.deps {
                    Some(d) => message(
                        "You currently have these dependencies set: '"@,
                        deps_listing(d),
                        "'."@,
                    ),
                    None => "You don't have any dependencies set."@,
                },
            },
    {
        match self.prepare_config(init_exists, files) {
            Ok(()) => {},
            Err(e) => return Err(e),
        }
        match &self.config {
            Some(c) => match &c.deps {
                Some(d) => {
                    let mut t = "You currently have these dependencies set: '".to_owned();
                    let listing = d.listing();
                    t.append(listing.as_str());
                    t.append("'.");
                    Ok(t)
                },
                None => Ok("You don't have any dependencies set.".to_owned()),
            },
            None => {
                assert(false);
                Err(Error::Io(String::new()))
            },
        }
    }
}


impl Init {
    /// The dependencies that the commands that work on a set-up project
    /// load, without loading them: `None` where loading fails.
    fn prepared_deps(&self, init_exists: bool, files: &ConfigFiles) -> (r: Option<Dependencies>)
        ensures
            match self.prepare(init_exists, *files) {
                Err(_) => r is None,
                Ok(m) => r matches Some(d) && d@ == deps_or_empty(m),
            },
    {
        if !init_exists {
            return None;
        }
        match &self.config {
            Some(c) => {
                return match &c.deps {
                    Some(d) => Some(d.duplicate()),
                    None => Some(Dependencies::empty()),
                };
            },
            None => {},
        }
        if files.cflags.is_err() {
            return None;
        }
        match &files.cache {
            Err(_) => {
                return None;
            },
            Ok(cache) => match parse_template_kind(cache.as_str()) {
                Err(_) => {
                    return None;
                },
                Ok(_) => {},
            },
        }
        match &files.deps {
            Err(_) => None,
            Ok(None) => Some(Dependencies::empty()),
            Ok(Some(text)) => match Dependencies::parse(text.as_str()) {
                Ok(d) => Some(d),
                Err(_) => None,
            },
        }
    }

    /// Whether removing the dependencies named `dep_names` keeps each
    /// removal in bounds, as `remove_dependencies_by_names` requires.
    pub fn removal_stays_in_bounds(&self, dep_names: &str, init_exists: bool, files: &ConfigFiles) -> (r:
        bool)
        ensures
            r == self.removal_in_bounds(dep_names@, init_exists, *files),
    {
        let d = match self.prepared_deps(init_exists, files) {
            Some(d) => d,
            None => return true,
        };
        let names = split_whitespace(dep_names);
        match indices_by_names(&d, &names) {
            Err(_) => true,
            Ok(idx) => removals_fit(d.len(), &idx),
        }
    }

    /// Removes the dependencies named in `dep_names` where each removal
    /// stays in bounds; `None`, with nothing changed, where one would not.
    pub fn try_remove_dependencies_by_names(
        &mut self,
        dep_names: &str,
        init_exists: bool,
        files: ConfigFiles,
    ) -> (r: Option<Result<(), Error>>)
        requires
            old(self).wf(),
        ensures
            final(self).wf(),
            r is None <==> !old(self).removal_in_bounds(dep_names@, init_exists, files),
            r is None ==> *final(self) == *old(self),
            r matches Some(res) ==> Self::removed_by_names(
                *old(self),
                *final(self),
                dep_names@,
                init_exists,
                files,
                res,
            ),
    {
        if !self.removal_stays_in_bounds(dep_names, init_exists, &files) {
            return None;
        }
        Some(self.remove_dependencies_by_names(dep_names, init_exists, files))
    }

    /// Sets up a new project: fails where its init directory or its src
    /// directory exists; else gives the directories to create and the files
    /// to write.
    pub fn init(&mut self, options: Option<InitOptions>, init_exists: bool, src_exists: bool) -> (r:
        Result<InitPlan, Error>)
        requires
            old(self).wf(),
        ensures
            final(self).wf(),
            final(self).same_project(old(self)),
            final(self).updated() == old(self).updated(),
            final(self).need_update() == old(self).need_update(),
            init_exists ==> (r matches Err(Error::AlreadyExists(p))
                && p@ == old(self).spec_init_path()
                && final(self).model() == old(self).model()),
            !init_exists && src_exists ==> (r matches Err(Error::AlreadyExists(p)) && p@ == path_join(
                old(self).root(),
                "src"@,
                old(self).sep(),
            ) && final(self).model() == old(self).model()),
            !init_exists && !src_exists ==> {
                let src = path_join(old(self).root(), "src"@, old(self).sep());
                &&& final(self).loaded_from(old(self), old(self).load(options))
                &&& r matches Ok(plan) && views(plan.dirs@) == seq![old(self).spec_init_path(), src]
                    && match old(self).load(options) {
                    Ok(m) => plan.writes matches Ok(w) && w.main_source@ == ActionModel::Write(
                        path_join(src, "main.c"@, old(self).sep()),
                        ContentsModel::Template(template_of(m.template_kind)),
                    ) && action_views(w.windows@) == init_windows_writes(
                        m,
                        old(self).root(),
                        old(self).sep(),
                    ),
                    Err(f) => plan.writes matches Err(e) && load_error(
                        f,
                        e,
                        old(self).spec_init_path(),
                    ),
                }
            },
    {
        let init_path = self.init_path();
        if init_exists {
            return Err(Error::AlreadyExists(init_path));
        }
        let src_path = self.project_path("src");
        if src_exists {
            return Err(Error::AlreadyExists(src_path));
        }
        let mut dirs: Vec<String> = Vec::new();
        dirs.push(init_path);
        dirs.push(src_path.clone());
        assert(views(dirs@) =~= seq![self.spec_init_path(), src_path@]);
        let writes = match self.init_config_if_none(options) {
            Err(e) => Err(e),
            Ok(()) => match &self.config {
                Some(config) => Ok(self.init_writes(config, src_path.as_str())),
                None => {
                    assert(false);
                    Err(Error::Io(String::new()))
                },
            },
        };
        Ok(InitPlan { dirs, writes })
    }

    /// The files that setting up the project with `config` writes.
    fn init_writes(&self, config: &ConfigCache, src_path: &str) -> (r: InitWrites)
        requires
            self.wf(),
        ensures
            r.main_source@ == ActionModel::Write(
                path_join(src_path@, "main.c"@, self.sep()),
                ContentsModel::Template(template_of(config@.template_kind)),
            ),
            action_views(r.windows@) == init_windows_writes(config@, self.root(), self.sep()),
    {
        let main_source = FileAction::Write {
            path: join_path(src_path, "main.c", self.separator),
            contents: FileContents::Template(config.template()),
        };
        let mut w: Vec<FileAction> = Vec::new();
        w.push(
            FileAction::Write {
                path: self.init_file_path("cflagswin"),
                contents: FileContents::Text(config.cflags().to_owned()),
            },
        );
        w.push(
            FileAction::Write {
                path: self.init_file_path("cache"),
                contents: FileContents::Text(config.cache()),
            },
        );
        let ghost n1 = w@.len();
        match config.deps() {
            Some(d) => w.push(
                FileAction::Write {
                    path: self.init_file_path("deps"),
                    contents: FileContents::Text(d),
                },
            ),
            None => {},
        }
        w.push(
            FileAction::Write {
                path: self.project_path("build.bat"),
                contents: FileContents::Text(config.build()),
            },
        );
        w.push(
            FileAction::Write {
                path: self.project_path("run.bat"),
                contents: FileContents::Text(config.run()),
            },
        );
        match config.setup() {
            Some(s) => w.push(
                FileAction::Write {
                    path: self.project_path("setup.bat"),
                    contents: FileContents::Text(s),
                },
            ),
            None => {},
        }
        w.push(
            FileAction::Write {
                path: self.project_path(".gitignore"),
                contents: FileContents::Template(config.gitignore()),
            },
        );
        w.push(
            FileAction::Write {
                path: self.project_path(".clang-format"),
                contents: FileContents::Template(config.clang_format()),
            },
        );
        assert(action_views(w@) =~= init_windows_writes(config@, self.root(), self.sep()));
        InitWrites { main_source, windows: w }
    }

    /// What the command writes back to the project when it ends: the
    /// cflags it set (and the build script that uses them), then the
    /// dependencies it changed (and the scripts that use them).
    pub fn finish(&self) -> (r: Vec<FileAction>)
        requires
            self.wf(),
        ensures
            action_views(r@) == finish_actions(
                self.model(),
                self.updated(),
                self.need_update(),
                self.root(),
                self.sep(),
            ),
    {
        let mut w: Vec<FileAction> = Vec::new();
        match (&self.updated_flags, &self.config) {
            (Some(cflags), Some(config)) => {
                w.push(
                    FileAction::Write {
                        path: self.init_file_path("cflagswin"),
                        contents: FileContents::Text(cflags.clone()),
                    },
                );
                w.push(
                    FileAction::Write {
                        path: self.project_path("build.bat"),
                        contents: FileContents::Text(config.build_with_cflags(cflags.as_str())),
                    },
                );
            },
            _ => {},
        }
        if self.need_update_deps {
            match &self.config {
                Some(config) => {
                    match config.deps() {
                        Some(d) => w.push(
                            FileAction::Write {
                                path: self.init_file_path("deps"),
                                contents: FileContents::Text(d),
                            },
                        ),
                        None => {
                            w.push(FileAction::RemoveFileIfExists { path: self.init_file_path("deps") });
                            w.push(
                                FileAction::RemoveFileIfExists { path: self.project_path("setup.bat") },
                            );
                            w.push(FileAction::RemoveDirAllIfExists { path: self.project_path("lib") });
                        },
                    }
                    w.push(
                        FileAction::Write {
                            path: self.project_path("build.bat"),
                            contents: FileContents::Text(config.build()),
                        },
                    );
                    match config.setup() {
                        Some(s) => w.push(
                            FileAction::Write {
                                path: self.project_path("setup.bat"),
                                contents: FileContents::Text(s),
                            },
                        ),
                        None => {},
                    }
                },
                None => {},
            }
        }
        assert(action_views(w@) =~= finish_actions(
            self.model(),
            self.updated(),
            self.need_update(),
            self.root(),
            self.sep(),
        ));
        w
    }
}


/// The name of a template kind in upper case, as the cache file is matched.
pub open spec fn upper_name(kind: TemplateKind) -> Seq<char> {
    match kind {
        TemplateKind::Main => "MAIN"@,
        TemplateKind::Raylib => "RL"@,
    }
}

/// `str::to_uppercase` turns a template kind's name into its upper-case
/// name.
pub proof fn lemma_upper_name(kind: TemplateKind)
    ensures
        uppercase(kind.spec_name()) == upper_name(kind),
{
    reveal_strlit("main");
    reveal_strlit("rl");
    reveal_strlit("MAIN");
    reveal_strlit("RL");
    let n = kind.spec_name();
    assert(all_ascii(n));
    assert(Seq::new(n.len(), |i: int| ascii_upper(n[i])) =~= upper_name(kind));
}

/// The cache file written for a template kind reads back as that kind.
pub proof fn law_cache_round_trip(kind: TemplateKind)
    ensures
        template_kind_of(cache_text(kind)) == Ok::<TemplateKind, Seq<char>>(kind),
{
    reveal_strlit("template");
    reveal_strlit("template ");
    reveal_strlit(" ");
    reveal_strlit("\n");
    reveal_strlit("main");
    reveal_strlit("rl");
    reveal_strlit("MAIN");
    reveal_strlit("RL");
    let w = "template"@;
    let n = kind.spec_name();
    assert("template "@ =~= w + " "@);
    assert(forall|i: int| 0 <= i < w.len() ==> !is_ws(#[trigger] w[i]));
    assert(forall|i: int| 0 <= i < n.len() ==> !is_ws(#[trigger] n[i]));
    let e = Seq::<char>::empty();
    lemma_ws_scan_word(e, w);
    assert(e + w =~= w);
    assert(ws_scan(e) == (Seq::<Seq<char>>::empty(), e));
    lemma_ws_scan_space(w);
    let a1 = w + " "@;
    lemma_ws_scan_word(a1, n);
    let a2 = a1 + n;
    lemma_ws_scan_space(a2);
    assert(" "@ =~= seq![' ']);
    assert("\n"@ =~= seq!['\n']);
    assert((a2 + "\n"@).drop_last() =~= a2);
    assert(cache_text(kind) =~= a2 + "\n"@);
    assert(ws_tokens(cache_text(kind)) =~= seq![w, n]);
    lemma_upper_name(kind);
    assert("MAIN"@.len() != "RL"@.len());
}

/// The dependencies of a template read back from their file, where the
/// raylib URL is accepted.
pub proof fn law_template_deps_storable(kind: TemplateKind)
    requires
        url_accepted(URL_RAYLIB_DEFAULT@) is Some,
    ensures
        match template_deps(kind) {
            Some(d) => forall|i: int| 0 <= i < d.len() ==> storable(#[trigger] d[i]),
            None => true,
        },
{
    reveal_strlit("raylib");
    reveal_strlit(
        "https://github.com/raysan5/raylib/releases/download/5.5/raylib-5.5_win64_mingw-w64.zip",
    );
    let u = URL_RAYLIB_DEFAULT@;
    assert(forall|i: int| 0 <= i < u.len() ==> !is_ws(#[trigger] u[i]));
    assert(forall|i: int| 0 <= i < "raylib"@.len() ==> !is_ws(#[trigger] "raylib"@[i]));
}

/// Writing a configuration to the project's files (the cflags, the cache
/// and, where it has dependencies, the dependency file) and loading it from
/// them gives it back, with the executable named after the project's
/// folder; where each dependency reads back from its line.
pub proof fn law_config_files_round_trip(m: ConfigModel, folder_name: Seq<char>, files: ConfigFiles)
    requires
        files.cflags matches Ok(c) && c@ == m.cflags,
        files.cache matches Ok(k) && k@ == cache_text(m.template_kind),
        match m.deps {
            Some(d) => files.deps matches Ok(Some(t)) && t@ == deps_text(d) && forall|i: int|
                0 <= i < d.len() ==> storable(#[trigger] d[i]),
            None => files.deps matches Ok(None),
        },
    ensures
        model_from_files(files, folder_name) == Ok::<ConfigModel, LoadFailure>(
            ConfigModel {
                src_file_names: TEMPLATE_FILE_NAMES_DEFAULT@,
                target_executable_name: folder_name,
                ..m
            },
        ),
{
    law_cache_round_trip(m.template_kind);
    match m.deps {
        Some(d) => {
            law_deps_file_round_trip(d);
        },
        None => {},
    }
}


/// A command that changed nothing writes nothing back when it ends.
pub proof fn law_nothing_pending_writes_nothing(m: Option<ConfigModel>, root: Seq<char>, sep: char)
    ensures
        finish_actions(m, None, false, root, sep) == Seq::<ActionModel>::empty(),
{
    assert(finish_actions(m, None, false, root, sep) =~= Seq::<ActionModel>::empty());
}

/// A dependency's include flags and linker flags never coincide: the
/// first start "-I", the second "-L".
pub proof fn lemma_dependency_flags_differ(d: Seq<(Seq<char>, Seq<char>, bool)>)
    requires
        d.len() > 0,
    ensures
        include_flags_of(d) != linker_flags_of(d),
{
    reveal_strlit("-Ilib\\");
    reveal_strlit("-Llib\\");
    lemma_dep_flags_start(d, "-Ilib\\"@, "\\include"@);
    lemma_dep_flags_start(d, "-Llib\\"@, "\\lib"@);
    let i = include_flags_of(d);
    let l = linker_flags_of(d);
    assert(i.subrange(0, 6)[1] == i[1]);
    assert(l.subrange(0, 6)[1] == l[1]);
    assert(i[1] != l[1]);
}

/// The build script of a configuration with dependencies `d` sets
/// INCLUDES to their include flags ("-Ilib\<name>\include") and LINKER to
/// their linker flags ("-Llib\<name>\lib"), two different values where there
/// is a dependency, and runs the setup script where lib is missing; that of
/// a configuration without dependencies sets both empty and runs no setup
/// script.
pub proof fn law_build_script_dependency_lines(m: ConfigModel, c: Seq<char>)
    ensures
        m.deps matches Some(d) ==> exists|p: Seq<char>, q: Seq<char>|
            #[trigger] build_script_with(m, c) == p + BUILD_INCLUDES@ + include_flags_of(d)
                + BUILD_LINKER@ + linker_flags_of(d) + "\n"@ + BUILD_SETUP_CALL@ + q,
        m.deps matches Some(d) ==> (d.len() > 0 ==> include_flags_of(d) != linker_flags_of(d)),
        m.deps is None ==> exists|p: Seq<char>|
            #[trigger] build_script_with(m, c) == p + BUILD_INCLUDES@ + BUILD_LINKER@ + "\n"@
                + BUILD_TAIL@,
{
    let head = BUILD_HEAD@ + m.target_executable_name + BUILD_SRC@ + m.src_file_names
        + BUILD_CFLAGS@ + c;
    match m.deps {
        Some(d) => {
            let p = head;
            let q = BUILD_TAIL@;
            assert(build_script_with(m, c) == p + BUILD_INCLUDES@ + include_flags_of(d)
                + BUILD_LINKER@ + linker_flags_of(d) + "\n"@ + BUILD_SETUP_CALL@ + q);
            if d.len() > 0 {
                lemma_dependency_flags_differ(d);
            }
        },
        None => {
            let p = head;
            reveal_strlit("");
            assert(""@ =~= Seq::<char>::empty());
            assert(build_script_with(m, c) =~= p + BUILD_INCLUDES@ + BUILD_LINKER@ + "\n"@
                + BUILD_TAIL@);
        },
    }
}

/// Two build scripts of one configuration differ only in the cflags they
/// compile with: they are the same text around the value of "set CFLAGS=".
pub proof fn law_build_script_cflags_line(m: ConfigModel, c1: Seq<char>, c2: Seq<char>)
    ensures
        exists|p: Seq<char>, q: Seq<char>|
            #[trigger] build_script_with(m, c1) == p + BUILD_CFLAGS@ + c1 + q
                && #[trigger] build_script_with(m, c2) == p + BUILD_CFLAGS@ + c2 + q,
{
    let p = BUILD_HEAD@ + m.target_executable_name + BUILD_SRC@ + m.src_file_names;
    let (i, l, setup) = match m.deps {
        Some(d) => (include_flags_of(d), linker_flags_of(d), true),
        None => (""@, ""@, false),
    };
    let q = BUILD_INCLUDES@ + i + BUILD_LINKER@ + l + "\n"@ + (if setup {
        BUILD_SETUP_CALL@
    } else {
        ""@
    }) + BUILD_TAIL@;
    assert(build_script_with(m, c1) =~= p + BUILD_CFLAGS@ + c1 + q);
    assert(build_script_with(m, c2) =~= p + BUILD_CFLAGS@ + c2 + q);
}

/// A new project's main source file is written from the raylib template
/// exactly when the project starts with raylib among its dependencies, and
/// otherwise from the default template.
pub proof fn law_main_source_template(kind: TemplateKind)
    ensures
        (template_of(kind) == TemplateFile::MainRaylib) <==> (template_deps(kind) is Some),
        (template_of(kind) == TemplateFile::MainDefault) <==> (template_deps(kind) is None),
{
}

/// What `path_join` puts before the name it joins to `a`.
pub open spec fn join_base(a: Seq<char>, sep: char) -> Seq<char> {
    if a.len() == 0 {
        seq![]
    } else if a.last() == sep || a.last() == '/' {
        a
    } else {
        a.push(sep)
    }
}

proof fn lemma_path_join_base(a: Seq<char>, b: Seq<char>, sep: char)
    ensures
        path_join(a, b, sep) == join_base(a, sep) + b,
{
    assert(path_join(a, b, sep) =~= join_base(a, sep) + b);
}

/// Different names joined to one folder give different paths.
proof fn lemma_names_give_distinct_paths(dir: Seq<char>, sep: char)
    ensures
        forall|a: Seq<char>, b: Seq<char>|
            a != b ==> #[trigger] path_join(dir, a, sep) != #[trigger] path_join(dir, b, sep),
{
    assert forall|a: Seq<char>, b: Seq<char>|
        a != b implies #[trigger] path_join(dir, a, sep) != #[trigger] path_join(dir, b, sep) by {
        lemma_path_join_base(dir, a, sep);
        lemma_path_join_base(dir, b, sep);
        let base = join_base(dir, sep);
        assert((base + a).skip(base.len() as int) =~= a);
        assert((base + b).skip(base.len() as int) =~= b);
    }
}

/// A path in a project's init folder is not the path of a name in its root
/// folder that does not start ".i".
proof fn lemma_init_paths_apart(root: Seq<char>, sep: char)
    ensures
        forall|x: Seq<char>, y: Seq<char>|
            !(y.len() >= 2 && y[0] == '.' && y[1] == 'i') ==> #[trigger] path_join(
                path_join(root, ".init"@, sep),
                x,
                sep,
            ) != #[trigger] path_join(root, y, sep),
{
    reveal_strlit(".init");
    let base = join_base(root, sep);
    let init = path_join(root, ".init"@, sep);
    lemma_path_join_base(root, ".init"@, sep);
    assert forall|x: Seq<char>, y: Seq<char>|
        !(y.len() >= 2 && y[0] == '.' && y[1] == 'i') implies #[trigger] path_join(
            init,
            x,
            sep,
        ) != #[trigger] path_join(root, y, sep) by {
        lemma_path_join_base(init, x, sep);
        lemma_path_join_base(root, y, sep);
        let lhs = join_base(init, sep) + x;
        let rhs = base + y;
        assert(lhs[base.len() as int] == '.');
        assert(lhs[base.len() + 1int] == 'i');
        assert(lhs.len() >= base.len() + 5);
        if lhs == rhs {
            assert(y.len() >= 2);
            assert(rhs[base.len() as int] == y[0]);
            assert(rhs[base.len() + 1int] == y[1]);
        }
    }
}

/// The names of the files a project writes tell their paths apart.
proof fn lemma_project_paths(root: Seq<char>, sep: char)
    ensures
        ({
            let init = path_join(root, ".init"@, sep);
            let rp = |n: Seq<char>| path_join(root, n, sep);
            let ip = |n: Seq<char>| path_join(init, n, sep);
            &&& rp("build.bat"@) != rp("run.bat"@)
            &&& rp("build.bat"@) != rp("setup.bat"@)
            &&& rp("build.bat"@) != rp(".gitignore"@)
            &&& rp("build.bat"@) != rp(".clang-format"@)
            &&& rp("run.bat"@) != rp("setup.bat"@)
            &&& rp("run.bat"@) != rp(".gitignore"@)
            &&& rp("run.bat"@) != rp(".clang-format"@)
            &&& rp("setup.bat"@) != rp(".gitignore"@)
            &&& rp("setup.bat"@) != rp(".clang-format"@)
            &&& rp(".gitignore"@) != rp(".clang-format"@)
            &&& ip("cflagswin"@) != ip("cache"@)
            &&& ip("cflagswin"@) != ip("deps"@)
            &&& ip("cache"@) != ip("deps"@)
            &&& forall|n: Seq<char>|
                #![trigger ip(n)]
                rp("build.bat"@) != ip(n) && rp("run.bat"@) != ip(n) && rp("setup.bat"@) != ip(n)
                    && rp(".gitignore"@) != ip(n) && rp(".clang-format"@) != ip(n)
        }),
{
    reveal_strlit("build.bat");
    reveal_strlit("run.bat");
    reveal_strlit("setup.bat");
    reveal_strlit(".gitignore");
    reveal_strlit(".clang-format");
    reveal_strlit("cflagswin");
    reveal_strlit("cache");
    reveal_strlit("deps");
    lemma_names_give_distinct_paths(root, sep);
    lemma_names_give_distinct_paths(path_join(root, ".init"@, sep), sep);
    lemma_init_paths_apart(root, sep);
    assert("build.bat"@[0] != "run.bat"@[0]);
    assert("build.bat"@[0] != "setup.bat"@[0]);
    assert("build.bat"@[0] != ".gitignore"@[0]);
    assert("build.bat"@[0] != ".clang-format"@[0]);
    assert("run.bat"@[0] != "setup.bat"@[0]);
    assert("run.bat"@[0] != ".gitignore"@[0]);
    assert("run.bat"@[0] != ".clang-format"@[0]);
    assert("setup.bat"@[0] != ".gitignore"@[0]);
    assert("setup.bat"@[0] != ".clang-format"@[0]);
    assert(".gitignore"@[1] != ".clang-format"@[1]);
    assert("cflagswin"@[1] != "cache"@[1]);
    assert("cflagswin"@[0] != "deps"@[0]);
    assert("cache"@[0] != "deps"@[0]);
    assert(".gitignore"@[1] != 'i');
    assert(".clang-format"@[1] != 'i');
}

/// `a`, where it writes `path`, writes `contents` there.
pub open spec fn write_agrees(a: ActionModel, path: Seq<char>, contents: ContentsModel) -> bool {
    match a {
        ActionModel::Write(p, c) => p == path ==> c == contents,
        _ => true,
    }
}

/// `actions` write `contents` to `path`, and nothing else to that path.
pub open spec fn writes_file(actions: Seq<ActionModel>, path: Seq<char>, contents: ContentsModel) -> bool {
    &&& exists|k: int|
        0 <= k < actions.len() && #[trigger] actions[k] == ActionModel::Write(path, contents)
    &&& forall|k: int| 0 <= k < actions.len() ==> write_agrees(#[trigger] actions[k], path, contents)
}

/// `actions` write nothing to `path`.
pub open spec fn writes_nothing_to(actions: Seq<ActionModel>, path: Seq<char>) -> bool {
    forall|k: int| 0 <= k < actions.len() ==> !(#[trigger] actions[k] matches ActionModel::Write(p, _) && p == path)
}

/// Setting up a project writes its cflags to .init/cflagswin and its
/// template to .init/cache; the build script compiled with those cflags to
/// build.bat, and the run script, which builds and then starts the program,
/// to run.bat; the dependencies, where it has some, to .init/deps and the
/// script that downloads them to setup.bat (else nothing to either); and
/// the default .gitignore and .clang-format. Nothing else is written to any
/// of these paths.
pub proof fn law_init_writes_files(m: ConfigModel, root: Seq<char>, sep: char)
    ensures
        ({
            let s = init_windows_writes(m, root, sep);
            let init = path_join(root, ".init"@, sep);
            &&& writes_file(s, path_join(init, "cflagswin"@, sep), ContentsModel::Text(m.cflags))
            &&& writes_file(s, path_join(init, "cache"@, sep), ContentsModel::Text(cache_text(m.template_kind)))
            &&& writes_file(s, path_join(root, "build.bat"@, sep), ContentsModel::Text(build_script_with(m, m.cflags)))
            &&& writes_file(s, path_join(root, "run.bat"@, sep), ContentsModel::Text(run_script(m.target_executable_name)))
            &&& writes_file(s, path_join(root, ".gitignore"@, sep), ContentsModel::Template(TemplateFile::GitignoreDefault))
            &&& writes_file(s, path_join(root, ".clang-format"@, sep), ContentsModel::Template(TemplateFile::ClangFormatDefault))
            &&& match m.deps {
                Some(d) => writes_file(s, path_join(init, "deps"@, sep), ContentsModel::Text(deps_text(d)))
                    && writes_file(s, path_join(root, "setup.bat"@, sep), ContentsModel::Text(setup_script(d))),
                None => writes_nothing_to(s, path_join(init, "deps"@, sep))
                    && writes_nothing_to(s, path_join(root, "setup.bat"@, sep)),
            }
        }),
{
    lemma_project_paths(root, sep);
    let s = init_windows_writes(m, root, sep);
    let init = path_join(root, ".init"@, sep);
    let cf = path_join(init, "cflagswin"@, sep);
    let ca = path_join(init, "cache"@, sep);
    let dp = path_join(init, "deps"@, sep);
    let bp = path_join(root, "build.bat"@, sep);
    let rp = path_join(root, "run.bat"@, sep);
    let sp = path_join(root, "setup.bat"@, sep);
    let gp = path_join(root, ".gitignore"@, sep);
    let fp = path_join(root, ".clang-format"@, sep);
    let tc = ContentsModel::Text(m.cflags);
    let tk = ContentsModel::Text(cache_text(m.template_kind));
    let tb = ContentsModel::Text(build_script_with(m, m.cflags));
    let tr = ContentsModel::Text(run_script(m.target_executable_name));
    let tg = ContentsModel::Template(TemplateFile::GitignoreDefault);
    let tf = ContentsModel::Template(TemplateFile::ClangFormatDefault);
    let w0 = ActionModel::Write(cf, tc);
    let w1 = ActionModel::Write(ca, tk);
    let wb = ActionModel::Write(bp, tb);
    let wr = ActionModel::Write(rp, tr);
    let wg = ActionModel::Write(gp, tg);
    let wc = ActionModel::Write(fp, tf);
    let agrees = |a: ActionModel|
        write_agrees(a, cf, tc) && write_agrees(a, ca, tk) && write_agrees(a, bp, tb)
            && write_agrees(a, rp, tr) && write_agrees(a, gp, tg) && write_agrees(a, fp, tf);
    match m.deps {
        Some(d) => {
            let td = ContentsModel::Text(deps_text(d));
            let ts = ContentsModel::Text(setup_script(d));
            let wd = ActionModel::Write(dp, td);
            let ws = ActionModel::Write(sp, ts);
            assert(s =~= seq![w0, w1, wd, wb, wr, ws, wg, wc]);
            assert(s[0] == w0 && s[1] == w1 && s[2] == wd && s[3] == wb && s[4] == wr);
            assert(s[5] == ws && s[6] == wg && s[7] == wc);
            assert forall|k: int| 0 <= k < s.len() implies agrees(#[trigger] s[k])
                && write_agrees(s[k], dp, td) && write_agrees(s[k], sp, ts) by {
                if k == 0 {} else if k == 1 {} else if k == 2 {} else if k == 3 {}
                else if k == 4 {} else if k == 5 {} else if k == 6 {} else {}
            }
        },
        None => {
            assert(s =~= seq![w0, w1, wb, wr, wg, wc]);
            assert(s[0] == w0 && s[1] == w1 && s[2] == wb && s[3] == wr);
            assert(s[4] == wg && s[5] == wc);
            assert forall|k: int| 0 <= k < s.len() implies agrees(#[trigger] s[k])
                && !(s[k] matches ActionModel::Write(p, _) && p == dp)
                && !(s[k] matches ActionModel::Write(p, _) && p == sp) by {
                if k == 0 {} else if k == 1 {} else if k == 2 {} else if k == 3 {}
                else if k == 4 {} else {}
            }
        },
    }
}

/// When a command has set the cflags `c` and changed no dependency, what it
/// writes back holds `c` in .init/cflagswin and, in build.bat, the build
/// script of the configuration compiled with `c`, its dependencies'
/// flags and setup call included: the build script that setting up the
/// project with the cflags `c` writes.
pub proof fn law_finish_after_cflags(m: ConfigModel, c: Seq<char>, root: Seq<char>, sep: char)
    ensures
        writes_file(
            finish_actions(Some(m), Some(c), false, root, sep),
            path_join(path_join(root, ".init"@, sep), "cflagswin"@, sep),
            ContentsModel::Text(c),
        ),
        writes_file(
            finish_actions(Some(m), Some(c), false, root, sep),
            path_join(root, "build.bat"@, sep),
            ContentsModel::Text(build_script_with(m, c)),
        ),
        writes_file(
            init_windows_writes(ConfigModel { cflags: c, ..m }, root, sep),
            path_join(root, "build.bat"@, sep),
            ContentsModel::Text(build_script_with(m, c)),
        ),
{
    lemma_project_paths(root, sep);
    law_init_writes_files(ConfigModel { cflags: c, ..m }, root, sep);
    let s = finish_actions(Some(m), Some(c), false, root, sep);
    let cf = path_join(path_join(root, ".init"@, sep), "cflagswin"@, sep);
    let bp = path_join(root, "build.bat"@, sep);
    let tc = ContentsModel::Text(c);
    let tb = ContentsModel::Text(build_script_with(m, c));
    assert(s =~= seq![ActionModel::Write(cf, tc), ActionModel::Write(bp, tb)]);
    assert(s[0] == ActionModel::Write(cf, tc) && s[1] == ActionModel::Write(bp, tb));
    assert forall|k: int| 0 <= k < s.len() implies write_agrees(#[trigger] s[k], cf, tc)
        && write_agrees(s[k], bp, tb) by {
        if k == 0 {} else {}
    }
}

/// When a command has changed the dependencies and set no cflags, what it
/// writes back holds, in build.bat, the build script compiled with the
/// project's own cflags (those that .init/cflagswin holds): the build
/// script that setting up the project with its configuration writes. Where
/// dependencies are left, .init/deps lists them and setup.bat downloads
/// them; where none are, .init/deps, setup.bat and the lib folder are
/// removed and nothing is written to either file.
pub proof fn law_finish_after_deps(m: ConfigModel, root: Seq<char>, sep: char)
    ensures
        ({
            let s = finish_actions(Some(m), None, true, root, sep);
            let init = path_join(root, ".init"@, sep);
            let bp = path_join(root, "build.bat"@, sep);
            let dp = path_join(init, "deps"@, sep);
            let sp = path_join(root, "setup.bat"@, sep);
            &&& writes_file(s, bp, ContentsModel::Text(build_script_with(m, m.cflags)))
            &&& writes_file(init_windows_writes(m, root, sep), bp, ContentsModel::Text(build_script_with(m, m.cflags)))
            &&& match m.deps {
                Some(d) => writes_file(s, dp, ContentsModel::Text(deps_text(d)))
                    && writes_file(s, sp, ContentsModel::Text(setup_script(d))),
                None => s.contains(ActionModel::RemoveFile(dp)) && s.contains(ActionModel::RemoveFile(sp))
                    && s.contains(ActionModel::RemoveDir(path_join(root, "lib"@, sep)))
                    && writes_nothing_to(s, dp) && writes_nothing_to(s, sp),
            }
        }),
{
    lemma_project_paths(root, sep);
    law_init_writes_files(m, root, sep);
    let s = finish_actions(Some(m), None, true, root, sep);
    let init = path_join(root, ".init"@, sep);
    let bp = path_join(root, "build.bat"@, sep);
    let dp = path_join(init, "deps"@, sep);
    let sp = path_join(root, "setup.bat"@, sep);
    let tb = ContentsModel::Text(build_script_with(m, m.cflags));
    let wb = ActionModel::Write(bp, tb);
    match m.deps {
        Some(d) => {
            let td = ContentsModel::Text(deps_text(d));
            let ts = ContentsModel::Text(setup_script(d));
            let wd = ActionModel::Write(dp, td);
            let ws = ActionModel::Write(sp, ts);
            assert(s =~= seq![wd, wb, ws]);
            assert(s[0] == wd && s[1] == wb && s[2] == ws);
            assert forall|k: int| 0 <= k < s.len() implies write_agrees(#[trigger] s[k], bp, tb)
                && write_agrees(s[k], dp, td) && write_agrees(s[k], sp, ts) by {
                if k == 0 {} else if k == 1 {} else {}
            }
        },
        None => {
            let r0 = ActionModel::RemoveFile(dp);
            let r1 = ActionModel::RemoveFile(sp);
            let r2 = ActionModel::RemoveDir(path_join(root, "lib"@, sep));
            assert(s =~= seq![r0, r1, r2, wb]);
            assert(s[0] == r0 && s[1] == r1 && s[2] == r2 && s[3] == wb);
            assert forall|k: int| 0 <= k < s.len() implies write_agrees(#[trigger] s[k], bp, tb)
                && !(s[k] matches ActionModel::Write(p, _) && p == dp)
                && !(s[k] matches ActionModel::Write(p, _) && p == sp) by {
                if k == 3 {} else {}
            }
        },
    }
}

/// Adding the dependency at an accepted URL and then removing the
/// dependencies by the name it was given gives back the list it was added
/// to: the new dependency comes last, and removing by a name removes the
/// last dependency of that name.
pub proof fn law_remove_undoes_add_dependency(ds: Seq<(Seq<char>, Seq<char>, bool)>, u: Seq<char>)
    requires
        url_accepted(u) is Some,
        ds.len() < usize::MAX,
    ensures
        ({
            let (added, refused) = add_urls(ds, seq![u]);
            &&& refused is None
            &&& added == ds.push((url_accepted(u).unwrap(), u, false))
            &&& name_indices(added, seq![url_accepted(u).unwrap()]) matches Ok(idx)
                && removals_in_bounds(added.len(), idx) && remove_in_turn(added, idx) == ds
        }),
{
    let n = url_accepted(u).unwrap();
    let urls = seq![u];
    assert(urls.drop_last() =~= Seq::<Seq<char>>::empty());
    let added = ds.push((n, u, false));
    assert(add_urls(ds, urls.drop_last()) == (ds, None::<Seq<char>>));
    assert(urls.last() == u);
    assert(add_urls(ds, urls) == (added, None::<Seq<char>>));
    let names = seq![n];
    assert(names.drop_last() =~= Seq::<Seq<char>>::empty());
    assert(last_index_of_name(added, n) == Some(ds.len() as int));
    let idx = seq![ds.len() as usize];
    assert(name_indices(added, names.drop_last()) == Ok::<Seq<usize>, Seq<char>>(seq![]));
    assert(names.last() == n);
    assert(name_indices(added, names) == Ok::<Seq<usize>, Seq<char>>(idx)) by {
        assert(Seq::<usize>::empty().push(ds.len() as usize) =~= idx);
    }
    assert(idx.drop_last() =~= Seq::<usize>::empty());
    assert(remove_in_turn(added, idx.drop_last()) == added);
    assert(idx.last() as int == ds.len());
    assert(remove_in_turn(added, idx) == added.remove(ds.len() as int));
    assert(added.remove(ds.len() as int) =~= ds);
}

} // verus!
