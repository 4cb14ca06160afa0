use vstd::prelude::*;

use crate::dependency::{dep_views, Dependency};
use crate::text::{join, join_strings, views};

verus! {

/// Which batch script a builder writes.
#[derive(Clone, Copy, Debug, PartialEq, Eq)]
pub enum ScriptKind {
    Build,
    Run,
    Setup,
}

/// A script could not be written: the named field was never given.
#[derive(Debug, PartialEq, Eq)]
pub enum ScriptError {
    UnspecifiedField(&'static str),
}

/// Collects what a batch script needs, then writes it.
pub struct ScriptBuilder<'a> {
    pub kind: ScriptKind,
    pub cflags: Option<&'a str>,
    pub target_name: Option<&'a str>,
    pub src_file_names: Option<&'a str>,
    pub include_flags: Option<&'a str>,
    pub linker_flags: Option<&'a str>,
    pub dependencies: Option<&'a [Dependency]>,
    /// Set once include or linker flags are given: the build script then
    /// needs both, and runs the setup script when lib is missing.
    pub need_dependencies: bool,
}

/// The view of an optional string slice.
pub open spec fn opt_str(o: Option<&str>) -> Option<Seq<char>> {
    match o {
        Some(s) => Some(s@),
        None => None,
    }
}

pub const BUILD_HEAD: &'static str = "@echo off\nset TARGET_NAME=";

pub const BUILD_SRC: &'static str = ".exe\nset SRC_FILE_NAMES=";

pub const BUILD_CFLAGS: &'static str = "\nset ROOT_FOLDER=%~dp0\nset CFLAGS=";

pub const BUILD_INCLUDES: &'static str = "\nset INCLUDES=";

pub const BUILD_LINKER: &'static str = "\nset LINKER=";

pub const BUILD_SETUP_CALL: &'static str = "if not exist lib (\ncall .\\setup.bat\n)";

pub const BUILD_TAIL: &'static str = "\nsetlocal enabledelayedexpansion\nset SRC_PATHS=\nfor %%i in (%SRC_FILE_NAMES%) do (set SRC_PATHS=!SRC_PATHS! %ROOT_FOLDER%src\\%%i)\npushd %ROOT_FOLDER%\nif not exist bin mkdir bin\n@echo on\ngcc %INCLUDES% %LINKER% %SRC_PATHS% -o bin/%TARGET_NAME% %CFLAGS%\n@echo off\nif %ERRORLEVEL% neq 0 exit /b %ERRORLEVEL%\necho build success.\nendlocal";

pub const RUN_HEAD: &'static str = "@echo off\nset TARGET_NAME=";

pub const RUN_TAIL: &'static str = ".exe\nset ROOT_FOLDER=%~dp0\nset CLI_ARGS=%*\npushd %ROOT_FOLDER%\ncall ./build.bat\nif %ERRORLEVEL% neq 0 exit /b %ERRORLEVEL%\necho:\npushd bin\n%TARGET_NAME% %CLI_ARGS%\npopd\npopd";

pub const SETUP_HEAD: &'static str = "if not exist lib mkdir lib\n";

/// The build script: compiles the sources of `src` into `bin\<target>.exe`
/// with gcc, the given cflags, include and linker flags; with `setup`, it
/// first runs the setup script where lib is missing.
pub open spec fn build_script(
    target: Seq<char>,
    src: Seq<char>,
    cflags: Seq<char>,
    includes: Seq<char>,
    linker: Seq<char>,
    setup: bool,
) -> Seq<char> {
    BUILD_HEAD@ + target + BUILD_SRC@ + src + BUILD_CFLAGS@ + cflags + BUILD_INCLUDES@ + includes
        + BUILD_LINKER@ + linker + "\n"@ + (if setup {
        BUILD_SETUP_CALL@
    } else {
        ""@
    }) + BUILD_TAIL@
}

/// The run script: builds, then runs `bin\<target>.exe` with the script's
/// arguments.
pub open spec fn run_script(target: Seq<char>) -> Seq<char> {
    RUN_HEAD@ + target + RUN_TAIL@
}

/// The part of the setup script that downloads and unpacks one dependency
/// into `lib\<name>`.
pub open spec fn setup_lines(d: (Seq<char>, Seq<char>, bool)) -> Seq<char> {
    "curl -fsSL -o "@ + d.0 + ".zip "@ + d.1 + "\nif not exist "@ + d.0 + " mkdir "@ + d.0
        + "\ntar -xf "@ + d.0 + ".zip --strip-components="@ + (if d.2 {
        "0"@
    } else {
        "1"@
    }) + " -C "@ + d.0 + "\nmove "@ + d.0 + " lib\\"@ + d.0 + "\ndel "@ + d.0 + ".zip"@
}

/// The setup script for the given dependencies.
pub open spec fn setup_script(deps: Seq<(Seq<char>, Seq<char>, bool)>) -> Seq<char> {
    SETUP_HEAD@ + join(Seq::new(deps.len(), |i: int| setup_lines(deps[i])), "\n"@)
}

impl<'a> ScriptBuilder<'a> {
    /// What `build` gives: the script, or the name of the first field it
    /// needs that is missing.
    pub open spec fn outcome(&self) -> Result<Seq<char>, Seq<char>> {
        match self.kind {
            ScriptKind::Build => {
                if self.need_dependencies && self.include_flags is None {
                    Err("include_flags"@)
                } else if self.need_dependencies && self.linker_flags is None {
                    Err("linker_flags"@)
                } else if self.target_name is None {
                    Err("target_name"@)
                } else if self.src_file_names is None {
                    Err("src_file_names"@)
                } else if self.cflags is None {
                    Err("cflags"@)
                } else {
                    Ok(
                        build_script(
                            self.target_name.unwrap()@,
                            self.src_file_names.unwrap()@,
                            self.cflags.unwrap()@,
                            if self.need_dependencies {
                                self.include_flags.unwrap()@
                            } else {
                                ""@
                            },
                            if self.need_dependencies {
                                self.linker_flags.unwrap()@
                            } else {
                                ""@
                            },
                            self.need_dependencies,
                        ),
                    )
                }
            },
            ScriptKind::Setup => match self.dependencies {
                None => Err("dep_urls"@),
                Some(d) => Ok(setup_script(dep_views(d@))),
            },
            ScriptKind::Run => match self.target_name {
                None => Err("target_name"@),
                Some(t) => Ok(run_script(t@)),
            },
        }
    }

    pub fn new(kind: ScriptKind) -> (r: Self)
        ensures
            r.kind == kind,
            r.cflags is None,
            r.target_name is None,
            r.src_file_names is None,
            r.include_flags is None,
            r.linker_flags is None,
            r.dependencies is None,
            !r.need_dependencies,
    {
        ScriptBuilder {
            kind,
            cflags: None,
            target_name: None,
            src_file_names: None,
            include_flags: None,
            linker_flags: None,
            dependencies: None,
            need_dependencies: false,
        }
    }

    pub fn cflags(self, flags: &'a str) -> (r: Self)
        ensures
            r == (ScriptBuilder { cflags: Some(flags), ..self }),
    {
        ScriptBuilder { cflags: Some(flags), ..self }
    }

    pub fn target_name(self, target_name: &'a str) -> (r: Self)
        ensures
            r == (ScriptBuilder { target_name: Some(target_name), ..self }),
    {
        ScriptBuilder { target_name: Some(target_name), ..self }
    }

    pub fn src_file_names(self, file_names: &'a str) -> (r: Self)
        ensures
            r == (ScriptBuilder { src_file_names: Some(file_names), ..self }),
    {
        ScriptBuilder { src_file_names: Some(file_names), ..self }
    }

    pub fn include_flags(self, include_flags: &'a str) -> (r: Self)
        ensures
            r == (ScriptBuilder {
                include_flags: Some(include_flags),
                need_dependencies: true,
                ..self
            }),
    {
        ScriptBuilder { include_flags: Some(include_flags), need_dependencies: true, ..self }
    }

    pub fn linker_flags(self, linker_flags: &'a str) -> (r: Self)
        ensures
            r == (ScriptBuilder {
                linker_flags: Some(linker_flags),
                need_dependencies: true,
                ..self
            }),
    {
        ScriptBuilder { linker_flags: Some(linker_flags), need_dependencies: true, ..self }
    }

    pub fn dep_urls(self, dependencies: &'a [Dependency]) -> (r: Self)
        ensures
            r == (ScriptBuilder { dependencies: Some(dependencies), ..self }),
    {
        ScriptBuilder { dependencies: Some(dependencies), ..self }
    }

    /// Writes the script.
    pub fn build(self) -> (r: Result<String, ScriptError>)
        ensures
            match self.outcome() {
                Ok(text) => r matches Ok(s) && s@ == text,
                Err(field) => r matches Err(ScriptError::UnspecifiedField(f)) && f@ == field,
            },
    {
        match self.kind {
            ScriptKind::Build => {
                let (include_flags, linker_flags) = if self.need_dependencies {
                    let i = match self.include_flags {
                        Some(i) => i,
                        None => return Err(ScriptError::UnspecifiedField("include_flags")),
                    };
                    let l = match self.linker_flags {
                        Some(l) => l,
                        None => return Err(ScriptError::UnspecifiedField("linker_flags")),
                    };
                    (i, l)
                } else {
                    ("", "")
                };
                let setup_clause = if self.need_dependencies {
                    BUILD_SETUP_CALL
                } else {
                    ""
                };
                let target = match self.target_name {
                    Some(t) => t,
                    None => return Err(ScriptError::UnspecifiedField("target_name")),
                };
                let src = match self.src_file_names {
                    Some(s) => s,
                    None => return Err(ScriptError::UnspecifiedField("src_file_names")),
                };
                let cflags = match self.cflags {
                    Some(c) => c,
                    None => return Err(ScriptError::UnspecifiedField("cflags")),
                };
                let mut s = BUILD_HEAD.to_owned();
                s.append(target);
                s.append(BUILD_SRC);
                s.append(src);
                s.append(BUILD_CFLAGS);
                s.append(cflags);
                s.append(BUILD_INCLUDES);
                s.append(include_flags);
                s.append(BUILD_LINKER);
                s.append(linker_flags);
                s.append("\n");
                s.append(setup_clause);
                s.append(BUILD_TAIL);
                Ok(s)
            },
            ScriptKind::Setup => {
                let deps = match self.dependencies {
                    Some(d) => d,
                    None => return Err(ScriptError::UnspecifiedField("dep_urls")),
                };
                let mut parts: Vec<String> = Vec::new();
                let n = deps.len();
                let mut i: usize = 0;
                while i < n
                    invariant
                        n == deps@.len(),
                        i <= n,
                        parts@.len() == i,
                        forall|j: int|
                            0 <= j < i ==> #[trigger] parts@[j]@ == setup_lines(deps@[j]@),
                    decreases n - i,
                {
                    let d = &deps[i];
                    let name = d.name.as_str();
                    let mut p = "curl -fsSL -o ".to_owned();
                    p.append(name);
                    p.append(".zip ");
                    p.append(d.url.as_str());
                    p.append("\nif not exist ");
                    p.append(name);
                    p.append(" mkdir ");
                    p.append(name);
                    p.append("\ntar -xf ");
                    p.append(name);
                    p.append(".zip --strip-components=");
                    p.append(
                        if d.no_root {
                            "0"
                        } else {
                            "1"
                        },
                    );
                    p.append(" -C ");
                    p.append(name);
                    p.append("\nmove ");
                    p.append(name);
                    p.append(" lib\\");
                    p.append(name);
                    p.append("\ndel ");
                    p.append(name);
                    p.append(".zip");
                    parts.push(p);
                    i = i + 1;
                }
                assert(views(parts@) =~= Seq::new(
                    dep_views(deps@).len(),
                    |i: int| setup_lines(dep_views(deps@)[i]),
                ));
                let urls = join_strings(&parts, "\n");
                let mut s = SETUP_HEAD.to_owned();
                s.append(urls.as_str());
                Ok(s)
            },
            ScriptKind::Run => {
                let target = match self.target_name {
                    Some(t) => t,
                    None => return Err(ScriptError::UnspecifiedField("target_name")),
                };
                let mut s = RUN_HEAD.to_owned();
                s.append(target);
                s.append(RUN_TAIL);
                Ok(s)
            },
        }
    }
}

} // verus!
