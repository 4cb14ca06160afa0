use cinit::dependency::Dependencies;
use cinit::script_builder::{ScriptBuilder, ScriptError, ScriptKind};

const BUILD_PLAIN: &str = "@echo off
set TARGET_NAME=app.exe
set SRC_FILE_NAMES=main.c
set ROOT_FOLDER=%~dp0
set CFLAGS=-Wall
set INCLUDES=
set LINKER=

setlocal enabledelayedexpansion
set SRC_PATHS=
for %%i in (%SRC_FILE_NAMES%) do (set SRC_PATHS=!SRC_PATHS! %ROOT_FOLDER%src\\%%i)
pushd %ROOT_FOLDER%
if not exist bin mkdir bin
@echo on
gcc %INCLUDES% %LINKER% %SRC_PATHS% -o bin/%TARGET_NAME% %CFLAGS%
@echo off
if %ERRORLEVEL% neq 0 exit /b %ERRORLEVEL%
echo build success.
endlocal";

#[test]
fn build_script_plain() {
    let s = ScriptBuilder::new(ScriptKind::Build)
        .cflags("-Wall")
        .src_file_names("main.c")
        .target_name("app")
        .build()
        .unwrap();
    assert_eq!(s, BUILD_PLAIN);
}

#[test]
fn build_script_with_dependencies() {
    let s = ScriptBuilder::new(ScriptKind::Build)
        .cflags("-O2")
        .src_file_names("main.c")
        .target_name("game")
        .include_flags("-Ilib\\raylib\\include")
        .linker_flags("-Llib\\raylib\\lib")
        .build()
        .unwrap();
    assert!(s.starts_with("@echo off\nset TARGET_NAME=game.exe\nset SRC_FILE_NAMES=main.c\nset ROOT_FOLDER=%~dp0\nset CFLAGS=-O2\nset INCLUDES=-Ilib\\raylib\\include\nset LINKER=-Llib\\raylib\\lib\nif not exist lib (\ncall .\\setup.bat\n)\nsetlocal enabledelayedexpansion\n"));
    assert!(s.ends_with("echo build success.\nendlocal"));
}

#[test]
fn build_script_missing_fields() {
    let e = ScriptBuilder::new(ScriptKind::Build).cflags("x").src_file_names("y").build();
    assert_eq!(e, Err(ScriptError::UnspecifiedField("target_name")));
    let e = ScriptBuilder::new(ScriptKind::Build).target_name("t").build();
    assert_eq!(e, Err(ScriptError::UnspecifiedField("src_file_names")));
    let e = ScriptBuilder::new(ScriptKind::Build).target_name("t").src_file_names("s").build();
    assert_eq!(e, Err(ScriptError::UnspecifiedField("cflags")));
    let e = ScriptBuilder::new(ScriptKind::Build).linker_flags("l").build();
    assert_eq!(e, Err(ScriptError::UnspecifiedField("include_flags")));
    let e = ScriptBuilder::new(ScriptKind::Build).include_flags("i").build();
    assert_eq!(e, Err(ScriptError::UnspecifiedField("linker_flags")));
    let e = ScriptBuilder::new(ScriptKind::Run).build();
    assert_eq!(e, Err(ScriptError::UnspecifiedField("target_name")));
    let e = ScriptBuilder::new(ScriptKind::Setup).build();
    assert_eq!(e, Err(ScriptError::UnspecifiedField("dep_urls")));
}

#[test]
fn run_script() {
    let s = ScriptBuilder::new(ScriptKind::Run).target_name("app").build().unwrap();
    assert_eq!(
        s,
        "@echo off\nset TARGET_NAME=app.exe\nset ROOT_FOLDER=%~dp0\nset CLI_ARGS=%*\npushd %ROOT_FOLDER%\ncall ./build.bat\nif %ERRORLEVEL% neq 0 exit /b %ERRORLEVEL%\necho:\npushd bin\n%TARGET_NAME% %CLI_ARGS%\npopd\npopd"
    );
}

#[test]
fn setup_script() {
    let mut d = Dependencies::empty();
    d.add_dependency(Some("a".to_string()), "https://github.com/x/a.zip", false).unwrap();
    d.add_dependency(Some("b".to_string()), "https://github.com/x/b.zip", true).unwrap();
    let s = ScriptBuilder::new(ScriptKind::Setup).dep_urls(d.as_slice()).build().unwrap();
    assert_eq!(
        s,
        "if not exist lib mkdir lib\ncurl -fsSL -o a.zip https://github.com/x/a.zip\nif not exist a mkdir a\ntar -xf a.zip --strip-components=1 -C a\nmove a lib\\a\ndel a.zip\ncurl -fsSL -o b.zip https://github.com/x/b.zip\nif not exist b mkdir b\ntar -xf b.zip --strip-components=0 -C b\nmove b lib\\b\ndel b.zip"
    );
    let e = Dependencies::empty();
    assert_eq!(ScriptBuilder::new(ScriptKind::Setup).dep_urls(e.as_slice()).build().unwrap(), "if not exist lib mkdir lib\n");
}
