use cinit::common::{Error, TemplateKind, UrlError};
use cinit::dependency::URL_RAYLIB_DEFAULT;
use cinit::init::{
    join_path, parse_template_kind, ConfigCache, ConfigFiles, FileAction, FileContents, Init, InitOptions,
    TemplateFile, TEMPLATE_CFLAGS_DEFAULT, TEMPLATE_CFLAGS_RAYLIB,
};

fn files(cflags: &str, cache: &str, deps: Option<&str>) -> ConfigFiles {
    ConfigFiles {
        cflags: Ok(cflags.to_string()),
        cache: Ok(cache.to_string()),
        deps: Ok(deps.map(|d| d.to_string())),
    }
}

fn project() -> Init {
    Init::new("C:\\work\\game".to_string(), "game".to_string(), '\\')
}

fn written(actions: &[FileAction]) -> Vec<(String, String)> {
    actions
        .iter()
        .map(|a| match a {
            FileAction::Write { path, contents: FileContents::Text(t) } => (path.clone(), t.clone()),
            FileAction::Write { path, contents: FileContents::Template(t) } => {
                (path.clone(), format!("<{}>", t.file_name()))
            }
            FileAction::RemoveFileIfExists { path } => (path.clone(), "<remove>".to_string()),
            FileAction::RemoveDirAllIfExists { path } => (path.clone(), "<remove dir>".to_string()),
        })
        .collect()
}

#[test]
fn paths() {
    assert_eq!(join_path("C:\\a", ".init", '\\'), "C:\\a\\.init");
    assert_eq!(join_path("C:\\a\\", "x", '\\'), "C:\\a\\x");
    assert_eq!(join_path("/a", "x", '/'), "/a/x");
    assert_eq!(join_path("", "x", '/'), "x");
    let p = project();
    assert_eq!(p.init_path(), "C:\\work\\game\\.init");
    assert_eq!(p.init_file_path("cache"), "C:\\work\\game\\.init\\cache");
    assert_eq!(p.project_path("build.bat"), "C:\\work\\game\\build.bat");
}

#[test]
fn template_kind_from_cache() {
    assert_eq!(parse_template_kind("template main\n").unwrap(), TemplateKind::Main);
    assert_eq!(parse_template_kind("template RL").unwrap(), TemplateKind::Raylib);
    assert_eq!(parse_template_kind("x Main y").unwrap(), TemplateKind::Main);
    // 'ı' (dotless i) is 'I' in upper case
    assert_eq!(parse_template_kind("template maın").unwrap(), TemplateKind::Main);
    assert!(matches!(parse_template_kind("template"), Err(Error::ParseError(m)) if m == "Unable to locate 'template' parameter"));
    assert!(matches!(parse_template_kind("template sdl"), Err(Error::ParseError(m)) if m == "Unrecognised 'template' parameter"));
}

#[test]
fn config_from_command() {
    let c = ConfigCache::from_command(None, TemplateKind::Raylib, "game");
    assert_eq!(c.cflags(), TEMPLATE_CFLAGS_RAYLIB);
    assert_eq!(c.cache(), "template rl\n");
    assert_eq!(c.template(), TemplateFile::MainRaylib);
    assert_eq!(c.deps().unwrap(), format!("raylib r {}", URL_RAYLIB_DEFAULT));
    assert_eq!(c.include_flags().unwrap(), "-Ilib\\raylib\\include");
    assert_eq!(c.linker_flags().unwrap(), "-Llib\\raylib\\lib");
    assert!(c.build().contains("set TARGET_NAME=game.exe\n"));
    assert!(c.run().contains("set TARGET_NAME=game.exe\n"));
    assert!(c.setup().unwrap().starts_with("if not exist lib mkdir lib\ncurl -fsSL -o raylib.zip "));
    assert_eq!(c.gitignore(), TemplateFile::GitignoreDefault);
    assert_eq!(c.clang_format(), TemplateFile::ClangFormatDefault);
    let m = ConfigCache::from_command(Some("tool".to_string()), TemplateKind::Main, "game");
    assert_eq!(m.cflags(), TEMPLATE_CFLAGS_DEFAULT);
    assert!(m.deps().is_none());
    assert!(m.setup().is_none());
    assert!(m.build().contains("set TARGET_NAME=tool.exe\n"));
    assert!(m.build().contains("set INCLUDES=\nset LINKER=\n\nsetlocal"));
    assert_eq!(ConfigCache::cflags_default(TemplateKind::Main), TEMPLATE_CFLAGS_DEFAULT);
}

#[test]
fn config_from_files() {
    let c = ConfigCache::from_files(files("-O2", "template rl\n", Some("a r https://github.com/x/a.zip")), "game").unwrap();
    assert_eq!(c.cflags(), "-O2");
    assert_eq!(c.template(), TemplateFile::MainRaylib);
    assert_eq!(c.deps().unwrap(), "a r https://github.com/x/a.zip");
    let e = ConfigCache::from_files(
        ConfigFiles { cflags: Err(Error::Io("no cflags".to_string())), cache: Ok(String::new()), deps: Ok(None) },
        "game",
    );
    assert!(matches!(e, Err(Error::Io(m)) if m == "no cflags"));
    let e = ConfigCache::from_files(files("-O2", "template", None), "game");
    assert!(matches!(e, Err(Error::ParseError(_))));
}

#[test]
fn init_plan() {
    let mut p = project();
    let plan = p.init(Some(InitOptions::raylib(None)), false, false).unwrap();
    assert_eq!(plan.dirs, vec!["C:\\work\\game\\.init".to_string(), "C:\\work\\game\\src".to_string()]);
    let w = plan.writes.unwrap();
    assert_eq!(written(&[w.main_source]), vec![("C:\\work\\game\\src\\main.c".to_string(), "<main_raylib.c>".to_string())]);
    let names: Vec<String> = written(&w.windows).into_iter().map(|(p, _)| p).collect();
    assert_eq!(
        names,
        vec![
            "C:\\work\\game\\.init\\cflagswin",
            "C:\\work\\game\\.init\\cache",
            "C:\\work\\game\\.init\\deps",
            "C:\\work\\game\\build.bat",
            "C:\\work\\game\\run.bat",
            "C:\\work\\game\\setup.bat",
            "C:\\work\\game\\.gitignore",
            "C:\\work\\game\\.clang-format",
        ]
    );
    let all = written(&w.windows);
    assert_eq!(all[0].1, TEMPLATE_CFLAGS_RAYLIB);
    assert_eq!(all[1].1, "template rl\n");
    assert_eq!(all[6].1, "<gitignore_default>");
}

#[test]
fn init_plan_main_has_no_dependency_files() {
    let mut p = project();
    let plan = p.init(None, false, false).unwrap();
    let w = plan.writes.unwrap();
    assert_eq!(w.windows.len(), 6);
}

#[test]
fn init_refuses_existing_project() {
    let mut p = project();
    assert!(matches!(p.init(None, true, false), Err(Error::AlreadyExists(x)) if x == "C:\\work\\game\\.init"));
    assert!(matches!(p.init(None, false, true), Err(Error::AlreadyExists(x)) if x == "C:\\work\\game\\src"));
}

#[test]
fn commands_need_init() {
    let mut p = project();
    let r = p.add_cflags("g", false, files("-O2", "template main", None));
    assert!(matches!(r, Err(Error::NeedInit(x)) if x == "C:\\work\\game\\.init"));
    assert!(p.finish().is_empty());
}

#[test]
fn add_cflags_rewrites_build_script() {
    let mut p = project();
    p.add_cflags("g -O3", true, files("-Wall", "template main\n", None)).unwrap();
    assert_eq!(p.updated_flags().unwrap(), "-Wall -g -O3");
    let w = written(&p.finish());
    assert_eq!(w.len(), 2);
    assert_eq!(w[0], ("C:\\work\\game\\.init\\cflagswin".to_string(), "-Wall -g -O3".to_string()));
    assert_eq!(w[1].0, "C:\\work\\game\\build.bat");
    assert!(w[1].1.contains("set CFLAGS=-Wall -g -O3\n"));
    assert!(w[1].1.contains("set TARGET_NAME=game.exe\n"));
}

#[test]
fn add_cflags_refuses_duplicates() {
    let mut p = project();
    let r = p.add_cflags("Wall", true, files("-Wall", "template main\n", None));
    assert!(matches!(r, Err(Error::CFlagNotUnique(f)) if f == "-Wall"));
    assert!(p.finish().is_empty());
}

#[test]
fn remove_and_reset_cflags() {
    let mut p = project();
    p.remove_cflags("-g", true, files("-Wall -g", "template main\n", None)).unwrap();
    assert_eq!(p.updated_flags().unwrap(), "-Wall");
    let mut q = project();
    let r = q.remove_cflags("-x", true, files("-Wall -g", "template main\n", None));
    assert!(matches!(r, Err(Error::CFlagNotFound(f)) if f == "-x"));
    let mut s = project();
    s.reset_cflags(true, files("-O0", "template rl\n", None)).unwrap();
    assert_eq!(s.updated_flags().unwrap(), TEMPLATE_CFLAGS_RAYLIB);
}

#[test]
fn list_messages() {
    let mut p = project();
    assert_eq!(
        p.list_cflags(true, files("-O2", "template main", None)).unwrap(),
        "You currently have these cflags set: '-O2'."
    );
    let mut q = project();
    assert_eq!(
        q.list_dependencies(true, files("-O2", "template main", None)).unwrap(),
        "You don't have any dependencies set."
    );
    let mut r = project();
    assert_eq!(
        r.list_dependencies(true, files("-O2", "template main", Some("a r https://github.com/x/a.zip"))).unwrap(),
        "You currently have these dependencies set: 'a: https://github.com/x/a.zip\n'."
    );
}

#[test]
fn add_dependencies_writes_deps_and_scripts() {
    let mut p = project();
    p.add_dependencies("https://github.com/x/glfw.zip", true, files("-O2", "template main", None)).unwrap();
    let w = written(&p.finish());
    assert_eq!(w[0], ("C:\\work\\game\\.init\\deps".to_string(), "glfw r https://github.com/x/glfw.zip".to_string()));
    assert_eq!(w[1].0, "C:\\work\\game\\build.bat");
    assert!(w[1].1.contains("set INCLUDES=-Ilib\\glfw\\include\n"));
    assert_eq!(w[2].0, "C:\\work\\game\\setup.bat");
    assert_eq!(w.len(), 3);
}

#[test]
fn add_dependencies_nothing_to_add() {
    let mut p = project();
    p.add_dependencies("", true, files("-O2", "template main", None)).unwrap();
    assert!(p.finish().is_empty());
}

#[test]
fn add_dependencies_refuses_bad_url() {
    let mut p = project();
    let r = p.add_dependencies("https://github.com/x/a.zip http://github.com/x/b.zip", true, files("-O2", "template main", None));
    assert!(matches!(r, Err(Error::UrlError(UrlError::NotHttps))));
    assert!(p.finish().is_empty());
}

#[test]
fn remove_dependencies_by_name() {
    let deps = "a r https://github.com/x/a.zip\nb r https://github.com/x/b.zip";
    let mut p = project();
    assert!(p.removal_stays_in_bounds("a", true, &files("-O2", "template main", Some(deps))));
    p.remove_dependencies_by_names("a", true, files("-O2", "template main", Some(deps))).unwrap();
    let w = written(&p.finish());
    assert_eq!(w[0].1, "b r https://github.com/x/b.zip");
    let mut q = project();
    let r = q.remove_dependencies_by_names("zz", true, files("-O2", "template main", Some(deps)));
    assert!(matches!(r, Err(Error::DepNotFoundByName(n)) if n == "zz"));
}

#[test]
fn removal_past_the_end_is_detected() {
    let deps = "a r https://github.com/x/a.zip\nb r https://github.com/x/b.zip";
    let p = project();
    // a is at 0, b at 1; after a is removed, position 1 is past the end
    assert!(!p.removal_stays_in_bounds("a b", true, &files("-O2", "template main", Some(deps))));
    assert!(p.removal_stays_in_bounds("b a", true, &files("-O2", "template main", Some(deps))));
    assert!(p.removal_stays_in_bounds("a b", false, &files("-O2", "template main", Some(deps))));
}

#[test]
fn removing_all_dependencies_keeps_an_empty_file() {
    let deps = "a r https://github.com/x/a.zip";
    let mut p = project();
    p.remove_dependencies_by_names("a", true, files("-O2", "template main", Some(deps))).unwrap();
    let w = written(&p.finish());
    assert_eq!(w[0], ("C:\\work\\game\\.init\\deps".to_string(), String::new()));
    assert_eq!(w[2], ("C:\\work\\game\\setup.bat".to_string(), "if not exist lib mkdir lib\n".to_string()));
}

#[test]
fn reset_dependencies_of_main_removes_files() {
    let deps = "a r https://github.com/x/a.zip";
    let mut p = project();
    p.reset_dependencies(true, files("-O2", "template main", Some(deps))).unwrap();
    let w = written(&p.finish());
    assert_eq!(
        w,
        vec![
            ("C:\\work\\game\\.init\\deps".to_string(), "<remove>".to_string()),
            ("C:\\work\\game\\setup.bat".to_string(), "<remove>".to_string()),
            ("C:\\work\\game\\lib".to_string(), "<remove dir>".to_string()),
            (w[3].0.clone(), w[3].1.clone()),
        ]
    );
    assert_eq!(w[3].0, "C:\\work\\game\\build.bat");
}

#[test]
fn config_loaded_once() {
    let mut p = project();
    assert_eq!(p.config(Some(InitOptions::default())).unwrap().cflags(), TEMPLATE_CFLAGS_DEFAULT);
    // later options are ignored once the configuration is loaded
    assert_eq!(p.config(Some(InitOptions::from_file(files("-O2", "template rl", None)))).unwrap().cflags(), TEMPLATE_CFLAGS_DEFAULT);
    let c = p.config_mut(None).unwrap();
    assert_eq!(c.cache(), "template main\n");
    assert!(p.init_config_if_none(None).is_ok());
}

#[test]
fn written_configuration_reads_back() {
    let mut p = project();
    let plan = p.init(Some(InitOptions::raylib(None)), false, false).unwrap();
    let w = written(&plan.writes.unwrap().windows);
    let back = ConfigCache::from_files(files(&w[0].1, &w[1].1, Some(&w[2].1)), "game").unwrap();
    let orig = ConfigCache::from_command(None, TemplateKind::Raylib, "game");
    assert_eq!(back.cflags(), orig.cflags());
    assert_eq!(back.cache(), orig.cache());
    assert_eq!(back.deps(), orig.deps());
    assert_eq!(back.build(), orig.build());
}

#[test]
fn cache_round_trip() {
    for kind in [TemplateKind::Main, TemplateKind::Raylib] {
        let c = ConfigCache::from_command(None, kind, "p");
        assert_eq!(parse_template_kind(&c.cache()).unwrap(), kind);
    }
}

#[test]
fn try_remove_refuses_out_of_bounds() {
    let deps = "a r https://github.com/x/a.zip\nb r https://github.com/x/b.zip";
    let mut p = project();
    assert!(p.try_remove_dependencies_by_names("a b", true, files("-O2", "template main", Some(deps))).is_none());
    assert!(p.finish().is_empty());
    let r = p.try_remove_dependencies_by_names("b a", true, files("-O2", "template main", Some(deps)));
    assert!(matches!(r, Some(Ok(()))));
    let w = written(&p.finish());
    assert_eq!(w[0], ("C:\\work\\game\\.init\\deps".to_string(), String::new()));
}
