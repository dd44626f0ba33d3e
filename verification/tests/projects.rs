use fpm::config::{config_folder, config_folder_in, Config, CONFIG_FILE, DATABASE_FILE};
use fpm::error::Error;
use fpm::machine::{Reply, Request};
use fpm::path::JoinedPath;
use fpm::project::Project;
use fpm::template::Template;

fn text(s: &str) -> String {
    s.to_owned()
}

fn path(parts: &[&str]) -> JoinedPath {
    JoinedPath { parts: parts.iter().map(|p| p.to_string()).collect() }
}

fn project() -> Project {
    Project::new(
        Some(text("tool")),
        Some(text("a tool")),
        vec![text("cli")],
        Some(text("rust")),
        Some(text("work")),
    )
}

#[test]
fn new_project_has_no_directory() {
    let p = project();
    assert_eq!(p.rowid, None);
    assert_eq!(p.name, Some(text("tool")));
    assert_eq!(p.desc, Some(text("a tool")));
    assert_eq!(p.directory, None);
    assert_eq!(p.tags, Some(vec![text("cli")]));
    assert_eq!(p.language, Some(text("rust")));
    assert_eq!(p.category, Some(text("work")));
    let empty = Project::new(None, None, vec![], None, None);
    assert_eq!(empty.tags, Some(vec![]));
    assert_eq!(empty.clone(), empty);
    assert_eq!(Project::default().tags, None);
}

#[test]
fn config_starts_in_the_config_folder() {
    let config = Config::with_config_dir(Some(text("/home/u/.config")));
    assert_eq!(config.database_path, path(&["/home/u/.config", "fpm", "projectDB.db"]));
    assert_eq!(config.base_dir, None);
    assert_eq!(config.template_dir, None);
    assert_eq!(Config::with_config_dir(None).database_path, path(&["", "fpm", "projectDB.db"]));
    assert_eq!(config_folder_in(None), path(&["", "fpm"]));
    assert_eq!(config_folder_in(Some(text("c"))), path(&["c", "fpm"]));
    assert_eq!(CONFIG_FILE, "ProjectOrganizer.toml");
    assert_eq!(DATABASE_FILE, "projectDB.db");
}

#[test]
fn project_folder_takes_what_is_there() {
    let mut config = Config::with_config_dir(None);
    config.base_dir = Some(text("/base"));
    assert_eq!(
        config.gen_project_folder(&project()),
        Ok(path(&["/base", "work", "rust", "tool"]))
    );
    let mut p = project();
    p.language = None;
    assert_eq!(config.gen_project_folder(&p), Ok(path(&["/base", "work", "tool"])));
    p.category = None;
    p.name = None;
    assert_eq!(config.gen_project_folder(&p), Ok(path(&["/base"])));
}

#[test]
fn project_folder_needs_a_base() {
    let config = Config::with_config_dir(None);
    assert_eq!(
        config.gen_project_folder(&project()),
        Err(Error::ConfigMissingValue(text("base_dir")))
    );
}

#[test]
fn config_keys() {
    let mut config = Config::with_config_dir(None);
    for key in ["base", "base-dir"] {
        assert_eq!(config.set(key, text(key)), Ok(()));
        assert_eq!(config.base_dir, Some(text(key)));
    }
    for key in ["db", "db-path", "database-path"] {
        assert_eq!(config.set(key, text(key)), Ok(()));
        assert_eq!(config.database_path, path(&[key]));
    }
    for key in ["template-dir", "template"] {
        assert_eq!(config.set(key, text(key)), Ok(()));
        assert_eq!(config.template_dir, Some(text(key)));
    }
    assert_eq!(config.base_dir, Some(text("base-dir")));
    assert_eq!(config.set("Base", text("x")), Err(Error::ConfigInvalidKey(text("Base"))));
    assert_eq!(config.set("", text("x")), Err(Error::ConfigInvalidKey(text(""))));
    assert_eq!(config.base_dir, Some(text("base-dir")));
    assert_eq!(config.template_dir, Some(text("template")));
}

#[test]
fn build_without_templates_only_creates_the_directory() {
    let mut config = Config::with_config_dir(None);
    config.base_dir = Some(text("/base"));
    let mut p = project();
    let build = p.build(None, &config, vec![]).unwrap();
    assert_eq!(p.directory, Some(path(&["/base", "work", "rust", "tool"])));
    let (build, request) = build.step(Reply::Start);
    assert_eq!(request, Request::CreateDirectory(path(&["/base", "work", "rust", "tool"])));
    let (build, request) = build.step(Reply::Done);
    assert_eq!(request, Request::Finished);
    assert!(build.is_finished());
}

#[test]
fn build_uses_the_given_directory_as_it_is() {
    let config = Config::with_config_dir(None);
    let mut p = project();
    let build = p.build(Some(text("some/where")), &config, vec![]).unwrap();
    assert_eq!(p.directory, Some(path(&["some/where"])));
    assert_eq!(p.name, Some(text("tool")));
    let (_, request) = build.step(Reply::Start);
    assert_eq!(request, Request::CreateDirectory(path(&["some/where"])));
}

#[test]
fn build_needs_a_directory() {
    let config = Config::with_config_dir(None);
    let mut p = project();
    let out = p.build(None, &config, vec![text("lib")]);
    assert_eq!(out.err(), Some(Error::ConfigMissingValue(text("base_dir"))));
    assert_eq!(p, project());
}

#[test]
fn build_with_templates_loads_the_catalog_after_the_directory() {
    let mut config = Config::with_config_dir(None);
    config.template_dir = Some(text("/templates"));
    let mut p = project();
    let build = p.build(Some(text("d")), &config, vec![text("lib"), text("gone")]).unwrap();
    let (build, request) = build.step(Reply::Start);
    assert_eq!(request, Request::CreateDirectory(path(&["d"])));
    let (build, request) = build.step(Reply::Done);
    assert_eq!(request, Request::LoadTemplates(text("/templates")));
    // A reply without the definitions changes nothing.
    let (build, request) = build.step(Reply::Done);
    assert_eq!(request, Request::LoadTemplates(text("/templates")));
    let lib = Template {
        name: text("lib"),
        desc: None,
        template_dir: None,
        template_file: None,
        template_vars: Some(vec![text("pkg")]),
        commands: Some(vec![text("echo $HOME")]),
    };
    let (build, request) = build.step(Reply::Templates(vec![lib]));
    assert_eq!(request, Request::Prompt(text("pkg")));
    let (build, request) = build.step(Reply::Answer(text("acme")));
    assert_eq!(
        request,
        Request::Run { program: text("echo"), args: vec![text("$HOME")], directory: path(&["d"]) }
    );
    let (_, request) = build.step(Reply::CommandEnded { success: true, detail: text("") });
    assert_eq!(request, Request::Failed(Error::TemplateNotFound(text("gone"))));
}

#[test]
fn build_with_templates_needs_a_template_directory() {
    let config = Config::with_config_dir(None);
    let mut p = project();
    let build = p.build(Some(text("d")), &config, vec![text("lib")]).unwrap();
    let (build, request) = build.step(Reply::Start);
    assert_eq!(request, Request::CreateDirectory(path(&["d"])));
    let (_, request) = build.step(Reply::Done);
    assert_eq!(request, Request::Failed(Error::ConfigMissingValue(text("template_dir"))));
}

#[test]
fn error_messages() {
    assert_eq!(Error::ConfigNotFound.message(), "Config file not found");
    assert_eq!(
        Error::ConfigMissingValue(text("base_dir")).message(),
        "config missing needed value for `base_dir`"
    );
    assert_eq!(
        Error::ConfigInvalidKey(text("k")).message(),
        "key `k` is invalid for the config"
    );
    assert_eq!(
        Error::TemplateNotFound(text("lib")).message(),
        "The template `lib` was not found in the template directory"
    );
    assert_eq!(
        Error::CommandFailed(text("git init"), text("no git")).message(),
        "Command 'git init' failed with error: no git"
    );
    let e = Error::CommandFailed(text("a"), text("b"));
    assert_eq!(e.clone(), e);
}

#[test]
fn paths_join_in_order() {
    let base = JoinedPath::new(text("a"));
    let joined = base.join("b").join("c/d");
    assert_eq!(joined, path(&["a", "b", "c/d"]));
    assert_eq!(base, path(&["a"]));
    let mut p = joined.clone();
    p.push(text("e"));
    assert_eq!(p.parts, vec![text("a"), text("b"), text("c/d"), text("e")]);
}

#[test]
fn config_of_the_running_user() {
    let folder = config_folder();
    assert_eq!(folder.parts.len(), 2);
    assert_eq!(folder.parts[1], "fpm");
    let config = Config::new();
    assert_eq!(config.database_path, folder.join("projectDB.db"));
    assert_eq!(config.base_dir, None);
    assert_eq!(config.template_dir, None);
}

#[test]
fn default_config_is_the_new_one() {
    let config = Config::default();
    assert_eq!(config.database_path, Config::new().database_path);
    assert_eq!(config.base_dir, None);
    assert_eq!(config.template_dir, None);
}
