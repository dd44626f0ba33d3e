use fpm::config::Config;
use fpm::error::Error;
use fpm::machine::{load_file, load_files, Build, RenderedFile, Reply, Request};
use fpm::path::JoinedPath;
use fpm::plan::Step;
use fpm::store::VariableStore;
use fpm::template::{is_definition_file, SourceFile, Template, TemplateCatalog};

fn text(s: &str) -> String {
    s.to_owned()
}

fn path(parts: &[&str]) -> JoinedPath {
    JoinedPath { parts: parts.iter().map(|p| p.to_string()).collect() }
}

fn config_with_templates() -> Config {
    let mut config = Config::with_config_dir(Some(text("/home/user/.config")));
    config.template_dir = Some(text("tests/templates"));
    config
}

fn test_template() -> Template {
    Template {
        name: "test".to_owned(),
        desc: Some("A Test Tempalte".to_owned()),
        template_dir: Some(text("template_dir")),
        template_file: Some(text("file_3.txt")),
        template_vars: Some(vec!["number".to_owned(), "number2".to_owned()]),
        commands: Some(vec!["git init".to_owned()]),
    }
}

fn numbers() -> VariableStore {
    let mut variables = VariableStore::new();
    variables.insert("number".to_owned(), "1".to_owned());
    variables.insert("number2".to_owned(), "2".to_owned());
    variables
}

fn bare(name: &str) -> Template {
    Template {
        name: text(name),
        desc: None,
        template_dir: None,
        template_file: None,
        template_vars: None,
        commands: None,
    }
}

#[test]
fn test_load_templates() {
    let config = config_with_templates();
    let expected_template = test_template();

    let tempaltes = Template::load_templates(&config, vec![test_template()]).unwrap();
    let template = tempaltes.get("test").unwrap();

    assert_eq!(*template, expected_template);
}

#[test]
fn test_load_file() {
    let variables = numbers();
    let file = load_file(
        "file_1.txt",
        "This is file ${number}\n",
        &path(&["tests/test_files/template_test"]),
        &variables,
    );
    assert_eq!(file.contents, "This is file 1\n");
    assert_eq!(file.path, path(&["tests/test_files/template_test", "file_1.txt"]));
}

#[test]
fn test_load_file_2() {
    let variables = numbers();
    let file = load_file(
        "file_2.txt",
        "First ${number}, then ${number2}, then ${number} again.\n",
        &path(&["out"]),
        &variables,
    );
    assert_eq!(file.contents, "First 1, then 2, then 1 again.\n");
}

#[test]
fn test_load_files() {
    let variables = numbers();
    let files = vec![
        SourceFile { path: text("file_1.txt"), contents: text("This is file ${number}\n") },
        SourceFile { path: text("sub/file_2.txt"), contents: text("${number2} and ${other}\n") },
    ];
    let out = load_files(&files, &path(&["dest"]), &variables);
    assert_eq!(out.len(), 2);
    assert_eq!(out[0].path, path(&["dest", "file_1.txt"]));
    assert_eq!(out[0].contents, "This is file 1\n");
    assert_eq!(out[1].path, path(&["dest", "sub/file_2.txt"]));
    assert_eq!(out[1].contents, "2 and ${other}\n");
}

#[test]
fn test_build_tempate() {
    let config = config_with_templates();
    let variables = numbers();
    let tempaltes = Template::load_templates(&config, vec![test_template()]).unwrap();
    let template = tempaltes.get("test").unwrap();
    let test_dir = path(&["tests/test_files/template_test"]);

    let build = template.build(test_dir.clone(), variables, &config);

    // Both variables have a value, so nothing is asked: the tree comes first.
    let (build, request) = build.step(Reply::Start);
    assert_eq!(request, Request::ReadTree(path(&["tests/templates", "template_dir"])));
    let (build, request) = build.step(Reply::Tree(vec![
        SourceFile { path: text("file_1.txt"), contents: text("one: ${number}") },
        SourceFile { path: text("file_2.txt"), contents: text("two: ${number2}") },
    ]));
    assert_eq!(
        request,
        Request::Write(vec![
            RenderedFile {
                path: path(&["tests/test_files/template_test", "file_1.txt"]),
                contents: text("one: 1"),
            },
            RenderedFile {
                path: path(&["tests/test_files/template_test", "file_2.txt"]),
                contents: text("two: 2"),
            },
        ])
    );
    let (build, request) = build.step(Reply::Done);
    assert_eq!(request, Request::ReadFile(path(&["tests/templates", "file_3.txt"])));
    let (build, request) = build.step(Reply::File {
        name: text("file_3.txt"),
        contents: text("${number}${number2}"),
    });
    assert_eq!(
        request,
        Request::Write(vec![RenderedFile {
            path: path(&["tests/test_files/template_test", "file_3.txt"]),
            contents: text("12"),
        }])
    );
    let (build, request) = build.step(Reply::Done);
    assert_eq!(
        request,
        Request::Run { program: text("git"), args: vec![text("init")], directory: test_dir }
    );
    let (build, request) = build.step(Reply::CommandEnded { success: true, detail: text("") });
    assert_eq!(request, Request::Finished);
    assert!(build.is_finished());
}

#[test]
fn load_templates_needs_a_template_directory() {
    let config = Config::with_config_dir(None);
    let out = Template::load_templates(&config, vec![test_template()]);
    assert_eq!(out.err(), Some(Error::ConfigMissingValue(text("template_dir"))));
}

#[test]
fn later_definition_of_a_name_wins() {
    let config = config_with_templates();
    let mut second = bare("lib");
    second.desc = Some(text("second"));
    let mut first = bare("lib");
    first.desc = Some(text("first"));
    let catalog = Template::load_templates(&config, vec![first, bare("other"), second]).unwrap();
    assert_eq!(catalog.len(), 3);
    assert_eq!(catalog.get("lib").unwrap().desc, Some(text("second")));
    assert!(catalog.contains_key("other"));
    assert!(!catalog.contains_key("li"));
    assert!(catalog.get("libs").is_none());
}

#[test]
fn catalog_insert_displaces() {
    let mut catalog = TemplateCatalog::new();
    assert_eq!(catalog.len(), 0);
    assert!(catalog.get("a").is_none());
    catalog.insert(bare("a"));
    let mut again = bare("a");
    again.template_file = Some(text("x"));
    catalog.insert(again);
    assert_eq!(catalog.get("a").unwrap().template_file, Some(text("x")));
}

#[test]
fn definition_files_go_by_extension() {
    for name in ["a.yaml", "a.yml", "x.y.yaml", "..yml", "a .yml"] {
        assert!(is_definition_file(name), "{}", name);
    }
    for name in [".yaml", ".yml", "yaml", "a.YAML", "a.yaml.txt", "a.yamlx", "", "a.", "ayml", "a.yaml "] {
        assert!(!is_definition_file(name), "{}", name);
    }
}

#[test]
fn definition_files_agree_with_path_extension() {
    for name in ["a.yaml", "a.yml", ".yaml", ".yml", "x.tar.yml", "yml", "a.b", "a.yaml.bak", "é.yaml", "..yaml"] {
        let extension = std::path::Path::new(name).extension().and_then(|e| e.to_str());
        let expected = extension == Some("yaml") || extension == Some("yml");
        assert_eq!(is_definition_file(name), expected, "{}", name);
    }
}

#[test]
fn steps_of_a_template_come_in_order() {
    let steps = test_template().steps();
    assert_eq!(
        steps,
        vec![
            Step::Resolve(text("number")),
            Step::Resolve(text("number2")),
            Step::CopyTree(text("template_dir")),
            Step::CopyFile(text("file_3.txt")),
            Step::Run(text("git init")),
        ]
    );
    assert_eq!(bare("x").steps(), vec![]);
}

#[test]
fn plan_stops_at_the_first_missing_name() {
    let mut catalog = TemplateCatalog::new();
    let mut init = bare("init");
    init.commands = Some(vec![text("git init")]);
    catalog.insert(init);
    let mut readme = bare("readme");
    readme.template_file = Some(text("README.md"));
    catalog.insert(readme);
    let steps = catalog.plan(&vec![text("init"), text("nope"), text("readme")]);
    assert_eq!(
        steps,
        vec![Step::Run(text("git init")), Step::Fail(Error::TemplateNotFound(text("nope")))]
    );
}

#[test]
fn missing_template_fails_without_a_write() {
    let config = config_with_templates();
    let catalog = TemplateCatalog::new();
    let build = Template::build_templates(path(&["dest"]), vec![text("ghost")], &catalog, &config);
    let (build, request) = build.step(Reply::Start);
    assert_eq!(request, Request::Failed(Error::TemplateNotFound(text("ghost"))));
    // A failed build stays failed.
    let (build, request) = build.step(Reply::Done);
    assert_eq!(request, Request::Failed(Error::TemplateNotFound(text("ghost"))));
    assert!(!build.is_finished());
}

#[test]
fn lib_template_writes_package_file() {
    let config = config_with_templates();
    let mut catalog = TemplateCatalog::new();
    let mut lib = bare("lib");
    lib.template_file = Some(text("file.txt"));
    lib.template_vars = Some(vec![text("pkg")]);
    catalog.insert(lib);
    let build = Template::build_templates(path(&["/tmp/proj"]), vec![text("lib")], &catalog, &config);
    let (build, request) = build.step(Reply::Start);
    assert_eq!(request, Request::Prompt(text("pkg")));
    let (build, request) = build.step(Reply::Answer(text("acme")));
    assert_eq!(request, Request::ReadFile(path(&["tests/templates", "file.txt"])));
    assert_eq!(build.variables().get("pkg"), Some(&text("acme")));
    let (build, request) = build.step(Reply::File {
        name: text("file.txt"),
        contents: text("Package: ${pkg}"),
    });
    assert_eq!(
        request,
        Request::Write(vec![RenderedFile {
            path: path(&["/tmp/proj", "file.txt"]),
            contents: text("Package: acme"),
        }])
    );
    let (build, request) = build.step(Reply::Done);
    assert_eq!(request, Request::Finished);
    assert_eq!(build.destination(), &path(&["/tmp/proj"]));
}

#[test]
fn init_runs_before_readme_is_written() {
    let config = config_with_templates();
    let mut catalog = TemplateCatalog::new();
    let mut init = bare("init");
    init.commands = Some(vec![text("git init")]);
    catalog.insert(init);
    let mut readme = bare("readme");
    readme.template_file = Some(text("docs/README.md"));
    catalog.insert(readme);
    let build = Template::build_templates(
        path(&["fresh"]),
        vec![text("init"), text("readme")],
        &catalog,
        &config,
    );
    let (build, request) = build.step(Reply::Start);
    assert_eq!(
        request,
        Request::Run { program: text("git"), args: vec![text("init")], directory: path(&["fresh"]) }
    );
    let (build, request) = build.step(Reply::CommandEnded { success: true, detail: text("") });
    assert_eq!(request, Request::ReadFile(path(&["tests/templates", "docs/README.md"])));
    let (build, request) =
        build.step(Reply::File { name: text("README.md"), contents: text("# readme") });
    assert_eq!(
        request,
        Request::Write(vec![RenderedFile {
            path: path(&["fresh", "README.md"]),
            contents: text("# readme"),
        }])
    );
    let (_, request) = build.step(Reply::Done);
    assert_eq!(request, Request::Finished);
}

#[test]
fn variable_is_asked_once_across_templates() {
    let config = config_with_templates();
    let mut catalog = TemplateCatalog::new();
    let mut a = bare("a");
    a.template_vars = Some(vec![text("who"), text("who"), text("what")]);
    catalog.insert(a);
    let mut b = bare("b");
    b.template_vars = Some(vec![text("what"), text("who"), text("where")]);
    catalog.insert(b);
    let mut build =
        Template::build_templates(path(&["d"]), vec![text("a"), text("b")], &catalog, &config);
    let mut reply = Reply::Start;
    let mut asked: Vec<String> = Vec::new();
    loop {
        let (next, request) = build.step(reply);
        build = next;
        match request {
            Request::Prompt(name) => {
                asked.push(name);
                reply = Reply::Answer(text(""));
            }
            Request::Finished => break,
            other => panic!("unexpected request {:?}", other),
        }
    }
    assert_eq!(asked, vec![text("who"), text("what"), text("where")]);
    // The empty string is a value like any other.
    assert_eq!(build.variables().get("who"), Some(&text("")));
    assert_eq!(build.variables().len(), 3);
}

#[test]
fn bare_template_asks_for_nothing() {
    let config = config_with_templates();
    let build = bare("nothing").build(path(&["d"]), VariableStore::new(), &config);
    let (build, request) = build.step(Reply::Start);
    assert_eq!(request, Request::Finished);
    let (_, request) = build.step(Reply::Done);
    assert_eq!(request, Request::Finished);
}

#[test]
fn failing_command_stops_the_build() {
    let config = config_with_templates();
    let mut t = bare("t");
    t.commands = Some(vec![text("false  now"), text("echo never")]);
    let build = t.build(path(&["d"]), VariableStore::new(), &config);
    let (build, request) = build.step(Reply::Start);
    assert_eq!(
        request,
        Request::Run { program: text("false"), args: vec![text("now")], directory: path(&["d"]) }
    );
    let (build, request) = build.step(Reply::CommandEnded { success: false, detail: text("boom") });
    assert_eq!(request, Request::Failed(Error::CommandFailed(text("false  now"), text("boom"))));
    let (_, request) = build.step(Reply::CommandEnded { success: true, detail: text("") });
    assert_eq!(request, Request::Failed(Error::CommandFailed(text("false  now"), text("boom"))));
}

#[test]
fn blank_command_cannot_be_launched() {
    let config = config_with_templates();
    let mut t = bare("t");
    t.commands = Some(vec![text(" \t ")]);
    let build = t.build(path(&["d"]), VariableStore::new(), &config);
    let (_, request) = build.step(Reply::Start);
    assert_eq!(request, Request::Failed(Error::CommandFailed(text(" \t "), text(""))));
}

#[test]
fn copying_needs_a_template_root() {
    let config = Config::with_config_dir(None);
    let mut t = bare("t");
    t.template_vars = Some(vec![text("v")]);
    t.template_dir = Some(text("tree"));
    let build = t.build(path(&["d"]), VariableStore::new(), &config);
    let (build, request) = build.step(Reply::Start);
    assert_eq!(request, Request::Prompt(text("v")));
    let (_, request) = build.step(Reply::Answer(text("x")));
    assert_eq!(request, Request::Failed(Error::ConfigMissingValue(text("template_dir"))));
}

#[test]
fn wrong_reply_is_asked_again() {
    let config = config_with_templates();
    let build = test_template().build(path(&["d"]), VariableStore::new(), &config);
    let (build, request) = build.step(Reply::Start);
    assert_eq!(request, Request::Prompt(text("number")));
    let (build, request) = build.step(Reply::Done);
    assert_eq!(request, Request::Prompt(text("number")));
    assert!(!build.variables().contains_key("number"));
    let (build, request) = build.step(Reply::Answer(text("7")));
    assert_eq!(request, Request::Prompt(text("number2")));
    let (build, request) = build.step(Reply::Answer(text("8")));
    assert_eq!(request, Request::ReadTree(path(&["tests/templates", "template_dir"])));
    let (build, request) = build.step(Reply::Answer(text("8")));
    assert_eq!(request, Request::ReadTree(path(&["tests/templates", "template_dir"])));
    let (build, request) = build.step(Reply::Tree(vec![]));
    assert_eq!(request, Request::Write(vec![]));
    let (build, request) = build.step(Reply::Done);
    assert_eq!(request, Request::ReadFile(path(&["tests/templates", "file_3.txt"])));
    let (build, request) = build.step(Reply::Tree(vec![]));
    assert_eq!(request, Request::ReadFile(path(&["tests/templates", "file_3.txt"])));
    let (build, request) = build.step(Reply::File { name: text("f"), contents: text("${number}") });
    assert_eq!(
        request,
        Request::Write(vec![RenderedFile { path: path(&["d", "f"]), contents: text("7") }])
    );
    let (build, request) = build.step(Reply::Done);
    let run = Request::Run { program: text("git"), args: vec![text("init")], directory: path(&["d"]) };
    assert_eq!(request, run);
    let (_, request) = build.step(Reply::Done);
    assert_eq!(request, run);
}

#[test]
fn custom_steps_can_be_driven() {
    let build: Build = Build::new(
        path(&["d"]),
        None,
        vec![],
        vec![Step::CreateDirectory, Step::Fail(Error::ConfigNotFound)],
        VariableStore::new(),
    );
    let (build, request) = build.step(Reply::Start);
    assert_eq!(request, Request::CreateDirectory(path(&["d"])));
    let (_, request) = build.step(Reply::Done);
    assert_eq!(request, Request::Failed(Error::ConfigNotFound));
}
