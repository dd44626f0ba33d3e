//! The configuration: where the database is, where projects go, where the
//! templates are.

use crate::error::{Error, ErrorView};
use crate::path::JoinedPath;
use crate::project::Project;
use vstd::prelude::*;

verus! {

/// The name of the configuration file inside the configuration folder.
pub const CONFIG_FILE: &'static str = "ProjectOrganizer.toml";

/// The name of the database file inside the configuration folder.
pub const DATABASE_FILE: &'static str = "projectDB.db";

/// The name of this program's folder inside the user's configuration
/// directory.
pub const FOLDER: &'static str = "fpm";

/// The configuration.
#[derive(Debug, PartialEq, Eq)]
pub struct Config {
    /// The database file.
    pub database_path: JoinedPath,
    /// The directory below which projects are created.
    pub base_dir: Option<String>,
    /// The directory that holds the template definitions and what they copy.
    pub template_dir: Option<String>,
}

impl Default for Config {
    /// The configuration to begin with, for the user who runs the program.
    fn default() -> (config: Config)
        ensures
            exists|config_dir: Option<Seq<char>>|
                config@ == (ConfigView {
                    database_path: folder_in(config_dir).push(DATABASE_FILE@),
                    base_dir: None,
                    template_dir: None,
                }),
    {
        Config::new()
    }
}

/// A configuration as specifications see it.
pub struct ConfigView {
    pub database_path: Seq<Seq<char>>,
    pub base_dir: Option<Seq<char>>,
    pub template_dir: Option<Seq<char>>,
}

impl View for Config {
    type V = ConfigView;

    open spec fn view(&self) -> ConfigView {
        ConfigView {
            database_path: self.database_path@,
            base_dir: self.base_dir.deep_view(),
            template_dir: self.template_dir.deep_view(),
        }
    }
}

/// The configuration after `key` is set to `value`, where the configuration
/// has such a key.
pub open spec fn after_set(config: ConfigView, key: Seq<char>, value: Seq<char>) -> Option<
    ConfigView,
> {
    if key == "base"@ || key == "base-dir"@ {
        Some(ConfigView { base_dir: Some(value), ..config })
    } else if key == "db"@ || key == "db-path"@ || key == "database-path"@ {
        Some(ConfigView { database_path: seq![value], ..config })
    } else if key == "template-dir"@ || key == "template"@ {
        Some(ConfigView { template_dir: Some(value), ..config })
    } else {
        None
    }
}

/// The parts of a path that a part which may be absent contributes.
pub open spec fn part_if_present(part: Option<Seq<char>>) -> Seq<Seq<char>> {
    match part {
        Some(text) => seq![text],
        None => Seq::empty(),
    }
}

/// The folder of a project: the base directory, then the category, the
/// language and the name, each only if the project has it.
pub open spec fn project_folder(
    base: Seq<char>,
    category: Option<Seq<char>>,
    language: Option<Seq<char>>,
    name: Option<Seq<char>>,
) -> Seq<Seq<char>> {
    seq![base] + part_if_present(category) + part_if_present(language) + part_if_present(name)
}

/// The configuration folder, given the user's configuration directory.
pub open spec fn folder_in(config_dir: Option<Seq<char>>) -> Seq<Seq<char>> {
    seq![
        match config_dir {
            Some(dir) => dir,
            None => Seq::empty(),
        },
        FOLDER@,
    ]
}

/// This program's folder inside the user's configuration directory
/// `config_dir`. Without such a directory the folder is looked for where the
/// program runs.
pub fn config_folder_in(config_dir: Option<String>) -> (folder: JoinedPath)
    ensures
        folder@ == folder_in(config_dir.deep_view()),
{
    let first = match config_dir {
        Some(dir) => dir,
        None => String::new(),
    };
    let mut folder = JoinedPath::new(first);
    folder.push(FOLDER.to_owned());
    assert(folder@ =~= folder_in(config_dir.deep_view()));
    folder
}

/// Asks `dirs::config_dir` for the user's configuration directory and gives
/// it as text. Nothing is claimed of the answer: it depends on the system and
/// on the environment in which the program runs, and there may be none.
#[verifier::external_body]
fn user_config_dir() -> Option<String> {
    match dirs::config_dir() {
        Some(dir) => Some(dir.to_string_lossy().into_owned()),
        None => None,
    }
}

/// This program's folder inside the configuration directory of the user who
/// runs it.
pub fn config_folder() -> (folder: JoinedPath)
    ensures
        exists|config_dir: Option<Seq<char>>| folder@ == folder_in(config_dir),
{
    config_folder_in(user_config_dir())
}

impl Config {
    /// The configuration to begin with, for a user whose configuration
    /// directory is `config_dir`: the database lies in the configuration
    /// folder, and neither a base directory nor a template directory is set.
    pub fn with_config_dir(config_dir: Option<String>) -> (config: Config)
        ensures
            config@ == (ConfigView {
                database_path: folder_in(config_dir.deep_view()).push(DATABASE_FILE@),
                base_dir: None,
                template_dir: None,
            }),
    {
        let mut database_path = config_folder_in(config_dir);
        database_path.push(DATABASE_FILE.to_owned());
        Config { database_path, base_dir: None, template_dir: None }
    }

    /// The configuration to begin with, for the user who runs the program.
    pub fn new() -> (config: Config)
        ensures
            exists|config_dir: Option<Seq<char>>|
                config@ == (ConfigView {
                    database_path: folder_in(config_dir).push(DATABASE_FILE@),
                    base_dir: None,
                    template_dir: None,
                }),
    {
        Config::with_config_dir(user_config_dir())
    }

    /// The folder for `project` below the base directory. Without a base
    /// directory there is none, and the error names the field `base_dir`.
    pub fn gen_project_folder(&self, project: &Project) -> (out: Result<JoinedPath, Error>)
        ensures
            match self.base_dir {
                Some(base) => out matches Ok(path) && path@ == project_folder(
                    base@,
                    project@.category,
                    project@.language,
                    project@.name,
                ),
                None => out matches Err(e) && e@ == ErrorView::ConfigMissingValue("base_dir"@),
            },
    {
        let mut path = match &self.base_dir {
            Some(base) => JoinedPath::new(base.clone()),
            None => {
                return Err(Error::ConfigMissingValue("base_dir".to_owned()));
            },
        };
        if let Some(category) = &project.category {
            path.push(category.clone());
        }
        if let Some(language) = &project.language {
            path.push(language.clone());
        }
        if let Some(name) = &project.name {
            path.push(name.clone());
        }
        assert(path@ =~= project_folder(
            self.base_dir->0@,
            project@.category,
            project@.language,
            project@.name,
        ));
        Ok(path)
    }

    /// Sets the field that `key` stands for to `value`: `base` or `base-dir`
    /// the base directory; `db`, `db-path` or `database-path` the database
    /// file; `template` or `template-dir` the template directory. Any other
    /// key is refused, and nothing changes.
    pub fn set(&mut self, key: &str, value: String) -> (out: Result<(), Error>)
        ensures
            match after_set(old(self)@, key@, value@) {
                Some(config) => out is Ok && final(self)@ == config,
                None => final(self)@ == old(self)@ && (out matches Err(e) && e@
                    == ErrorView::ConfigInvalidKey(key@)),
            },
    {
        if key.eq("base") || key.eq("base-dir") {
            self.base_dir = Some(value);
            Ok(())
        } else if key.eq("db") || key.eq("db-path") || key.eq("database-path") {
            self.database_path = JoinedPath::new(value);
            Ok(())
        } else if key.eq("template-dir") || key.eq("template") {
            self.template_dir = Some(value);
            Ok(())
        } else {
            Err(Error::ConfigInvalidKey(key.to_owned()))
        }
    }
}

} // verus!
