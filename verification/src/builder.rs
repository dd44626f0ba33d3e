//! How a build begins: for one template, for a list of templates by name, and
//! for a new project.

use crate::config::{project_folder, Config, ConfigView};
use crate::error::{Error, ErrorView};
use crate::machine::{valid, Build, BuildView, PhaseView};
use crate::path::JoinedPath;
use crate::plan::{planned, template_steps, Step, StepView};
use crate::project::{Project, ProjectView};
use crate::store::{BindingView, VariableStore};
use crate::template::{catalog_of, clone_text, Template, TemplateCatalog, TemplateView};
use vstd::prelude::*;

verus! {

/// A build that has not begun.
pub open spec fn fresh(
    destination: Seq<Seq<char>>,
    template_root: Option<Seq<char>>,
    names: Seq<Seq<char>>,
    steps: Seq<StepView>,
    variables: Seq<BindingView>,
) -> BuildView {
    BuildView {
        destination,
        template_root,
        names,
        steps,
        cursor: 0,
        phase: PhaseView::Ready,
        variables,
    }
}

/// Where a project is built: in the directory that was given, or else in its
/// folder below the base directory; nowhere if neither is there.
pub open spec fn project_destination(
    dir: Option<Seq<char>>,
    config: ConfigView,
    project: ProjectView,
) -> Option<Seq<Seq<char>>> {
    match (dir, config.base_dir) {
        (Some(given), _) => Some(seq![given]),
        (None, Some(base)) => Some(
            project_folder(base, project.category, project.language, project.name),
        ),
        (None, None) => None,
    }
}

/// The steps with which the build of a project begins: the directory is
/// created in any case; the catalog is loaded only if a template was asked
/// for, and the templates' own steps follow once it is there.
pub open spec fn project_steps(templates: Seq<Seq<char>>) -> Seq<StepView> {
    if templates.len() == 0 {
        seq![StepView::CreateDirectory]
    } else {
        seq![StepView::CreateDirectory, StepView::LoadCatalog]
    }
}

impl Template {
    /// The catalog of the template definitions that were read in the
    /// template directory, `definitions` in the order in which their files
    /// were found. Without a template directory in `config` there is no
    /// catalog, and the error names the field `template_dir`.
    pub fn load_templates(config: &Config, definitions: Vec<Template>) -> (out: Result<
        TemplateCatalog,
        Error,
    >)
        ensures
            match config.template_dir {
                Some(_) => out matches Ok(catalog) && catalog.definitions()
                    == definitions.deep_view() && catalog@ == catalog_of(definitions.deep_view()),
                None => out matches Err(e) && e@ == ErrorView::ConfigMissingValue("template_dir"@),
            },
    {
        match &config.template_dir {
            Some(_) => Ok(TemplateCatalog::from_definitions(definitions)),
            None => Err(Error::ConfigMissingValue("template_dir".to_owned())),
        }
    }

    /// Begins the build of the templates called `templates` into `path`, one
    /// after the other in the order given, with one variable store for all of
    /// them, empty at first.
    pub fn build_templates(
        path: JoinedPath,
        templates: Vec<String>,
        template_files: &TemplateCatalog,
        config: &Config,
    ) -> (build: Build)
        ensures
            build@ == fresh(
                path@,
                config@.template_dir,
                Seq::empty(),
                planned(templates.deep_view(), template_files@),
                Seq::empty(),
            ),
            valid(build@),
    {
        let steps = template_files.plan(&templates);
        let names: Vec<String> = Vec::new();
        assert(names.deep_view() =~= Seq::<Seq<char>>::empty());
        Build::new(path, clone_text(&config.template_dir), names, steps, VariableStore::new())
    }

    /// Begins the build of this template into `path`, with the variables
    /// that have a value already.
    pub fn build(&self, path: JoinedPath, variables: VariableStore, config: &Config) -> (build:
        Build)
        ensures
            build@ == fresh(
                path@,
                config@.template_dir,
                Seq::empty(),
                template_steps(self@),
                variables.entries(),
            ),
            valid(build@),
    {
        let steps = self.steps();
        let names: Vec<String> = Vec::new();
        assert(names.deep_view() =~= Seq::<Seq<char>>::empty());
        Build::new(path, clone_text(&config.template_dir), names, steps, variables)
    }
}

impl Project {
    /// Begins the build of this project: settles where it goes and notes
    /// that in the record, before anything touches the file system. The
    /// directory is `dir` as it was given, or else the project's folder below
    /// the base directory. With neither, the record stays as it was, and the
    /// error names the field `base_dir`.
    pub fn build(&mut self, dir: Option<String>, config: &Config, templates: Vec<String>) -> (out:
        Result<Build, Error>)
        ensures
            match project_destination(dir.deep_view(), config@, old(self)@) {
                Some(destination) => final(self)@ == (ProjectView {
                    directory: Some(destination),
                    ..old(self)@
                }) && (out matches Ok(build) && valid(build@) && build@ == fresh(
                    destination,
                    config@.template_dir,
                    templates.deep_view(),
                    project_steps(templates.deep_view()),
                    Seq::empty(),
                )),
                None => final(self)@ == old(self)@ && (out matches Err(e) && e@
                    == ErrorView::ConfigMissingValue("base_dir"@)),
            },
    {
        let destination = match dir {
            Some(given) => JoinedPath::new(given),
            None => match config.gen_project_folder(self) {
                Ok(folder) => folder,
                Err(e) => {
                    return Err(e);
                },
            },
        };
        self.directory = Some(destination.clone());
        let mut steps: Vec<Step> = Vec::new();
        steps.push(Step::CreateDirectory);
        if templates.len() > 0 {
            steps.push(Step::LoadCatalog);
        }
        assert(steps.deep_view() =~= project_steps(templates.deep_view()));
        Ok(
            Build::new(
                destination,
                clone_text(&config.template_dir),
                templates,
                steps,
                VariableStore::new(),
            ),
        )
    }
}

} // verus!
