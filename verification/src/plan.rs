//! What a build consists of: the steps to take, in order.

use crate::error::{Error, ErrorView};
use crate::template::{Template, TemplateCatalog, TemplateView};
use vstd::prelude::*;

verus! {

/// One thing to do in the course of a build.
#[derive(Debug, PartialEq, Eq)]
pub enum Step {
    /// Create the destination directory, with the directories above it.
    CreateDirectory,
    /// Read the template definitions, and put in the steps of the templates
    /// that were asked for.
    LoadCatalog,
    /// See to it that the variable of this name has a value.
    Resolve(String),
    /// Copy the files below this directory of the template root, each to the
    /// place below the destination that it has below the directory.
    CopyTree(String),
    /// Copy this file of the template root into the destination, under the
    /// file's own name.
    CopyFile(String),
    /// Run this command line in the destination.
    Run(String),
    /// Give up with this error.
    Fail(Error),
}

/// A step as specifications see it.
pub enum StepView {
    CreateDirectory,
    LoadCatalog,
    Resolve(Seq<char>),
    CopyTree(Seq<char>),
    CopyFile(Seq<char>),
    Run(Seq<char>),
    Fail(ErrorView),
}

impl View for Step {
    type V = StepView;

    open spec fn view(&self) -> StepView {
        match self {
            Step::CreateDirectory => StepView::CreateDirectory,
            Step::LoadCatalog => StepView::LoadCatalog,
            Step::Resolve(name) => StepView::Resolve(name@),
            Step::CopyTree(directory) => StepView::CopyTree(directory@),
            Step::CopyFile(file) => StepView::CopyFile(file@),
            Step::Run(command) => StepView::Run(command@),
            Step::Fail(error) => StepView::Fail(error@),
        }
    }
}

impl DeepView for Step {
    type V = StepView;

    open spec fn deep_view(&self) -> StepView {
        self@
    }
}

/// One step for each name, to give it a value.
pub open spec fn resolve_steps(names: Seq<Seq<char>>) -> Seq<StepView> {
    Seq::new(names.len(), |i: int| StepView::Resolve(names[i]))
}

/// One step for each command line, to run it.
pub open spec fn run_steps(commands: Seq<Seq<char>>) -> Seq<StepView> {
    Seq::new(commands.len(), |i: int| StepView::Run(commands[i]))
}

/// The steps that build one template: its variables get their values, then
/// its directory is copied, then its file, then its commands run; whatever
/// the template lacks is left out.
pub open spec fn template_steps(template: TemplateView) -> Seq<StepView> {
    (match template.template_vars {
        Some(names) => resolve_steps(names),
        None => Seq::empty(),
    }) + (match template.template_dir {
        Some(directory) => seq![StepView::CopyTree(directory)],
        None => Seq::empty(),
    }) + (match template.template_file {
        Some(file) => seq![StepView::CopyFile(file)],
        None => Seq::empty(),
    }) + (match template.commands {
        Some(commands) => run_steps(commands),
        None => Seq::empty(),
    })
}

/// The steps that build the templates called `names`, one template after the
/// other. At the first name that the catalog does not hold the build gives
/// up, and nothing is planned for that name or the names behind it.
pub open spec fn planned(names: Seq<Seq<char>>, catalog: Map<Seq<char>, TemplateView>) -> Seq<
    StepView,
>
    decreases names.len(),
{
    if names.len() == 0 {
        Seq::empty()
    } else if !catalog.contains_key(names[0]) {
        seq![StepView::Fail(ErrorView::TemplateNotFound(names[0]))]
    } else {
        template_steps(catalog[names[0]]) + planned(names.skip(1), catalog)
    }
}

impl Template {
    /// The steps that build this template.
    pub fn steps(&self) -> (steps: Vec<Step>)
        ensures
            steps.deep_view() == template_steps(self@),
    {
        let mut steps: Vec<Step> = Vec::new();
        if let Some(names) = &self.template_vars {
            let mut i: usize = 0;
            while i < names.len()
                invariant
                    i <= names.len(),
                    steps.deep_view() == resolve_steps(names.deep_view().take(i as int)),
                decreases names.len() - i,
            {
                let ghost before = steps.deep_view();
                steps.push(Step::Resolve(names[i].clone()));
                proof {
                    assert(steps.deep_view() =~= before.push(StepView::Resolve(names[i as int]@)));
                    assert(names.deep_view()[i as int] == names[i as int]@);
                    assert(before.push(StepView::Resolve(names[i as int]@)) =~= resolve_steps(
                        names.deep_view().take(i + 1),
                    ));
                }
                i += 1;
            }
            assert(names.deep_view().take(names.len() as int) =~= names.deep_view());
        }
        let ghost resolved = steps.deep_view();
        if let Some(directory) = &self.template_dir {
            steps.push(Step::CopyTree(directory.clone()));
        }
        let ghost copied_tree = steps.deep_view();
        assert(copied_tree =~= resolved + (match self@.template_dir {
            Some(directory) => seq![StepView::CopyTree(directory)],
            None => Seq::empty(),
        }));
        if let Some(file) = &self.template_file {
            steps.push(Step::CopyFile(file.clone()));
        }
        let ghost copied = steps.deep_view();
        assert(copied =~= copied_tree + (match self@.template_file {
            Some(file) => seq![StepView::CopyFile(file)],
            None => Seq::empty(),
        }));
        if let Some(commands) = &self.commands {
            let mut i: usize = 0;
            while i < commands.len()
                invariant
                    i <= commands.len(),
                    steps.deep_view() == copied + run_steps(commands.deep_view().take(i as int)),
                decreases commands.len() - i,
            {
                let ghost before = steps.deep_view();
                steps.push(Step::Run(commands[i].clone()));
                proof {
                    assert(steps.deep_view() =~= before.push(StepView::Run(commands[i as int]@)));
                    assert(commands.deep_view()[i as int] == commands[i as int]@);
                    assert(before.push(StepView::Run(commands[i as int]@)) =~= copied + run_steps(
                        commands.deep_view().take(i + 1),
                    ));
                }
                i += 1;
            }
            assert(commands.deep_view().take(commands.len() as int) =~= commands.deep_view());
        }
        assert(steps.deep_view() =~= copied + (match self@.commands {
            Some(commands) => run_steps(commands),
            None => Seq::empty(),
        }));
        steps
    }
}

impl TemplateCatalog {
    /// The steps that build the templates called `names`, in that order.
    pub fn plan(&self, names: &Vec<String>) -> (steps: Vec<Step>)
        ensures
            steps.deep_view() == planned(names.deep_view(), self@),
    {
        let mut steps: Vec<Step> = Vec::new();
        let mut i: usize = 0;
        proof {
            assert(names.deep_view().skip(0) =~= names.deep_view());
            assert(steps.deep_view() + planned(names.deep_view(), self@) =~= planned(
                names.deep_view(),
                self@,
            ));
        }
        while i < names.len()
            invariant
                i <= names.len(),
                steps.deep_view() + planned(names.deep_view().skip(i as int), self@) == planned(
                    names.deep_view(),
                    self@,
                ),
            decreases names.len() - i,
        {
            let ghost rest = names.deep_view().skip(i as int);
            let ghost before = steps.deep_view();
            assert(rest[0] == names[i as int]@);
            match self.get(names[i].as_str()) {
                Some(template) => {
                    let mut more = template.steps();
                    steps.append(&mut more);
                    proof {
                        assert(rest.skip(1) =~= names.deep_view().skip(i + 1));
                        assert(steps.deep_view() =~= before + template_steps(template@));
                        assert((before + template_steps(template@)) + planned(
                            rest.skip(1),
                            self@,
                        ) =~= before + (template_steps(template@) + planned(rest.skip(1), self@)));
                    }
                },
                None => {
                    steps.push(Step::Fail(Error::TemplateNotFound(names[i].clone())));
                    proof {
                        assert(steps.deep_view() =~= before + seq![
                            StepView::Fail(ErrorView::TemplateNotFound(rest[0])),
                        ]);
                    }
                    return steps;
                },
            }
            i += 1;
        }
        proof {
            assert(steps.deep_view() + Seq::<StepView>::empty() =~= steps.deep_view());
        }
        steps
    }
}

} // verus!
