//! The build itself, as a machine that decides and never acts. It takes what
//! the last request brought and says what is to be done next; whoever drives
//! it reads, writes, asks and runs.

use crate::command::{split_whitespace, words};
use crate::error::{Error, ErrorView};
use crate::path::JoinedPath;
use crate::plan::{planned, Step, StepView};
use crate::store::{bind, distinct_names, has_name, lemma_bind, BindingView, VariableStore};
use crate::substitute::{substitute, substituted};
use crate::template::{catalog_of, SourceFile, SourceFileView, Template, TemplateCatalog, TemplateView};
use crate::text::clone_strings;
use vstd::prelude::*;

verus! {

/// A file to write.
#[derive(Debug, PartialEq, Eq)]
pub struct RenderedFile {
    /// Where the file goes.
    pub path: JoinedPath,
    /// The text to put in it. A file that is there already is overwritten.
    pub contents: String,
}

/// A file to write, as specifications see it.
pub struct RenderedFileView {
    pub path: Seq<Seq<char>>,
    pub contents: Seq<char>,
}

impl View for RenderedFile {
    type V = RenderedFileView;

    open spec fn view(&self) -> RenderedFileView {
        RenderedFileView { path: self.path@, contents: self.contents@ }
    }
}

impl DeepView for RenderedFile {
    type V = RenderedFileView;

    open spec fn deep_view(&self) -> RenderedFileView {
        self@
    }
}

/// What the build wants done next.
#[derive(Debug, PartialEq, Eq)]
pub enum Request {
    /// Create this directory and the directories above it.
    CreateDirectory(JoinedPath),
    /// Read every template definition in this directory and answer with
    /// `Reply::Templates`.
    LoadTemplates(String),
    /// Ask for the value of this variable and answer with `Reply::Answer`.
    Prompt(String),
    /// Read every regular file below this directory and answer with
    /// `Reply::Tree`.
    ReadTree(JoinedPath),
    /// Read this file and answer with `Reply::File`.
    ReadFile(JoinedPath),
    /// Write these files, creating the directories they need.
    Write(Vec<RenderedFile>),
    /// Run this program with these arguments in this directory, through no
    /// shell, and answer with `Reply::CommandEnded`.
    Run { program: String, args: Vec<String>, directory: JoinedPath },
    /// Nothing is left to do.
    Finished,
    /// The build has failed. What was written stays.
    Failed(Error),
}

/// A request as specifications see it.
pub enum RequestView {
    CreateDirectory(Seq<Seq<char>>),
    LoadTemplates(Seq<char>),
    Prompt(Seq<char>),
    ReadTree(Seq<Seq<char>>),
    ReadFile(Seq<Seq<char>>),
    Write(Seq<RenderedFileView>),
    Run { program: Seq<char>, args: Seq<Seq<char>>, directory: Seq<Seq<char>> },
    Finished,
    Failed(ErrorView),
}

impl View for Request {
    type V = RequestView;

    open spec fn view(&self) -> RequestView {
        match self {
            Request::CreateDirectory(path) => RequestView::CreateDirectory(path@),
            Request::LoadTemplates(root) => RequestView::LoadTemplates(root@),
            Request::Prompt(name) => RequestView::Prompt(name@),
            Request::ReadTree(path) => RequestView::ReadTree(path@),
            Request::ReadFile(path) => RequestView::ReadFile(path@),
            Request::Write(files) => RequestView::Write(files.deep_view()),
            Request::Run { program, args, directory } => RequestView::Run {
                program: program@,
                args: args.deep_view(),
                directory: directory@,
            },
            Request::Finished => RequestView::Finished,
            Request::Failed(error) => RequestView::Failed(error@),
        }
    }
}

/// What the last request brought.
#[derive(Debug, PartialEq, Eq)]
pub enum Reply {
    /// Nothing yet: the build begins.
    Start,
    /// The request was carried out and asked for nothing back.
    Done,
    /// The template definitions that were read, in the order in which their
    /// files were found.
    Templates(Vec<Template>),
    /// The value that was given for the variable. Any string is taken, the
    /// empty one too.
    Answer(String),
    /// The files that were found, each with its place below the directory
    /// that was read.
    Tree(Vec<SourceFile>),
    /// The text of the file that was read, and the last part of its path.
    File { name: String, contents: String },
    /// How the command ended: whether it ran and succeeded, and what it wrote
    /// to standard error, or why it could not be launched.
    CommandEnded { success: bool, detail: String },
}

/// A reply as specifications see it.
pub enum ReplyView {
    Start,
    Done,
    Templates(Seq<TemplateView>),
    Answer(Seq<char>),
    Tree(Seq<SourceFileView>),
    File { name: Seq<char>, contents: Seq<char> },
    CommandEnded { success: bool, detail: Seq<char> },
}

impl View for Reply {
    type V = ReplyView;

    open spec fn view(&self) -> ReplyView {
        match self {
            Reply::Start => ReplyView::Start,
            Reply::Done => ReplyView::Done,
            Reply::Templates(definitions) => ReplyView::Templates(definitions.deep_view()),
            Reply::Answer(value) => ReplyView::Answer(value@),
            Reply::Tree(files) => ReplyView::Tree(files.deep_view()),
            Reply::File { name, contents } => ReplyView::File { name: name@, contents: contents@ },
            Reply::CommandEnded { success, detail } => ReplyView::CommandEnded {
                success: *success,
                detail: detail@,
            },
        }
    }
}

/// Where a build stands with its current step.
pub enum PhaseView {
    /// The step has not been looked at.
    Ready,
    /// The directory is being created.
    Directory,
    /// The template definitions are being read.
    Catalog,
    /// The variable's value is being asked for.
    Answer,
    /// The files of the template's directory are being read.
    Tree,
    /// The template's file is being read.
    File,
    /// Files are being written.
    Written,
    /// The command is running.
    Command,
    /// Every step is done.
    Finished,
    /// The build has failed.
    Failed(ErrorView),
}

/// A build as specifications see it.
pub struct BuildView {
    /// The directory that is built.
    pub destination: Seq<Seq<char>>,
    /// The directory that holds the templates, if one is configured.
    pub template_root: Option<Seq<char>>,
    /// The templates to plan for when the catalog is loaded.
    pub names: Seq<Seq<char>>,
    /// The steps, those done and those to do.
    pub steps: Seq<StepView>,
    /// The number of steps that are done.
    pub cursor: nat,
    /// Where the build stands with the step behind them.
    pub phase: PhaseView,
    /// The variable store, in the order of first binding.
    pub variables: Seq<BindingView>,
}

/// The files to write for the files found below a template's directory: each
/// goes to the place below the destination that it had below that directory,
/// with the variables' values in place of their placeholders.
pub open spec fn rendered(
    files: Seq<SourceFileView>,
    destination: Seq<Seq<char>>,
    variables: Seq<BindingView>,
) -> Seq<RenderedFileView> {
    Seq::new(
        files.len(),
        |i: int|
            RenderedFileView {
                path: destination.push(files[i].path),
                contents: substituted(files[i].contents, variables),
            },
    )
}

/// The error for a template root that is needed and not configured.
pub open spec fn no_template_root() -> ErrorView {
    ErrorView::ConfigMissingValue("template_dir"@)
}

/// What a build is waiting for while it stands in the middle of a step.
pub open spec fn asked(s: BuildView) -> RequestView {
    match (s.phase, s.steps[s.cursor as int]) {
        (PhaseView::Directory, _) => RequestView::CreateDirectory(s.destination),
        (PhaseView::Catalog, _) => RequestView::LoadTemplates(s.template_root->0),
        (PhaseView::Answer, StepView::Resolve(name)) => RequestView::Prompt(name),
        (PhaseView::Tree, StepView::CopyTree(directory)) => RequestView::ReadTree(
            seq![s.template_root->0, directory],
        ),
        (PhaseView::File, StepView::CopyFile(file)) => RequestView::ReadFile(
            seq![s.template_root->0, file],
        ),
        (PhaseView::Command, StepView::Run(command)) => RequestView::Run {
            program: words(command)[0],
            args: words(command).skip(1),
            directory: s.destination,
        },
        (PhaseView::Failed(error), _) => RequestView::Failed(error),
        _ => RequestView::Finished,
    }
}

/// The build in the given phase, and what it then waits for.
pub open spec fn enter(s: BuildView, phase: PhaseView) -> (BuildView, RequestView) {
    let next = BuildView { phase, ..s };
    (next, asked(next))
}

/// The phase in which a step is taken up, or nothing where the step needs
/// nothing done: a variable that has a value is passed over. A step that
/// needs the template root fails where none is configured, and a command line
/// without a word fails as a command that cannot be launched.
pub open spec fn phase_at(
    step: StepView,
    template_root: Option<Seq<char>>,
    variables: Seq<BindingView>,
) -> Option<PhaseView> {
    match step {
        StepView::CreateDirectory => Some(PhaseView::Directory),
        StepView::LoadCatalog => if template_root is Some {
            Some(PhaseView::Catalog)
        } else {
            Some(PhaseView::Failed(no_template_root()))
        },
        StepView::Resolve(name) => if has_name(variables, name) {
            None
        } else {
            Some(PhaseView::Answer)
        },
        StepView::CopyTree(_) => if template_root is Some {
            Some(PhaseView::Tree)
        } else {
            Some(PhaseView::Failed(no_template_root()))
        },
        StepView::CopyFile(_) => if template_root is Some {
            Some(PhaseView::File)
        } else {
            Some(PhaseView::Failed(no_template_root()))
        },
        StepView::Run(command) => if words(command).len() > 0 {
            Some(PhaseView::Command)
        } else {
            Some(PhaseView::Failed(ErrorView::CommandFailed(command, Seq::empty())))
        },
        StepView::Fail(error) => Some(PhaseView::Failed(error)),
    }
}

/// Takes up the steps from the cursor on, until one needs something done or
/// none is left.
pub open spec fn advance(s: BuildView) -> (BuildView, RequestView)
    decreases s.steps.len() - s.cursor,
{
    if s.cursor >= s.steps.len() {
        enter(s, PhaseView::Finished)
    } else {
        match phase_at(s.steps[s.cursor as int], s.template_root, s.variables) {
            Some(phase) => enter(s, phase),
            None => advance(BuildView { cursor: s.cursor + 1, ..s }),
        }
    }
}

/// The build with its current step done.
pub open spec fn past(s: BuildView) -> BuildView {
    BuildView { cursor: s.cursor + 1, phase: PhaseView::Ready, ..s }
}

/// One move of the build: the state it is in and what the last request
/// brought give the state it goes to and what it wants done next.
///
/// A build that has finished or failed stays as it is. A request that asks
/// for nothing back is taken as done whatever the reply. A reply that does not
/// bring what was asked for changes nothing, and the request is made again.
pub open spec fn stepped(s: BuildView, reply: ReplyView) -> (BuildView, RequestView) {
    match s.phase {
        PhaseView::Finished => (s, RequestView::Finished),
        PhaseView::Failed(error) => (s, RequestView::Failed(error)),
        PhaseView::Ready => advance(s),
        PhaseView::Directory => advance(past(s)),
        PhaseView::Written => advance(past(s)),
        PhaseView::Catalog => match reply {
            ReplyView::Templates(definitions) => advance(
                BuildView {
                    steps: s.steps + planned(s.names, catalog_of(definitions)),
                    ..past(s)
                },
            ),
            _ => (s, asked(s)),
        },
        PhaseView::Answer => match (reply, s.steps[s.cursor as int]) {
            (ReplyView::Answer(value), StepView::Resolve(name)) => advance(
                BuildView { variables: bind(s.variables, name, value), ..past(s) },
            ),
            _ => (s, asked(s)),
        },
        PhaseView::Tree => match reply {
            ReplyView::Tree(files) => (
                BuildView { phase: PhaseView::Written, ..s },
                RequestView::Write(rendered(files, s.destination, s.variables)),
            ),
            _ => (s, asked(s)),
        },
        PhaseView::File => match reply {
            ReplyView::File { name, contents } => (
                BuildView { phase: PhaseView::Written, ..s },
                RequestView::Write(
                    seq![
                        RenderedFileView {
                            path: s.destination.push(name),
                            contents: substituted(contents, s.variables),
                        },
                    ],
                ),
            ),
            _ => (s, asked(s)),
        },
        PhaseView::Command => match (reply, s.steps[s.cursor as int]) {
            (ReplyView::CommandEnded { success, detail }, StepView::Run(command)) => if success {
                advance(past(s))
            } else {
                enter(s, PhaseView::Failed(ErrorView::CommandFailed(command, detail)))
            },
            _ => (s, asked(s)),
        },
    }
}

/// What holds of every build: the variables' names are distinct; every
/// variable whose step is done has a value; and the phase fits the current
/// step.
pub open spec fn valid(s: BuildView) -> bool {
    &&& distinct_names(s.variables)
    &&& s.cursor <= s.steps.len()
    &&& forall|i: int|
        0 <= i < s.cursor ==> ((#[trigger] s.steps[i]) matches StepView::Resolve(name) ==> has_name(
            s.variables,
            name,
        ))
    &&& match s.phase {
        PhaseView::Ready => true,
        PhaseView::Failed(_) => true,
        PhaseView::Finished => s.cursor == s.steps.len(),
        PhaseView::Directory => s.cursor < s.steps.len() && s.steps[s.cursor as int]
            is CreateDirectory,
        PhaseView::Catalog => s.cursor < s.steps.len() && s.steps[s.cursor as int] is LoadCatalog
            && s.template_root is Some,
        PhaseView::Answer => s.cursor < s.steps.len() && (s.steps[s.cursor as int] matches StepView::Resolve(
            name,
        ) && !has_name(s.variables, name)),
        PhaseView::Tree => s.cursor < s.steps.len() && s.steps[s.cursor as int] is CopyTree
            && s.template_root is Some,
        PhaseView::File => s.cursor < s.steps.len() && s.steps[s.cursor as int] is CopyFile
            && s.template_root is Some,
        PhaseView::Written => s.cursor < s.steps.len() && (s.steps[s.cursor as int] is CopyTree
            || s.steps[s.cursor as int] is CopyFile),
        PhaseView::Command => s.cursor < s.steps.len() && (s.steps[s.cursor as int] matches StepView::Run(
            command,
        ) && words(command).len() > 0),
    }
}

/// Whether two builds differ in nothing but the cursor and the phase.
pub open spec fn same_work(s: BuildView, t: BuildView) -> bool {
    &&& t.destination == s.destination
    &&& t.template_root == s.template_root
    &&& t.names == s.names
    &&& t.steps == s.steps
    &&& t.variables == s.variables
}

/// Taking up the steps keeps a build valid, changes neither its steps nor
/// its variables, and ends in a phase that fits what is asked for.
pub proof fn lemma_advance(s: BuildView)
    requires
        valid(BuildView { phase: PhaseView::Ready, ..s }),
    ensures
        valid(advance(s).0),
        same_work(s, advance(s).0),
        s.cursor <= advance(s).0.cursor,
        advance(s).1 == asked(advance(s).0),
        !(advance(s).0.phase is Ready),
        !(advance(s).0.phase is Written),
    decreases s.steps.len() - s.cursor,
{
    if s.cursor < s.steps.len() {
        match phase_at(s.steps[s.cursor as int], s.template_root, s.variables) {
            Some(phase) => {},
            None => {
                let next = BuildView { cursor: s.cursor + 1, ..s };
                assert(valid(BuildView { phase: PhaseView::Ready, ..next }));
                lemma_advance(next);
            },
        }
    }
}

/// Every move keeps a build valid and keeps every value that a variable
/// has got; and a variable is asked for only while it has no value.
pub proof fn lemma_stepped(s: BuildView, reply: ReplyView)
    requires
        valid(s),
    ensures
        valid(stepped(s, reply).0),
        forall|name: Seq<char>|
            has_name(s.variables, name) ==> has_name(stepped(s, reply).0.variables, name),
        stepped(s, reply).1 matches RequestView::Prompt(name) ==> stepped(s, reply).0.phase
            is Answer && !has_name(stepped(s, reply).0.variables, name) && stepped(
            s,
            reply,
        ).0.steps[stepped(s, reply).0.cursor as int] == StepView::Resolve(name),
{
    match s.phase {
        PhaseView::Finished => {},
        PhaseView::Failed(_) => {},
        PhaseView::Ready => {
            lemma_advance(s);
        },
        PhaseView::Directory => {
            lemma_advance(past(s));
        },
        PhaseView::Written => {
            lemma_advance(past(s));
        },
        PhaseView::Catalog => match reply {
            ReplyView::Templates(definitions) => {
                let next = BuildView {
                    steps: s.steps + planned(s.names, catalog_of(definitions)),
                    ..past(s)
                };
                assert forall|i: int| 0 <= i < next.cursor implies ((#[trigger] next.steps[i]) matches StepView::Resolve(
                    name,
                ) ==> has_name(next.variables, name)) by {
                    assert(next.steps[i] == s.steps[i]);
                }
                lemma_advance(next);
            },
            _ => {},
        },
        PhaseView::Answer => match (reply, s.steps[s.cursor as int]) {
            (ReplyView::Answer(value), StepView::Resolve(name)) => {
                let next = BuildView { variables: bind(s.variables, name, value), ..past(s) };
                lemma_bind(s.variables, name, value);
                lemma_advance(next);
            },
            _ => {},
        },
        PhaseView::Tree => {},
        PhaseView::File => {},
        PhaseView::Command => match (reply, s.steps[s.cursor as int]) {
            (ReplyView::CommandEnded { success, detail }, StepView::Run(command)) => {
                if success {
                    lemma_advance(past(s));
                }
            },
            _ => {},
        },
    }
}

/// The files to write for `files`, found below a template's directory: each
/// goes to the place below `destination` that it had below that directory,
/// with the values of `variables` in place of their placeholders.
pub fn load_files(
    files: &Vec<SourceFile>,
    destination: &JoinedPath,
    variables: &VariableStore,
) -> (out: Vec<RenderedFile>)
    ensures
        out.deep_view() == rendered(files.deep_view(), destination@, variables.entries()),
{
    let mut out: Vec<RenderedFile> = Vec::new();
    let mut i: usize = 0;
    while i < files.len()
        invariant
            i <= files.len(),
            out.deep_view() == rendered(
                files.deep_view().take(i as int),
                destination@,
                variables.entries(),
            ),
        decreases files.len() - i,
    {
        let ghost before = out.deep_view();
        let file = load_file(
            files[i].path.as_str(),
            files[i].contents.as_str(),
            destination,
            variables,
        );
        out.push(file);
        proof {
            assert(files.deep_view()[i as int] == files[i as int]@);
            assert(out.deep_view() =~= before.push(file@));
            assert(before.push(file@) =~= rendered(
                files.deep_view().take(i + 1),
                destination@,
                variables.entries(),
            ));
        }
        i += 1;
    }
    proof {
        assert(files.deep_view().take(files.len() as int) =~= files.deep_view());
    }
    out
}

/// The file to write for a file with the text `contents`: it goes into
/// `destination` under `name`, with the values of `variables` in place of
/// their placeholders.
pub fn load_file(
    name: &str,
    contents: &str,
    destination: &JoinedPath,
    variables: &VariableStore,
) -> (out: RenderedFile)
    ensures
        out@ == (RenderedFileView {
            path: destination@.push(name@),
            contents: substituted(contents@, variables.entries()),
        }),
{
    RenderedFile { path: destination.join(name), contents: substitute(contents, variables) }
}

enum Phase {
    Ready,
    Directory,
    Catalog,
    Answer,
    Tree,
    File,
    Written,
    Command,
    Finished,
    Failed(Error),
}

impl Phase {
    spec fn view(&self) -> PhaseView {
        match self {
            Phase::Ready => PhaseView::Ready,
            Phase::Directory => PhaseView::Directory,
            Phase::Catalog => PhaseView::Catalog,
            Phase::Answer => PhaseView::Answer,
            Phase::Tree => PhaseView::Tree,
            Phase::File => PhaseView::File,
            Phase::Written => PhaseView::Written,
            Phase::Command => PhaseView::Command,
            Phase::Finished => PhaseView::Finished,
            Phase::Failed(error) => PhaseView::Failed(error@),
        }
    }
}

/// Where `step` is taken up, if it needs anything done.
fn phase_for(step: &Step, template_root: &Option<String>, variables: &VariableStore) -> (out:
    Option<Phase>)
    ensures
        match out {
            Some(phase) => phase_at(step@, template_root.deep_view(), variables.entries()) == Some(
                phase.view(),
            ),
            None => phase_at(step@, template_root.deep_view(), variables.entries()) is None,
        },
{
    match step {
        Step::CreateDirectory => Some(Phase::Directory),
        Step::LoadCatalog => if template_root.is_some() {
            Some(Phase::Catalog)
        } else {
            Some(Phase::Failed(Error::ConfigMissingValue("template_dir".to_owned())))
        },
        Step::Resolve(name) => if variables.contains_key(name.as_str()) {
            None
        } else {
            Some(Phase::Answer)
        },
        Step::CopyTree(_) => if template_root.is_some() {
            Some(Phase::Tree)
        } else {
            Some(Phase::Failed(Error::ConfigMissingValue("template_dir".to_owned())))
        },
        Step::CopyFile(_) => if template_root.is_some() {
            Some(Phase::File)
        } else {
            Some(Phase::Failed(Error::ConfigMissingValue("template_dir".to_owned())))
        },
        Step::Run(command) => if split_whitespace(command.as_str()).len() > 0 {
            Some(Phase::Command)
        } else {
            Some(Phase::Failed(Error::CommandFailed(command.clone(), String::new())))
        },
        Step::Fail(error) => Some(Phase::Failed(error.clone())),
    }
}

/// A build in progress. It holds the steps, the variable store that all the
/// templates of the build share, and where the build stands.
pub struct Build {
    destination: JoinedPath,
    template_root: Option<String>,
    names: Vec<String>,
    steps: Vec<Step>,
    cursor: usize,
    phase: Phase,
    variables: VariableStore,
}

impl View for Build {
    type V = BuildView;

    closed spec fn view(&self) -> BuildView {
        BuildView {
            destination: self.destination@,
            template_root: self.template_root.deep_view(),
            names: self.names.deep_view(),
            steps: self.steps.deep_view(),
            cursor: self.cursor as nat,
            phase: self.phase.view(),
            variables: self.variables.entries(),
        }
    }
}

impl Build {
    #[verifier::type_invariant]
    spec fn well_formed(&self) -> bool {
        valid(self@)
    }

    /// A build of `destination` that has `steps` to take and begins with
    /// `variables`. The templates called `names` are planned for when a step
    /// loads the catalog from `template_root`.
    pub fn new(
        destination: JoinedPath,
        template_root: Option<String>,
        names: Vec<String>,
        steps: Vec<Step>,
        variables: VariableStore,
    ) -> (build: Build)
        ensures
            build@ == (BuildView {
                destination: destination@,
                template_root: template_root.deep_view(),
                names: names.deep_view(),
                steps: steps.deep_view(),
                cursor: 0,
                phase: PhaseView::Ready,
                variables: variables.entries(),
            }),
            valid(build@),
    {
        proof {
            use_type_invariant(&variables);
        }
        Build { destination, template_root, names, steps, cursor: 0, phase: Phase::Ready, variables }
    }

    /// The variable store as it stands.
    pub fn variables(&self) -> (variables: &VariableStore)
        ensures
            variables.entries() == self@.variables,
    {
        &self.variables
    }

    /// The directory that is built.
    pub fn destination(&self) -> (destination: &JoinedPath)
        ensures
            destination@ == self@.destination,
    {
        &self.destination
    }

    /// Whether every step is done.
    pub fn is_finished(&self) -> (finished: bool)
        ensures
            finished == (self@.phase is Finished),
    {
        match &self.phase {
            Phase::Finished => true,
            _ => false,
        }
    }

    /// What the build is waiting for.
    fn ask(&self) -> (request: Request)
        requires
            !(self@.phase is Ready),
            !(self@.phase is Written),
        ensures
            request@ == asked(self@),
    {
        proof {
            use_type_invariant(self);
            assert(self.steps.deep_view().len() == self.steps.len());
            if self.cursor < self.steps.len() {
                assert(self.steps.deep_view()[self.cursor as int] == self.steps[self.cursor as int]@);
            }
        }
        match &self.phase {
            Phase::Directory => Request::CreateDirectory(self.destination.clone()),
            Phase::Catalog => match &self.template_root {
                Some(root) => Request::LoadTemplates(root.clone()),
                None => Request::Finished,
            },
            Phase::Answer => match &self.steps[self.cursor] {
                Step::Resolve(name) => Request::Prompt(name.clone()),
                _ => Request::Finished,
            },
            Phase::Tree => match (&self.template_root, &self.steps[self.cursor]) {
                (Some(root), Step::CopyTree(directory)) => {
                    let path = JoinedPath::new(root.clone()).join(directory.as_str());
                    assert(path@ =~= seq![root@, directory@]);
                    Request::ReadTree(path)
                },
                _ => Request::Finished,
            },
            Phase::File => match (&self.template_root, &self.steps[self.cursor]) {
                (Some(root), Step::CopyFile(file)) => {
                    let path = JoinedPath::new(root.clone()).join(file.as_str());
                    assert(path@ =~= seq![root@, file@]);
                    Request::ReadFile(path)
                },
                _ => Request::Finished,
            },
            Phase::Command => match &self.steps[self.cursor] {
                Step::Run(command) => {
                    let mut args = split_whitespace(command.as_str());
                    let ghost all = args.deep_view();
                    let program = args.remove(0);
                    proof {
                        assert(args.deep_view() =~= all.skip(1));
                    }
                    Request::Run { program, args, directory: self.destination.clone() }
                },
                _ => Request::Finished,
            },
            Phase::Failed(error) => Request::Failed(error.clone()),
            _ => Request::Finished,
        }
    }

    /// Takes up the steps from the cursor on.
    fn advance(self) -> (out: (Build, Request))
        requires
            self@.phase is Ready,
        ensures
            out.0@ == advance(self@).0,
            out.1@ == advance(self@).1,
            valid(out.0@),
    {
        proof {
            use_type_invariant(&self);
            lemma_advance(self@);
        }
        let ghost start = self@;
        let Build { destination, template_root, names, steps, cursor, phase, variables } = self;
        let mut at = cursor;
        while at < steps.len()
            invariant
                at <= steps.len(),
                start == self@,
                start == (BuildView {
                    destination: destination@,
                    template_root: template_root.deep_view(),
                    names: names.deep_view(),
                    steps: steps.deep_view(),
                    cursor: start.cursor,
                    phase: PhaseView::Ready,
                    variables: variables.entries(),
                }),
                advance(BuildView { cursor: at as nat, ..start }) == advance(start),
                valid(advance(start).0),
                advance(start).1 == asked(advance(start).0),
                !(advance(start).0.phase is Ready),
                !(advance(start).0.phase is Written),
            decreases steps.len() - at,
        {
            proof {
                assert(steps.deep_view()[at as int] == steps[at as int]@);
            }
            match phase_for(&steps[at], &template_root, &variables) {
                Some(phase) => {
                    proof {
                        let here = BuildView { cursor: at as nat, ..start };
                        assert(advance(here) == enter(here, phase.view()));
                    }
                    let build = Build {
                        destination,
                        template_root,
                        names,
                        steps,
                        cursor: at,
                        phase,
                        variables,
                    };
                    let request = build.ask();
                    return (build, request);
                },
                None => {
                    proof {
                        let here = BuildView { cursor: at as nat, ..start };
                        assert(advance(here) == advance(BuildView { cursor: here.cursor + 1, ..here }));
                    }
                    at += 1;
                },
            }
        }
        proof {
            let here = BuildView { cursor: at as nat, ..start };
            assert(advance(here) == enter(here, PhaseView::Finished));
        }
        let build = Build {
            destination,
            template_root,
            names,
            steps,
            cursor: at,
            phase: Phase::Finished,
            variables,
        };
        (build, Request::Finished)
    }

    /// One move of the build: takes what the last request brought and says
    /// what is to be done next. The first move takes `Reply::Start`.
    pub fn step(self, reply: Reply) -> (out: (Build, Request))
        ensures
            out.0@ == stepped(self@, reply@).0,
            out.1@ == stepped(self@, reply@).1,
            valid(self@),
            valid(out.0@),
    {
        proof {
            use_type_invariant(&self);
            lemma_stepped(self@, reply@);
        }
        let Build { destination, template_root, names, mut steps, cursor, phase, mut variables } =
            self;
        proof {
            assert(steps.deep_view().len() == steps.len());
            if cursor < steps.len() {
                assert(steps.deep_view()[cursor as int] == steps[cursor as int]@);
            }
        }
        match (phase, reply) {
            (Phase::Finished, _) => (
                Build {
                    destination,
                    template_root,
                    names,
                    steps,
                    cursor,
                    phase: Phase::Finished,
                    variables,
                },
                Request::Finished,
            ),
            (Phase::Failed(error), _) => {
                let copy = error.clone();
                (
                    Build {
                        destination,
                        template_root,
                        names,
                        steps,
                        cursor,
                        phase: Phase::Failed(error),
                        variables,
                    },
                    Request::Failed(copy),
                )
            },
            (Phase::Ready, _) => {
                Build {
                    destination,
                    template_root,
                    names,
                    steps,
                    cursor,
                    phase: Phase::Ready,
                    variables,
                }.advance()
            },
            (Phase::Directory, _) | (Phase::Written, _) | (
                Phase::Command,
                Reply::CommandEnded { success: true, .. },
            ) => {
                Build {
                    destination,
                    template_root,
                    names,
                    steps,
                    cursor: cursor + 1,
                    phase: Phase::Ready,
                    variables,
                }.advance()
            },
            (Phase::Catalog, Reply::Templates(definitions)) => {
                let catalog = TemplateCatalog::from_definitions(definitions);
                let mut more = catalog.plan(&names);
                let ghost before = steps.deep_view();
                steps.append(&mut more);
                proof {
                    assert(steps.deep_view() =~= before + planned(
                        names.deep_view(),
                        catalog_of(definitions.deep_view()),
                    ));
                }
                Build {
                    destination,
                    template_root,
                    names,
                    steps,
                    cursor: cursor + 1,
                    phase: Phase::Ready,
                    variables,
                }.advance()
            },
            (Phase::Answer, Reply::Answer(value)) => {
                let name = match &steps[cursor] {
                    Step::Resolve(name) => name.clone(),
                    _ => String::new(),
                };
                proof {
                    lemma_bind(variables.entries(), name@, value@);
                }
                variables.insert(name, value);
                Build {
                    destination,
                    template_root,
                    names,
                    steps,
                    cursor: cursor + 1,
                    phase: Phase::Ready,
                    variables,
                }.advance()
            },
            (Phase::Tree, Reply::Tree(files)) => {
                let out = load_files(&files, &destination, &variables);
                (
                    Build {
                        destination,
                        template_root,
                        names,
                        steps,
                        cursor,
                        phase: Phase::Written,
                        variables,
                    },
                    Request::Write(out),
                )
            },
            (Phase::File, Reply::File { name, contents }) => {
                let file = load_file(name.as_str(), contents.as_str(), &destination, &variables);
                let mut out: Vec<RenderedFile> = Vec::new();
                out.push(file);
                proof {
                    assert(out.deep_view() =~= seq![file@]);
                }
                (
                    Build {
                        destination,
                        template_root,
                        names,
                        steps,
                        cursor,
                        phase: Phase::Written,
                        variables,
                    },
                    Request::Write(out),
                )
            },
            (Phase::Command, Reply::CommandEnded { success: false, detail }) => {
                let command = match &steps[cursor] {
                    Step::Run(command) => command.clone(),
                    _ => String::new(),
                };
                let build = Build {
                    destination,
                    template_root,
                    names,
                    steps,
                    cursor,
                    phase: Phase::Failed(Error::CommandFailed(command, detail)),
                    variables,
                };
                let request = build.ask();
                (build, request)
            },
            (phase, _) => {
                let build = Build {
                    destination,
                    template_root,
                    names,
                    steps,
                    cursor,
                    phase,
                    variables,
                };
                let request = build.ask();
                (build, request)
            },
        }
    }
}

} // verus!
