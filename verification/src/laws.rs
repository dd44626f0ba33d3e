//! What holds of every build, however it runs.

use crate::builder::{fresh, project_steps};
use crate::error::ErrorView;
use crate::machine::{
    advance, asked, lemma_advance, lemma_stepped, past, phase_at, rendered, stepped, valid,
    BuildView, PhaseView, RenderedFileView, ReplyView, RequestView,
};
use crate::plan::{planned, resolve_steps, run_steps, template_steps, StepView};
use crate::store::{bind, bindings, has_name, lemma_bind};
use crate::substitute::substituted;
use crate::template::{SourceFileView, TemplateView};
use vstd::prelude::*;

verus! {

/// Whether `reply` brings what a build in the state `s` has asked for.
pub open spec fn answers(s: BuildView, reply: ReplyView) -> bool {
    match s.phase {
        PhaseView::Catalog => reply is Templates,
        PhaseView::Answer => reply is Answer,
        PhaseView::Tree => reply is Tree,
        PhaseView::File => reply is File,
        PhaseView::Command => reply is CommandEnded,
        _ => true,
    }
}

/// The state of a build that began in `s` and has taken `replies`.
pub open spec fn state_after(s: BuildView, replies: Seq<ReplyView>) -> BuildView
    decreases replies.len(),
{
    if replies.len() == 0 {
        s
    } else {
        stepped(state_after(s, replies.drop_last()), replies.last()).0
    }
}

/// What a build that began in `s` asks for when it takes the reply at `at`.
pub open spec fn request_at(s: BuildView, replies: Seq<ReplyView>, at: int) -> RequestView {
    stepped(state_after(s, replies.take(at)), replies[at]).1
}

/// Whether each of `replies` brings what the build had asked for before it.
pub open spec fn well_answered(s: BuildView, replies: Seq<ReplyView>) -> bool {
    forall|at: int|
        0 <= at < replies.len() ==> answers(
            #[trigger] state_after(s, replies.take(at)),
            replies[at],
        )
}

/// However a build runs, it stays valid, and a variable that has a value
/// keeps having one.
pub proof fn lemma_run(s: BuildView, replies: Seq<ReplyView>, from: int, to: int)
    requires
        valid(s),
        0 <= from <= to <= replies.len(),
    ensures
        valid(state_after(s, replies.take(to))),
        forall|name: Seq<char>|
            has_name(state_after(s, replies.take(from)).variables, name) ==> has_name(
                state_after(s, replies.take(to)).variables,
                name,
            ),
    decreases to,
{
    if to == 0 {
        assert(replies.take(0) =~= Seq::<ReplyView>::empty());
    } else {
        let upto = replies.take(to);
        assert(upto.drop_last() =~= replies.take(to - 1));
        assert(upto.last() == replies[to - 1]);
        if from == to {
            lemma_run(s, replies, from - 1, to - 1);
        } else {
            lemma_run(s, replies, from, to - 1);
        }
        lemma_stepped(state_after(s, replies.take(to - 1)), replies[to - 1]);
    }
}

/// No variable is asked for twice in one build, however many templates the
/// build goes through: of two requests for a value in one run, each is for
/// another name. This holds where every reply brings what was asked for.
pub proof fn lemma_prompted_once(s: BuildView, replies: Seq<ReplyView>, first: int, second: int)
    requires
        valid(s),
        well_answered(s, replies),
        0 <= first < second < replies.len(),
        request_at(s, replies, first) is Prompt,
        request_at(s, replies, second) is Prompt,
    ensures
        request_at(s, replies, first)->Prompt_0 != request_at(s, replies, second)->Prompt_0,
{
    let name = request_at(s, replies, first)->Prompt_0;
    let other = request_at(s, replies, second)->Prompt_0;
    let asking = state_after(s, replies.take(first));
    let waiting = state_after(s, replies.take(first + 1));
    let answered = state_after(s, replies.take(first + 2));
    lemma_run(s, replies, first, first);
    lemma_stepped(asking, replies[first]);
    assert(replies.take(first + 1).drop_last() =~= replies.take(first));
    assert(replies.take(first + 1).last() == replies[first]);
    assert(waiting == stepped(asking, replies[first]).0);
    assert(waiting.phase is Answer);
    assert(answers(waiting, replies[first + 1]));
    assert(replies.take(first + 2).drop_last() =~= replies.take(first + 1));
    assert(replies.take(first + 2).last() == replies[first + 1]);
    assert(answered == stepped(waiting, replies[first + 1]).0);
    let value = replies[first + 1]->Answer_0;
    let bound = BuildView { variables: bind(waiting.variables, name, value), ..past(waiting) };
    lemma_bind(waiting.variables, name, value);
    lemma_advance(bound);
    assert(has_name(answered.variables, name));
    lemma_run(s, replies, first + 2, second + 1);
    let last = state_after(s, replies.take(second));
    lemma_run(s, replies, second, second);
    lemma_stepped(last, replies[second]);
    assert(replies.take(second + 1).drop_last() =~= replies.take(second));
    assert(replies.take(second + 1).last() == replies[second]);
    assert(state_after(s, replies.take(second + 1)) == stepped(last, replies[second]).0);
}

/// When a value comes for the variable that was asked for, the variable has
/// that value from then on, and every other variable is as it was.
pub proof fn lemma_answer_bound(s: BuildView, value: Seq<char>)
    requires
        valid(s),
        s.phase is Answer,
    ensures
        bindings(stepped(s, ReplyView::Answer(value)).0.variables) == bindings(s.variables).insert(
            s.steps[s.cursor as int]->Resolve_0,
            value,
        ),
{
    let name = s.steps[s.cursor as int]->Resolve_0;
    lemma_bind(s.variables, name, value);
    let bound = BuildView { variables: bind(s.variables, name, value), ..past(s) };
    lemma_advance(bound);
}

/// When a build has finished, every variable that one of its steps declares
/// has a value.
pub proof fn lemma_finished_resolved(s: BuildView, at: int)
    requires
        valid(s),
        s.phase is Finished,
        0 <= at < s.steps.len(),
        s.steps[at] is Resolve,
    ensures
        has_name(s.variables, s.steps[at]->Resolve_0),
{
}

/// The steps of a template begin with one step for each of the variables
/// that it declares.
pub proof fn lemma_declared_variables(template: TemplateView, at: int)
    requires
        template.template_vars is Some,
        0 <= at < template.template_vars->0.len(),
    ensures
        at < template_steps(template).len(),
        template_steps(template)[at] == StepView::Resolve(template.template_vars->0[at]),
{
}

/// When the build of a template has finished, each variable that the
/// template declares has a value.
pub proof fn lemma_template_resolved(template: TemplateView, s: BuildView, at: int)
    requires
        valid(s),
        s.phase is Finished,
        s.steps == template_steps(template),
        template.template_vars is Some,
        0 <= at < template.template_vars->0.len(),
    ensures
        has_name(s.variables, template.template_vars->0[at]),
{
    lemma_declared_variables(template, at);
    lemma_finished_resolved(s, at);
}

/// Whether a request leaves the file system as it is and runs nothing.
pub open spec fn touches_nothing(request: RequestView) -> bool {
    request is Prompt || request is Finished
}

/// Whether every step gives a variable its value and does nothing else.
pub open spec fn only_resolves(steps: Seq<StepView>) -> bool {
    forall|i: int| 0 <= i < steps.len() ==> (#[trigger] steps[i]) is Resolve
}

/// A template without a directory, a file and commands has no step that
/// touches the destination.
pub proof fn lemma_bare_template(template: TemplateView)
    requires
        template.template_dir is None,
        template.template_file is None,
        template.commands is None,
    ensures
        only_resolves(template_steps(template)),
{
}

/// A build whose steps only give variables their values asks for values and
/// for nothing else: it creates no directory, writes no file and runs no
/// command, so what the destination holds stays as it is.
pub proof fn lemma_resolving_touches_nothing(s: BuildView, reply: ReplyView)
    requires
        valid(s),
        only_resolves(s.steps),
        !(s.phase is Failed),
    ensures
        touches_nothing(stepped(s, reply).1),
        stepped(s, reply).0.steps == s.steps,
        !(stepped(s, reply).0.phase is Failed),
{
    match s.phase {
        PhaseView::Ready => {
            lemma_resolving_advance(s);
        },
        PhaseView::Answer => match reply {
            ReplyView::Answer(value) => {
                let name = s.steps[s.cursor as int]->Resolve_0;
                let bound = BuildView { variables: bind(s.variables, name, value), ..past(s) };
                lemma_resolving_advance(bound);
            },
            _ => {},
        },
        _ => {},
    }
}

proof fn lemma_resolving_advance(s: BuildView)
    requires
        s.cursor <= s.steps.len(),
        only_resolves(s.steps),
    ensures
        touches_nothing(advance(s).1),
        advance(s).0.steps == s.steps,
        !(advance(s).0.phase is Failed),
    decreases s.steps.len() - s.cursor,
{
    if s.cursor < s.steps.len() {
        assert(s.steps[s.cursor as int] is Resolve);
        if phase_at(s.steps[s.cursor as int], s.template_root, s.variables) is None {
            lemma_resolving_advance(BuildView { cursor: s.cursor + 1, ..s });
        }
    }
}

/// The whole run of such a build touches nothing.
pub proof fn lemma_bare_build(s: BuildView, replies: Seq<ReplyView>, at: int)
    requires
        valid(s),
        only_resolves(s.steps),
        !(s.phase is Failed),
        0 <= at < replies.len(),
    ensures
        touches_nothing(request_at(s, replies, at)),
{
    lemma_bare_run(s, replies, at);
    lemma_resolving_touches_nothing(state_after(s, replies.take(at)), replies[at]);
}

proof fn lemma_bare_run(s: BuildView, replies: Seq<ReplyView>, to: int)
    requires
        valid(s),
        only_resolves(s.steps),
        !(s.phase is Failed),
        0 <= to <= replies.len(),
    ensures
        valid(state_after(s, replies.take(to))),
        state_after(s, replies.take(to)).steps == s.steps,
        !(state_after(s, replies.take(to)).phase is Failed),
    decreases to,
{
    if to == 0 {
        assert(replies.take(0) =~= Seq::<ReplyView>::empty());
    } else {
        let upto = replies.take(to);
        assert(upto.drop_last() =~= replies.take(to - 1));
        assert(upto.last() == replies[to - 1]);
        lemma_bare_run(s, replies, to - 1);
        let before = state_after(s, replies.take(to - 1));
        lemma_stepped(before, replies[to - 1]);
        lemma_resolving_touches_nothing(before, replies[to - 1]);
    }
}

/// Where a name is asked for that the catalog does not hold, the plan is
/// that of the names before it, then the failure that names the missing
/// template: no step stands for that name or for a name behind it.
pub proof fn lemma_planned_missing(
    names: Seq<Seq<char>>,
    catalog: Map<Seq<char>, TemplateView>,
    missing: int,
)
    requires
        0 <= missing < names.len(),
        !catalog.contains_key(names[missing]),
        forall|i: int| 0 <= i < missing ==> catalog.contains_key(#[trigger] names[i]),
    ensures
        planned(names, catalog) == planned(names.take(missing), catalog) + seq![
            StepView::Fail(ErrorView::TemplateNotFound(names[missing])),
        ],
    decreases missing,
{
    if missing == 0 {
        assert(names.take(0) =~= Seq::<Seq<char>>::empty());
        assert(planned(names.take(0), catalog) + seq![
            StepView::Fail(ErrorView::TemplateNotFound(names[0])),
        ] =~= planned(names, catalog));
    } else {
        let rest = names.skip(1);
        assert(catalog.contains_key(names[0]));
        assert forall|i: int| 0 <= i < missing - 1 implies catalog.contains_key(
            #[trigger] rest[i],
        ) by {
            assert(rest[i] == names[i + 1]);
        }
        lemma_planned_missing(rest, catalog, missing - 1);
        let front = names.take(missing);
        assert(front.skip(1) =~= rest.take(missing - 1));
        assert(front[0] == names[0]);
        assert(planned(front, catalog) == template_steps(catalog[names[0]]) + planned(
            front.skip(1),
            catalog,
        ));
        assert(planned(names, catalog) =~= planned(front, catalog) + seq![
            StepView::Fail(ErrorView::TemplateNotFound(names[missing])),
        ]);
    }
}

/// A build that comes to a failure among its steps fails with that error
/// and asks for nothing else.
pub proof fn lemma_fails_at_failure(s: BuildView, error: ErrorView)
    requires
        s.cursor < s.steps.len(),
        s.steps[s.cursor as int] == StepView::Fail(error),
    ensures
        advance(s).1 == RequestView::Failed(error),
        advance(s).0.phase == PhaseView::Failed(error),
{
}

/// A build that has failed stays failed: it asks for nothing more, whatever
/// comes.
pub proof fn lemma_failed_stays(s: BuildView, reply: ReplyView)
    requires
        s.phase is Failed,
    ensures
        stepped(s, reply).0 == s,
        stepped(s, reply).1 == RequestView::Failed(s.phase->Failed_0),
{
}

/// When the files below a template's directory have been read, the build
/// asks to write one file for each of them: at the same place below the
/// destination, and with the variables' values put in.
pub proof fn lemma_tree_copied(s: BuildView, files: Seq<SourceFileView>, at: int)
    requires
        s.phase is Tree,
        0 <= at < files.len(),
    ensures
        stepped(s, ReplyView::Tree(files)).1 is Write,
        stepped(s, ReplyView::Tree(files)).1->Write_0.len() == files.len(),
        stepped(s, ReplyView::Tree(files)).1->Write_0[at] == (RenderedFileView {
            path: s.destination.push(files[at].path),
            contents: substituted(files[at].contents, s.variables),
        }),
{
}

/// Where every name up to a given one is in the catalog, the plan has a
/// step for each variable that the template of that name declares.
pub proof fn lemma_planned_declares(
    names: Seq<Seq<char>>,
    catalog: Map<Seq<char>, TemplateView>,
    which: int,
    variable: int,
)
    requires
        0 <= which < names.len(),
        forall|i: int| 0 <= i <= which ==> catalog.contains_key(#[trigger] names[i]),
        catalog[names[which]].template_vars is Some,
        0 <= variable < catalog[names[which]].template_vars->0.len(),
    ensures
        exists|at: int|
            0 <= at < planned(names, catalog).len() && #[trigger] planned(names, catalog)[at]
                == StepView::Resolve(catalog[names[which]].template_vars->0[variable]),
    decreases which,
{
    assert(catalog.contains_key(names[0]));
    let first = template_steps(catalog[names[0]]);
    let rest = names.skip(1);
    if which == 0 {
        lemma_declared_variables(catalog[names[0]], variable);
        assert(planned(names, catalog)[variable] == first[variable]);
    } else {
        assert forall|i: int| 0 <= i <= which - 1 implies catalog.contains_key(
            #[trigger] rest[i],
        ) by {
            assert(rest[i] == names[i + 1]);
        }
        assert(rest[which - 1] == names[which]);
        lemma_planned_declares(rest, catalog, which - 1, variable);
        let at = choose|at: int|
            0 <= at < planned(rest, catalog).len() && #[trigger] planned(rest, catalog)[at]
                == StepView::Resolve(catalog[names[which]].template_vars->0[variable]);
        assert(planned(names, catalog)[first.len() + at] == planned(rest, catalog)[at]);
    }
}

/// When a build of several templates has finished, each variable that one
/// of the templates declares has a value. `earlier` stands for the steps
/// that the build took before those of the templates.
pub proof fn lemma_templates_resolved(
    s: BuildView,
    earlier: Seq<StepView>,
    names: Seq<Seq<char>>,
    catalog: Map<Seq<char>, TemplateView>,
    which: int,
    variable: int,
)
    requires
        valid(s),
        s.phase is Finished,
        s.steps == earlier + planned(names, catalog),
        0 <= which < names.len(),
        forall|i: int| 0 <= i <= which ==> catalog.contains_key(#[trigger] names[i]),
        catalog[names[which]].template_vars is Some,
        0 <= variable < catalog[names[which]].template_vars->0.len(),
    ensures
        has_name(s.variables, catalog[names[which]].template_vars->0[variable]),
{
    lemma_planned_declares(names, catalog, which, variable);
    let at = choose|at: int|
        0 <= at < planned(names, catalog).len() && #[trigger] planned(names, catalog)[at]
            == StepView::Resolve(catalog[names[which]].template_vars->0[variable]);
    assert(s.steps[earlier.len() + at] == planned(names, catalog)[at]);
    lemma_finished_resolved(s, earlier.len() + at);
}

/// The build of a project begins with the creation of its directory,
/// whether or not a template was asked for; without templates that is all
/// it does.
pub proof fn lemma_project_creates_directory(
    destination: Seq<Seq<char>>,
    template_root: Option<Seq<char>>,
    templates: Seq<Seq<char>>,
    first: ReplyView,
    second: ReplyView,
)
    ensures
        ({
            let begun = stepped(
                fresh(
                    destination,
                    template_root,
                    templates,
                    project_steps(templates),
                    Seq::empty(),
                ),
                first,
            );
            &&& begun.1 == RequestView::CreateDirectory(destination)
            &&& templates.len() == 0 ==> stepped(begun.0, second).1 == RequestView::Finished
            &&& templates.len() > 0 && template_root is Some ==> stepped(begun.0, second).1
                == RequestView::LoadTemplates(template_root->0)
            &&& templates.len() > 0 && template_root is None ==> stepped(begun.0, second).1
                == RequestView::Failed(ErrorView::ConfigMissingValue("template_dir"@))
        }),
{
    let start = fresh(
        destination,
        template_root,
        templates,
        project_steps(templates),
        Seq::empty(),
    );
    let begun = stepped(start, first);
    assert(begun == advance(start));
    let next = past(begun.0);
    assert(stepped(begun.0, second) == advance(next));
    if templates.len() == 0 {
        assert(next.cursor >= next.steps.len());
    } else {
        assert(next.steps[1] == StepView::LoadCatalog);
    }
}

/// When the catalog has been loaded, the steps of the templates that were
/// asked for join the steps of the build, and the build goes on with them.
pub proof fn lemma_catalog_loaded(s: BuildView, definitions: Seq<TemplateView>)
    requires
        s.phase is Catalog,
    ensures
        stepped(s, ReplyView::Templates(definitions)).0.steps == s.steps + planned(
            s.names,
            crate::template::catalog_of(definitions),
        ),
{
    let next = BuildView {
        steps: s.steps + planned(s.names, crate::template::catalog_of(definitions)),
        ..past(s)
    };
    lemma_advance_same_steps(next);
}

proof fn lemma_advance_same_steps(s: BuildView)
    ensures
        advance(s).0.steps == s.steps,
    decreases s.steps.len() - s.cursor,
{
    if s.cursor < s.steps.len() {
        if phase_at(s.steps[s.cursor as int], s.template_root, s.variables) is None {
            lemma_advance_same_steps(BuildView { cursor: s.cursor + 1, ..s });
        }
    }
}

} // verus!
