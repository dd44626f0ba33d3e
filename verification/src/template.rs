//! Template definitions and the catalog that holds them by name.

use crate::text::{chars_of, clone_strings};
use vstd::prelude::*;

verus! {

/// A named, reusable definition of files and commands for a new project
/// directory. It is read once and never changed.
#[derive(Debug, PartialEq, Eq)]
pub struct Template {
    /// The name under which the catalog holds the definition.
    pub name: String,
    /// A description, for display only.
    pub desc: Option<String>,
    /// A directory below the template root whose files are copied, each to
    /// the place it has below that directory.
    pub template_dir: Option<String>,
    /// A single file below the template root, copied under its own name.
    pub template_file: Option<String>,
    /// The names that need a value before the template is built.
    pub template_vars: Option<Vec<String>>,
    /// Command lines to run in the new directory once the files are written.
    pub commands: Option<Vec<String>>,
}

/// A template as specifications see it.
pub struct TemplateView {
    pub name: Seq<char>,
    pub desc: Option<Seq<char>>,
    pub template_dir: Option<Seq<char>>,
    pub template_file: Option<Seq<char>>,
    pub template_vars: Option<Seq<Seq<char>>>,
    pub commands: Option<Seq<Seq<char>>>,
}

impl View for Template {
    type V = TemplateView;

    open spec fn view(&self) -> TemplateView {
        TemplateView {
            name: self.name@,
            desc: self.desc.deep_view(),
            template_dir: self.template_dir.deep_view(),
            template_file: self.template_file.deep_view(),
            template_vars: self.template_vars.deep_view(),
            commands: self.commands.deep_view(),
        }
    }
}

impl DeepView for Template {
    type V = TemplateView;

    open spec fn deep_view(&self) -> TemplateView {
        self@
    }
}

/// Copies a string that may be absent.
pub fn clone_text(text: &Option<String>) -> (copy: Option<String>)
    ensures
        copy.deep_view() == text.deep_view(),
{
    match text {
        Some(s) => Some(s.clone()),
        None => None,
    }
}

/// Copies a list of strings that may be absent.
pub fn clone_list(list: &Option<Vec<String>>) -> (copy: Option<Vec<String>>)
    ensures
        copy.deep_view() == list.deep_view(),
{
    match list {
        Some(items) => Some(clone_strings(items)),
        None => None,
    }
}

impl Clone for Template {
    fn clone(&self) -> (copy: Template)
        ensures
            copy@ == self@,
    {
        Template {
            name: self.name.clone(),
            desc: clone_text(&self.desc),
            template_dir: clone_text(&self.template_dir),
            template_file: clone_text(&self.template_file),
            template_vars: clone_list(&self.template_vars),
            commands: clone_list(&self.commands),
        }
    }
}

/// Whether `text` ends with `tail`.
pub open spec fn ends_with(text: Seq<char>, tail: Seq<char>) -> bool {
    tail.len() <= text.len() && text.skip(text.len() - tail.len()) == tail
}

/// Whether a file of this name holds a template definition: the name's
/// extension, that is what follows its last dot, is `yaml` or `yml`, and
/// something stands before that dot.
pub open spec fn is_definition_name(name: Seq<char>) -> bool {
    ||| name.len() > 5 && ends_with(name, seq!['.', 'y', 'a', 'm', 'l'])
    ||| name.len() > 4 && ends_with(name, seq!['.', 'y', 'm', 'l'])
}

fn has_tail(text: &Vec<char>, tail: &Vec<char>) -> (found: bool)
    ensures
        found == ends_with(text@, tail@),
{
    if tail.len() > text.len() {
        return false;
    }
    let start = text.len() - tail.len();
    let mut k: usize = 0;
    while k < tail.len()
        invariant
            start + tail.len() == text.len(),
            k <= tail.len(),
            forall|j: int| 0 <= j < k ==> text@[start + j] == tail@[j],
        decreases tail.len() - k,
    {
        if text[start + k] != tail[k] {
            proof {
                assert(text@.skip(start as int)[k as int] == text@[start + k]);
            }
            return false;
        }
        k += 1;
    }
    assert(text@.skip(start as int) =~= tail@);
    true
}

/// Whether the file called `file_name` holds a template definition.
pub fn is_definition_file(file_name: &str) -> (holds: bool)
    ensures
        holds == is_definition_name(file_name@),
{
    let name = chars_of(file_name);
    let long = vec!['.', 'y', 'a', 'm', 'l'];
    let short = vec!['.', 'y', 'm', 'l'];
    assert(long@ =~= seq!['.', 'y', 'a', 'm', 'l']);
    assert(short@ =~= seq!['.', 'y', 'm', 'l']);
    (name.len() > 5 && has_tail(&name, &long)) || (name.len() > 4 && has_tail(&name, &short))
}

/// The mapping from names to templates that a list of definitions stands
/// for: of two definitions with one name the later one counts.
pub open spec fn catalog_of(definitions: Seq<TemplateView>) -> Map<Seq<char>, TemplateView>
    decreases definitions.len(),
{
    if definitions.len() == 0 {
        Map::empty()
    } else {
        catalog_of(definitions.drop_last()).insert(definitions.last().name, definitions.last())
    }
}

/// A name that no definition carries is not in the catalog.
pub proof fn lemma_catalog_without(definitions: Seq<TemplateView>, name: Seq<char>)
    requires
        forall|i: int| 0 <= i < definitions.len() ==> (#[trigger] definitions[i]).name != name,
    ensures
        !catalog_of(definitions).contains_key(name),
    decreases definitions.len(),
{
    if definitions.len() > 0 {
        let front = definitions.drop_last();
        assert forall|i: int| 0 <= i < front.len() implies (#[trigger] front[i]).name != name by {
            assert(front[i] == definitions[i]);
        }
        lemma_catalog_without(front, name);
        assert(definitions.last() == definitions[definitions.len() - 1]);
    }
}

/// A name stands for the last definition that carries it.
pub proof fn lemma_catalog_last(definitions: Seq<TemplateView>, name: Seq<char>, at: int)
    requires
        0 <= at < definitions.len(),
        definitions[at].name == name,
        forall|j: int| at < j < definitions.len() ==> (#[trigger] definitions[j]).name != name,
    ensures
        catalog_of(definitions).contains_key(name),
        catalog_of(definitions)[name] == definitions[at],
    decreases definitions.len(),
{
    let front = definitions.drop_last();
    if at == definitions.len() - 1 {
    } else {
        assert(definitions.last() == definitions[definitions.len() - 1]);
        assert(front[at] == definitions[at]);
        assert forall|j: int| at < j < front.len() implies (#[trigger] front[j]).name != name by {
            assert(front[j] == definitions[j]);
        }
        lemma_catalog_last(front, name, at);
    }
}

/// The templates that can be asked for, by name.
pub struct TemplateCatalog {
    templates: Vec<Template>,
}

impl View for TemplateCatalog {
    type V = Map<Seq<char>, TemplateView>;

    /// The mapping from names to templates.
    open spec fn view(&self) -> Map<Seq<char>, TemplateView> {
        catalog_of(self.definitions())
    }
}

impl TemplateCatalog {
    /// The definitions in the order in which they came in.
    pub closed spec fn definitions(&self) -> Seq<TemplateView> {
        self.templates.deep_view()
    }

    /// A catalog without templates.
    pub fn new() -> (catalog: TemplateCatalog)
        ensures
            catalog.definitions() == Seq::<TemplateView>::empty(),
            catalog@ == Map::<Seq<char>, TemplateView>::empty(),
    {
        let catalog = TemplateCatalog { templates: Vec::new() };
        assert(catalog.definitions() =~= Seq::<TemplateView>::empty());
        catalog
    }

    /// The catalog of `definitions`, taken in one after the other.
    pub fn from_definitions(definitions: Vec<Template>) -> (catalog: TemplateCatalog)
        ensures
            catalog.definitions() == definitions.deep_view(),
            catalog@ == catalog_of(definitions.deep_view()),
    {
        TemplateCatalog { templates: definitions }
    }

    /// The number of definitions that came in, those that a later one of the
    /// same name has displaced included.
    pub fn len(&self) -> (n: usize)
        ensures
            n == self.definitions().len(),
    {
        self.templates.len()
    }

    /// Takes `template` in under its name. A template that the catalog held
    /// under that name is displaced.
    pub fn insert(&mut self, template: Template)
        ensures
            final(self).definitions() == old(self).definitions().push(template@),
            final(self)@ == old(self)@.insert(template@.name, template@),
    {
        self.templates.push(template);
        assert(self.definitions() =~= old(self).definitions().push(template@));
        assert(self.definitions().drop_last() =~= old(self).definitions());
    }

    /// Whether the catalog holds a template called `name`.
    pub fn contains_key(&self, name: &str) -> (present: bool)
        ensures
            present == self@.contains_key(name@),
    {
        self.get(name).is_some()
    }

    /// The template called `name`, if the catalog holds one.
    pub fn get(&self, name: &str) -> (found: Option<&Template>)
        ensures
            match found {
                Some(template) => self@.contains_key(name@) && template@ == self@[name@],
                None => !self@.contains_key(name@),
            },
    {
        let mut i: usize = self.templates.len();
        while i > 0
            invariant
                i <= self.templates.len(),
                forall|j: int|
                    i <= j < self.templates.len() ==> (#[trigger] self.definitions()[j]).name
                        != name@,
            decreases i,
        {
            i -= 1;
            if self.templates[i].name.as_str().eq(name) {
                proof {
                    assert(self.definitions()[i as int] == self.templates[i as int]@);
                    lemma_catalog_last(self.definitions(), name@, i as int);
                }
                return Some(&self.templates[i]);
            }
        }
        proof {
            lemma_catalog_without(self.definitions(), name@);
        }
        None
    }
}

/// A file found below a template's directory.
#[derive(Debug, PartialEq, Eq)]
pub struct SourceFile {
    /// Where the file stands, counted from the template's directory.
    pub path: String,
    /// The text in the file.
    pub contents: String,
}

/// A source file as specifications see it.
pub struct SourceFileView {
    pub path: Seq<char>,
    pub contents: Seq<char>,
}

impl View for SourceFile {
    type V = SourceFileView;

    open spec fn view(&self) -> SourceFileView {
        SourceFileView { path: self.path@, contents: self.contents@ }
    }
}

impl DeepView for SourceFile {
    type V = SourceFileView;

    open spec fn deep_view(&self) -> SourceFileView {
        self@
    }
}

} // verus!
