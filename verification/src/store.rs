//! The variable store: the values bound to placeholder names during one build.

use vstd::prelude::*;

verus! {

/// One entry of a variable store, as specifications see it.
pub struct BindingView {
    pub name: Seq<char>,
    pub value: Seq<char>,
}

/// No two entries carry the same name.
pub open spec fn distinct_names(entries: Seq<BindingView>) -> bool {
    forall|i: int, j: int|
        0 <= i < j < entries.len() ==> (#[trigger] entries[i]).name != (#[trigger] entries[j]).name
}

/// Whether some entry carries `name`.
pub open spec fn has_name(entries: Seq<BindingView>, name: Seq<char>) -> bool {
    exists|i: int| 0 <= i < entries.len() && (#[trigger] entries[i]).name == name
}

/// The place of an entry that carries `name`, where there is one.
pub open spec fn index_of(entries: Seq<BindingView>, name: Seq<char>) -> int {
    choose|i: int| 0 <= i < entries.len() && (#[trigger] entries[i]).name == name
}

/// The mapping from names to values that `entries` stands for.
pub open spec fn bindings(entries: Seq<BindingView>) -> Map<Seq<char>, Seq<char>> {
    Map::new(
        |name: Seq<char>| has_name(entries, name),
        |name: Seq<char>| entries[index_of(entries, name)].value,
    )
}

/// The entries after `name` is bound to `value`: an entry with that name
/// takes the new value where it stands, otherwise a new entry goes to the end.
pub open spec fn bind(entries: Seq<BindingView>, name: Seq<char>, value: Seq<char>) -> Seq<
    BindingView,
> {
    if has_name(entries, name) {
        entries.update(index_of(entries, name), BindingView { name, value })
    } else {
        entries.push(BindingView { name, value })
    }
}

/// Binding a name keeps the names distinct, and changes the mapping at that
/// name alone.
pub proof fn lemma_bind(entries: Seq<BindingView>, name: Seq<char>, value: Seq<char>)
    requires
        distinct_names(entries),
    ensures
        distinct_names(bind(entries, name, value)),
        bindings(bind(entries, name, value)) == bindings(entries).insert(name, value),
        forall|other: Seq<char>|
            has_name(bind(entries, name, value), other) <==> other == name || has_name(
                entries,
                other,
            ),
{
    let after = bind(entries, name, value);
    let fresh = BindingView { name, value };
    if has_name(entries, name) {
        let k = index_of(entries, name);
        assert(after.len() == entries.len());
        assert forall|i: int| 0 <= i < after.len() implies (#[trigger] after[i]).name
            == entries[i].name by {}
        assert forall|other: Seq<char>| has_name(after, other) <==> has_name(entries, other) by {
            if has_name(after, other) {
                let i = index_of(after, other);
                assert(entries[i].name == other);
            }
            if has_name(entries, other) {
                let i = index_of(entries, other);
                assert(after[i].name == other);
            }
        }
        assert forall|other: Seq<char>| has_name(entries, other) implies #[trigger] bindings(
            after,
        )[other] == bindings(entries).insert(name, value)[other] by {
            let i = index_of(entries, other);
            let j = index_of(after, other);
            assert(after[i].name == other);
            assert(after[j].name == other);
            assert(i == j) by {
                assert(after[i].name == after[j].name);
            }
            if other == name {
                assert(i == k) by {
                    assert(entries[i].name == entries[k].name);
                }
            } else {
                assert(i != k);
            }
        }
        assert(bindings(after) =~= bindings(entries).insert(name, value));
    } else {
        assert(after.len() == entries.len() + 1);
        assert(after[entries.len() as int] == fresh);
        assert forall|i: int| 0 <= i < entries.len() implies #[trigger] after[i]
            == entries[i] by {}
        assert forall|other: Seq<char>| has_name(after, other) <==> other == name || has_name(
            entries,
            other,
        ) by {
            if has_name(after, other) {
                let i = index_of(after, other);
                if i < entries.len() {
                    assert(entries[i].name == other);
                }
            }
            if has_name(entries, other) {
                let i = index_of(entries, other);
                assert(after[i].name == other);
            }
            if other == name {
                assert(after[entries.len() as int].name == other);
            }
        }
        assert forall|other: Seq<char>| has_name(after, other) implies #[trigger] bindings(
            after,
        )[other] == bindings(entries).insert(name, value)[other] by {
            let j = index_of(after, other);
            if other == name {
                if j < entries.len() {
                    assert(entries[j].name == name);
                }
            } else {
                let i = index_of(entries, other);
                assert(after[i].name == other);
                assert(i == j) by {
                    assert(after[i].name == after[j].name);
                }
            }
        }
        assert(bindings(after) =~= bindings(entries).insert(name, value));
    }
}

struct Binding {
    name: String,
    value: String,
}

impl Binding {
    spec fn view(&self) -> BindingView {
        BindingView { name: self.name@, value: self.value@ }
    }
}

/// A mapping from variable names to values. Every value is a string, and the
/// empty string is a value like any other. The store remembers the order in
/// which names were first bound; the mapping itself does not depend on it.
pub struct VariableStore {
    items: Vec<Binding>,
}

impl View for VariableStore {
    type V = Map<Seq<char>, Seq<char>>;

    /// The mapping from names to values.
    open spec fn view(&self) -> Map<Seq<char>, Seq<char>> {
        bindings(self.entries())
    }
}

impl VariableStore {
    /// The entries in the order in which their names were first bound.
    pub closed spec fn entries(&self) -> Seq<BindingView> {
        Seq::new(self.items@.len(), |i: int| self.items@[i].view())
    }

    /// What holds of every store: no name is bound twice.
    #[verifier::type_invariant]
    pub open spec fn well_formed(&self) -> bool {
        distinct_names(self.entries())
    }

    /// A store without entries.
    pub fn new() -> (store: VariableStore)
        ensures
            store.entries() == Seq::<BindingView>::empty(),
            store@ == Map::<Seq<char>, Seq<char>>::empty(),
            store.well_formed(),
    {
        let store = VariableStore { items: Vec::new() };
        assert(store.entries() =~= Seq::<BindingView>::empty());
        assert(store@ =~= Map::<Seq<char>, Seq<char>>::empty());
        store
    }

    /// The number of names that have a value.
    pub fn len(&self) -> (n: usize)
        ensures
            n == self.entries().len(),
            self.well_formed(),
    {
        proof {
            use_type_invariant(self);
        }
        self.items.len()
    }

    fn position(&self, name: &str) -> (found: Option<usize>)
        ensures
            self.well_formed(),
            match found {
                Some(i) => i < self.entries().len() && self.entries()[i as int].name == name@
                    && has_name(self.entries(), name@) && index_of(self.entries(), name@) == i,
                None => !has_name(self.entries(), name@),
            },
    {
        proof {
            use_type_invariant(self);
        }
        let mut i: usize = 0;
        while i < self.items.len()
            invariant
                self.well_formed(),
                i <= self.items.len(),
                forall|j: int| 0 <= j < i ==> (#[trigger] self.entries()[j]).name != name@,
            decreases self.items.len() - i,
        {
            if self.items[i].name.as_str().eq(name) {
                proof {
                    assert(self.entries()[i as int].name == name@);
                    let k = index_of(self.entries(), name@);
                    assert(self.entries()[i as int].name == self.entries()[k].name);
                }
                return Some(i);
            }
            i += 1;
        }
        None
    }

    /// Whether `name` has a value.
    pub fn contains_key(&self, name: &str) -> (present: bool)
        ensures
            present == self@.contains_key(name@),
    {
        self.position(name).is_some()
    }

    /// The value bound to `name`, if it has one.
    pub fn get(&self, name: &str) -> (value: Option<&String>)
        ensures
            match value {
                Some(text) => self@.contains_key(name@) && text@ == self@[name@],
                None => !self@.contains_key(name@),
            },
    {
        match self.position(name) {
            Some(i) => Some(&self.items[i].value),
            None => None,
        }
    }

    /// Binds `name` to `value`. A value that `name` had before is replaced;
    /// every other name keeps its value and its place.
    pub fn insert(&mut self, name: String, value: String)
        ensures
            final(self)@ == old(self)@.insert(name@, value@),
            final(self).entries() == bind(old(self).entries(), name@, value@),
            final(self).well_formed(),
    {
        let found = self.position(name.as_str());
        proof {
            lemma_bind(self.entries(), name@, value@);
        }
        let ghost before = self.entries();
        let mut items: Vec<Binding> = Vec::new();
        core::mem::swap(&mut self.items, &mut items);
        match found {
            Some(i) => {
                items.set(i, Binding { name, value });
            },
            None => {
                items.push(Binding { name, value });
            },
        }
        proof {
            let after = VariableStore { items };
            assert(after.entries() =~= bind(before, name@, value@));
        }
        self.items = items;
    }

    /// The name of the entry at `index`, counted in the order of first
    /// binding, if there are that many entries.
    pub fn name_at(&self, index: usize) -> (name: Option<&String>)
        ensures
            match name {
                Some(text) => index < self.entries().len() && text@
                    == self.entries()[index as int].name,
                None => index >= self.entries().len(),
            },
    {
        if index < self.items.len() {
            Some(&self.items[index].name)
        } else {
            None
        }
    }

    /// The value of the entry at `index`, counted in the order of first
    /// binding, if there are that many entries.
    pub fn value_at(&self, index: usize) -> (value: Option<&String>)
        ensures
            match value {
                Some(text) => index < self.entries().len() && text@
                    == self.entries()[index as int].value,
                None => index >= self.entries().len(),
            },
    {
        if index < self.items.len() {
            Some(&self.items[index].value)
        } else {
            None
        }
    }
}

} // verus!
