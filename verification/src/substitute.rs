//! Placeholder substitution: `${name}` in a text gives way to the value that
//! the variable store holds for `name`.

use crate::error::Error;
use crate::store::{distinct_names, has_name, BindingView, VariableStore};
use crate::text::{chars_of, string_of};
use vstd::prelude::*;

verus! {

/// The placeholder for `name`: a dollar sign, the name in braces.
pub open spec fn placeholder(name: Seq<char>) -> Seq<char> {
    seq!['$', '{'] + name + seq!['}']
}

/// Whether `text` begins with `pattern`.
pub open spec fn starts_with(text: Seq<char>, pattern: Seq<char>) -> bool {
    pattern.len() <= text.len() && text.take(pattern.len() as int) == pattern
}

/// Whether `pattern` stands in `text` at `at`.
pub open spec fn occurs_at(text: Seq<char>, pattern: Seq<char>, at: int) -> bool {
    0 <= at <= text.len() && starts_with(text.skip(at), pattern)
}

/// Whether `pattern` stands anywhere in `text`.
pub open spec fn occurs(text: Seq<char>, pattern: Seq<char>) -> bool {
    exists|at: int| occurs_at(text, pattern, at)
}

/// `text` with `value` in place of `pattern`: one pass from left to right, in
/// which the leftmost occurrence is replaced and the pass goes on behind it,
/// so that what was put in is not looked at again. An empty pattern replaces
/// nothing.
pub open spec fn replaced(text: Seq<char>, pattern: Seq<char>, value: Seq<char>) -> Seq<char>
    decreases text.len(),
{
    if pattern.len() == 0 || text.len() == 0 {
        text
    } else if starts_with(text, pattern) {
        value + replaced(text.skip(pattern.len() as int), pattern, value)
    } else {
        seq![text[0]] + replaced(text.skip(1), pattern, value)
    }
}

/// `text` after one replacing pass for each entry, in the order of the
/// entries: the placeholder of the entry's name gives way to its value.
pub open spec fn substituted(text: Seq<char>, entries: Seq<BindingView>) -> Seq<char>
    decreases entries.len(),
{
    if entries.len() == 0 {
        text
    } else {
        replaced(
            substituted(text, entries.drop_last()),
            placeholder(entries.last().name),
            entries.last().value,
        )
    }
}

/// A text in which the pattern does not stand is left as it is.
pub proof fn lemma_replaced_without_occurrence(
    text: Seq<char>,
    pattern: Seq<char>,
    value: Seq<char>,
)
    requires
        !occurs(text, pattern),
    ensures
        replaced(text, pattern, value) == text,
    decreases text.len(),
{
    if pattern.len() == 0 || text.len() == 0 {
    } else {
        assert(!starts_with(text, pattern)) by {
            if starts_with(text, pattern) {
                assert(text.skip(0) =~= text);
                assert(occurs_at(text, pattern, 0));
            }
        }
        let rest = text.skip(1);
        assert(!occurs(rest, pattern)) by {
            if occurs(rest, pattern) {
                let at = choose|at: int| occurs_at(rest, pattern, at);
                assert(text.skip(at + 1) =~= rest.skip(at));
                assert(occurs_at(text, pattern, at + 1));
            }
        }
        lemma_replaced_without_occurrence(rest, pattern, value);
        assert(seq![text[0]] + rest =~= text);
    }
}

/// A text that holds no placeholder of a bound name is left as it is:
/// placeholders of names without a value stay word for word.
pub proof fn lemma_substituted_without_placeholder(text: Seq<char>, entries: Seq<BindingView>)
    requires
        forall|i: int|
            0 <= i < entries.len() ==> !occurs(text, placeholder((#[trigger] entries[i]).name)),
    ensures
        substituted(text, entries) == text,
    decreases entries.len(),
{
    if entries.len() > 0 {
        let front = entries.drop_last();
        assert forall|i: int| 0 <= i < front.len() implies !occurs(
            text,
            placeholder((#[trigger] front[i]).name),
        ) by {
            assert(front[i] == entries[i]);
        }
        lemma_substituted_without_placeholder(text, front);
        assert(entries.last() == entries[entries.len() - 1]);
        lemma_replaced_without_occurrence(
            text,
            placeholder(entries.last().name),
            entries.last().value,
        );
    }
}

/// Where the pattern first stands behind `before`, the pass keeps `before`,
/// puts `value` in the pattern's place and goes on with `after`.
pub proof fn lemma_replaced_first_occurrence(
    before: Seq<char>,
    pattern: Seq<char>,
    after: Seq<char>,
    value: Seq<char>,
)
    requires
        pattern.len() > 0,
        forall|at: int| 0 <= at < before.len() ==> !occurs_at(before + pattern + after, pattern, at),
    ensures
        replaced(before + pattern + after, pattern, value) == before + value + replaced(
            after,
            pattern,
            value,
        ),
    decreases before.len(),
{
    let text = before + pattern + after;
    if before.len() == 0 {
        assert(text.take(pattern.len() as int) =~= pattern);
        assert(text.skip(pattern.len() as int) =~= after);
        assert(before + value + replaced(after, pattern, value) =~= value + replaced(
            after,
            pattern,
            value,
        ));
    } else {
        assert(text.skip(0) =~= text);
        assert(!occurs_at(text, pattern, 0));
        assert(!starts_with(text, pattern));
        let shorter = before.skip(1);
        assert(text.skip(1) =~= shorter + pattern + after);
        assert forall|at: int| 0 <= at < shorter.len() implies !occurs_at(
            shorter + pattern + after,
            pattern,
            at,
        ) by {
            assert((shorter + pattern + after).skip(at) =~= text.skip(at + 1));
            assert(!occurs_at(text, pattern, at + 1));
        }
        lemma_replaced_first_occurrence(shorter, pattern, after, value);
        assert(seq![text[0]] + (shorter + value + replaced(after, pattern, value)) =~= before
            + value + replaced(after, pattern, value));
    }
}

/// Whether a text holds no dollar sign, so that no placeholder begins in it.
pub open spec fn plain(text: Seq<char>) -> bool {
    forall|i: int| 0 <= i < text.len() ==> #[trigger] text[i] != '$'
}

/// Whether a name holds neither a dollar sign nor a closing brace, so that
/// its placeholder ends at its first closing brace and holds no other
/// placeholder.
pub open spec fn plain_name(name: Seq<char>) -> bool {
    forall|i: int| 0 <= i < name.len() ==> #[trigger] name[i] != '$' && name[i] != '}'
}

/// Whether the names of all entries are plain.
pub open spec fn plain_names(entries: Seq<BindingView>) -> bool {
    forall|i: int| 0 <= i < entries.len() ==> plain_name((#[trigger] entries[i]).name)
}

/// A pass for a pattern that begins with a dollar sign keeps a plain text
/// that stands in front, and goes on behind it.
pub proof fn lemma_replaced_behind_plain(
    before: Seq<char>,
    rest: Seq<char>,
    pattern: Seq<char>,
    value: Seq<char>,
)
    requires
        plain(before),
        pattern.len() > 0,
        pattern[0] == '$',
    ensures
        replaced(before + rest, pattern, value) == before + replaced(rest, pattern, value),
    decreases before.len(),
{
    let text = before + rest;
    if before.len() == 0 {
        assert(text =~= rest);
        assert(before + replaced(rest, pattern, value) =~= replaced(rest, pattern, value));
    } else {
        assert(text[0] == before[0]);
        assert(!starts_with(text, pattern)) by {
            if starts_with(text, pattern) {
                assert(text.take(pattern.len() as int)[0] == text[0]);
            }
        }
        let shorter = before.skip(1);
        assert(text.skip(1) =~= shorter + rest);
        assert(plain(shorter)) by {
            assert forall|i: int| 0 <= i < shorter.len() implies #[trigger] shorter[i] != '$' by {
                assert(shorter[i] == before[i + 1]);
            }
        }
        lemma_replaced_behind_plain(shorter, rest, pattern, value);
        assert(seq![text[0]] + (shorter + replaced(rest, pattern, value)) =~= before + replaced(
            rest,
            pattern,
            value,
        ));
    }
}

/// A plain text is left as it is.
pub proof fn lemma_substituted_plain(text: Seq<char>, entries: Seq<BindingView>)
    requires
        plain(text),
    ensures
        substituted(text, entries) == text,
    decreases entries.len(),
{
    if entries.len() > 0 {
        lemma_substituted_plain(text, entries.drop_last());
        let pattern = placeholder(entries.last().name);
        let nothing = Seq::<char>::empty();
        assert(text + nothing =~= text);
        lemma_replaced_behind_plain(text, nothing, pattern, entries.last().value);
    }
}

/// A pass for the placeholder of one plain name keeps the placeholder of
/// another, and goes on behind it.
pub proof fn lemma_replaced_behind_other(
    name: Seq<char>,
    rest: Seq<char>,
    other: Seq<char>,
    value: Seq<char>,
)
    requires
        plain_name(name),
        plain_name(other),
        name != other,
    ensures
        replaced(placeholder(name) + rest, placeholder(other), value) == placeholder(name)
            + replaced(rest, placeholder(other), value),
{
    let kept = placeholder(name);
    let pattern = placeholder(other);
    let text = kept + rest;
    let n = name.len() as int;
    let m = other.len() as int;
    assert(kept.len() == n + 3);
    assert(pattern.len() == m + 3);
    assert forall|i: int| 0 <= i < n implies kept[i + 2] == name[i] by {}
    assert forall|i: int| 0 <= i < m implies pattern[i + 2] == other[i] by {}
    assert(kept[n + 2] == '}');
    assert(pattern[m + 2] == '}');
    assert(!starts_with(text, pattern)) by {
        if starts_with(text, pattern) {
            let window = text.take(pattern.len() as int);
            assert forall|i: int| 0 <= i < pattern.len() implies text[i] == pattern[i] by {
                assert(window[i] == text[i]);
            }
            if m < n {
                assert(text[m + 2] == kept[m + 2]);
                assert(kept[m + 2] == name[m]);
            } else if m > n {
                assert(text[n + 2] == kept[n + 2]);
                assert(pattern[n + 2] == other[n]);
            } else {
                assert forall|i: int| 0 <= i < n implies name[i] == other[i] by {
                    assert(text[i + 2] == kept[i + 2]);
                    assert(text[i + 2] == pattern[i + 2]);
                }
                assert(name =~= other);
            }
        }
    }
    let tail = kept.skip(1);
    assert(plain(tail)) by {
        assert forall|i: int| 0 <= i < tail.len() implies #[trigger] tail[i] != '$' by {
            assert(tail[i] == kept[i + 1]);
            if 1 <= i && i < name.len() + 1 {
                assert(kept[i + 1] == name[i - 1]);
            }
        }
    }
    assert(text.skip(1) =~= tail + rest);
    assert(text[0] == '$');
    lemma_replaced_behind_plain(tail, rest, pattern, value);
    assert(seq![text[0]] + (tail + replaced(rest, pattern, value)) =~= kept + replaced(
        rest,
        pattern,
        value,
    ));
}

/// The placeholder of a name without a value stays word for word: where it
/// stands behind a plain text, that text and the placeholder are kept, and
/// what follows is substituted by itself.
pub proof fn lemma_substituted_unbound(
    before: Seq<char>,
    name: Seq<char>,
    after: Seq<char>,
    entries: Seq<BindingView>,
)
    requires
        plain(before),
        plain_name(name),
        plain_names(entries),
        !has_name(entries, name),
    ensures
        substituted(before + placeholder(name) + after, entries) == before + placeholder(name)
            + substituted(after, entries),
    decreases entries.len(),
{
    if entries.len() > 0 {
        let front = entries.drop_last();
        let last = entries.last();
        assert(last == entries[entries.len() - 1]);
        assert(plain_names(front)) by {
            assert forall|i: int| 0 <= i < front.len() implies plain_name(
                (#[trigger] front[i]).name,
            ) by {
                assert(front[i] == entries[i]);
            }
        }
        assert(!has_name(front, name)) by {
            if has_name(front, name) {
                let i = choose|i: int| 0 <= i < front.len() && (#[trigger] front[i]).name == name;
                assert(entries[i].name == name);
            }
        }
        lemma_substituted_unbound(before, name, after, front);
        let rest = substituted(after, front);
        let pattern = placeholder(last.name);
        assert(before + placeholder(name) + rest =~= before + (placeholder(name) + rest));
        lemma_replaced_behind_plain(before, placeholder(name) + rest, pattern, last.value);
        lemma_replaced_behind_other(name, rest, last.name, last.value);
        assert(before + (placeholder(name) + replaced(rest, pattern, last.value)) =~= before
            + placeholder(name) + replaced(rest, pattern, last.value));
    }
}

/// The placeholder of a name with a value gives way to the value: where it
/// stands behind a plain text, that text is kept, the value takes the
/// placeholder's place, and what follows is substituted by itself. This
/// holds where the names are plain and the value holds no dollar sign.
pub proof fn lemma_substituted_bound(
    before: Seq<char>,
    after: Seq<char>,
    entries: Seq<BindingView>,
    at: int,
)
    requires
        plain(before),
        distinct_names(entries),
        plain_names(entries),
        0 <= at < entries.len(),
        plain(entries[at].value),
    ensures
        substituted(before + placeholder(entries[at].name) + after, entries) == before
            + entries[at].value + substituted(after, entries),
    decreases entries.len(),
{
    let name = entries[at].name;
    let value = entries[at].value;
    let front = entries.drop_last();
    let last = entries.last();
    assert(last == entries[entries.len() - 1]);
    assert(plain_names(front)) by {
        assert forall|i: int| 0 <= i < front.len() implies plain_name((#[trigger] front[i]).name) by {
            assert(front[i] == entries[i]);
        }
    }
    let rest = substituted(after, front);
    let pattern = placeholder(last.name);
    if at == entries.len() - 1 {
        assert(!has_name(front, name)) by {
            if has_name(front, name) {
                let i = choose|i: int| 0 <= i < front.len() && (#[trigger] front[i]).name == name;
                assert(entries[i].name == entries[at].name);
            }
        }
        lemma_substituted_unbound(before, name, after, front);
        assert(before + pattern + rest =~= before + (pattern + rest));
        lemma_replaced_behind_plain(before, pattern + rest, pattern, value);
        assert(starts_with(pattern + rest, pattern)) by {
            assert((pattern + rest).take(pattern.len() as int) =~= pattern);
        }
        assert((pattern + rest).skip(pattern.len() as int) =~= rest);
        assert(before + (value + replaced(rest, pattern, value)) =~= before + value + replaced(
            rest,
            pattern,
            value,
        ));
    } else {
        assert(distinct_names(front)) by {
            assert forall|i: int, j: int| 0 <= i < j < front.len() implies (#[trigger] front[i]).name
                != (#[trigger] front[j]).name by {
                assert(front[i] == entries[i] && front[j] == entries[j]);
            }
        }
        assert(front[at] == entries[at]);
        lemma_substituted_bound(before, after, front, at);
        assert(plain(before + value)) by {
            assert forall|i: int| 0 <= i < (before + value).len() implies #[trigger] (before
                + value)[i] != '$' by {
                if i < before.len() {
                    assert((before + value)[i] == before[i]);
                } else {
                    assert((before + value)[i] == value[i - before.len()]);
                }
            }
        }
        lemma_replaced_behind_plain(before + value, rest, pattern, last.value);
    }
}

fn matches_at(text: &Vec<char>, at: usize, pattern: &Vec<char>) -> (found: bool)
    requires
        at <= text.len(),
    ensures
        found == starts_with(text@.skip(at as int), pattern@),
{
    if pattern.len() > text.len() - at {
        return false;
    }
    let mut k: usize = 0;
    while k < pattern.len()
        invariant
            at <= text.len(),
            pattern.len() <= text.len() - at,
            k <= pattern.len(),
            forall|j: int| 0 <= j < k ==> text@[at + j] == pattern@[j],
        decreases pattern.len() - k,
    {
        if text[at + k] != pattern[k] {
            proof {
                let window = text@.skip(at as int).take(pattern.len() as int);
                assert(window[k as int] == text@[at + k]);
            }
            return false;
        }
        k += 1;
    }
    assert(text@.skip(at as int).take(pattern.len() as int) =~= pattern@);
    true
}

/// Replaces every occurrence of `pattern` in `text` by `value`, in one pass
/// from left to right.
pub fn replace_all(text: &Vec<char>, pattern: &Vec<char>, value: &Vec<char>) -> (out: Vec<char>)
    ensures
        out@ == replaced(text@, pattern@, value@),
{
    let mut out: Vec<char> = Vec::new();
    let mut at: usize = 0;
    proof {
        assert(text@.skip(0) =~= text@);
        assert(out@ + replaced(text@, pattern@, value@) =~= replaced(text@, pattern@, value@));
    }
    while at < text.len()
        invariant
            at <= text.len(),
            out@ + replaced(text@.skip(at as int), pattern@, value@) == replaced(
                text@,
                pattern@,
                value@,
            ),
        decreases text.len() - at,
    {
        let ghost rest = text@.skip(at as int);
        if pattern.len() > 0 && matches_at(text, at, pattern) {
            let mut k: usize = 0;
            let ghost kept = out@;
            while k < value.len()
                invariant
                    k <= value.len(),
                    out@ == kept + value@.take(k as int),
                decreases value.len() - k,
            {
                out.push(value[k]);
                k += 1;
            }
            proof {
                assert(value@.take(value.len() as int) =~= value@);
                assert(rest.skip(pattern.len() as int) =~= text@.skip(at + pattern.len()));
                assert((kept + value@) + replaced(
                    text@.skip(at + pattern.len()),
                    pattern@,
                    value@,
                ) =~= kept + (value@ + replaced(
                    rest.skip(pattern.len() as int),
                    pattern@,
                    value@,
                )));
            }
            at += pattern.len();
        } else {
            let ghost kept = out@;
            out.push(text[at]);
            proof {
                assert(rest.skip(1) =~= text@.skip(at + 1));
                if pattern.len() > 0 {
                    assert(kept.push(text@[at as int]) + replaced(
                        text@.skip(at + 1),
                        pattern@,
                        value@,
                    ) =~= kept + (seq![rest[0]] + replaced(rest.skip(1), pattern@, value@)));
                } else {
                    assert(replaced(rest, pattern@, value@) == rest);
                    assert(replaced(text@.skip(at + 1), pattern@, value@) == text@.skip(at + 1));
                    assert(kept.push(text@[at as int]) + text@.skip(at + 1) =~= kept + rest);
                }
            }
            at += 1;
        }
    }
    proof {
        assert(text@.skip(at as int).len() == 0);
        assert(out@ + Seq::<char>::empty() =~= out@);
    }
    out
}

/// Builds the placeholder for `name`.
pub fn placeholder_of(name: &str) -> (out: Vec<char>)
    ensures
        out@ == placeholder(name@),
{
    let mut out: Vec<char> = Vec::new();
    out.push('$');
    out.push('{');
    let ghost head = out@;
    let letters = chars_of(name);
    let mut k: usize = 0;
    while k < letters.len()
        invariant
            k <= letters.len(),
            out@ == head + letters@.take(k as int),
        decreases letters.len() - k,
    {
        out.push(letters[k]);
        k += 1;
    }
    out.push('}');
    proof {
        assert(letters@.take(letters.len() as int) =~= letters@);
        assert(head =~= seq!['$', '{']);
        assert(out@ =~= placeholder(name@));
    }
    out
}

/// `contents` with the values of `variables` in place of their placeholders.
/// There is one pass for each variable, in the order in which the names were
/// first bound.
pub fn substitute(contents: &str, variables: &VariableStore) -> (out: String)
    ensures
        out@ == substituted(contents@, variables.entries()),
{
    let mut current = chars_of(contents);
    let count = variables.len();
    let mut i: usize = 0;
    while i < count
        invariant
            i <= count,
            count == variables.entries().len(),
            current@ == substituted(contents@, variables.entries().take(i as int)),
        decreases count - i,
    {
        let pattern = placeholder_of(variables.name_at(i).unwrap().as_str());
        let value = chars_of(variables.value_at(i).unwrap().as_str());
        let next = replace_all(&current, &pattern, &value);
        proof {
            let upto = variables.entries().take(i + 1);
            assert(upto.drop_last() =~= variables.entries().take(i as int));
            assert(upto.last() == variables.entries()[i as int]);
        }
        current = next;
        i += 1;
    }
    proof {
        assert(variables.entries().take(count as int) =~= variables.entries());
    }
    string_of(&current)
}

/// Puts the values of `variables` in place of their placeholders in
/// `contents`. A placeholder of a name without a value is kept as it stands,
/// so the call does not fail on one.
pub fn replace_variables(contents: &str, variables: &VariableStore) -> (out: Result<String, Error>)
    ensures
        out matches Ok(text) && text@ == substituted(contents@, variables.entries()),
{
    Ok(substitute(contents, variables))
}

} // verus!
