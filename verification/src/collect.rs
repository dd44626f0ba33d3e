//! Lists that are gathered one line at a time, such as the tags of a project:
//! each line that is not empty joins the list, which is then put in order; an
//! empty line ends the gathering.

use crate::text::chars_of;
use vstd::prelude::*;
use vstd::seq_lib::{to_multiset_build, to_multiset_insert};

verus! {

/// Whether `a` stands before `b` or equals it, in the order of a dictionary
/// whose letters are ordered by their code points.
pub open spec fn precedes(a: Seq<char>, b: Seq<char>) -> bool
    decreases a.len(),
{
    if a.len() == 0 {
        true
    } else if b.len() == 0 {
        false
    } else if a[0] as u32 != b[0] as u32 {
        (a[0] as u32) < (b[0] as u32)
    } else {
        precedes(a.skip(1), b.skip(1))
    }
}

/// Of two strings one stands before the other, or they are equal.
pub proof fn lemma_precedes_total(a: Seq<char>, b: Seq<char>)
    ensures
        precedes(a, b) || precedes(b, a),
    decreases a.len(),
{
    if a.len() > 0 && b.len() > 0 && a[0] as u32 == b[0] as u32 {
        lemma_precedes_total(a.skip(1), b.skip(1));
    }
}

/// What stands before a string stands before all that the string stands
/// before.
pub proof fn lemma_precedes_transitive(a: Seq<char>, b: Seq<char>, c: Seq<char>)
    requires
        precedes(a, b),
        precedes(b, c),
    ensures
        precedes(a, c),
    decreases a.len(),
{
    if a.len() > 0 && b.len() > 0 && c.len() > 0 && a[0] as u32 == b[0] as u32 && b[0] as u32
        == c[0] as u32 {
        lemma_precedes_transitive(a.skip(1), b.skip(1), c.skip(1));
    }
}

proof fn lemma_same_code(x: char, y: char)
    requires
        x as u32 == y as u32,
    ensures
        x == y,
{
    assert(x as int == y as int);
}

/// Two strings of which each stands before the other are one string, so a
/// list has one order only.
pub proof fn lemma_precedes_antisymmetric(a: Seq<char>, b: Seq<char>)
    requires
        precedes(a, b),
        precedes(b, a),
    ensures
        a == b,
    decreases a.len(),
{
    if a.len() > 0 && b.len() > 0 {
        lemma_precedes_antisymmetric(a.skip(1), b.skip(1));
        lemma_same_code(a[0], b[0]);
        assert(a =~= seq![a[0]] + a.skip(1));
        assert(b =~= seq![b[0]] + b.skip(1));
    } else {
        assert(a =~= b);
    }
}

/// Whether a list is in order.
pub open spec fn sorted(list: Seq<Seq<char>>) -> bool {
    forall|i: int, j: int| 0 <= i <= j < list.len() ==> precedes(#[trigger] list[i], #[trigger] list[j])
}

fn comes_before(a: &Vec<char>, b: &Vec<char>) -> (before: bool)
    ensures
        before == precedes(a@, b@),
{
    let mut i: usize = 0;
    proof {
        assert(a@.skip(0) =~= a@);
        assert(b@.skip(0) =~= b@);
    }
    while i < a.len() && i < b.len()
        invariant
            i <= a.len(),
            i <= b.len(),
            precedes(a@, b@) == precedes(a@.skip(i as int), b@.skip(i as int)),
        decreases a.len() - i,
    {
        proof {
            assert(a@.skip(i as int)[0] == a@[i as int]);
            assert(b@.skip(i as int)[0] == b@[i as int]);
            assert(a@.skip(i as int).skip(1) =~= a@.skip(i + 1));
            assert(b@.skip(i as int).skip(1) =~= b@.skip(i + 1));
        }
        if a[i] as u32 != b[i] as u32 {
            return (a[i] as u32) < (b[i] as u32);
        }
        i += 1;
    }
    i == a.len()
}

/// Puts `item` into a list that is in order, at the place that keeps it so.
fn insert_sorted(list: &mut Vec<String>, item: String)
    requires
        sorted(old(list).deep_view()),
    ensures
        sorted(final(list).deep_view()),
        final(list).deep_view().to_multiset() == old(list).deep_view().to_multiset().insert(item@),
{
    let letters = chars_of(item.as_str());
    let mut at: usize = 0;
    let mut found = false;
    while at < list.len() && !found
        invariant
            at <= list.len(),
            *list == *old(list),
            letters@ == item@,
            forall|i: int| 0 <= i < at ==> precedes(#[trigger] list.deep_view()[i], item@),
            found ==> at < list.len() && !precedes(list.deep_view()[at as int], item@),
        decreases list.len() - at + (if found { 0int } else { 1int }),
    {
        let other = chars_of(list[at].as_str());
        proof {
            assert(list.deep_view()[at as int] == other@);
        }
        if comes_before(&other, &letters) {
            at += 1;
        } else {
            found = true;
        }
    }
    let ghost before = list.deep_view();
    proof {
        if at < list.len() {
            lemma_precedes_total(before[at as int], item@);
        }
    }
    list.insert(at, item);
    proof {
        let after = list.deep_view();
        assert(after =~= before.insert(at as int, item@));
        before.insert_ensures(at as int, item@);
        to_multiset_insert(before, at as int, item@);
        assert forall|i: int, j: int| 0 <= i <= j < after.len() implies precedes(
            #[trigger] after[i],
            #[trigger] after[j],
        ) by {
            if i == j {
                lemma_precedes_total(after[i], after[i]);
            } else if j < at {
                assert(after[i] == before[i] && after[j] == before[j]);
            } else if j == at {
                assert(after[i] == before[i]);
            } else if i < at {
                assert(after[i] == before[i] && after[j] == before[j - 1]);
            } else if i == at {
                assert(after[j] == before[j - 1]);
                assert(precedes(before[at as int], before[j - 1]));
                lemma_precedes_transitive(item@, before[at as int], before[j - 1]);
            } else {
                assert(after[i] == before[i - 1] && after[j] == before[j - 1]);
            }
        }
    }
}

/// Puts a list in order. The result holds what the list held, each string as
/// often as before.
pub fn sort(list: Vec<String>) -> (out: Vec<String>)
    ensures
        sorted(out.deep_view()),
        out.deep_view().to_multiset() == list.deep_view().to_multiset(),
{
    let mut rest = list;
    let mut out: Vec<String> = Vec::new();
    proof {
        assert(out.deep_view() =~= Seq::<Seq<char>>::empty());
        assert(out.deep_view().to_multiset().add(rest.deep_view().to_multiset())
            =~= list.deep_view().to_multiset()) by {
            broadcast use vstd::seq_lib::group_to_multiset_ensures;

        }
    }
    while rest.len() > 0
        invariant
            sorted(out.deep_view()),
            out.deep_view().to_multiset().add(rest.deep_view().to_multiset())
                == list.deep_view().to_multiset(),
        decreases rest.len(),
    {
        let ghost had = rest.deep_view();
        let ghost done = out.deep_view();
        let item = rest.pop().unwrap();
        proof {
            assert(had =~= rest.deep_view().push(item@));
            to_multiset_build(rest.deep_view(), item@);
        }
        insert_sorted(&mut out, item);
        proof {
            assert(out.deep_view().to_multiset().add(rest.deep_view().to_multiset())
                =~= done.to_multiset().add(had.to_multiset()));
        }
    }
    proof {
        assert(rest.deep_view() =~= Seq::<Seq<char>>::empty());
        assert(out.deep_view().to_multiset().add(rest.deep_view().to_multiset())
            =~= out.deep_view().to_multiset()) by {
            broadcast use vstd::seq_lib::group_to_multiset_ensures;

        }
    }
    out
}

/// Adds `item` to the list and puts the list in order.
pub fn add_sorted(list: &mut Vec<String>, item: String)
    ensures
        sorted(final(list).deep_view()),
        final(list).deep_view().to_multiset() == old(list).deep_view().to_multiset().insert(item@),
{
    let mut taken: Vec<String> = Vec::new();
    core::mem::swap(list, &mut taken);
    let mut out = sort(taken);
    insert_sorted(&mut out, item);
    *list = out;
}

/// Takes one line of a list that is being gathered. An empty line ends the
/// gathering and leaves the list as it is; any other line joins the list,
/// which is then put in order. The result says whether to go on.
pub fn take_line(list: &mut Vec<String>, line: String) -> (more: bool)
    ensures
        more == (line@.len() > 0),
        !more ==> final(list).deep_view() == old(list).deep_view(),
        more ==> sorted(final(list).deep_view()) && final(list).deep_view().to_multiset() == old(
            list,
        ).deep_view().to_multiset().insert(line@),
{
    if line.as_str().is_empty() {
        false
    } else {
        add_sorted(list, line);
        true
    }
}

/// An answer that may have been left empty: the empty string stands for no
/// answer.
pub fn non_empty(answer: String) -> (out: Option<String>)
    ensures
        answer@.len() == 0 ==> out is None,
        answer@.len() > 0 ==> out == Some(answer),
{
    if answer.as_str().is_empty() {
        None
    } else {
        Some(answer)
    }
}

} // verus!
