//! Command lines: a program name followed by arguments, parted by white space.
//! Nothing else in a line has a meaning: there is no quoting and no expansion.

use crate::error::Error;
use crate::text::{chars_of, string_of};
use vstd::prelude::*;

verus! {

/// The characters that part the words of a command line: those with the
/// Unicode property White_Space.
pub open spec fn is_blank(c: char) -> bool {
    let code = c as u32;
    ||| 0x09 <= code <= 0x0D
    ||| code == 0x20
    ||| code == 0x85
    ||| code == 0xA0
    ||| code == 0x1680
    ||| 0x2000 <= code <= 0x200A
    ||| code == 0x2028
    ||| code == 0x2029
    ||| code == 0x202F
    ||| code == 0x205F
    ||| code == 0x3000
}

/// The number of characters at the start of `text` before the first blank.
pub open spec fn word_len(text: Seq<char>) -> nat
    decreases text.len(),
{
    if text.len() == 0 || is_blank(text[0]) {
        0
    } else {
        1 + word_len(text.skip(1))
    }
}

/// The words of `text`: its longest runs of characters that are not blank,
/// from left to right.
pub open spec fn words(text: Seq<char>) -> Seq<Seq<char>>
    decreases text.len(),
    via words_terminates
{
    if text.len() == 0 {
        Seq::empty()
    } else if is_blank(text[0]) {
        words(text.skip(1))
    } else {
        seq![text.take(word_len(text) as int)] + words(text.skip(word_len(text) as int))
    }
}

#[via_fn]
proof fn words_terminates(text: Seq<char>) {
    lemma_word_len(text);
}

/// A word is no longer than the text it starts, ends at a blank or at the
/// text's end, and holds no blank.
pub proof fn lemma_word_len(text: Seq<char>)
    ensures
        word_len(text) <= text.len(),
        text.len() > 0 && !is_blank(text[0]) ==> word_len(text) >= 1,
        word_len(text) < text.len() ==> is_blank(text[word_len(text) as int]),
        forall|i: int| 0 <= i < word_len(text) ==> !is_blank(#[trigger] text[i]),
    decreases text.len(),
{
    if text.len() == 0 || is_blank(text[0]) {
    } else {
        let rest = text.skip(1);
        lemma_word_len(rest);
        assert forall|i: int| 0 <= i < word_len(text) implies !is_blank(#[trigger] text[i]) by {
            if i > 0 {
                assert(text[i] == rest[i - 1]);
            }
        }
        if word_len(text) < text.len() {
            assert(text[word_len(text) as int] == rest[word_len(rest) as int]);
        }
    }
}

/// What a word is: at least one character, none of them blank.
pub open spec fn is_word(word: Seq<char>) -> bool {
    word.len() > 0 && forall|i: int| 0 <= i < word.len() ==> !is_blank(#[trigger] word[i])
}

/// Each of the words of a text is a word: none is empty, none holds a blank.
pub proof fn lemma_words(text: Seq<char>)
    ensures
        forall|k: int| 0 <= k < words(text).len() ==> is_word(#[trigger] words(text)[k]),
    decreases text.len(),
{
    if text.len() == 0 {
        assert(words(text).len() == 0);
    } else if is_blank(text[0]) {
        lemma_words(text.skip(1));
        assert(words(text) == words(text.skip(1)));
    } else {
        lemma_word_len(text);
        let n = word_len(text) as int;
        let rest = text.skip(n);
        lemma_words(rest);
        assert(words(text) == seq![text.take(n)] + words(rest));
        assert forall|k: int| 0 <= k < words(text).len() implies is_word(
            #[trigger] words(text)[k],
        ) by {
            if k == 0 {
                assert(words(text)[0] == text.take(n));
                assert forall|i: int| 0 <= i < n implies !is_blank(#[trigger] text.take(n)[i]) by {
                    assert(text.take(n)[i] == text[i]);
                }
            } else {
                assert(words(text)[k] == words(rest)[k - 1]);
            }
        }
    }
}

/// A text of blanks alone has no words, and only such a text has none.
pub proof fn lemma_words_empty(text: Seq<char>)
    ensures
        words(text).len() == 0 <==> forall|i: int| 0 <= i < text.len() ==> is_blank(#[trigger] text[i]),
    decreases text.len(),
{
    if text.len() == 0 {
    } else if is_blank(text[0]) {
        let rest = text.skip(1);
        lemma_words_empty(rest);
        if words(rest).len() == 0 {
            assert forall|i: int| 0 <= i < text.len() implies is_blank(#[trigger] text[i]) by {
                if i > 0 {
                    assert(text[i] == rest[i - 1]);
                }
            }
        } else {
            let i = choose|i: int| 0 <= i < rest.len() && !is_blank(#[trigger] rest[i]);
            assert(text[i + 1] == rest[i]);
        }
    } else {
        lemma_word_len(text);
    }
}

/// Whether `c` is a blank.
pub fn is_whitespace(c: char) -> (blank: bool)
    ensures
        blank == is_blank(c),
{
    let code: u32 = c as u32;
    (0x09 <= code && code <= 0x0D) || code == 0x20 || code == 0x85 || code == 0xA0 || code
        == 0x1680 || (0x2000 <= code && code <= 0x200A) || code == 0x2028 || code == 0x2029 || code
        == 0x202F || code == 0x205F || code == 0x3000
}

/// Parts `line` into its words.
pub fn split_whitespace(line: &str) -> (out: Vec<String>)
    ensures
        out.deep_view() == words(line@),
{
    let text = chars_of(line);
    let mut out: Vec<String> = Vec::new();
    let mut at: usize = 0;
    proof {
        assert(text@.skip(0) =~= text@);
        assert(out.deep_view() =~= Seq::<Seq<char>>::empty());
        assert(out.deep_view() + words(text@) =~= words(text@));
    }
    while at < text.len()
        invariant
            at <= text.len(),
            text@ == line@,
            out.deep_view() + words(text@.skip(at as int)) == words(line@),
        decreases text.len() - at,
    {
        let ghost rest = text@.skip(at as int);
        if is_whitespace(text[at]) {
            proof {
                assert(rest.skip(1) =~= text@.skip(at + 1));
            }
            at += 1;
        } else {
            let mut word: Vec<char> = Vec::new();
            let mut end: usize = at;
            proof {
                lemma_word_len(rest);
                assert(rest.skip(0) =~= rest);
            }
            while end < text.len() && !is_whitespace(text[end])
                invariant
                    at <= end <= text.len(),
                    rest == text@.skip(at as int),
                    word@ == rest.take(end - at),
                    word_len(rest) == (end - at) + word_len(rest.skip(end - at)),
                decreases text.len() - end,
            {
                proof {
                    let tail = rest.skip(end - at);
                    assert(tail[0] == text@[end as int]);
                    assert(tail.skip(1) =~= rest.skip(end - at + 1));
                    assert(rest.take(end - at).push(text@[end as int]) =~= rest.take(end - at + 1));
                }
                word.push(text[end]);
                end += 1;
            }
            proof {
                let tail = rest.skip(end - at);
                if end < text.len() {
                    assert(tail[0] == text@[end as int]);
                }
                assert(word_len(tail) == 0);
                assert(word_len(rest) == end - at);
                assert(rest.skip(end - at) =~= text@.skip(end as int));
            }
            let ghost before = out.deep_view();
            out.push(string_of(&word));
            proof {
                assert(out.deep_view() =~= before.push(word@));
                assert(before.push(word@) + words(text@.skip(end as int)) =~= before + (seq![
                    word@,
                ] + words(rest.skip(end - at))));
            }
            at = end;
        }
    }
    proof {
        assert(text@.skip(at as int).len() == 0);
        assert(out.deep_view() + Seq::<Seq<char>>::empty() =~= out.deep_view());
    }
    out
}

} // verus!
