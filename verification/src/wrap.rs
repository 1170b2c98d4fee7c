//! Greedy word-wrap: a message becomes display lines of bounded width, and no
//! word is ever broken.

use crate::text::{
    has_no_whitespace, lemma_single_word, lemma_words_are_words, lemma_words_of_appended_word,
    split_words, texts, words_of,
};
use vstd::prelude::*;
use vstd::string::StrSliceExecFns;
use vstd::string::StringExecFns;

verus! {

/// `line` extended by one space and `word`.
pub open spec fn joined(line: Seq<char>, word: Seq<char>) -> Seq<char> {
    line + seq![' '] + word
}

/// Whether `word` can follow `line` on the same display line.
pub open spec fn fits(line: Seq<char>, word: Seq<char>, max_chars: nat) -> bool {
    line.len() + 1 + word.len() <= max_chars
}

/// The lines that come out when `pending` is the line under construction and
/// `words` are still to be placed. A word joins the pending line when it fits;
/// otherwise the pending line is emitted and the word starts the next one. What
/// is pending at the end is emitted too. A pending line is never cut, so a word
/// longer than `max_chars` stands on a line of its own.
pub open spec fn wrap_from(pending: Seq<char>, words: Seq<Seq<char>>, max_chars: nat) -> Seq<
    Seq<char>,
>
    decreases words.len(),
{
    if words.len() == 0 {
        if pending.len() == 0 {
            Seq::empty()
        } else {
            seq![pending]
        }
    } else if pending.len() == 0 {
        wrap_from(words[0], words.drop_first(), max_chars)
    } else if fits(pending, words[0], max_chars) {
        wrap_from(joined(pending, words[0]), words.drop_first(), max_chars)
    } else {
        seq![pending] + wrap_from(words[0], words.drop_first(), max_chars)
    }
}

/// The display lines for a sequence of words.
pub open spec fn wrap_words(words: Seq<Seq<char>>, max_chars: nat) -> Seq<Seq<char>> {
    wrap_from(Seq::empty(), words, max_chars)
}

/// The display lines for a message: its words, wrapped.
pub open spec fn wrapped(msg: Seq<char>, max_chars: nat) -> Seq<Seq<char>> {
    wrap_words(words_of(msg), max_chars)
}

/// The words of all of `lines`, in order.
pub open spec fn line_words(lines: Seq<Seq<char>>) -> Seq<Seq<char>>
    decreases lines.len(),
{
    if lines.len() == 0 {
        Seq::empty()
    } else {
        words_of(lines[0]) + line_words(lines.drop_first())
    }
}

/// Every line that comes out of `wrap_from` is within `max_chars`, if the
/// pending line is, or else is one of `all`, if the pending line and the words
/// still to be placed are.
pub proof fn lemma_wrap_from_widths(
    pending: Seq<char>,
    words: Seq<Seq<char>>,
    max_chars: nat,
    all: Seq<Seq<char>>,
)
    requires
        pending.len() <= max_chars || all.contains(pending),
        forall|k: int| 0 <= k < words.len() ==> all.contains(#[trigger] words[k]),
    ensures
        forall|i: int|
            0 <= i < wrap_from(pending, words, max_chars).len() ==> {
                let line = #[trigger] wrap_from(pending, words, max_chars)[i];
                line.len() <= max_chars || all.contains(line)
            },
    decreases words.len(),
{
    let out = wrap_from(pending, words, max_chars);
    if words.len() == 0 {
        assert forall|i: int| 0 <= i < out.len() implies {
            let line = #[trigger] out[i];
            line.len() <= max_chars || all.contains(line)
        } by {
            assert(out[i] == pending);
        }
    } else {
        let rest = words.drop_first();
        assert(all.contains(words[0]));
        assert forall|k: int| 0 <= k < rest.len() implies all.contains(#[trigger] rest[k]) by {
            assert(rest[k] == words[k + 1]);
        }
        if pending.len() == 0 {
            lemma_wrap_from_widths(words[0], rest, max_chars, all);
            assert(out == wrap_from(words[0], rest, max_chars));
        } else if fits(pending, words[0], max_chars) {
            assert(joined(pending, words[0]).len() == pending.len() + 1 + words[0].len());
            lemma_wrap_from_widths(joined(pending, words[0]), rest, max_chars, all);
            assert(out == wrap_from(joined(pending, words[0]), rest, max_chars));
        } else {
            lemma_wrap_from_widths(words[0], rest, max_chars, all);
            let tail = wrap_from(words[0], rest, max_chars);
            assert(out == seq![pending] + tail);
            assert forall|i: int| 0 <= i < out.len() implies {
                let line = #[trigger] out[i];
                line.len() <= max_chars || all.contains(line)
            } by {
                if i > 0 {
                    assert(out[i] == tail[i - 1]);
                } else {
                    assert(out[i] == pending);
                }
            }
        }
    }
}

/// No line of a wrapped message is wider than `max_chars`, except a line that
/// holds a single word of the message which is itself wider than that.
pub proof fn lemma_wrapped_line_widths(msg: Seq<char>, max_chars: nat)
    ensures
        forall|i: int|
            0 <= i < wrapped(msg, max_chars).len() ==> {
                let line = #[trigger] wrapped(msg, max_chars)[i];
                line.len() <= max_chars || words_of(msg).contains(line)
            },
{
    let words = words_of(msg);
    assert forall|k: int| 0 <= k < words.len() implies words.contains(#[trigger] words[k]) by {}
    lemma_wrap_from_widths(Seq::empty(), words, max_chars, words);
}

/// Wrapping neither loses, adds, reorders nor cuts a word: the words of the
/// lines that come out are the words of the pending line and then the words
/// that were still to be placed.
pub proof fn lemma_wrap_from_keeps_words(
    pending: Seq<char>,
    words: Seq<Seq<char>>,
    max_chars: nat,
)
    requires
        forall|k: int|
            0 <= k < words.len() ==> (#[trigger] words[k]).len() > 0 && has_no_whitespace(
                words[k],
            ),
    ensures
        line_words(wrap_from(pending, words, max_chars)) == words_of(pending) + words,
    decreases words.len(),
{
    let out = wrap_from(pending, words, max_chars);
    if words.len() == 0 {
        if pending.len() == 0 {
            assert(words_of(pending) + words =~= Seq::<Seq<char>>::empty());
        } else {
            assert(out.drop_first() =~= Seq::<Seq<char>>::empty());
            assert(line_words(out.drop_first()) =~= Seq::<Seq<char>>::empty());
            assert(line_words(out) =~= words_of(pending) + words);
        }
    } else {
        let first = words[0];
        let rest = words.drop_first();
        assert forall|k: int| 0 <= k < rest.len() implies (#[trigger] rest[k]).len() > 0
            && has_no_whitespace(rest[k]) by {
            assert(rest[k] == words[k + 1]);
        }
        lemma_single_word(first);
        if pending.len() == 0 {
            lemma_wrap_from_keeps_words(first, rest, max_chars);
            assert(seq![first] + rest =~= words);
            assert(words_of(pending) + words =~= words);
        } else if fits(pending, first, max_chars) {
            lemma_wrap_from_keeps_words(joined(pending, first), rest, max_chars);
            lemma_words_of_appended_word(pending, first, 0);
            assert(words_of(pending).push(first) + rest =~= words_of(pending) + words);
        } else {
            lemma_wrap_from_keeps_words(first, rest, max_chars);
            let tail = wrap_from(first, rest, max_chars);
            assert(out == seq![pending] + tail);
            assert(out.drop_first() =~= tail);
            assert(line_words(out) == words_of(pending) + line_words(tail));
            assert(words_of(pending) + (seq![first] + rest) =~= words_of(pending) + words);
        }
    }
}

/// The words of a wrapped message are the words of the message: no word is
/// lost, added, moved or split, whatever the width.
pub proof fn lemma_wrapped_keeps_words(msg: Seq<char>, max_chars: nat)
    ensures
        line_words(wrapped(msg, max_chars)) == words_of(msg),
{
    lemma_words_are_words(msg, 0);
    lemma_wrap_from_keeps_words(Seq::empty(), words_of(msg), max_chars);
    assert(words_of(Seq::<char>::empty()) + words_of(msg) =~= words_of(msg));
}

/// Wrapping is greedy. The lines begin with the first word of the pending
/// line, or with the first word to be placed when nothing is pending, and
/// the first word of every further line would not have fitted on the line
/// before it.
pub proof fn lemma_wrap_from_is_greedy(
    pending: Seq<char>,
    words: Seq<Seq<char>>,
    max_chars: nat,
)
    requires
        pending.len() > 0 ==> words_of(pending).len() > 0,
        forall|k: int|
            0 <= k < words.len() ==> (#[trigger] words[k]).len() > 0 && has_no_whitespace(
                words[k],
            ),
    ensures
        ({
            let out = wrap_from(pending, words, max_chars);
            &&& pending.len() > 0 ==> out.len() > 0 && words_of(out[0]).len() > 0 && words_of(
                out[0],
            )[0] == words_of(pending)[0]
            &&& pending.len() == 0 && words.len() > 0 ==> out.len() > 0 && words_of(out[0]).len()
                > 0 && words_of(out[0])[0] == words[0]
            &&& forall|i: int|
                1 <= i < out.len() ==> words_of(#[trigger] out[i]).len() > 0 && !fits(
                    out[i - 1],
                    words_of(out[i])[0],
                    max_chars,
                )
        }),
    decreases words.len(),
{
    let out = wrap_from(pending, words, max_chars);
    if words.len() > 0 {
        let first = words[0];
        let rest = words.drop_first();
        assert forall|k: int| 0 <= k < rest.len() implies (#[trigger] rest[k]).len() > 0
            && has_no_whitespace(rest[k]) by {
            assert(rest[k] == words[k + 1]);
        }
        lemma_single_word(first);
        if pending.len() == 0 {
            lemma_wrap_from_is_greedy(first, rest, max_chars);
        } else if fits(pending, first, max_chars) {
            lemma_words_of_appended_word(pending, first, 0);
            lemma_wrap_from_is_greedy(joined(pending, first), rest, max_chars);
        } else {
            lemma_wrap_from_is_greedy(first, rest, max_chars);
            let tail = wrap_from(first, rest, max_chars);
            assert(out == seq![pending] + tail);
            assert(out[0] == pending);
            assert forall|i: int| 1 <= i < out.len() implies words_of(#[trigger] out[i]).len()
                > 0 && !fits(out[i - 1], words_of(out[i])[0], max_chars) by {
                assert(out[i] == tail[i - 1]);
                if i > 1 {
                    assert(out[i - 1] == tail[i - 2]);
                }
            }
        }
    }
}

/// A wrapped message is wrapped greedily: the first word of every line but
/// the first would not have fitted on the line before it.
pub proof fn lemma_wrapped_is_greedy(msg: Seq<char>, max_chars: nat)
    ensures
        forall|i: int|
            1 <= i < wrapped(msg, max_chars).len() ==> words_of(
                #[trigger] wrapped(msg, max_chars)[i],
            ).len() > 0 && !fits(
                wrapped(msg, max_chars)[i - 1],
                words_of(wrapped(msg, max_chars)[i])[0],
                max_chars,
            ),
{
    lemma_words_are_words(msg, 0);
    lemma_wrap_from_is_greedy(Seq::empty(), words_of(msg), max_chars);
}

/// A single non-empty word is wrapped to one line, whatever the width.
pub proof fn lemma_wrap_single_word(word: Seq<char>, max_chars: nat)
    requires
        word.len() > 0,
    ensures
        wrap_words(seq![word], max_chars) == seq![word],
{
    let words = seq![word];
    assert(words.drop_first() =~= Seq::<Seq<char>>::empty());
    assert(wrap_from(word, words.drop_first(), max_chars) =~= seq![word]);
}

/// Wraps `words` into lines of at most `max_chars` characters.
pub fn wrap_word_list(words: &Vec<String>, max_chars: usize) -> (lines: Vec<String>)
    ensures
        texts(lines@) == wrap_words(texts(words@), max_chars as nat),
{
    let mut lines: Vec<String> = Vec::new();
    let mut line = String::new();
    let mut line_len: usize = 0;
    let mut i: usize = 0;
    proof {
        reveal_strlit(" ");
        assert(texts(words@).skip(0) =~= texts(words@));
        assert(texts(lines@) + wrap_from(line@, texts(words@).skip(0), max_chars as nat)
            =~= wrap_words(texts(words@), max_chars as nat));
    }
    while i < words.len()
        invariant
            i <= words.len(),
            line_len == line@.len(),
            " "@ == seq![' '],
            texts(lines@) + wrap_from(line@, texts(words@).skip(i as int), max_chars as nat)
                == wrap_words(texts(words@), max_chars as nat),
        decreases words.len() - i,
    {
        let word = &words[i];
        let word_len = word.as_str().unicode_len();
        let ghost rest = texts(words@).skip(i as int);
        let ghost done = texts(lines@);
        let ghost pending = line@;
        proof {
            assert(rest[0] == word@);
            assert(rest.drop_first() =~= texts(words@).skip(i + 1));
        }
        if line_len == 0 {
            line = word.clone();
            line_len = word_len;
        } else if line_len < max_chars && word_len < max_chars - line_len {
            line.append(" ");
            line.append(word.as_str());
            line_len = line_len + 1 + word_len;
            assert(line@ =~= joined(pending, word@));
        } else {
            lines.push(line);
            line = word.clone();
            line_len = word_len;
            assert(texts(lines@) =~= done.push(pending));
            assert(texts(lines@) + wrap_from(line@, rest.drop_first(), max_chars as nat) =~= done
                + wrap_from(pending, rest, max_chars as nat));
        }
        i += 1;
    }
    let ghost done = texts(lines@);
    proof {
        assert(texts(words@).skip(i as int) =~= Seq::<Seq<char>>::empty());
    }
    if line_len > 0 {
        lines.push(line);
        assert(texts(lines@) =~= done + wrap_from(line@, Seq::empty(), max_chars as nat));
    } else {
        assert(done + wrap_from(line@, Seq::empty(), max_chars as nat) =~= done);
    }
    lines
}

/// Splits `msg` into words and wraps them into lines of at most `max_chars`
/// characters. A word longer than that is emitted whole, on its own line.
pub fn wrap_message(msg: &str, max_chars: usize) -> (lines: Vec<String>)
    ensures
        texts(lines@) == wrapped(msg@, max_chars as nat),
        forall|i: int|
            0 <= i < lines.len() ==> (#[trigger] lines[i])@.len() <= max_chars || words_of(
                msg@,
            ).contains(lines[i]@),
{
    let words = split_words(msg);
    let lines = wrap_word_list(&words, max_chars);
    proof {
        lemma_wrapped_line_widths(msg@, max_chars as nat);
        assert forall|i: int| 0 <= i < lines.len() implies (#[trigger] lines[i])@.len()
            <= max_chars || words_of(msg@).contains(lines[i]@) by {
            let line = wrapped(msg@, max_chars as nat)[i];
            assert(line == texts(lines@)[i]);
            assert(line == lines[i]@);
        }
    }
    lines
}

} // verus!
