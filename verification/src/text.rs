//! Character-level text handling for the console: whitespace classification,
//! trimming, splitting a message into words, and decimal rendering of numbers.
//!
//! Every text is modelled as a `Seq<char>`; lengths are counted in characters,
//! one character per display cell.

use vstd::prelude::*;
use vstd::string::StrSliceExecFns;
use vstd::string::StringExecFns;

verus! {

/// The characters that separate words: the Unicode `White_Space` code points.
pub open spec fn is_whitespace(c: char) -> bool {
    ||| '\u{9}' <= c <= '\u{d}'
    ||| c == ' '
    ||| c == '\u{85}'
    ||| c == '\u{a0}'
    ||| c == '\u{1680}'
    ||| '\u{2000}' <= c <= '\u{200a}'
    ||| c == '\u{2028}'
    ||| c == '\u{2029}'
    ||| c == '\u{202f}'
    ||| c == '\u{205f}'
    ||| c == '\u{3000}'
}

/// A text without any whitespace character in it.
pub open spec fn has_no_whitespace(s: Seq<char>) -> bool {
    forall|i: int| 0 <= i < s.len() ==> !is_whitespace(#[trigger] s[i])
}

/// The views of a sequence of strings, one per string, in order.
pub open spec fn texts(v: Seq<String>) -> Seq<Seq<char>> {
    Seq::new(v.len(), |i: int| v[i]@)
}

/// The first position at or after `start` that does not hold whitespace,
/// or the length of `s` when there is none.
pub open spec fn skip_whitespace(s: Seq<char>, start: int) -> int
    decreases s.len() - start,
{
    if 0 <= start < s.len() && is_whitespace(s[start]) {
        skip_whitespace(s, start + 1)
    } else {
        start
    }
}

/// The first position at or after `start` that holds whitespace, or the
/// length of `s` when there is none: where the word that starts at `start` ends.
pub open spec fn word_end(s: Seq<char>, start: int) -> int
    decreases s.len() - start,
{
    if 0 <= start < s.len() && !is_whitespace(s[start]) {
        word_end(s, start + 1)
    } else {
        start
    }
}

/// The position just behind the last non-whitespace character before `end`,
/// or 0 when there is none.
pub open spec fn content_end(s: Seq<char>, end: int) -> int
    decreases end,
{
    if 0 < end <= s.len() && is_whitespace(s[end - 1]) {
        content_end(s, end - 1)
    } else {
        end
    }
}

/// `s` without its leading and trailing whitespace.
pub open spec fn trimmed(s: Seq<char>) -> Seq<char> {
    let from = skip_whitespace(s, 0);
    let to = content_end(s, s.len() as int);
    if from < to {
        s.subrange(from, to)
    } else {
        Seq::empty()
    }
}

/// The words of `s` that start at or after position `from`: the maximal runs
/// of non-whitespace characters, in the order in which they occur.
pub open spec fn words_from(s: Seq<char>, from: int) -> Seq<Seq<char>>
    decreases s.len() - from,
    via words_from_decreases
{
    if from < 0 || from >= s.len() {
        Seq::empty()
    } else if is_whitespace(s[from]) {
        words_from(s, from + 1)
    } else {
        seq![s.subrange(from, word_end(s, from))] + words_from(s, word_end(s, from))
    }
}

#[via_fn]
proof fn words_from_decreases(s: Seq<char>, from: int) {
    if 0 <= from < s.len() && !is_whitespace(s[from]) {
        lemma_word_end_bounds(s, from + 1);
    }
}

/// The whitespace-separated words of `s`.
pub open spec fn words_of(s: Seq<char>) -> Seq<Seq<char>> {
    words_from(s, 0)
}

/// The character that stands for the digit `d`.
pub open spec fn digit_char(d: int) -> char {
    if d == 0 {
        '0'
    } else if d == 1 {
        '1'
    } else if d == 2 {
        '2'
    } else if d == 3 {
        '3'
    } else if d == 4 {
        '4'
    } else if d == 5 {
        '5'
    } else if d == 6 {
        '6'
    } else if d == 7 {
        '7'
    } else if d == 8 {
        '8'
    } else {
        '9'
    }
}

/// The decimal numeral of `n`, most significant digit first, without padding.
pub open spec fn decimal(n: nat) -> Seq<char>
    decreases n,
{
    if n < 10 {
        seq![digit_char(n as int)]
    } else {
        decimal(n / 10).push(digit_char((n % 10) as int))
    }
}

/// `word_end` stays within the text and never moves backwards.
pub proof fn lemma_word_end_bounds(s: Seq<char>, start: int)
    requires
        0 <= start <= s.len(),
    ensures
        start <= word_end(s, start) <= s.len(),
        forall|i: int| start <= i < word_end(s, start) ==> !is_whitespace(#[trigger] s[i]),
        word_end(s, start) < s.len() ==> is_whitespace(s[word_end(s, start)]),
    decreases s.len() - start,
{
    if start < s.len() && !is_whitespace(s[start]) {
        lemma_word_end_bounds(s, start + 1);
    }
}

/// `skip_whitespace` stays within the text and passes over whitespace only.
pub proof fn lemma_skip_whitespace_bounds(s: Seq<char>, start: int)
    requires
        0 <= start <= s.len(),
    ensures
        start <= skip_whitespace(s, start) <= s.len(),
        forall|i: int| start <= i < skip_whitespace(s, start) ==> is_whitespace(#[trigger] s[i]),
        skip_whitespace(s, start) < s.len() ==> !is_whitespace(s[skip_whitespace(s, start)]),
    decreases s.len() - start,
{
    if start < s.len() && is_whitespace(s[start]) {
        lemma_skip_whitespace_bounds(s, start + 1);
    }
}

/// `content_end` stays within the text and passes over whitespace only.
pub proof fn lemma_content_end_bounds(s: Seq<char>, end: int)
    requires
        0 <= end <= s.len(),
    ensures
        0 <= content_end(s, end) <= end,
        forall|i: int| content_end(s, end) <= i < end ==> is_whitespace(#[trigger] s[i]),
        content_end(s, end) > 0 ==> !is_whitespace(s[content_end(s, end) - 1]),
    decreases end,
{
    if 0 < end && is_whitespace(s[end - 1]) {
        lemma_content_end_bounds(s, end - 1);
    }
}

/// Every word is non-empty and holds no whitespace.
pub proof fn lemma_words_are_words(s: Seq<char>, from: int)
    requires
        0 <= from <= s.len(),
    ensures
        forall|k: int|
            0 <= k < words_from(s, from).len() ==> {
                let word = #[trigger] words_from(s, from)[k];
                word.len() > 0 && has_no_whitespace(word)
            },
    decreases s.len() - from,
{
    let words = words_from(s, from);
    if from < s.len() {
        if is_whitespace(s[from]) {
            lemma_words_are_words(s, from + 1);
            assert(words == words_from(s, from + 1));
        } else {
            let end = word_end(s, from);
            lemma_word_end_bounds(s, from);
            lemma_word_end_bounds(s, from + 1);
            lemma_words_are_words(s, end);
            let first = s.subrange(from, end);
            let rest = words_from(s, end);
            assert(words == seq![first] + rest);
            assert forall|i: int| 0 <= i < first.len() implies !is_whitespace(
                #[trigger] first[i],
            ) by {
                assert(first[i] == s[from + i]);
            }
            assert forall|k: int| 0 <= k < words.len() implies {
                let word = #[trigger] words[k];
                word.len() > 0 && has_no_whitespace(word)
            } by {
                if k > 0 {
                    assert(words[k] == rest[k - 1]);
                } else {
                    assert(words[k] == first);
                }
            }
        }
    }
}

/// Where two texts agree up to a position that holds whitespace in the
/// first and is the end of the second, a word of the second ends where the
/// same word of the first ends.
pub proof fn lemma_word_end_of_prefix(s: Seq<char>, p: Seq<char>, start: int)
    requires
        0 <= start <= p.len() < s.len(),
        s.subrange(0, p.len() as int) == p,
        is_whitespace(s[p.len() as int]),
    ensures
        word_end(s, start) == word_end(p, start),
    decreases p.len() - start,
{
    if start < p.len() {
        assert(s[start] == s.subrange(0, p.len() as int)[start]);
        if !is_whitespace(s[start]) {
            lemma_word_end_of_prefix(s, p, start + 1);
        }
    }
}

/// A word that is appended to a text behind a single space is its last word:
/// the words before it stay as they are.
pub proof fn lemma_words_of_appended_word(line: Seq<char>, word: Seq<char>, from: int)
    requires
        0 <= from <= line.len(),
        word.len() > 0,
        has_no_whitespace(word),
    ensures
        words_from(line + seq![' '] + word, from) == words_from(line, from).push(word),
    decreases line.len() - from,
{
    let s = line + seq![' '] + word;
    let n = line.len() as int;
    assert(s.subrange(0, n) =~= line);
    assert(s[n] == ' ');
    if from == n {
        assert forall|i: int| n + 1 <= i < s.len() implies !is_whitespace(#[trigger] s[i]) by {
            assert(s[i] == word[i - n - 1]);
        }
        lemma_word_end_bounds(s, n + 1);
        let end = word_end(s, n + 1);
        if end < s.len() {
            assert(!is_whitespace(s[end]));
        }
        assert(s.subrange(n + 1, end) =~= word);
        assert(words_from(s, end) =~= Seq::<Seq<char>>::empty());
        assert(words_from(s, n + 1) =~= seq![word]);
        assert(words_from(s, n) == words_from(s, n + 1));
        assert(words_from(line, n) =~= Seq::<Seq<char>>::empty());
        assert(words_from(s, from) =~= words_from(line, from).push(word));
    } else {
        assert(s[from] == line[from]);
        if is_whitespace(line[from]) {
            lemma_words_of_appended_word(line, word, from + 1);
        } else {
            lemma_word_end_of_prefix(s, line, from);
            lemma_word_end_bounds(line, from);
            lemma_word_end_bounds(line, from + 1);
            let end = word_end(line, from);
            lemma_words_of_appended_word(line, word, end);
            assert(s.subrange(from, end) =~= line.subrange(from, end));
            assert(words_from(s, from) == seq![s.subrange(from, end)] + words_from(s, end));
            assert(words_from(line, from) == seq![line.subrange(from, end)] + words_from(
                line,
                end,
            ));
            assert(words_from(s, from) =~= words_from(line, from).push(word));
        }
    }
}

/// A text that begins with a non-whitespace character has a first word, which
/// begins the text.
pub proof fn lemma_first_word(s: Seq<char>)
    requires
        s.len() > 0,
        !is_whitespace(s[0]),
    ensures
        words_of(s).len() > 0,
        words_of(s)[0] == s.subrange(0, word_end(s, 0)),
        0 < word_end(s, 0) <= s.len(),
{
    lemma_word_end_bounds(s, 1);
}

/// What is left of a text after trimming is either empty or begins and ends
/// with a non-whitespace character, and so holds at least one word.
pub proof fn lemma_trimmed_ends(s: Seq<char>)
    ensures
        trimmed(s).len() > 0 ==> {
            &&& !is_whitespace(trimmed(s)[0])
            &&& !is_whitespace(trimmed(s).last())
            &&& words_of(trimmed(s)).len() > 0
        },
{
    lemma_skip_whitespace_bounds(s, 0);
    lemma_content_end_bounds(s, s.len() as int);
    if trimmed(s).len() > 0 {
        lemma_first_word(trimmed(s));
    }
}

/// A text without whitespace that is not empty is one word.
pub proof fn lemma_single_word(s: Seq<char>)
    requires
        s.len() > 0,
        has_no_whitespace(s),
    ensures
        words_of(s) == seq![s],
{
    lemma_word_end_bounds(s, 0);
    let end = word_end(s, 0);
    if end < s.len() {
        assert(!is_whitespace(s[end]));
    }
    assert(s.subrange(0, end) =~= s);
    assert(words_from(s, end) =~= Seq::<Seq<char>>::empty());
    assert(words_of(s) =~= seq![s]);
}

/// Tells whether `c` separates words.
pub fn char_is_whitespace(c: char) -> (b: bool)
    ensures
        b == is_whitespace(c),
{
    ('\u{9}' <= c && c <= '\u{d}') || c == ' ' || c == '\u{85}' || c == '\u{a0}' || c
        == '\u{1680}' || ('\u{2000}' <= c && c <= '\u{200a}') || c == '\u{2028}' || c
        == '\u{2029}' || c == '\u{202f}' || c == '\u{205f}' || c == '\u{3000}'
}

/// The characters of `s`, in order.
pub fn to_chars(s: &str) -> (chars: Vec<char>)
    ensures
        chars@ == s@,
{
    let mut chars: Vec<char> = Vec::new();
    for c in it: s.chars()
        invariant
            it.seq() == s@,
            chars@ == it.seq().subrange(0, it.index()),
    {
        chars.push(c);
    }
    assert(chars@ =~= s@);
    chars
}

/// Removes leading and trailing whitespace.
pub fn trim(s: &str) -> (t: &str)
    ensures
        t@ == trimmed(s@),
{
    let chars = to_chars(s);
    let n = chars.len();
    let mut from: usize = 0;
    while from < n && char_is_whitespace(chars[from])
        invariant
            chars@ == s@,
            n == chars.len(),
            from <= n,
            skip_whitespace(s@, 0) == skip_whitespace(s@, from as int),
        decreases n - from,
    {
        from += 1;
    }
    let mut to: usize = n;
    while to > 0 && char_is_whitespace(chars[to - 1])
        invariant
            chars@ == s@,
            n == chars.len(),
            to <= n,
            content_end(s@, n as int) == content_end(s@, to as int),
        decreases to,
    {
        to -= 1;
    }
    if from < to {
        s.substring_char(from, to)
    } else {
        let t = s.substring_char(0, 0);
        assert(t@ =~= Seq::<char>::empty());
        t
    }
}

/// Splits `s` into its whitespace-separated words.
pub fn split_words(s: &str) -> (words: Vec<String>)
    ensures
        texts(words@) == words_of(s@),
{
    let chars = to_chars(s);
    let n = chars.len();
    let mut words: Vec<String> = Vec::new();
    let mut i: usize = 0;
    assert(texts(words@) + words_from(s@, 0) =~= words_of(s@));
    while i < n
        invariant
            chars@ == s@,
            n == chars.len(),
            i <= n,
            texts(words@) + words_from(s@, i as int) == words_of(s@),
        decreases n - i,
    {
        if char_is_whitespace(chars[i]) {
            i += 1;
        } else {
            let start = i;
            while i < n && !char_is_whitespace(chars[i])
                invariant
                    chars@ == s@,
                    n == chars.len(),
                    start <= i <= n,
                    word_end(s@, start as int) == word_end(s@, i as int),
                decreases n - i,
            {
                i += 1;
            }
            let word = s.substring_char(start, i).to_owned();
            let ghost before = texts(words@);
            words.push(word);
            assert(texts(words@) =~= before.push(s@.subrange(start as int, i as int)));
            assert(texts(words@) + words_from(s@, i as int) =~= before + words_from(
                s@,
                start as int,
            ));
        }
    }
    assert(texts(words@) + words_from(s@, n as int) =~= texts(words@));
    words
}

/// The one-character string of a decimal digit.
fn digit_str(d: u8) -> (s: &'static str)
    requires
        d < 10,
    ensures
        s@ == seq![digit_char(d as int)],
{
    proof {
        reveal_strlit("0");
        reveal_strlit("1");
        reveal_strlit("2");
        reveal_strlit("3");
        reveal_strlit("4");
        reveal_strlit("5");
        reveal_strlit("6");
        reveal_strlit("7");
        reveal_strlit("8");
        reveal_strlit("9");
    }
    let s = if d == 0 {
        "0"
    } else if d == 1 {
        "1"
    } else if d == 2 {
        "2"
    } else if d == 3 {
        "3"
    } else if d == 4 {
        "4"
    } else if d == 5 {
        "5"
    } else if d == 6 {
        "6"
    } else if d == 7 {
        "7"
    } else if d == 8 {
        "8"
    } else {
        "9"
    };
    assert(s@ =~= seq![digit_char(d as int)]);
    s
}

/// Renders `n` in decimal.
pub fn decimal_string(n: u64) -> (s: String)
    ensures
        s@ == decimal(n as nat),
    decreases n,
{
    if n < 10 {
        String::from_str(digit_str(n as u8))
    } else {
        let mut s = decimal_string(n / 10);
        s.append(digit_str((n % 10) as u8));
        assert(s@ =~= decimal((n / 10) as nat).push(digit_char((n % 10) as int)));
        s
    }
}

} // verus!
