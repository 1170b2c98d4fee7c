//! The bounded log of display lines: oldest first, newest last, and never
//! longer than its capacity.

use crate::text::{texts, words_of};
use crate::wrap::{wrap_message, wrapped};
use std::collections::VecDeque;
use vstd::prelude::*;

verus! {

/// The newest `capacity` items of `items`, or all of them when there are fewer.
pub open spec fn retain_newest<T>(items: Seq<T>, capacity: nat) -> Seq<T> {
    if items.len() <= capacity {
        items
    } else {
        items.skip(items.len() - capacity)
    }
}

/// How many lines leave a buffer that holds `len` of `capacity` lines when
/// `added` lines are appended one by one: those that find no free slot.
pub open spec fn evicted_count(len: nat, added: nat, capacity: nat) -> nat {
    let free = capacity - len;
    if added > free {
        (added - free) as nat
    } else {
        0
    }
}

/// The lines of a buffer after `msg` has been wrapped and appended to `lines`.
pub open spec fn appended(
    lines: Seq<Seq<char>>,
    msg: Seq<char>,
    max_lines: nat,
    max_chars: nat,
) -> Seq<Seq<char>> {
    retain_newest(lines + wrapped(msg, max_chars), max_lines)
}

/// What a `LogBuffer` stands for: its lines, oldest first, and its two limits.
pub struct LogBufferView {
    pub lines: Seq<Seq<char>>,
    pub max_lines: nat,
    pub max_chars: nat,
}

impl LogBufferView {
    /// The buffer holds no more lines than its capacity.
    pub open spec fn wf(self) -> bool {
        self.lines.len() <= self.max_lines
    }
}

/// A bounded sequence of display lines with first-in, first-out eviction.
pub struct LogBuffer {
    lines: VecDeque<String>,
    max_lines: usize,
    max_chars: usize,
}

impl View for LogBuffer {
    type V = LogBufferView;

    closed spec fn view(&self) -> LogBufferView {
        LogBufferView {
            lines: texts(self.lines@),
            max_lines: self.max_lines as nat,
            max_chars: self.max_chars as nat,
        }
    }
}

impl LogBuffer {
    /// An empty buffer for at most `max_lines` lines of at most `max_chars`
    /// characters each.
    pub fn new(max_lines: usize, max_chars: usize) -> (buffer: Self)
        ensures
            buffer@.lines == Seq::<Seq<char>>::empty(),
            buffer@.max_lines == max_lines,
            buffer@.max_chars == max_chars,
            buffer@.wf(),
    {
        let buffer = LogBuffer { lines: VecDeque::with_capacity(max_lines), max_lines, max_chars };
        assert(buffer@.lines =~= Seq::<Seq<char>>::empty());
        buffer
    }

    /// The number of lines held.
    pub fn len(&self) -> (n: usize)
        ensures
            n == self@.lines.len(),
    {
        self.lines.len()
    }

    /// Whether no line is held.
    pub fn is_empty(&self) -> (b: bool)
        ensures
            b == (self@.lines.len() == 0),
    {
        self.lines.len() == 0
    }

    /// The largest number of lines that the buffer holds.
    pub fn max_lines(&self) -> (n: usize)
        ensures
            n == self@.max_lines,
    {
        self.max_lines
    }

    /// The width that wrapped lines are held to.
    pub fn max_chars(&self) -> (n: usize)
        ensures
            n == self@.max_chars,
    {
        self.max_chars
    }

    /// The line at `index`, counted from the oldest.
    pub fn line(&self, index: usize) -> (line: Option<&String>)
        ensures
            index < self@.lines.len() ==> line.is_some() && line.unwrap()@ == self@.lines[
                index as int
            ],
            index >= self@.lines.len() ==> line.is_none(),
    {
        if index < self.lines.len() {
            Some(&self.lines[index])
        } else {
            None
        }
    }

    /// A copy of the lines, oldest first.
    pub fn snapshot(&self) -> (lines: Vec<String>)
        ensures
            texts(lines@) == self@.lines,
    {
        let mut out: Vec<String> = Vec::new();
        let n = self.lines.len();
        let mut i: usize = 0;
        while i < n
            invariant
                i <= n,
                n == self.lines@.len(),
                texts(out@) == texts(self.lines@).take(i as int),
            decreases n - i,
        {
            let ghost before = texts(out@);
            let line = self.lines[i].clone();
            out.push(line);
            assert(texts(out@) =~= before.push(self.lines@[i as int]@));
            assert(texts(out@) =~= texts(self.lines@).take(i + 1));
            i += 1;
        }
        assert(texts(out@) =~= texts(self.lines@));
        out
    }

    /// Appends `line` at the tail; a full buffer gives up its oldest line for it.
    pub fn push_evicting(&mut self, line: String)
        requires
            old(self)@.wf(),
        ensures
            final(self)@.lines == retain_newest(
                old(self)@.lines.push(line@),
                old(self)@.max_lines,
            ),
            final(self)@.max_lines == old(self)@.max_lines,
            final(self)@.max_chars == old(self)@.max_chars,
            final(self)@.wf(),
    {
        self.lines.push_back(line);
        if self.lines.len() > self.max_lines {
            self.lines.pop_front();
        }
        assert(self@.lines =~= retain_newest(old(self)@.lines.push(line@), old(self)@.max_lines));
    }

    /// Wraps `raw` to the buffer's width and appends the lines one by one, each
    /// evicting the oldest line where the buffer is full.
    pub fn append_message(&mut self, raw: &str)
        requires
            old(self)@.wf(),
        ensures
            final(self)@.lines == appended(
                old(self)@.lines,
                raw@,
                old(self)@.max_lines,
                old(self)@.max_chars,
            ),
            final(self)@.lines == (old(self)@.lines + wrapped(raw@, old(self)@.max_chars)).skip(
                evicted_count(
                    old(self)@.lines.len(),
                    wrapped(raw@, old(self)@.max_chars).len(),
                    old(self)@.max_lines,
                ) as int,
            ),
            final(self)@.max_lines == old(self)@.max_lines,
            final(self)@.max_chars == old(self)@.max_chars,
            final(self)@.wf(),
    {
        proof {
            lemma_append_evicts_oldest(
                self@.lines,
                raw@,
                self@.max_lines,
                self@.max_chars,
            );
        }
        let fresh = wrap_message(raw, self.max_chars);
        let n = fresh.len();
        let ghost new_lines = texts(fresh@);
        let ghost start = self@.lines;
        let mut i: usize = 0;
        assert(new_lines.take(0) =~= Seq::<Seq<char>>::empty());
        assert(start + new_lines.take(0) =~= start);
        while i < n
            invariant
                i <= n,
                n == fresh.len(),
                new_lines == texts(fresh@),
                self@.max_lines == old(self)@.max_lines,
                self@.max_chars == old(self)@.max_chars,
                self@.wf(),
                self@.lines == retain_newest(start + new_lines.take(i as int), self@.max_lines),
            decreases n - i,
        {
            let line = fresh[i].clone();
            self.push_evicting(line);
            proof {
                assert(new_lines.take(i + 1) =~= new_lines.take(i as int).push(new_lines[i as int]));
                lemma_retain_newest_push(
                    start + new_lines.take(i as int),
                    new_lines[i as int],
                    self@.max_lines,
                );
                assert((start + new_lines.take(i as int)).push(new_lines[i as int]) =~= start
                    + new_lines.take(i + 1));
            }
            i += 1;
        }
        assert(new_lines.take(n as int) =~= new_lines);
    }

    /// Drops every line.
    pub fn clear(&mut self)
        ensures
            final(self)@.lines == Seq::<Seq<char>>::empty(),
            final(self)@.max_lines == old(self)@.max_lines,
            final(self)@.max_chars == old(self)@.max_chars,
            final(self)@.wf(),
    {
        self.lines.clear();
        assert(self@.lines =~= Seq::<Seq<char>>::empty());
    }
}

/// Evicting after every push leaves what one eviction at the end would leave.
pub proof fn lemma_retain_newest_push<T>(items: Seq<T>, item: T, capacity: nat)
    ensures
        retain_newest(retain_newest(items, capacity).push(item), capacity) == retain_newest(
            items.push(item),
            capacity,
        ),
{
    assert(retain_newest(retain_newest(items, capacity).push(item), capacity) =~= retain_newest(
        items.push(item),
        capacity,
    ));
}

/// Appending a message to a buffer evicts as many lines as find no free slot,
/// oldest first: what stays is what the old lines and the new lines, in this
/// order, leave after that many have been taken from the front.
pub proof fn lemma_append_evicts_oldest(
    lines: Seq<Seq<char>>,
    msg: Seq<char>,
    max_lines: nat,
    max_chars: nat,
)
    requires
        lines.len() <= max_lines,
    ensures
        ({
            let added = wrapped(msg, max_chars);
            let evicted = evicted_count(lines.len(), added.len(), max_lines);
            let after = appended(lines, msg, max_lines, max_chars);
            &&& evicted <= lines.len() + added.len()
            &&& after == (lines + added).skip(evicted as int)
            &&& after.len() == lines.len() + added.len() - evicted
            &&& after.len() <= max_lines
        }),
{
    let added = wrapped(msg, max_chars);
    let evicted = evicted_count(lines.len(), added.len(), max_lines);
    let after = appended(lines, msg, max_lines, max_chars);
    assert(after =~= (lines + added).skip(evicted as int));
}

/// A message without words leaves the buffer as it is: no line comes and
/// none goes.
pub proof fn lemma_empty_message_adds_nothing(
    lines: Seq<Seq<char>>,
    msg: Seq<char>,
    max_lines: nat,
    max_chars: nat,
)
    requires
        lines.len() <= max_lines,
        words_of(msg).len() == 0,
    ensures
        wrapped(msg, max_chars) == Seq::<Seq<char>>::empty(),
        appended(lines, msg, max_lines, max_chars) == lines,
{
    assert(lines + wrapped(msg, max_chars) =~= lines);
}

} // verus!
