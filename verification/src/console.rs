//! The state that the input side and the render side of the console share:
//! the log and the flag that says that the log has changed since the last paint.
//!
//! The type holds no lock of its own. Whoever shares it between threads wraps it
//! in one mutual-exclusion lock and calls each method in a critical section of
//! its own; every method is short and does no I/O.

use crate::log_buffer::{appended, LogBuffer};
use crate::text::texts;
use vstd::prelude::*;

verus! {

/// The number of lines that the console keeps.
pub const MAX_LINES: usize = 18;

/// The width of the display, in pixels.
pub const DISPLAY_WIDTH: u16 = 240;

/// The width of one character cell of the console font, in pixels.
pub const FONT_CELL_WIDTH: u16 = 6;

/// The character cells of each row that are left free.
pub const MARGIN_CELLS: usize = 2;

/// The characters that fit on a row of `display_width` pixels in cells of
/// `cell_width` pixels, less the margin.
pub open spec fn row_capacity(display_width: nat, cell_width: nat) -> nat {
    if display_width / cell_width >= MARGIN_CELLS {
        (display_width / cell_width - MARGIN_CELLS) as nat
    } else {
        0
    }
}

/// The width to wrap at on a display of `display_width` pixels with a font whose
/// cells are `cell_width` pixels wide.
pub fn max_chars_for(display_width: u16, cell_width: u16) -> (max_chars: usize)
    requires
        cell_width > 0,
    ensures
        max_chars == row_capacity(display_width as nat, cell_width as nat),
{
    let cells = (display_width / cell_width) as usize;
    if cells >= MARGIN_CELLS {
        cells - MARGIN_CELLS
    } else {
        0
    }
}

/// What a `SharedConsoleState` stands for.
pub struct ConsoleView {
    /// The lines of the log, oldest first.
    pub lines: Seq<Seq<char>>,
    /// The capacity of the log.
    pub max_lines: nat,
    /// The width that messages are wrapped to.
    pub max_chars: nat,
    /// Whether the log has changed since the render side last asked.
    pub redraw_pending: bool,
}

impl ConsoleView {
    /// The log holds no more lines than its capacity.
    pub open spec fn wf(self) -> bool {
        self.lines.len() <= self.max_lines
    }

    /// The state after `msg` has been added: the message is wrapped and
    /// appended, the oldest lines make room, and a redraw is pending.
    pub open spec fn add_message(self, msg: Seq<char>) -> ConsoleView {
        ConsoleView {
            lines: appended(self.lines, msg, self.max_lines, self.max_chars),
            redraw_pending: true,
            ..self
        }
    }

    /// The state after each of `msgs` has been added, in order.
    pub open spec fn add_messages(self, msgs: Seq<Seq<char>>) -> ConsoleView
        decreases msgs.len(),
    {
        if msgs.len() == 0 {
            self
        } else {
            self.add_message(msgs[0]).add_messages(msgs.drop_first())
        }
    }

    /// The state after the log has been emptied; a redraw is pending.
    pub open spec fn clear(self) -> ConsoleView {
        ConsoleView { lines: Seq::empty(), redraw_pending: true, ..self }
    }

    /// The state after the render side has asked for the flag.
    pub open spec fn polled(self) -> ConsoleView {
        ConsoleView { redraw_pending: false, ..self }
    }

    /// The state after `event`.
    pub open spec fn after(self, event: ConsoleEvent) -> ConsoleView {
        match event {
            ConsoleEvent::Add { msg } => self.add_message(msg),
            ConsoleEvent::Clear => self.clear(),
            ConsoleEvent::Poll => self.polled(),
        }
    }

    /// The state after each of `events`, in order.
    pub open spec fn after_all(self, events: Seq<ConsoleEvent>) -> ConsoleView
        decreases events.len(),
    {
        if events.len() == 0 {
            self
        } else {
            self.after_all(events.drop_last()).after(events.last())
        }
    }
}

/// What can happen to the console state, from either side.
pub enum ConsoleEvent {
    /// The input side adds a message.
    Add { msg: Seq<char> },
    /// The input side empties the log.
    Clear,
    /// The render side reads the redraw flag and clears it.
    Poll,
}

impl ConsoleEvent {
    /// Whether the event changes the log.
    pub open spec fn is_mutation(self) -> bool {
        self !is Poll
    }
}

/// What the poll at position `at` of `events` observes: the redraw flag after
/// the events before it.
pub open spec fn observed_at(start: ConsoleView, events: Seq<ConsoleEvent>, at: int) -> bool {
    start.after_all(events.take(at)).redraw_pending
}

/// The log and the redraw flag of the console.
pub struct SharedConsoleState {
    log: LogBuffer,
    redraw_pending: bool,
}

impl View for SharedConsoleState {
    type V = ConsoleView;

    closed spec fn view(&self) -> ConsoleView {
        ConsoleView {
            lines: self.log@.lines,
            max_lines: self.log@.max_lines,
            max_chars: self.log@.max_chars,
            redraw_pending: self.redraw_pending,
        }
    }
}

impl SharedConsoleState {
    /// The console state at start-up: an empty log with the limits of the
    /// built-in display, and a redraw pending so that the first poll paints.
    pub fn new() -> (state: Self)
        ensures
            state@.lines == Seq::<Seq<char>>::empty(),
            state@.max_lines == MAX_LINES,
            state@.max_chars == 38,
            state@.redraw_pending,
            state@.wf(),
    {
        Self::with_limits(MAX_LINES, max_chars_for(DISPLAY_WIDTH, FONT_CELL_WIDTH))
    }

    /// An empty console state that keeps `max_lines` lines of `max_chars`
    /// characters, with a redraw pending.
    pub fn with_limits(max_lines: usize, max_chars: usize) -> (state: Self)
        ensures
            state@.lines == Seq::<Seq<char>>::empty(),
            state@.max_lines == max_lines,
            state@.max_chars == max_chars,
            state@.redraw_pending,
            state@.wf(),
    {
        SharedConsoleState { log: LogBuffer::new(max_lines, max_chars), redraw_pending: true }
    }

    /// Wraps `msg`, appends its lines to the log and marks a redraw as pending.
    pub fn add_message(&mut self, msg: String)
        requires
            old(self)@.wf(),
        ensures
            final(self)@ == old(self)@.add_message(msg@),
            final(self)@.redraw_pending,
            final(self)@.wf(),
    {
        self.log.append_message(msg.as_str());
        self.redraw_pending = true;
    }

    /// Empties the log and marks a redraw as pending.
    pub fn clear(&mut self)
        ensures
            final(self)@ == old(self)@.clear(),
            final(self)@.wf(),
    {
        self.log.clear();
        self.redraw_pending = true;
    }

    /// Reads the redraw flag and clears it, in one step.
    pub fn take_redraw(&mut self) -> (pending: bool)
        ensures
            pending == old(self)@.redraw_pending,
            final(self)@ == old(self)@.polled(),
    {
        let pending = self.redraw_pending;
        self.redraw_pending = false;
        pending
    }

    /// Whether a redraw is pending.
    pub fn redraw_pending(&self) -> (pending: bool)
        ensures
            pending == self@.redraw_pending,
    {
        self.redraw_pending
    }

    /// The number of lines in the log.
    pub fn len(&self) -> (n: usize)
        ensures
            n == self@.lines.len(),
    {
        self.log.len()
    }

    /// The capacity of the log.
    pub fn max_lines(&self) -> (n: usize)
        ensures
            n == self@.max_lines,
    {
        self.log.max_lines()
    }

    /// The width that messages are wrapped to.
    pub fn max_chars(&self) -> (n: usize)
        ensures
            n == self@.max_chars,
    {
        self.log.max_chars()
    }

    /// A copy of the lines of the log, oldest first, for painting outside the
    /// critical section.
    pub fn snapshot(&self) -> (lines: Vec<String>)
        ensures
            texts(lines@) == self@.lines,
    {
        self.log.snapshot()
    }
}

/// Whatever messages are added to a console state, in whatever number, its
/// log never holds more lines than its capacity, and the limits stay as they are.
pub proof fn lemma_log_within_capacity(state: ConsoleView, msgs: Seq<Seq<char>>)
    requires
        state.wf(),
    ensures
        state.add_messages(msgs).wf(),
        state.add_messages(msgs).lines.len() <= state.max_lines,
        state.add_messages(msgs).max_lines == state.max_lines,
        state.add_messages(msgs).max_chars == state.max_chars,
    decreases msgs.len(),
{
    if msgs.len() > 0 {
        lemma_log_within_capacity(state.add_message(msgs[0]), msgs.drop_first());
    }
}

/// Whatever happens to a console state, from either side and in whatever
/// order, its log never holds more lines than its capacity.
pub proof fn lemma_events_keep_capacity(state: ConsoleView, events: Seq<ConsoleEvent>)
    requires
        state.wf(),
    ensures
        state.after_all(events).wf(),
        state.after_all(events).max_lines == state.max_lines,
        state.after_all(events).max_chars == state.max_chars,
    decreases events.len(),
{
    if events.len() > 0 {
        lemma_events_keep_capacity(state, events.drop_last());
    }
}

/// No redraw is lost. After a change of the log, the first poll that follows
/// observes the flag as set, however many other changes lie between the two.
pub proof fn lemma_redraw_not_lost(
    start: ConsoleView,
    events: Seq<ConsoleEvent>,
    change: int,
    poll: int,
)
    requires
        0 <= change < poll < events.len(),
        events[change].is_mutation(),
        events[poll] is Poll,
        forall|k: int| change < k < poll ==> (#[trigger] events[k]).is_mutation(),
    ensures
        observed_at(start, events, poll),
{
    let before = events.take(poll);
    assert(before.last() == events[poll - 1]);
    assert(before.drop_last() =~= events.take(poll - 1));
    assert(before.last().is_mutation());
}

} // verus!
