//! The decisions of the two workers of the console. The input worker reads
//! lines and has them dispatched; the render worker polls the redraw flag and
//! repaints. Reading, painting and sleeping are done by whoever drives them.

use crate::text::{trim, trimmed};
use vstd::prelude::*;

verus! {

/// The states of the input worker.
#[derive(Clone, Copy, Debug, PartialEq, Eq, Structural)]
pub enum InputState {
    /// Blocked on the input stream.
    WaitingForLine,
    /// A line has been read and is being dispatched.
    ProcessingLine,
    /// The stream is closed or has failed; nothing more is read.
    Stopped,
}

/// What the input worker does with what it has read.
#[derive(Clone, Debug, PartialEq, Eq)]
pub enum InputAction {
    /// Leave the loop.
    Stop,
    /// Drop the line and read the next one.
    Discard,
    /// Dispatch `line`, the input without leading and trailing whitespace.
    Dispatch { line: String },
}

/// What an `InputAction` stands for.
pub enum InputActionView {
    Stop,
    Discard,
    Dispatch { line: Seq<char> },
}

impl View for InputAction {
    type V = InputActionView;

    open spec fn view(&self) -> InputActionView {
        match *self {
            InputAction::Stop => InputActionView::Stop,
            InputAction::Discard => InputActionView::Discard,
            InputAction::Dispatch { line } => InputActionView::Dispatch { line: line@ },
        }
    }
}

/// What follows from a read that returned `text` and `bytes_read`: no bytes
/// mean that the stream is closed; a line that trims to nothing is dropped;
/// any other line is dispatched, trimmed.
pub open spec fn read_action(text: Seq<char>, bytes_read: nat) -> InputActionView {
    if bytes_read == 0 {
        InputActionView::Stop
    } else if trimmed(text).len() == 0 {
        InputActionView::Discard
    } else {
        InputActionView::Dispatch { line: trimmed(text) }
    }
}

/// The state of the input worker after it has decided on `action`.
pub open spec fn state_after(action: InputActionView) -> InputState {
    match action {
        InputActionView::Stop => InputState::Stopped,
        InputActionView::Discard => InputState::WaitingForLine,
        InputActionView::Dispatch { .. } => InputState::ProcessingLine,
    }
}

/// The input worker: it waits for a line, has it processed, and waits again,
/// until the stream ends.
pub struct InputWorker {
    state: InputState,
}

impl InputWorker {
    /// The state that the worker is in.
    pub closed spec fn spec_state(&self) -> InputState {
        self.state
    }

    /// A worker that waits for its first line.
    pub fn new() -> (worker: Self)
        ensures
            worker.spec_state() == InputState::WaitingForLine,
    {
        InputWorker { state: InputState::WaitingForLine }
    }

    /// The state that the worker is in.
    pub fn state(&self) -> (state: InputState)
        ensures
            state == self.spec_state(),
    {
        self.state
    }

    /// Takes the outcome of a read: the text that was read and the number of
    /// bytes that the stream returned for it.
    pub fn on_read(&mut self, text: &str, bytes_read: usize) -> (action: InputAction)
        requires
            old(self).spec_state() == InputState::WaitingForLine,
        ensures
            action@ == read_action(text@, bytes_read as nat),
            final(self).spec_state() == state_after(action@),
    {
        if bytes_read == 0 {
            self.state = InputState::Stopped;
            return InputAction::Stop;
        }
        let input = trim(text);
        if input.is_empty() {
            InputAction::Discard
        } else {
            self.state = InputState::ProcessingLine;
            InputAction::Dispatch { line: input.to_owned() }
        }
    }

    /// Takes a failed read: the worker stops, as on a closed stream.
    pub fn on_fault(&mut self)
        ensures
            final(self).spec_state() == InputState::Stopped,
    {
        self.state = InputState::Stopped;
    }

    /// Takes the end of a dispatch: the worker waits for the next line.
    pub fn on_dispatched(&mut self)
        requires
            old(self).spec_state() == InputState::ProcessingLine,
        ensures
            final(self).spec_state() == InputState::WaitingForLine,
    {
        self.state = InputState::WaitingForLine;
    }
}

/// The states of the render worker.
#[derive(Clone, Copy, Debug, PartialEq, Eq, Structural)]
pub enum RenderState {
    /// Between two ticks.
    Idle,
    /// A repaint is under way.
    Painting,
    /// A paint operation has failed; the worker has given up.
    Failed,
}

/// What the render worker does in a tick.
#[derive(Clone, Copy, Debug, PartialEq, Eq, Structural)]
pub enum RenderAction {
    /// Nothing has changed: sleep until the next tick.
    Sleep,
    /// Clear the display and paint the log.
    Repaint,
}

/// The render worker: on every tick it repaints if a redraw was pending, and
/// it gives up for good when the display fails.
pub struct RenderWorker {
    state: RenderState,
}

impl RenderWorker {
    /// The state that the worker is in.
    pub closed spec fn spec_state(&self) -> RenderState {
        self.state
    }

    /// A worker before its first tick.
    pub fn new() -> (worker: Self)
        ensures
            worker.spec_state() == RenderState::Idle,
    {
        RenderWorker { state: RenderState::Idle }
    }

    /// The state that the worker is in.
    pub fn state(&self) -> (state: RenderState)
        ensures
            state == self.spec_state(),
    {
        self.state
    }

    /// Takes the flag that the poll returned and decides on the tick.
    pub fn on_poll(&mut self, redraw: bool) -> (action: RenderAction)
        requires
            old(self).spec_state() == RenderState::Idle,
        ensures
            redraw ==> action == RenderAction::Repaint && final(self).spec_state()
                == RenderState::Painting,
            !redraw ==> action == RenderAction::Sleep && final(self).spec_state()
                == RenderState::Idle,
    {
        if redraw {
            self.state = RenderState::Painting;
            RenderAction::Repaint
        } else {
            RenderAction::Sleep
        }
    }

    /// Takes the end of a repaint. A repaint in which any operation failed is
    /// not tried again: the worker has failed, and `keep_running` is false.
    pub fn on_painted(&mut self, ok: bool) -> (keep_running: bool)
        requires
            old(self).spec_state() == RenderState::Painting,
        ensures
            keep_running == ok,
            ok ==> final(self).spec_state() == RenderState::Idle,
            !ok ==> final(self).spec_state() == RenderState::Failed,
    {
        if ok {
            self.state = RenderState::Idle;
        } else {
            self.state = RenderState::Failed;
        }
        ok
    }
}

} // verus!
