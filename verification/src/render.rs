//! Where the lines of the log go on the display: a fixed left margin, a fixed
//! vertical cadence from a fixed top margin, and nothing below the visible area.

use crate::console::SharedConsoleState;
use crate::text::texts;
use vstd::prelude::*;

verus! {

/// The height of the display, in pixels.
pub const DISPLAY_HEIGHT: i32 = 320;

/// The horizontal position of every line.
pub const TEXT_LEFT: i32 = 5;

/// The vertical position of the first line.
pub const FIRST_LINE_Y: i32 = 15;

/// The vertical distance from one line to the next.
pub const LINE_HEIGHT: i32 = 15;

/// The time between two polls of the render side, in milliseconds.
pub const TICK_MS: u32 = 50;

/// A line of text and the place where it is painted.
#[derive(Clone, Debug, PartialEq, Eq)]
pub struct PlacedLine {
    pub x: i32,
    pub y: i32,
    pub text: String,
}

/// What a `PlacedLine` stands for.
pub struct PlacedLineView {
    pub x: int,
    pub y: int,
    pub text: Seq<char>,
}

impl View for PlacedLine {
    type V = PlacedLineView;

    open spec fn view(&self) -> PlacedLineView {
        PlacedLineView { x: self.x as int, y: self.y as int, text: self.text@ }
    }
}

/// The vertical position of the line at `index`.
pub open spec fn line_y(index: int) -> int {
    FIRST_LINE_Y + index * LINE_HEIGHT
}

/// Whether the line at `index` lies within the visible area: a line is painted
/// only where a full line height is left below its position.
pub open spec fn is_visible(index: int) -> bool {
    line_y(index) < DISPLAY_HEIGHT - LINE_HEIGHT
}

/// How many of `len` lines are painted: all up to the first that is not visible.
pub open spec fn visible_count(len: nat) -> nat
    decreases len,
{
    if len == 0 {
        0
    } else if is_visible(len - 1) {
        len
    } else {
        visible_count((len - 1) as nat)
    }
}

/// The paint operations for `lines`, in the order of the lines.
pub open spec fn paint_plan_of(lines: Seq<Seq<char>>) -> Seq<PlacedLineView> {
    Seq::new(
        visible_count(lines.len()),
        |i: int| PlacedLineView { x: TEXT_LEFT as int, y: line_y(i), text: lines[i] },
    )
}

/// The views of a sequence of placed lines.
pub open spec fn placed(plan: Seq<PlacedLine>) -> Seq<PlacedLineView> {
    Seq::new(plan.len(), |i: int| plan[i]@)
}

/// The lines before a visible line are visible, and `visible_count` counts
/// exactly the visible ones among the first `len`.
pub proof fn lemma_visible_count(len: nat)
    ensures
        visible_count(len) <= len,
        forall|i: int| 0 <= i < visible_count(len) ==> is_visible(i),
        visible_count(len) < len ==> !is_visible(visible_count(len) as int),
    decreases len,
{
    if len > 0 {
        lemma_visible_count((len - 1) as nat);
        if is_visible(len - 1) {
            assert forall|i: int| 0 <= i < len implies is_visible(i) by {
                assert(line_y(i) <= line_y(len - 1)) by (nonlinear_arith)
                    requires
                        0 <= i <= len - 1,
                ;
            }
        } else if visible_count((len - 1) as nat) == len - 1 {
        }
    }
}

/// On this display twenty lines are visible.
pub proof fn lemma_twenty_lines_visible(len: nat)
    ensures
        visible_count(len) == if len <= 20 {
            len
        } else {
            20
        },
{
    let shown: nat = if len <= 20 {
        len
    } else {
        20
    };
    lemma_visible_prefix(len, shown);
}

/// Places the lines of a snapshot of the log for one repaint. Lines that would
/// fall below the visible area are left out.
pub fn paint_plan(lines: &Vec<String>) -> (plan: Vec<PlacedLine>)
    ensures
        placed(plan@) == paint_plan_of(texts(lines@)),
{
    let mut plan: Vec<PlacedLine> = Vec::new();
    let mut y: i32 = FIRST_LINE_Y;
    let mut i: usize = 0;
    while i < lines.len() && y < DISPLAY_HEIGHT - LINE_HEIGHT
        invariant
            i <= lines.len(),
            y == line_y(i as int),
            plan.len() == i,
            forall|k: int| 0 <= k < i ==> is_visible(k),
            forall|k: int|
                0 <= k < i ==> (#[trigger] plan[k])@ == (PlacedLineView {
                    x: TEXT_LEFT as int,
                    y: line_y(k),
                    text: lines[k]@,
                }),
        decreases lines.len() - i,
    {
        plan.push(PlacedLine { x: TEXT_LEFT, y, text: lines[i].clone() });
        y = y + LINE_HEIGHT;
        i += 1;
    }
    proof {
        lemma_visible_count(lines.len() as nat);
        lemma_visible_prefix(lines.len() as nat, i as nat);
        assert(placed(plan@) =~= paint_plan_of(texts(lines@)));
    }
    plan
}

/// If the first `shown` of `len` lines are visible and the next one, if there
/// is one, is not, then `shown` lines are painted.
pub proof fn lemma_visible_prefix(len: nat, shown: nat)
    requires
        shown <= len,
        forall|k: int| 0 <= k < shown ==> is_visible(k),
        shown < len ==> !is_visible(shown as int),
    ensures
        visible_count(len) == shown,
{
    lemma_visible_count(len);
    let count = visible_count(len);
    if count < shown {
        assert(is_visible(count as int));
    } else if count > shown {
        assert(is_visible(shown as int));
    }
}

/// The paint operations for the current log: what the render side does in its
/// second critical section, after `take_redraw` has told it to repaint.
pub fn render_plan(state: &SharedConsoleState) -> (plan: Vec<PlacedLine>)
    ensures
        placed(plan@) == paint_plan_of(state@.lines),
{
    let lines = state.snapshot();
    paint_plan(&lines)
}

} // verus!
