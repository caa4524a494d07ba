//! The caret's place among the lines of a rendered word block.

use vstd::prelude::*;

verus! {

/// Where one rendered line lies on screen.
#[derive(Clone, Copy, Debug, PartialEq, Eq, Structural)]
pub struct LinePos {
    /// The terminal row of the line.
    pub y: u16,
    /// The terminal column of its first character.
    pub x: u16,
    /// The number of its characters.
    pub length: u16,
}

impl LinePos {
    /// A line that the caret can walk: it has a character, none of its characters
    /// lies beyond the last column that a terminal can address, and it does not
    /// start at (0, 0), which is no cell of a terminal.
    pub open spec fn wf(self) -> bool {
        &&& self.length >= 1
        &&& self.x + self.length - 1 <= u16::MAX
        &&& (self.x != 0 || self.y != 0)
    }

    /// Whether the caret can walk the line.
    pub fn is_wf(&self) -> (r: bool)
        ensures
            r == self.wf(),
    {
        self.length >= 1 && self.x <= 0xffff - (self.length - 1) && (self.x != 0 || self.y != 0)
    }
}

/// What a `CursorPos` stands for: the lines from top to bottom, and the caret as
/// an index of a line and an index of a character in it.
pub struct CursorView {
    pub lines: Seq<LinePos>,
    pub line: nat,
    pub column: nat,
}

/// The number of characters of the first `n` lines.
pub open spec fn chars_in(lines: Seq<LinePos>, n: nat) -> nat
    decreases n,
{
    if n == 0 {
        0
    } else {
        chars_in(lines, (n - 1) as nat) + lines[n - 1].length as nat
    }
}

impl CursorView {
    /// Every line can be walked and the caret stands on a character, or there is
    /// no line and the caret is at the origin.
    pub open spec fn wf(self) -> bool {
        &&& forall|i: int| 0 <= i < self.lines.len() ==> (#[trigger] self.lines[i]).wf()
        &&& if self.lines.len() == 0 {
            self.line == 0 && self.column == 0
        } else {
            self.line < self.lines.len() && self.column < self.lines[self.line as int].length
        }
    }

    /// No line, the caret at the origin.
    pub open spec fn empty() -> CursorView {
        CursorView { lines: Seq::empty(), line: 0, column: 0 }
    }

    /// There is a line to stand on.
    pub open spec fn tracking(self) -> bool {
        self.lines.len() > 0
    }

    /// The caret stands on the first character of the first line.
    pub open spec fn at_first(self) -> bool {
        self.line == 0 && self.column == 0
    }

    /// The caret stands on the last character of the last line.
    pub open spec fn at_last(self) -> bool {
        self.line + 1 == self.lines.len() && self.column + 1 == self.lines[self.line as int].length
    }

    /// The caret on the given character.
    pub open spec fn at(self, line: nat, column: nat) -> CursorView {
        CursorView { lines: self.lines, line, column }
    }

    /// The caret on the first character of the first line.
    pub open spec fn first(self) -> CursorView {
        self.at(0, 0)
    }

    /// The caret on the last character of the last line.
    pub open spec fn last(self) -> CursorView {
        self.at((self.lines.len() - 1) as nat, (self.lines.last().length - 1) as nat)
    }

    /// One character forward: within the line, else to the start of the next
    /// line, else nowhere.
    pub open spec fn advanced(self) -> CursorView {
        if self.column + 1 < self.lines[self.line as int].length {
            self.at(self.line, self.column + 1)
        } else if self.line + 1 < self.lines.len() {
            self.at(self.line + 1, 0)
        } else {
            self
        }
    }

    /// One character back: within the line, else to the end of the line before,
    /// else nowhere.
    pub open spec fn retreated(self) -> CursorView {
        if self.column > 0 {
            self.at(self.line, (self.column - 1) as nat)
        } else if self.line > 0 {
            self.at((self.line - 1) as nat, (self.lines[self.line - 1].length - 1) as nat)
        } else {
            self
        }
    }

    /// `n` steps forward.
    pub open spec fn advanced_by(self, n: nat) -> CursorView
        decreases n,
    {
        if n == 0 {
            self
        } else {
            self.advanced().advanced_by((n - 1) as nat)
        }
    }

    /// `n` steps back.
    pub open spec fn retreated_by(self, n: nat) -> CursorView
        decreases n,
    {
        if n == 0 {
            self
        } else {
            self.retreated().retreated_by((n - 1) as nat)
        }
    }

    /// The number of characters before the caret.
    pub open spec fn offset(self) -> nat {
        chars_in(self.lines, self.line) + self.column
    }

    /// The number of characters after the caret.
    pub open spec fn remaining(self) -> nat {
        (chars_in(self.lines, self.lines.len()) - 1 - self.offset()) as nat
    }

    /// The terminal column and row of the character under the caret.
    pub open spec fn position(self) -> (u16, u16) {
        ((self.lines[self.line as int].x + self.column) as u16, self.lines[self.line as int].y)
    }

    /// One more line below the others.
    pub open spec fn recorded(self, line: LinePos) -> CursorView {
        CursorView { lines: self.lines.push(line), line: self.line, column: self.column }
    }
}

/// The lines of a rendered word block and the caret among them.
#[derive(Debug)]
pub struct CursorPos {
    lines: Vec<LinePos>,
    cur_line: usize,
    cur_char_in_line: u16,
}

impl View for CursorPos {
    type V = CursorView;

    closed spec fn view(&self) -> CursorView {
        CursorView {
            lines: self.lines@,
            line: self.cur_line as nat,
            column: self.cur_char_in_line as nat,
        }
    }
}

impl CursorPos {
    /// No line, the caret at the origin.
    pub fn new() -> (r: CursorPos)
        ensures
            r@ == CursorView::empty(),
            r@.wf(),
    {
        CursorPos { lines: Vec::new(), cur_line: 0, cur_char_in_line: 0 }
    }

    /// The lines recorded so far, from top to bottom.
    pub fn lines(&self) -> (r: &Vec<LinePos>)
        ensures
            r@ == self@.lines,
    {
        &self.lines
    }

    /// The index of the line that the caret is in.
    pub fn cur_line(&self) -> (r: usize)
        ensures
            r == self@.line,
    {
        self.cur_line
    }

    /// The index, within its line, of the character under the caret.
    pub fn cur_char_in_line(&self) -> (r: u16)
        ensures
            r == self@.column,
    {
        self.cur_char_in_line
    }

    /// Whether any line is recorded.
    pub fn is_tracking(&self) -> (r: bool)
        ensures
            r == self@.tracking(),
    {
        self.lines.len() > 0
    }

    /// Whether the caret stands on the first character of the first line, where
    /// a step back goes nowhere.
    pub fn is_at_first(&self) -> (r: bool)
        ensures
            r == self@.at_first(),
    {
        self.cur_line == 0 && self.cur_char_in_line == 0
    }

    /// Whether the caret stands on the last character of the last line, where a
    /// step forward goes nowhere.
    pub fn is_at_last(&self) -> (r: bool)
        requires
            self@.wf(),
        ensures
            r == (self@.tracking() && self@.at_last()),
    {
        let count = self.lines.len();
        count > 0 && self.cur_line == count - 1 && self.cur_char_in_line
            == self.lines[self.cur_line].length - 1
    }

    /// Forgets every line and puts the caret at the origin.
    pub fn reset(&mut self)
        ensures
            final(self)@ == CursorView::empty(),
            final(self)@.wf(),
    {
        self.lines = Vec::new();
        self.cur_line = 0;
        self.cur_char_in_line = 0;
    }

    /// Adds a line below those recorded so far.
    pub fn record_line(&mut self, x: u16, y: u16, length: u16)
        requires
            old(self)@.wf(),
            (LinePos { y, x, length }).wf(),
        ensures
            final(self)@ == old(self)@.recorded(LinePos { y, x, length }),
            final(self)@.wf(),
    {
        self.lines.push(LinePos { y, x, length });
    }

    /// Moves the caret one character forward and says where on screen it is then.
    /// On the last character of the last line it stays.
    pub fn next(&mut self) -> (r: (u16, u16))
        requires
            old(self)@.wf(),
            old(self)@.tracking(),
        ensures
            final(self)@ == old(self)@.advanced(),
            final(self)@.wf(),
            r == final(self)@.position(),
            r.0 != 0 || r.1 != 0,
    {
        let count = self.lines.len();
        let line = self.lines[self.cur_line];
        if self.cur_char_in_line < line.length - 1 {
            self.cur_char_in_line += 1;
        } else if self.cur_line + 1 < count {
            self.cur_char_in_line = 0;
            self.cur_line += 1;
        }
        self.cur_pos()
    }

    /// Moves the caret one character back and says where on screen it is then.
    /// On the first character of the first line it stays.
    pub fn prev(&mut self) -> (r: (u16, u16))
        requires
            old(self)@.wf(),
            old(self)@.tracking(),
        ensures
            final(self)@ == old(self)@.retreated(),
            final(self)@.wf(),
            r == final(self)@.position(),
            r.0 != 0 || r.1 != 0,
    {
        if self.cur_char_in_line > 0 {
            self.cur_char_in_line -= 1;
        } else if self.cur_line > 0 {
            self.cur_line -= 1;
            self.cur_char_in_line = self.lines[self.cur_line].length - 1;
        }
        self.cur_pos()
    }

    /// Where on screen the caret would be after one step back. The caret stays.
    pub fn prev_pos(&self) -> (r: (u16, u16))
        requires
            self@.wf(),
            self@.tracking(),
        ensures
            r == self@.retreated().position(),
            r.0 != 0 || r.1 != 0,
    {
        if self.cur_char_in_line > 0 {
            let line = self.lines[self.cur_line];
            (line.x + (self.cur_char_in_line - 1), line.y)
        } else if self.cur_line > 0 {
            let line = self.lines[self.cur_line - 1];
            (line.x + (line.length - 1), line.y)
        } else {
            self.cur_pos()
        }
    }

    /// The terminal column and row of the character under the caret.
    pub fn cur_pos(&self) -> (r: (u16, u16))
        requires
            self@.wf(),
            self@.tracking(),
        ensures
            r == self@.position(),
            r.0 != 0 || r.1 != 0,
    {
        let line = self.lines[self.cur_line];
        (line.x + self.cur_char_in_line, line.y)
    }
}

/// Every line that can be walked has a character, so later lines start at
/// greater offsets.
proof fn lemma_chars_in_grows(lines: Seq<LinePos>, a: nat, b: nat)
    requires
        a <= b <= lines.len(),
        forall|i: int| 0 <= i < lines.len() ==> (#[trigger] lines[i]).wf(),
    ensures
        chars_in(lines, a) + (b - a) <= chars_in(lines, b),
    decreases b,
{
    if a < b {
        lemma_chars_in_grows(lines, a, (b - 1) as nat);
        assert(lines[b - 1].wf());
    }
}

/// One step keeps the caret on a character. A step forward and a step back
/// cancel each other, except where the first of the two has nowhere to go: a
/// step forward on the last character, or a step back on the first, changes
/// nothing.
pub proof fn lemma_steps_cancel(c: CursorView)
    requires
        c.wf(),
        c.tracking(),
    ensures
        c.advanced().wf(),
        c.retreated().wf(),
        c.at_last() ==> c.advanced() == c,
        !c.at_last() ==> c.advanced().retreated() == c,
        c.at_first() ==> c.retreated() == c,
        !c.at_first() ==> c.retreated().advanced() == c,
{
    assert(c.lines[c.line as int].wf());
    if c.line > 0 {
        assert(c.lines[c.line - 1].wf());
    }
    if c.line + 1 < c.lines.len() {
        assert(c.lines[c.line as int + 1].wf());
    }
}

/// A step back takes one character off the offset, a step forward adds one,
/// where there is room for the step.
proof fn lemma_step_offsets(c: CursorView)
    requires
        c.wf(),
        c.tracking(),
    ensures
        c.offset() < chars_in(c.lines, c.lines.len()),
        c.at_first() <==> c.offset() == 0,
        c.at_last() <==> c.remaining() == 0,
        !c.at_first() ==> c.retreated().offset() == c.offset() - 1,
        !c.at_last() ==> c.advanced().offset() == c.offset() + 1,
{
    assert(c.lines[c.line as int].wf());
    lemma_chars_in_grows(c.lines, 0, c.line);
    lemma_chars_in_grows(c.lines, c.line + 1, c.lines.len());
    if c.line > 0 {
        assert(c.lines[c.line - 1].wf());
    }
}

/// Stepping back often enough brings the caret to the first character of the
/// first line, and there it stays: as many steps as there are characters before
/// it, or any number more.
pub proof fn lemma_retreat_converges(c: CursorView, n: nat)
    requires
        c.wf(),
        c.tracking(),
        n >= c.offset(),
    ensures
        c.retreated_by(n) == c.first(),
        c.first().retreated() == c.first(),
    decreases n,
{
    lemma_steps_cancel(c);
    lemma_step_offsets(c);
    if n > 0 {
        lemma_retreat_converges(c.retreated(), (n - 1) as nat);
    }
}

/// Stepping forward often enough brings the caret to the last character of the
/// last line, and there it stays: as many steps as there are characters after
/// it, or any number more.
pub proof fn lemma_advance_converges(c: CursorView, n: nat)
    requires
        c.wf(),
        c.tracking(),
        n >= c.remaining(),
    ensures
        c.advanced_by(n) == c.last(),
        c.last().advanced() == c.last(),
    decreases n,
{
    lemma_steps_cancel(c);
    lemma_step_offsets(c);
    if n > 0 {
        lemma_advance_converges(c.advanced(), (n - 1) as nat);
    }
}

} // verus!
