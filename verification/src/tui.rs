//! The terminal surface: what to send for each operation, and the state that
//! the operations share.
//!
//! The surface owns no terminal. An operation takes the terminal's size, or the
//! cursor position that the terminal reported, and returns the characters to
//! write. Their owner writes them in the order of the calls.
//!
//! A word block needs the terminal's answers while it is rendered, so it is
//! rendered in steps: each `Step` says what to write and whether to ask the
//! terminal for the cursor's place, and the answer gives the next step.

use vstd::prelude::*;
use vstd::string::*;

pub use crate::cursor::{CursorPos, CursorView, LinePos};
use crate::error::TypeingError;
use crate::escape::{
    blinking_bar, blinking_bar_seq, clear_all, clear_all_seq, goto, goto_seq, hide_cursor,
    hide_seq, left, left_seq, show_cursor, show_seq, steady_block, steady_block_seq,
};
use crate::layout::{layout, layout_words, lemma_lines_fit, shows, word_views};
use crate::text::lemma_total_width_prefix;
pub use crate::text::{total_width, HasLength, Text, TextView};

verus! {

/// What the pieces of a row send, one after the other.
pub open spec fn row_display(row: Seq<Text>) -> Seq<char>
    decreases row.len(),
{
    if row.len() == 0 {
        Seq::empty()
    } else {
        row_display(row.drop_last()) + row.last()@.display
    }
}

/// What is sent before a row: the cursor goes left by half the row's width, so
/// that the row is centred on the column where the cursor stood.
pub open spec fn row_lead(row: Seq<Text>) -> Seq<char> {
    left_seq((total_width(row) / 2) as u16)
}

/// The row itself, and the cursor back at the row's start.
pub open spec fn row_rest(row: Seq<Text>) -> Seq<char> {
    row_display(row) + left_seq(total_width(row) as u16)
}

/// All that one row sends.
pub open spec fn row_output(row: Seq<Text>) -> Seq<char> {
    row_lead(row) + row_rest(row)
}

/// The terminal row of line `index` of `count` lines centred on the middle row.
pub open spec fn centered_row(rows: u16, count: nat, index: nat) -> int {
    rows / 2 + index - count / 2
}

/// The terminal row of line `index` of `count` lines at the bottom of the
/// screen.
pub open spec fn bottom_row(rows: u16, count: nat, index: nat) -> int {
    rows - 1 + index - count
}

/// A cell that the cursor can be sent to: the row is a number that a terminal
/// takes, and column and row are not both zero.
pub open spec fn addressable(x: u16, y: int) -> bool {
    &&& 0 <= y <= u16::MAX
    &&& x != 0 || y != 0
}

/// Lines on consecutive rows from `first_row` down can all be reached, each
/// from column `x`.
pub open spec fn block_addressable(x: u16, first_row: int, count: nat) -> bool {
    count > 0 ==> addressable(x, first_row) && first_row + count - 1 <= u16::MAX
}

/// What the first `n` lines of a block send: for each, the cursor to column `x`
/// of the line's row, then the row.
pub open spec fn block_output(lines: Seq<Seq<Text>>, n: nat, x: u16, first_row: int) -> Seq<char>
    decreases n,
{
    if n == 0 {
        Seq::empty()
    } else {
        block_output(lines, (n - 1) as nat, x, first_row) + goto_seq(x, (first_row + n - 1) as u16)
            + row_output(lines[n - 1])
    }
}

/// The pieces of each line.
pub open spec fn rows_of(lines: Seq<Vec<Text>>) -> Seq<Seq<Text>> {
    Seq::new(lines.len(), |i: int| lines[i]@)
}

/// Each line is narrow enough for its width to be sent.
pub open spec fn rows_fit(lines: Seq<Vec<Text>>) -> bool {
    forall|i: int| 0 <= i < lines.len() ==> total_width((#[trigger] lines[i])@) <= u16::MAX
}

/// A word block can be rendered on a screen of that size: the width of each
/// line can be sent, and the cursor can be sent to each of its rows.
pub open spec fn words_fit(lines: Seq<Text>, size: (u16, u16)) -> bool {
    &&& forall|i: int| 0 <= i < lines.len() ==> (#[trigger] lines[i])@.width <= u16::MAX
    &&& block_addressable(size.0 / 2, centered_row(size.1, lines.len(), 0), lines.len())
}

/// What is sent before the terminal is asked where line `index` of a word block
/// starts: the cursor to the middle of the line's row, then left by half the
/// line.
pub open spec fn line_lead(lines: Seq<Text>, index: int, size: (u16, u16)) -> Seq<char> {
    goto_seq(size.0 / 2, centered_row(size.1, lines.len(), index as nat) as u16) + row_lead(
        seq![lines[index]],
    )
}

/// A line of a word block where the terminal reported its start.
pub open spec fn line_at(line: Text, at: (u16, u16)) -> LinePos {
    LinePos { y: at.1, x: at.0, length: line@.width as u16 }
}

/// The lines recorded once `line` is known to start at `at`: one more, unless
/// the line is empty.
pub open spec fn located(cursor: CursorView, line: Text, at: (u16, u16)) -> CursorView {
    if line@.width >= 1 {
        cursor.recorded(line_at(line, at))
    } else {
        cursor
    }
}

/// Line `line` of the word block can be recorded where the terminal reported
/// its start, unless it is empty and is not recorded at all.
pub open spec fn locatable(lines: Seq<Text>, line: int, at: (u16, u16)) -> bool {
    &&& 0 <= line < lines.len()
    &&& lines[line]@.width <= u16::MAX
    &&& lines[line]@.width >= 1 ==> line_at(lines[line], at).wf()
}

/// What puts the cursor on the character under the caret: nothing where no line
/// is recorded.
pub open spec fn caret_seq(cursor: CursorView) -> Seq<char> {
    if cursor.tracking() {
        goto_seq(cursor.position().0, cursor.position().1)
    } else {
        Seq::empty()
    }
}

/// The lines of a word block as rows of one piece each.
pub open spec fn word_rows(lines: Seq<Text>) -> Seq<Seq<Text>> {
    Seq::new(lines.len(), |i: int| seq![lines[i]])
}

/// What the steps of a render have sent by the time the terminal is asked where
/// line `asked` starts, or, with `asked` the number of lines, by the time the
/// last line is sent.
pub open spec fn steps_output(lines: Seq<Text>, size: (u16, u16), asked: nat) -> Seq<char>
    decreases asked,
{
    let lead = if asked < lines.len() {
        line_lead(lines, asked as int, size)
    } else {
        Seq::empty()
    };
    if asked == 0 {
        lead
    } else {
        steps_output(lines, size, (asked - 1) as nat) + row_rest(seq![lines[asked - 1]]) + lead
    }
}

/// What the owner of the terminal does next while a word block is rendered.
#[derive(Debug)]
pub enum Step {
    /// Write `text`, ask the terminal where its cursor is, and hand the answer to
    /// `TypeingTui::line_located` together with `line`.
    Locate { text: String, line: usize },
    /// Write `text` and flush. The block is on screen.
    Done { text: String },
}

/// What a `TypeingTui` stands for.
pub struct TuiView {
    /// The lines of the word block and the caret among them.
    pub cursor: CursorView,
    /// Whether a word block is being rendered, so that its lines are recorded.
    pub recording: bool,
    /// The rows taken at the bottom of the screen.
    pub reserved_rows: nat,
}

impl TuiView {
    /// The caret's place is sound.
    pub open spec fn wf(self) -> bool {
        self.cursor.wf()
    }

    /// A surface with nothing on it: no line, nothing being rendered, no row
    /// taken.
    pub open spec fn fresh() -> TuiView {
        TuiView { cursor: CursorView::empty(), recording: false, reserved_rows: 0 }
    }

    /// The same surface with no line recorded.
    pub open spec fn cleared(self) -> TuiView {
        TuiView {
            cursor: CursorView::empty(),
            recording: self.recording,
            reserved_rows: self.reserved_rows,
        }
    }
}

/// The state behind the terminal's screen.
#[derive(Debug)]
pub struct TypeingTui {
    cursor_pos: CursorPos,
    track_lines: bool,
    bottom_lines_len: usize,
}

impl View for TypeingTui {
    type V = TuiView;

    closed spec fn view(&self) -> TuiView {
        TuiView {
            cursor: self.cursor_pos@,
            recording: self.track_lines,
            reserved_rows: self.bottom_lines_len as nat,
        }
    }
}

/// Whether the row is narrow enough for its width to be sent.
pub fn fits_row(text: &[Text]) -> (r: bool)
    ensures
        r == (total_width(text@) <= u16::MAX),
{
    let mut sum: usize = 0;
    let mut i: usize = 0;
    proof {
        assert(text@.take(0) =~= Seq::empty());
    }
    while i < text.len()
        invariant
            i <= text.len(),
            sum == total_width(text@.take(i as int)),
            sum <= u16::MAX,
        decreases text.len() - i,
    {
        let width = text[i].width();
        proof {
            assert(text@.take(i + 1).drop_last() =~= text@.take(i as int));
            lemma_total_width_prefix(text@, i + 1);
        }
        if width > 0xffff - sum {
            return false;
        }
        sum = sum + width;
        i = i + 1;
    }
    proof {
        assert(text@.take(i as int) =~= text@);
    }
    true
}

/// Whether each of the lines is narrow enough for its width to be sent.
pub fn fits_rows(lines: &[Vec<Text>]) -> (r: bool)
    ensures
        r == rows_fit(lines@),
{
    let mut i: usize = 0;
    while i < lines.len()
        invariant
            i <= lines.len(),
            forall|j: int| 0 <= j < i ==> total_width((#[trigger] lines@[j])@) <= u16::MAX,
        decreases lines.len() - i,
    {
        if !fits_row(lines[i].as_slice()) {
            return false;
        }
        i = i + 1;
    }
    true
}

/// Whether the cursor can be sent to the middle of each row of `count` lines
/// centred on a screen of that size.
pub fn can_center(count: usize, size: (u16, u16)) -> (r: bool)
    ensures
        r == block_addressable(size.0 / 2, centered_row(size.1, count as nat, 0), count as nat),
{
    if count == 0 {
        return true;
    }
    let middle = size.1 as usize / 2;
    if count / 2 > middle {
        return false;
    }
    let first_row = middle - count / 2;
    (size.0 / 2 != 0 || first_row != 0) && count - 1 <= 0xffff - first_row
}

/// Whether the cursor can be sent to the middle of each row of `count` lines
/// at the bottom of a screen of that size.
pub fn can_anchor(count: usize, size: (u16, u16)) -> (r: bool)
    ensures
        r == block_addressable(size.0 / 2, bottom_row(size.1, count as nat, 0), count as nat),
{
    if count == 0 {
        return true;
    }
    if size.1 == 0 || count > size.1 as usize - 1 {
        return false;
    }
    let first_row = size.1 as usize - 1 - count;
    size.0 / 2 != 0 || first_row != 0
}

/// Whether the word block can be rendered on a screen of that size.
pub fn can_render(lines: &[Text], size: (u16, u16)) -> (r: bool)
    ensures
        r == words_fit(lines@, size),
{
    let mut i: usize = 0;
    while i < lines.len()
        invariant
            i <= lines.len(),
            forall|j: int| 0 <= j < i ==> (#[trigger] lines@[j])@.width <= u16::MAX,
        decreases lines.len() - i,
    {
        if lines[i].width() > 0xffff {
            return false;
        }
        i = i + 1;
    }
    can_center(lines.len(), size)
}

/// Whether line `line` of the word block can be recorded where the terminal
/// reported its start.
pub fn can_locate(lines: &[Text], line: usize, at: (u16, u16)) -> (r: bool)
    ensures
        r == locatable(lines@, line as int, at),
{
    if line >= lines.len() {
        return false;
    }
    let width = lines[line].width();
    if width > 0xffff {
        return false;
    }
    width == 0 || (LinePos { y: at.1, x: at.0, length: width as u16 }).is_wf()
}

/// A row of one piece is as wide as the piece, and sends what the piece sends.
proof fn lemma_row_of_one(piece: Text)
    ensures
        total_width(seq![piece]) == piece@.width,
        row_display(seq![piece]) == piece@.display,
{
    assert(seq![piece].drop_last() =~= Seq::<Text>::empty());
    assert(total_width(Seq::<Text>::empty()) == 0);
    assert(row_display(Seq::<Text>::empty()) =~= Seq::<char>::empty());
    assert(row_display(seq![piece]) =~= piece@.display);
}

/// The row as it is sent, piece after piece.
fn row_text(row: &[Text]) -> (r: String)
    ensures
        r@ == row_display(row@),
{
    let mut out = String::new();
    let mut i: usize = 0;
    proof {
        assert(row@.take(0) =~= Seq::empty());
    }
    while i < row.len()
        invariant
            i <= row.len(),
            out@ == row_display(row@.take(i as int)),
        decreases row.len() - i,
    {
        proof {
            assert(row@.take(i + 1).drop_last() =~= row@.take(i as int));
        }
        out.append(row[i].raw_text().as_str());
        i = i + 1;
    }
    proof {
        assert(row@.take(i as int) =~= row@);
    }
    out
}

/// All that one row sends.
fn row(text: &[Text]) -> (r: String)
    requires
        total_width(text@) <= u16::MAX,
    ensures
        r@ == row_output(text@),
{
    let width = text.length() as u16;
    let mut out = left(width / 2);
    out.append(row_text(text).as_str());
    out.append(left(width).as_str());
    proof {
        assert(out@ =~= row_output(text@));
    }
    out
}

/// A block of lines on consecutive rows from `first_row` down.
fn block(lines: &[Vec<Text>], x: u16, first_row: u16) -> (r: String)
    requires
        rows_fit(lines@),
        block_addressable(x, first_row as int, lines@.len()),
    ensures
        r@ == block_output(rows_of(lines@), lines@.len(), x, first_row as int),
{
    let mut out = String::new();
    let mut i: usize = 0;
    while i < lines.len()
        invariant
            i <= lines.len(),
            rows_fit(lines@),
            block_addressable(x, first_row as int, lines@.len()),
            out@ == block_output(rows_of(lines@), i as nat, x, first_row as int),
        decreases lines.len() - i,
    {
        let y = (first_row as usize + i) as u16;
        out.append(goto(x, y).as_str());
        out.append(row(lines[i].as_slice()).as_str());
        i = i + 1;
    }
    out
}

impl TypeingTui {
    /// A surface with nothing on it.
    pub fn new() -> (r: TypeingTui)
        ensures
            r@ == TuiView::fresh(),
            r@.wf(),
    {
        TypeingTui { cursor_pos: CursorPos::new(), track_lines: false, bottom_lines_len: 0 }
    }

    /// The lines of the word block and the caret among them.
    pub fn cursor(&self) -> (r: &CursorPos)
        ensures
            r@ == self@.cursor,
    {
        &self.cursor_pos
    }

    /// Whether a word block is being rendered.
    pub fn is_recording(&self) -> (r: bool)
        ensures
            r == self@.recording,
    {
        self.track_lines
    }

    /// The rows taken at the bottom of the screen.
    pub fn reserved_rows(&self) -> (r: usize)
        ensures
            r == self@.reserved_rows,
    {
        self.bottom_lines_len
    }

    /// Forgets the lines of the word block.
    pub fn reset(&mut self)
        ensures
            final(self)@ == old(self)@.cleared(),
            final(self)@.wf(),
    {
        self.cursor_pos.reset();
    }

    /// The idle screen: all cleared, a blinking bar for a cursor, in the middle
    /// of the screen.
    pub fn reset_screen(&self, size: (u16, u16)) -> (r: String)
        requires
            addressable(size.0 / 2, size.1 as int / 2),
        ensures
            r@ == clear_all_seq() + goto_seq(size.0 / 2, size.1 / 2) + blinking_bar_seq(),
    {
        let mut out = clear_all();
        out.append(goto(size.0 / 2, size.1 / 2).as_str());
        out.append(blinking_bar().as_str());
        out
    }

    /// One row, centred on the column where the cursor stands. The cursor ends
    /// where the row starts.
    pub fn display_a_line(&self, text: &[Text]) -> (r: String)
        requires
            !self@.recording,
            total_width(text@) <= u16::MAX,
        ensures
            r@ == row_output(text@),
    {
        row(text)
    }

    /// Lines centred on the middle of the screen, each centred in its row.
    pub fn display_lines(&self, lines: &[Vec<Text>], size: (u16, u16)) -> (r: String)
        requires
            !self@.recording,
            rows_fit(lines@),
            block_addressable(size.0 / 2, centered_row(size.1, lines@.len(), 0), lines@.len()),
        ensures
            r@ == block_output(
                rows_of(lines@),
                lines@.len(),
                size.0 / 2,
                centered_row(size.1, lines@.len(), 0),
            ),
    {
        if lines.len() == 0 {
            return String::new();
        }
        block(lines, size.0 / 2, (size.1 as usize / 2 - lines.len() / 2) as u16)
    }

    /// Lines at the bottom of the screen, each centred in its row. Their number
    /// is kept: a word block leaves these rows free.
    pub fn display_lines_bottom(&mut self, lines: &[Vec<Text>], size: (u16, u16)) -> (r: String)
        requires
            !old(self)@.recording,
            rows_fit(lines@),
            block_addressable(size.0 / 2, bottom_row(size.1, lines@.len(), 0), lines@.len()),
        ensures
            final(self)@ == (TuiView { reserved_rows: lines@.len(), ..old(self)@ }),
            r@ == block_output(
                rows_of(lines@),
                lines@.len(),
                size.0 / 2,
                bottom_row(size.1, lines@.len(), 0),
            ),
    {
        self.bottom_lines_len = lines.len();
        if lines.len() == 0 {
            return String::new();
        }
        block(lines, size.0 / 2, (size.1 as usize - 1 - lines.len()) as u16)
    }

    /// Starts a word block: forgets the lines of the last one, lays the words
    /// out for a terminal of `size.0` columns and `size.1` rows, and refuses a
    /// terminal that is too small for them. The lines are returned for the
    /// caller to hold the typed text against.
    ///
    /// The block is not on screen yet: `begin_words` gives the first step of its
    /// render, for the same lines and the same size. Rows are recorded from now
    /// until the last step, or until `abort_words`; after a refusal they are
    /// not, whatever was going on before.
    pub fn display_words(&mut self, words: &[String], size: (u16, u16)) -> (r: Result<
        Vec<Text>,
        TypeingError,
    >)
        ensures
            final(self)@.wf(),
            match layout(
                word_views(words@),
                size.0 as nat,
                size.1 as nat,
                old(self)@.reserved_rows,
            ) {
                Ok(texts) => {
                    &&& r is Ok
                    &&& shows(r->Ok_0@, texts)
                    &&& final(self)@ == (TuiView { recording: true, ..old(self)@.cleared() })
                    &&& words_fit(r->Ok_0@, size)
                    &&& forall|i: int|
                        0 <= i < texts.len() ==> (#[trigger] r->Ok_0@[i])@.width <= size.0
                    &&& texts.len() + old(self)@.reserved_rows + 2 <= size.1
                },
                Err(msg) => {
                    &&& r is Err
                    &&& r->Err_0.msg@ == msg
                    &&& final(self)@ == (TuiView { recording: false, ..old(self)@.cleared() })
                },
            },
    {
        self.reset();
        self.track_lines = false;
        let lines = layout_words(words, size, self.bottom_lines_len)?;
        proof {
            lemma_lines_fit(word_views(words@), size.0 as nat);
        }
        self.track_lines = true;
        Ok(lines)
    }

    /// Gives up the render of a word block, as its owner must where a write or
    /// the terminal's answer failed: rows are recorded no longer. The lines
    /// recorded so far stay.
    pub fn abort_words(&mut self)
        ensures
            final(self)@ == (TuiView { recording: false, ..old(self)@ }),
    {
        self.track_lines = false;
    }

    /// The first step of the render of a word block: the lines are those that
    /// `display_words` returned. Each line is centred in its row, the rows are
    /// centred on the screen, and each line that is not empty is recorded where
    /// the terminal says that it starts.
    pub fn begin_words(&mut self, lines: &[Text], size: (u16, u16)) -> (r: Step)
        requires
            old(self)@.wf(),
            old(self)@.recording,
            words_fit(lines@, size),
        ensures
            final(self)@.wf(),
            lines@.len() > 0 ==> {
                &&& final(self)@ == old(self)@
                &&& r matches Step::Locate { text, line }
                &&& line == 0
                &&& text@ == line_lead(lines@, 0, size)
            },
            lines@.len() == 0 ==> {
                &&& final(self)@ == (TuiView { recording: false, ..old(self)@ })
                &&& r matches Step::Done { text }
                &&& text@ == caret_seq(old(self)@.cursor)
            },
    {
        if lines.len() > 0 {
            Step::Locate { text: Self::lead(lines, 0, size), line: 0 }
        } else {
            Step::Done { text: self.finish() }
        }
    }

    /// The next step of the render, once the terminal has said that the cursor is
    /// at column `at.0` of row `at.1`, which is where line `line` starts. The
    /// line is recorded unless it is empty, and is sent. Then the next line is
    /// begun, or, after the last, rows are recorded no longer and the cursor is
    /// put on the caret: the first character of the block.
    pub fn line_located(
        &mut self,
        lines: &[Text],
        size: (u16, u16),
        line: usize,
        at: (u16, u16),
    ) -> (r: Step)
        requires
            old(self)@.wf(),
            old(self)@.recording,
            words_fit(lines@, size),
            locatable(lines@, line as int, at),
        ensures
            final(self)@.wf(),
            final(self)@.cursor == located(old(self)@.cursor, lines@[line as int], at),
            final(self)@.reserved_rows == old(self)@.reserved_rows,
            line + 1 < lines@.len() ==> {
                &&& final(self)@.recording
                &&& r matches Step::Locate { text, line: next }
                &&& next == line + 1
                &&& text@ == row_rest(seq![lines@[line as int]]) + line_lead(lines@, line + 1, size)
            },
            line + 1 == lines@.len() ==> {
                &&& !final(self)@.recording
                &&& r matches Step::Done { text }
                &&& text@ == row_rest(seq![lines@[line as int]]) + caret_seq(final(self)@.cursor)
            },
    {
        let piece = &lines[line];
        let width = piece.width() as u16;
        if width >= 1 {
            self.cursor_pos.record_line(at.0, at.1, width);
        }
        proof {
            lemma_row_of_one(*piece);
        }
        let mut text = piece.raw_text().clone();
        text.append(left(width).as_str());
        if line + 1 < lines.len() {
            text.append(Self::lead(lines, line + 1, size).as_str());
            Step::Locate { text, line: line + 1 }
        } else {
            text.append(self.finish().as_str());
            Step::Done { text }
        }
    }

    /// What is sent before the terminal is asked where line `index` starts.
    fn lead(lines: &[Text], index: usize, size: (u16, u16)) -> (r: String)
        requires
            index < lines@.len(),
            words_fit(lines@, size),
        ensures
            r@ == line_lead(lines@, index as int, size),
    {
        let width = lines[index].width() as u16;
        proof {
            lemma_row_of_one(lines@[index as int]);
        }
        let mut out = goto(size.0 / 2, (size.1 as usize / 2 - lines.len() / 2 + index) as u16);
        out.append(left(width / 2).as_str());
        out
    }

    /// Ends the render of a word block.
    fn finish(&mut self) -> (r: String)
        requires
            old(self)@.wf(),
        ensures
            final(self)@ == (TuiView { recording: false, ..old(self)@ }),
            r@ == caret_seq(old(self)@.cursor),
    {
        self.track_lines = false;
        if self.cursor_pos.is_tracking() {
            self.move_to_cur_pos()
        } else {
            String::new()
        }
    }

    /// Writes `text` over the character before the caret: the cursor goes to
    /// the place one step back, `text` is sent there, and the cursor returns to
    /// the caret. The caret does not move. On the first character of the block
    /// the place one step back is the caret's own.
    pub fn replace_text(&mut self, text: &Text) -> (r: String)
        requires
            old(self)@.wf(),
            old(self)@.cursor.tracking(),
        ensures
            final(self)@ == old(self)@,
            r@ == goto_seq(
                old(self)@.cursor.retreated().position().0,
                old(self)@.cursor.retreated().position().1,
            ) + text@.display + goto_seq(
                old(self)@.cursor.position().0,
                old(self)@.cursor.position().1,
            ),
    {
        let (x, y) = self.cursor_pos.prev_pos();
        let mut out = goto(x, y);
        out.append(text.raw_text().as_str());
        out.append(self.move_to_cur_pos().as_str());
        out
    }

    /// Moves the caret one character forward. What is returned puts the cursor
    /// there.
    pub fn move_to_next_char(&mut self) -> (r: String)
        requires
            old(self)@.wf(),
            old(self)@.cursor.tracking(),
        ensures
            final(self)@.wf(),
            final(self)@ == (TuiView { cursor: old(self)@.cursor.advanced(), ..old(self)@ }),
            r@ == goto_seq(final(self)@.cursor.position().0, final(self)@.cursor.position().1),
    {
        let (x, y) = self.cursor_pos.next();
        goto(x, y)
    }

    /// Moves the caret one character back. What is returned puts the cursor
    /// there.
    pub fn move_to_prev_char(&mut self) -> (r: String)
        requires
            old(self)@.wf(),
            old(self)@.cursor.tracking(),
        ensures
            final(self)@.wf(),
            final(self)@ == (TuiView { cursor: old(self)@.cursor.retreated(), ..old(self)@ }),
            r@ == goto_seq(final(self)@.cursor.position().0, final(self)@.cursor.position().1),
    {
        let (x, y) = self.cursor_pos.prev();
        goto(x, y)
    }

    /// What puts the cursor on the character under the caret.
    pub fn move_to_cur_pos(&self) -> (r: String)
        requires
            self@.wf(),
            self@.cursor.tracking(),
        ensures
            r@ == caret_seq(self@.cursor),
    {
        let (x, y) = self.cursor_pos.cur_pos();
        goto(x, y)
    }

    /// What hides the cursor.
    pub fn hide_cursor(&self) -> (r: String)
        ensures
            r@ == hide_seq(),
    {
        hide_cursor()
    }

    /// What shows the cursor.
    pub fn show_cursor(&self) -> (r: String)
        ensures
            r@ == show_seq(),
    {
        show_cursor()
    }

    /// The piece as it is sent.
    pub fn display_raw_text(&self, text: &Text) -> (r: String)
        ensures
            r@ == text@.display,
    {
        text.raw_text().clone()
    }

    /// The index of the line that the caret is in.
    pub fn current_line(&self) -> (r: usize)
        ensures
            r == self@.cursor.line,
    {
        self.cursor_pos.cur_line()
    }

    /// What leaves the terminal in order when the surface is given up: the
    /// screen cleared, a steady block for a cursor, shown even where it was
    /// hidden, in the top left corner.
    pub fn close(&self) -> (r: String)
        ensures
            r@ == clear_all_seq() + steady_block_seq() + show_seq() + goto_seq(1, 1),
    {
        let mut out = clear_all();
        out.append(steady_block().as_str());
        out.append(show_cursor().as_str());
        out.append(goto(1, 1).as_str());
        out
    }
}

impl Default for TypeingTui {
    fn default() -> (r: TypeingTui)
        ensures
            r@ == TuiView::fresh(),
    {
        TypeingTui::new()
    }
}

/// The steps of a render send the block as `TypeingTui::display_lines` would
/// send its lines: line after line, each centred in its row, the rows centred on
/// the screen. Where the terminal is asked for the place of a line, the lines
/// before it are sent in full, and of this line what goes before it.
pub proof fn lemma_steps_send_the_block(lines: Seq<Text>, size: (u16, u16), asked: nat)
    requires
        asked <= lines.len(),
    ensures
        steps_output(lines, size, asked) == block_output(
            word_rows(lines),
            asked,
            size.0 / 2,
            centered_row(size.1, lines.len(), 0),
        ) + if asked < lines.len() {
            line_lead(lines, asked as int, size)
        } else {
            Seq::empty()
        },
    decreases asked,
{
    let x = size.0 / 2;
    let first_row = centered_row(size.1, lines.len(), 0);
    let lead = if asked < lines.len() {
        line_lead(lines, asked as int, size)
    } else {
        Seq::<char>::empty()
    };
    if asked == 0 {
        assert(steps_output(lines, size, asked) =~= block_output(
            word_rows(lines),
            asked,
            x,
            first_row,
        ) + lead);
    } else {
        let before = (asked - 1) as nat;
        let row = seq![lines[asked - 1]];
        lemma_steps_send_the_block(lines, size, before);
        assert(word_rows(lines)[asked - 1] == row);
        assert(first_row + asked - 1 == centered_row(size.1, lines.len(), before));
        assert(steps_output(lines, size, asked) =~= block_output(
            word_rows(lines),
            asked,
            x,
            first_row,
        ) + lead);
    }
}

} // verus!
