//! Wrapping a list of words into the lines of a word block.
//!
//! Words are taken in order. A word joins the line that is being filled while
//! the line has room for it; otherwise the line is closed and the word starts
//! the next one. Closed lines end in a space, since that is what is typed after
//! their last word; the last line does not. A line is closed as it is: where
//! the first word alone is wider than a line may be, the line before it holds
//! the space and nothing else.

use vstd::prelude::*;
use vstd::string::*;

use crate::error::{height_message, width_message, TypeingError};
use crate::text::{Text, TextView};

verus! {

/// No terminal narrower than this is accepted.
pub const MIN_LINE_WIDTH: usize = 50;

/// No line holds more words than this.
pub const MAX_WORDS_PER_LINE: usize = 10;

/// The columns that a line may fill: two fifths of the terminal's.
pub open spec fn max_line_width(cols: nat) -> nat {
    cols * 2 / 5
}

/// The columns that the words of a line take, each with the space after it.
pub open spec fn line_cost(line: Seq<Seq<char>>) -> nat
    decreases line.len(),
{
    if line.len() == 0 {
        0
    } else {
        line_cost(line.drop_last()) + line.last().len() + 1
    }
}

/// Whether `word` joins `line`: the line is not full, and is not too wide with it.
pub open spec fn takes(line: Seq<Seq<char>>, word: Seq<char>, max_width: nat) -> bool {
    line.len() < MAX_WORDS_PER_LINE && line_cost(line) + word.len() + 1 <= max_width
}

/// Words in lines: those that are closed, and the one that is being filled.
pub struct Wrapping {
    pub closed: Seq<Seq<Seq<char>>>,
    pub open: Seq<Seq<char>>,
}

impl Wrapping {
    /// All the lines, the one being filled last.
    pub open spec fn lines(self) -> Seq<Seq<Seq<char>>> {
        self.closed.push(self.open)
    }
}

/// The words in lines, each line at most `max_width` columns wide unless it is
/// one word alone.
pub open spec fn wrap(words: Seq<Seq<char>>, max_width: nat) -> Wrapping
    decreases words.len(),
{
    if words.len() == 0 {
        Wrapping { closed: Seq::empty(), open: Seq::empty() }
    } else {
        let before = wrap(words.drop_last(), max_width);
        if takes(before.open, words.last(), max_width) {
            Wrapping { closed: before.closed, open: before.open.push(words.last()) }
        } else {
            Wrapping { closed: before.closed.push(before.open), open: seq![words.last()] }
        }
    }
}

/// The words of a line with one space between neighbours.
pub open spec fn joined(line: Seq<Seq<char>>) -> Seq<char>
    decreases line.len(),
{
    if line.len() == 0 {
        Seq::empty()
    } else if line.len() == 1 {
        line[0]
    } else {
        joined(line.drop_last()) + seq![' '] + line.last()
    }
}

/// The text of each line of the block: a closed line ends in a space, the last
/// line does not.
pub open spec fn line_texts(words: Seq<Seq<char>>, max_width: nat) -> Seq<Seq<char>> {
    let wrapping = wrap(words, max_width);
    Seq::new(
        wrapping.closed.len() + 1,
        |i: int|
            if i < wrapping.closed.len() {
                joined(wrapping.closed[i]) + seq![' ']
            } else {
                joined(wrapping.open)
            },
    )
}

/// The length of the longest word, zero where there is none.
pub open spec fn longest(words: Seq<Seq<char>>) -> nat
    decreases words.len(),
{
    if words.len() == 0 {
        0
    } else if longest(words.drop_last()) >= words.last().len() {
        longest(words.drop_last())
    } else {
        words.last().len()
    }
}

/// The columns that the terminal must have for these words.
pub open spec fn min_columns(words: Seq<Seq<char>>) -> nat {
    if longest(words) + 2 >= MIN_LINE_WIDTH {
        longest(words) + 2
    } else {
        MIN_LINE_WIDTH as nat
    }
}

/// The rows that the terminal must have for these words: their lines, the rows
/// kept for other content, and two for margins.
pub open spec fn required_rows(words: Seq<Seq<char>>, cols: nat, reserved_rows: nat) -> nat {
    line_texts(words, max_line_width(cols)).len() + reserved_rows + 2
}

/// The block for a terminal of `cols` columns and `rows` rows: the text of each
/// line, or what is wrong with the terminal. Too few rows are reported before
/// too few columns.
pub open spec fn layout(words: Seq<Seq<char>>, cols: nat, rows: nat, reserved_rows: nat) -> Result<
    Seq<Seq<char>>,
    Seq<char>,
> {
    if required_rows(words, cols, reserved_rows) > rows {
        Err(height_message(required_rows(words, cols, reserved_rows), rows))
    } else if min_columns(words) > cols {
        Err(width_message(min_columns(words), cols))
    } else {
        Ok(line_texts(words, max_line_width(cols)))
    }
}

/// What each of the strings holds.
pub open spec fn word_views(words: Seq<String>) -> Seq<Seq<char>> {
    Seq::new(words.len(), |i: int| words[i]@)
}

/// A line of the block as it is shown: faint.
pub open spec fn faint_line(text: Seq<char>) -> TextView {
    TextView::plain(text).faint()
}

/// The lines are the given texts, each shown faint.
pub open spec fn shows(lines: Seq<Text>, texts: Seq<Seq<char>>) -> bool {
    &&& lines.len() == texts.len()
    &&& forall|i: int| 0 <= i < lines.len() ==> (#[trigger] lines[i])@ == faint_line(texts[i])
}

/// Lays the words out for a terminal of `size.0` columns and `size.1` rows, of
/// which `reserved_rows` are kept for other content.
pub fn layout_words(words: &[String], size: (u16, u16), reserved_rows: usize) -> (r: Result<
    Vec<Text>,
    TypeingError,
>)
    ensures
        match layout(word_views(words@), size.0 as nat, size.1 as nat, reserved_rows as nat) {
            Ok(texts) => r is Ok && shows(r->Ok_0@, texts),
            Err(msg) => r is Err && r->Err_0.msg@ == msg,
        },
{
    let ghost all = word_views(words@);
    let ghost max = max_line_width(size.0 as nat);
    let max_width: usize = (size.0 as usize) * 2 / 5;
    let mut lines: Vec<Text> = Vec::new();
    let mut line = String::new();
    let mut line_len: usize = 0;
    let mut count: usize = 0;
    let mut max_word_len: usize = 0;
    let mut i: usize = 0;
    proof {
        assert(all.take(0) =~= Seq::empty());
        reveal_strlit(" ");
    }
    while i < words.len()
        invariant
            i <= words.len(),
            all == word_views(words@),
            max == max_width,
            max_width <= 26214,
            " "@ == seq![' '],
            lines@.len() == wrap(all.take(i as int), max).closed.len(),
            forall|j: int|
                0 <= j < lines@.len() ==> (#[trigger] lines@[j])@ == faint_line(
                    joined(wrap(all.take(i as int), max).closed[j]) + seq![' '],
                ),
            line@ == joined(wrap(all.take(i as int), max).open),
            line_len == line@.len(),
            count == wrap(all.take(i as int), max).open.len(),
            line_cost(wrap(all.take(i as int), max).open) == (if count == 0 {
                0
            } else {
                line_len + 1
            }),
            max_word_len == longest(all.take(i as int)),
        decreases words.len() - i,
    {
        let word = &words[i];
        let word_len = word.as_str().unicode_len();
        let ghost before = wrap(all.take(i as int), max);
        proof {
            assert(all.take(i + 1).drop_last() =~= all.take(i as int));
            assert(all.take(i + 1).last() == word@);
        }
        if word_len > max_word_len {
            max_word_len = word_len;
        }
        let fits = count < MAX_WORDS_PER_LINE && word_len < max_width && (count == 0 || line_len
            < max_width) && (if count == 0 {
            0
        } else {
            line_len + 1
        }) + word_len + 1 <= max_width;
        assert(fits == takes(before.open, word@, max));
        if fits {
            if count == 0 {
                line = word.clone();
                line_len = word_len;
                proof {
                    assert(before.open.push(word@).drop_last() =~= before.open);
                }
            } else {
                line.append(" ");
                line.append(word.as_str());
                line_len = line_len + 1 + word_len;
                proof {
                    assert(before.open.push(word@).drop_last() =~= before.open);
                }
            }
            count = count + 1;
        } else {
            line.append(" ");
            let closed = Text::new(line).with_faint();
            lines.push(closed);
            line = word.clone();
            line_len = word_len;
            count = 1;
            proof {
                assert(seq![word@].drop_last() =~= Seq::<Seq<char>>::empty());
                assert(line_cost(Seq::<Seq<char>>::empty()) == 0);
                assert(line_cost(seq![word@]) == word_len + 1);
            }
        }
        i = i + 1;
    }
    proof {
        assert(all.take(i as int) =~= all);
    }
    lines.push(Text::new(line).with_faint());
    proof {
        assert(lines@.len() == line_texts(all, max).len());
        assert(shows(lines@, line_texts(all, max)));
    }
    let required: u128 = lines.len() as u128 + reserved_rows as u128 + 2;
    let columns: u128 = if max_word_len as u128 + 2 >= MIN_LINE_WIDTH as u128 {
        max_word_len as u128 + 2
    } else {
        MIN_LINE_WIDTH as u128
    };
    if required > size.1 as u128 {
        Err(TypeingError::too_few_rows(required, size.1))
    } else if columns > size.0 as u128 {
        Err(TypeingError::too_few_columns(columns, size.0))
    } else {
        Ok(lines)
    }
}

/// All the words of the lines, in order.
pub open spec fn words_of(lines: Seq<Seq<Seq<char>>>) -> Seq<Seq<char>>
    decreases lines.len(),
{
    if lines.len() == 0 {
        Seq::empty()
    } else {
        words_of(lines.drop_last()) + lines.last()
    }
}

/// A word as the layout expects it: at least one character, and no space.
pub open spec fn is_word(word: Seq<char>) -> bool {
    word.len() > 0 && !word.contains(' ')
}

/// The text ends in a space, and in one only.
pub open spec fn ends_in_one_space(text: Seq<char>) -> bool {
    &&& text.len() >= 1
    &&& text.last() == ' '
    &&& text.len() >= 2 ==> text[text.len() - 2] != ' '
}

/// What wrapping keeps: the words and their order, at most
/// `MAX_WORDS_PER_LINE` words in a line, at most `max_width` columns in a line
/// of two words or more, and no empty line but the first, which is empty where
/// the first word alone is wider than a line may be.
pub open spec fn well_wrapped(
    words: Seq<Seq<char>>,
    max_width: nat,
    lines: Seq<Seq<Seq<char>>>,
) -> bool {
    &&& words_of(lines) == words
    &&& lines.len() >= 1
    &&& forall|i: int| 0 <= i < lines.len() ==> (#[trigger] lines[i]).len() <= MAX_WORDS_PER_LINE
    &&& forall|i: int|
        0 <= i < lines.len() && (#[trigger] lines[i]).len() >= 2 ==> line_cost(lines[i])
            <= max_width
    &&& forall|i: int| 1 <= i < lines.len() ==> (#[trigger] lines[i]).len() >= 1
    &&& words.len() > 0 ==> lines.last().len() >= 1
}

/// Wrapping keeps what `well_wrapped` says.
pub proof fn lemma_wrap_is_well_wrapped(words: Seq<Seq<char>>, max_width: nat)
    ensures
        well_wrapped(words, max_width, wrap(words, max_width).lines()),
    decreases words.len(),
{
    let now = wrap(words, max_width);
    if words.len() == 0 {
        assert(now.lines().drop_last() =~= Seq::<Seq<Seq<char>>>::empty());
        assert(words_of(Seq::<Seq<Seq<char>>>::empty()) =~= Seq::<Seq<char>>::empty());
        assert(now.lines().last() =~= Seq::<Seq<char>>::empty());
        assert(words_of(now.lines()) =~= words);
    } else {
        let before = wrap(words.drop_last(), max_width);
        lemma_wrap_is_well_wrapped(words.drop_last(), max_width);
        assert(before.lines().drop_last() =~= before.closed);
        assert(before.lines().last() == before.open);
        if takes(before.open, words.last(), max_width) {
            assert(now.lines().drop_last() =~= before.closed);
            assert(now.open.drop_last() =~= before.open);
            assert(words_of(now.lines()) =~= words_of(before.lines()).push(words.last()));
            assert(words_of(before.lines()).push(words.last()) =~= words);
            assert forall|i: int| 0 <= i < now.lines().len() implies {
                &&& (#[trigger] now.lines()[i]).len() <= MAX_WORDS_PER_LINE
                &&& now.lines()[i].len() >= 2 ==> line_cost(now.lines()[i]) <= max_width
                &&& i >= 1 ==> now.lines()[i].len() >= 1
            } by {
                if i < before.closed.len() {
                    assert(now.lines()[i] == before.lines()[i]);
                }
            }
        } else {
            assert(now.lines().drop_last() =~= before.lines());
            assert(words_of(now.lines()) =~= words_of(before.lines()).push(words.last()));
            assert(words_of(before.lines()).push(words.last()) =~= words);
            assert forall|i: int| 0 <= i < now.lines().len() implies {
                &&& (#[trigger] now.lines()[i]).len() <= MAX_WORDS_PER_LINE
                &&& now.lines()[i].len() >= 2 ==> line_cost(now.lines()[i]) <= max_width
                &&& i >= 1 ==> now.lines()[i].len() >= 1
            } by {
                if i < before.lines().len() {
                    assert(now.lines()[i] == before.lines()[i]);
                }
            }
        }
    }
}

/// What holds of every word holds of every word of every line.
pub proof fn lemma_wrap_words_hold(
    words: Seq<Seq<char>>,
    max_width: nat,
    holds: spec_fn(Seq<char>) -> bool,
)
    requires
        forall|j: int| 0 <= j < words.len() ==> holds(#[trigger] words[j]),
    ensures
        forall|i: int, k: int|
            0 <= i < wrap(words, max_width).lines().len() && 0 <= k < wrap(
                words,
                max_width,
            ).lines()[i].len() ==> holds(#[trigger] wrap(words, max_width).lines()[i][k]),
    decreases words.len(),
{
    let now = wrap(words, max_width);
    if words.len() > 0 {
        let before = wrap(words.drop_last(), max_width);
        assert forall|j: int| 0 <= j < words.drop_last().len() implies holds(
            #[trigger] words.drop_last()[j],
        ) by {
            assert(words.drop_last()[j] == words[j]);
        }
        lemma_wrap_words_hold(words.drop_last(), max_width, holds);
        assert(holds(words[words.len() - 1]));
        assert forall|i: int, k: int|
            0 <= i < now.lines().len() && 0 <= k < now.lines()[i].len() implies holds(
            #[trigger] now.lines()[i][k],
        ) by {
            if takes(before.open, words.last(), max_width) {
                if i < before.closed.len() {
                    assert(now.lines()[i][k] == before.lines()[i][k]);
                } else if k < before.open.len() {
                    assert(now.lines()[i][k] == before.lines()[i][k]);
                }
            } else {
                if i < before.lines().len() {
                    assert(now.lines()[i][k] == before.lines()[i][k]);
                }
            }
        }
    }
}

/// The words of a line and the spaces between them take one column less than
/// the line's cost, which counts a space after the last word too.
pub proof fn lemma_joined_len(line: Seq<Seq<char>>)
    ensures
        joined(line).len() == (if line.len() == 0 {
            0
        } else {
            line_cost(line) - 1
        }),
    decreases line.len(),
{
    if line.len() == 1 {
        assert(line.drop_last() =~= Seq::empty());
        assert(line_cost(line.drop_last()) == 0);
    } else if line.len() >= 2 {
        lemma_joined_len(line.drop_last());
    }
}

/// No word is longer than the longest.
pub proof fn lemma_longest_bounds(words: Seq<Seq<char>>)
    ensures
        forall|j: int| 0 <= j < words.len() ==> (#[trigger] words[j]).len() <= longest(words),
    decreases words.len(),
{
    if words.len() > 0 {
        lemma_longest_bounds(words.drop_last());
        assert forall|j: int| 0 <= j < words.len() implies (#[trigger] words[j]).len() <= longest(
            words,
        ) by {
            if j < words.len() - 1 {
                assert(words.drop_last()[j] == words[j]);
            }
        }
    }
}

/// On a terminal that is wide enough for the words, no line of the block is
/// wider than the terminal.
pub proof fn lemma_lines_fit(words: Seq<Seq<char>>, cols: nat)
    requires
        min_columns(words) <= cols,
    ensures
        forall|i: int|
            0 <= i < line_texts(words, max_line_width(cols)).len() ==> (#[trigger] line_texts(
                words,
                max_line_width(cols),
            )[i]).len() <= cols,
{
    let max = max_line_width(cols);
    let lines = wrap(words, max).lines();
    let texts = line_texts(words, max);
    let short = |word: Seq<char>| word.len() + 2 <= cols;
    lemma_longest_bounds(words);
    lemma_wrap_is_well_wrapped(words, max);
    lemma_wrap_words_hold(words, max, short);
    assert forall|i: int| 0 <= i < texts.len() implies (#[trigger] texts[i]).len() <= cols by {
        lemma_joined_len(lines[i]);
        if lines[i].len() == 1 {
            assert(short(lines[i][0]));
        }
    }
}

/// Layout as a partition of the words: every word stands in one line, in the
/// order given; a line holds at most `MAX_WORDS_PER_LINE` words, with one space
/// between neighbours; every line but the last ends in a space, and in one only
/// where the words are words in the sense of `is_word`. With at least
/// `MIN_LINE_WIDTH` columns and the rows that the lines need, these lines are
/// the block.
pub proof fn lemma_layout_partitions(
    words: Seq<Seq<char>>,
    cols: nat,
    rows: nat,
    reserved_rows: nat,
)
    requires
        words.len() > 0,
        cols >= longest(words) + 2,
    ensures
        ({
            let lines = wrap(words, max_line_width(cols)).lines();
            let texts = line_texts(words, max_line_width(cols));
            &&& words_of(lines) == words
            &&& texts.len() == lines.len()
            &&& forall|i: int|
                0 <= i < lines.len() ==> (#[trigger] lines[i]).len() <= MAX_WORDS_PER_LINE
            &&& forall|i: int|
                0 <= i < lines.len() - 1 ==> #[trigger] texts[i] == joined(lines[i]) + seq![' ']
            &&& texts.last() == joined(lines.last())
            &&& (forall|j: int| 0 <= j < words.len() ==> is_word(#[trigger] words[j])) ==> forall|
                i: int,
            | 0 <= i < lines.len() - 1 ==> ends_in_one_space(#[trigger] texts[i])
            &&& cols >= MIN_LINE_WIDTH && required_rows(words, cols, reserved_rows) <= rows
                ==> layout(words, cols, rows, reserved_rows) == Ok::<Seq<Seq<char>>, Seq<char>>(
                texts,
            )
        }),
{
    let max = max_line_width(cols);
    let lines = wrap(words, max).lines();
    let texts = line_texts(words, max);
    lemma_wrap_is_well_wrapped(words, max);
    if forall|j: int| 0 <= j < words.len() ==> is_word(#[trigger] words[j]) {
        lemma_wrap_words_hold(words, max, |word: Seq<char>| is_word(word));
        assert forall|i: int| 0 <= i < lines.len() - 1 implies ends_in_one_space(
            #[trigger] texts[i],
        ) by {
            let line = lines[i];
            if line.len() >= 1 {
                assert(is_word(line[line.len() - 1]));
                assert(line.last().contains(line.last().last()));
            }
        }
    }
}

/// A terminal with fewer rows than the block needs is refused, and is told how
/// many rows the block needs.
pub proof fn lemma_short_terminal(words: Seq<Seq<char>>, cols: nat, rows: nat, reserved_rows: nat)
    requires
        line_texts(words, max_line_width(cols)).len() + reserved_rows + 2 > rows,
    ensures
        layout(words, cols, rows, reserved_rows) == Err::<Seq<Seq<char>>, Seq<char>>(
            height_message(
                line_texts(words, max_line_width(cols)).len() + reserved_rows + 2,
                rows,
            ),
        ),
{
}

} // verus!
