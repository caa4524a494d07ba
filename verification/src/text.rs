//! Text that knows how wide it is on screen, whatever styling it carries.

use vstd::prelude::*;
use vstd::string::*;

use crate::escape::{
    faint, faint_seq, fg, fg_choice, fg_reset, fg_reset_seq, fg_seq, lemma_fg_seq_injective,
    lemma_fg_seq_shape, lemma_style_shapes, no_faint, no_faint_seq, style_reset, style_reset_seq,
    underline, underline_seq, Color,
};

verus! {

/// Something that takes a known number of columns when it is printed.
///
/// The number is not the count of bytes or characters of what is sent: styling
/// sequences take no column.
pub trait HasLength {
    /// The columns taken on one terminal row.
    spec fn visual_width(&self) -> nat;

    /// The columns taken on one terminal row.
    fn length(&self) -> (r: usize)
        requires
            self.visual_width() <= usize::MAX,
        ensures
            r == self.visual_width(),
    ;
}

/// What a `Text` stands for.
pub struct TextView {
    /// What is sent to the terminal: the content and the styling around it.
    pub display: Seq<char>,
    /// The content alone.
    pub plain: Seq<char>,
    /// The columns that the content takes.
    pub width: nat,
}

impl TextView {
    /// The width is that of the content: one column for each character.
    pub open spec fn wf(self) -> bool {
        self.width == self.plain.len()
    }

    /// Unstyled text: what is sent is the content.
    pub open spec fn plain(text: Seq<char>) -> TextView {
        TextView { display: text, plain: text, width: text.len() }
    }

    /// The same content between a sequence that switches a style on and one that
    /// switches it off.
    pub open spec fn wrapped(self, enable: Seq<char>, disable: Seq<char>) -> TextView {
        TextView { display: enable + self.display + disable, plain: self.plain, width: self.width }
    }

    /// The text, faint.
    pub open spec fn faint(self) -> TextView {
        self.wrapped(faint_seq(), no_faint_seq())
    }

    /// The text, underlined.
    pub open spec fn underlined(self) -> TextView {
        self.wrapped(underline_seq(), style_reset_seq())
    }

    /// The text in a colour, as it is sent where colours are switched on
    /// (`colored`) or off.
    pub open spec fn in_color(self, color: Color, colored: bool) -> TextView {
        self.wrapped(fg_choice(color, colored), fg_reset_seq())
    }
}

/// The sum of the widths of the pieces of one row.
pub open spec fn total_width(row: Seq<Text>) -> nat
    decreases row.len(),
{
    if row.len() == 0 {
        0
    } else {
        total_width(row.drop_last()) + row.last()@.width
    }
}

/// One piece of text, styled in one way.
///
/// A row that mixes styles is a slice of such pieces.
#[derive(Debug)]
pub struct Text {
    raw_text: String,
    text: String,
    length: usize,
}

impl View for Text {
    type V = TextView;

    closed spec fn view(&self) -> TextView {
        TextView { display: self.raw_text@, plain: self.text@, width: self.length as nat }
    }
}

impl Text {
    #[verifier::type_invariant]
    spec fn inv(self) -> bool {
        self.length == self.text@.len()
    }

    /// Unstyled text. The string must hold no styling sequence and no character
    /// that takes no column or more than one.
    pub fn new(text: String) -> (r: Text)
        ensures
            r@ == TextView::plain(text@),
            r@.width <= usize::MAX,
    {
        let length = text.as_str().unicode_len();
        Text { raw_text: text.clone(), text, length }
    }

    /// What is sent to the terminal.
    pub fn raw_text(&self) -> (r: &String)
        ensures
            r@ == self@.display,
    {
        &self.raw_text
    }

    /// The content, without styling.
    pub fn text(&self) -> (r: &String)
        ensures
            r@ == self@.plain,
    {
        &self.text
    }

    /// The columns that the text takes, which is the number of its characters.
    pub fn width(&self) -> (r: usize)
        ensures
            r == self@.width,
            self@.wf(),
            self@.width <= usize::MAX,
    {
        proof {
            use_type_invariant(self);
        }
        self.length
    }

    /// The width of a text is a number that the machine holds, so that
    /// `HasLength::length` can be asked of any text.
    pub proof fn lemma_width_fits(self)
        ensures
            self@.width <= usize::MAX,
            self.visual_width() <= usize::MAX,
    {
    }

    /// Puts what is sent so far between `enable` and `disable`.
    pub fn wrapped(self, enable: &str, disable: &str) -> (r: Text)
        ensures
            r@ == self@.wrapped(enable@, disable@),
            r@.width <= usize::MAX,
    {
        proof {
            use_type_invariant(&self);
        }
        let mut raw_text = String::from_str(enable);
        raw_text.append(self.raw_text.as_str());
        raw_text.append(disable);
        Text { raw_text, text: self.text, length: self.length }
    }

    /// The text, faint.
    pub fn with_faint(self) -> (r: Text)
        ensures
            r@ == self@.faint(),
            r@.width <= usize::MAX,
    {
        self.wrapped(faint().as_str(), no_faint().as_str())
    }

    /// The text, underlined.
    pub fn with_underline(self) -> (r: Text)
        ensures
            r@ == self@.underlined(),
            r@.width <= usize::MAX,
    {
        self.wrapped(underline().as_str(), style_reset().as_str())
    }

    /// The text in a colour. Where colours are switched off for the process, only
    /// the return to the default colour is sent.
    pub fn with_color(self, color: Color) -> (r: Text)
        ensures
            r@ == self@.in_color(color, true) || r@ == self@.in_color(color, false),
            r@.width <= usize::MAX,
    {
        self.wrapped(fg(color).as_str(), fg_reset().as_str())
    }
}

impl Clone for Text {
    fn clone(&self) -> (r: Text)
        ensures
            r == *self,
            r@.width <= usize::MAX,
    {
        proof {
            use_type_invariant(self);
        }
        Text { raw_text: self.raw_text.clone(), text: self.text.clone(), length: self.length }
    }
}

/// What `char::to_string` returns: the string of that one character.
#[verifier::external_body]
fn char_string(value: char) -> (r: String)
    ensures
        r@ == seq![value],
{
    value.to_string()
}

impl From<String> for Text {
    /// Unstyled text, as `Text::new` makes it.
    fn from(value: String) -> (r: Text)
        ensures
            r@ == TextView::plain(value@),
            r@.width <= usize::MAX,
    {
        Text::new(value)
    }
}

impl<'a> From<&'a str> for Text {
    /// Unstyled text, as `Text::new` makes it.
    fn from(value: &'a str) -> (r: Text)
        ensures
            r@ == TextView::plain(value@),
            r@.width <= usize::MAX,
    {
        Text::new(String::from_str(value))
    }
}

impl From<char> for Text {
    /// Unstyled text of one character.
    fn from(value: char) -> (r: Text)
        ensures
            r@ == TextView::plain(seq![value]),
            r@.width <= usize::MAX,
    {
        Text::new(char_string(value))
    }
}

// What `from` returns is stated by its own `ensures`, on the view: no function
// of the argument alone names the `Text` itself.
impl vstd::std_specs::convert::FromSpecImpl<String> for Text {
    open spec fn obeys_from_spec() -> bool {
        false
    }

    closed spec fn from_spec(value: String) -> Text {
        arbitrary()
    }
}

impl<'a> vstd::std_specs::convert::FromSpecImpl<&'a str> for Text {
    open spec fn obeys_from_spec() -> bool {
        false
    }

    closed spec fn from_spec(value: &'a str) -> Text {
        arbitrary()
    }
}

impl vstd::std_specs::convert::FromSpecImpl<char> for Text {
    open spec fn obeys_from_spec() -> bool {
        false
    }

    closed spec fn from_spec(value: char) -> Text {
        arbitrary()
    }
}

impl HasLength for Text {
    open spec fn visual_width(&self) -> nat {
        self@.width
    }

    fn length(&self) -> (r: usize) {
        self.length
    }
}

impl HasLength for [Text] {
    open spec fn visual_width(&self) -> nat {
        total_width(self@)
    }

    fn length(&self) -> (r: usize) {
        let mut sum: usize = 0;
        let mut i: usize = 0;
        while i < self.len()
            invariant
                i <= self.len(),
                sum == total_width(self@.take(i as int)),
                total_width(self@) <= usize::MAX,
            decreases self.len() - i,
        {
            proof {
                assert(self@.take(i + 1).drop_last() =~= self@.take(i as int));
                lemma_total_width_prefix(self@, i + 1);
            }
            sum = sum + self[i].width();
            i = i + 1;
        }
        proof {
            assert(self@.take(i as int) =~= self@);
        }
        sum
    }
}

/// The width of the first `n` pieces is at most the width of them all.
pub proof fn lemma_total_width_prefix(row: Seq<Text>, n: int)
    requires
        0 <= n <= row.len(),
    ensures
        total_width(row.take(n)) <= total_width(row),
    decreases row.len() - n,
{
    if n < row.len() {
        lemma_total_width_prefix(row, n + 1);
        assert(row.take(n + 1).drop_last() =~= row.take(n));
    } else {
        assert(row.take(n) =~= row);
    }
}

/// Rows whose pieces have the same widths are as wide as each other, however
/// the pieces are styled.
pub proof fn lemma_total_width_ignores_styling(a: Seq<Text>, b: Seq<Text>)
    requires
        a.len() == b.len(),
        forall|i: int| 0 <= i < a.len() ==> (#[trigger] a[i])@.width == b[i]@.width,
    ensures
        total_width(a) == total_width(b),
    decreases a.len(),
{
    if a.len() > 0 {
        assert(a.last()@.width == b[a.len() - 1]@.width);
        assert forall|i: int| 0 <= i < a.drop_last().len() implies {
            (#[trigger] a.drop_last()[i])@.width == b.drop_last()[i]@.width
        } by {
            assert(a[i]@.width == b[i]@.width);
        }
        lemma_total_width_ignores_styling(a.drop_last(), b.drop_last());
    }
}

/// Wrappings of different lengths give different texts.
proof fn lemma_wrapping_differs_in_length(
    core: Seq<char>,
    on_a: Seq<char>,
    off_a: Seq<char>,
    on_b: Seq<char>,
    off_b: Seq<char>,
)
    requires
        on_a.len() + off_a.len() != on_b.len() + off_b.len(),
    ensures
        on_a + core + off_a != on_b + core + off_b,
{
    assert((on_a + core + off_a).len() != (on_b + core + off_b).len());
}

/// Wrappings whose starts differ in one place give different texts.
proof fn lemma_wrapping_differs_at(
    core: Seq<char>,
    on_a: Seq<char>,
    off_a: Seq<char>,
    on_b: Seq<char>,
    off_b: Seq<char>,
    i: int,
)
    requires
        0 <= i < on_a.len(),
        i < on_b.len(),
        on_a[i] != on_b[i],
    ensures
        on_a + core + off_a != on_b + core + off_b,
{
    assert((on_a + core + off_a)[i] == on_a[i]);
    assert((on_b + core + off_b)[i] == on_b[i]);
}

/// Wrappings that give the same text and end alike start alike.
proof fn lemma_wrapping_same_start(
    core: Seq<char>,
    on_a: Seq<char>,
    on_b: Seq<char>,
    off: Seq<char>,
)
    requires
        on_a + core + off == on_b + core + off,
    ensures
        on_a == on_b,
{
    let a = on_a + core + off;
    let b = on_b + core + off;
    assert(a.len() == on_a.len() + core.len() + off.len());
    assert(b.len() == on_b.len() + core.len() + off.len());
    assert(on_a =~= a.take(on_a.len() as int));
    assert(on_b =~= b.take(on_b.len() as int));
}

/// Styling changes what is sent and nothing else: the content and its width
/// stay, and two different styles of the same text are sent differently. Two
/// different colours are told apart where colours are switched on; where they
/// are off, a colour still differs from faint and from underlined text.
pub proof fn lemma_styles_differ(t: TextView, c: Color, d: Color, colored: bool)
    ensures
        t.faint().plain == t.plain && t.faint().width == t.width,
        t.underlined().plain == t.plain && t.underlined().width == t.width,
        t.in_color(c, colored).plain == t.plain && t.in_color(c, colored).width == t.width,
        t.faint().display != t.underlined().display,
        t.faint().display != t.in_color(c, colored).display,
        t.underlined().display != t.in_color(c, colored).display,
        c != d ==> t.in_color(c, true).display != t.in_color(d, true).display,
{
    let on = fg_choice(c, colored);
    lemma_style_shapes();
    lemma_fg_seq_shape(c);
    lemma_wrapping_differs_at(
        t.display,
        faint_seq(),
        no_faint_seq(),
        underline_seq(),
        style_reset_seq(),
        2,
    );
    if on.len() == 0 {
        lemma_wrapping_differs_in_length(
            t.display,
            faint_seq(),
            no_faint_seq(),
            on,
            fg_reset_seq(),
        );
        lemma_wrapping_differs_in_length(
            t.display,
            underline_seq(),
            style_reset_seq(),
            on,
            fg_reset_seq(),
        );
    } else {
        lemma_wrapping_differs_at(t.display, faint_seq(), no_faint_seq(), on, fg_reset_seq(), 2);
        lemma_wrapping_differs_at(
            t.display,
            underline_seq(),
            style_reset_seq(),
            on,
            fg_reset_seq(),
            2,
        );
    }
    if c != d && t.in_color(c, true).display == t.in_color(d, true).display {
        lemma_wrapping_same_start(t.display, fg_seq(c), fg_seq(d), fg_reset_seq());
        lemma_fg_seq_injective(c, d);
    }
}

} // verus!
