//! The control sequences that the engine sends, and the calls that produce them.
//!
//! Each sequence is stated as a sequence of characters. The functions that
//! produce them format a value of `termion`; that they return the sequence
//! stated is taken on trust.

use vstd::prelude::*;

use crate::decimal::{decimal, lemma_decimal_splits};

verus! {

/// A foreground colour.
#[derive(Clone, Copy, Debug, PartialEq, Eq, Structural)]
pub enum Color {
    /// One of the 256 indexed colours.
    Ansi(u8),
    /// A colour by its red, green and blue parts.
    Rgb(u8, u8, u8),
    /// The terminal's default foreground.
    Reset,
}

/// Switches faint text on.
pub open spec fn faint_seq() -> Seq<char> {
    "\x1b[2m"@
}

/// Switches faint text off.
pub open spec fn no_faint_seq() -> Seq<char> {
    "\x1b[22m"@
}

/// Switches underlining on.
pub open spec fn underline_seq() -> Seq<char> {
    "\x1b[4m"@
}

/// Resets every text attribute.
pub open spec fn style_reset_seq() -> Seq<char> {
    "\x1b[m"@
}

/// Selects an indexed foreground colour.
pub open spec fn fg_ansi_seq(value: u8) -> Seq<char> {
    "\x1b[38;5;"@ + decimal(value as nat) + "m"@
}

/// Selects a foreground colour by its parts.
pub open spec fn fg_rgb_seq(r: u8, g: u8, b: u8) -> Seq<char> {
    "\x1b[38;2;"@ + decimal(r as nat) + ";"@ + decimal(g as nat) + ";"@ + decimal(b as nat) + "m"@
}

/// Selects the default foreground colour.
pub open spec fn fg_reset_seq() -> Seq<char> {
    "\x1b[39m"@
}

/// Selects `color` as the foreground.
pub open spec fn fg_seq(color: Color) -> Seq<char> {
    match color {
        Color::Ansi(value) => fg_ansi_seq(value),
        Color::Rgb(r, g, b) => fg_rgb_seq(r, g, b),
        Color::Reset => fg_reset_seq(),
    }
}

/// What selecting `color` sends: its sequence, or nothing where colours are
/// switched off. The default foreground is selected either way.
pub open spec fn fg_choice(color: Color, colored: bool) -> Seq<char> {
    if colored || color == Color::Reset {
        fg_seq(color)
    } else {
        Seq::empty()
    }
}

/// Clears the whole screen.
pub open spec fn clear_all_seq() -> Seq<char> {
    "\x1b[2J"@
}

/// Moves the cursor to column `x` of row `y`, both counted from one.
pub open spec fn goto_seq(x: u16, y: u16) -> Seq<char> {
    "\x1b["@ + decimal(y as nat) + ";"@ + decimal(x as nat) + "H"@
}

/// Moves the cursor `n` columns to the left.
pub open spec fn left_seq(n: u16) -> Seq<char> {
    "\x1b["@ + decimal(n as nat) + "D"@
}

/// Makes the cursor a blinking bar.
pub open spec fn blinking_bar_seq() -> Seq<char> {
    "\x1b[5 q"@
}

/// Makes the cursor a steady block.
pub open spec fn steady_block_seq() -> Seq<char> {
    "\x1b[2 q"@
}

/// Hides the cursor.
pub open spec fn hide_seq() -> Seq<char> {
    "\x1b[?25l"@
}

/// Shows the cursor.
pub open spec fn show_seq() -> Seq<char> {
    "\x1b[?25h"@
}

/// What `termion::style::Faint` writes when it is formatted: `ESC [ 2 m`.
#[verifier::external_body]
pub(crate) fn faint() -> (r: String)
    ensures
        r@ == faint_seq(),
{
    format!("{}", termion::style::Faint)
}

/// What `termion::style::NoFaint` writes when it is formatted: `ESC [ 2 2 m`.
#[verifier::external_body]
pub(crate) fn no_faint() -> (r: String)
    ensures
        r@ == no_faint_seq(),
{
    format!("{}", termion::style::NoFaint)
}

/// What `termion::style::Underline` writes when it is formatted: `ESC [ 4 m`.
#[verifier::external_body]
pub(crate) fn underline() -> (r: String)
    ensures
        r@ == underline_seq(),
{
    format!("{}", termion::style::Underline)
}

/// What `termion::style::Reset` writes when it is formatted: `ESC [ m`.
#[verifier::external_body]
pub(crate) fn style_reset() -> (r: String)
    ensures
        r@ == style_reset_seq(),
{
    format!("{}", termion::style::Reset)
}

/// What `termion::color::Fg` of an `AnsiValue` writes when it is formatted:
/// `ESC [ 3 8 ; 5 ;`, the value in decimal, `m`. Where the variable `NO_COLOR` is
/// set for the process, it writes nothing instead.
#[verifier::external_body]
pub(crate) fn fg_ansi(value: u8) -> (r: String)
    ensures
        r@ == fg_ansi_seq(value) || r@ == Seq::<char>::empty(),
{
    format!("{}", termion::color::Fg(termion::color::AnsiValue(value)))
}

/// What `termion::color::Fg` of an `Rgb` writes when it is formatted:
/// `ESC [ 3 8 ; 2 ;`, then the three parts in decimal with `;` between them, `m`.
/// Where the variable `NO_COLOR` is set for the process, it writes nothing
/// instead.
#[verifier::external_body]
pub(crate) fn fg_rgb(r: u8, g: u8, b: u8) -> (s: String)
    ensures
        s@ == fg_rgb_seq(r, g, b) || s@ == Seq::<char>::empty(),
{
    format!("{}", termion::color::Fg(termion::color::Rgb(r, g, b)))
}

/// What `termion::color::Fg` of `Reset` writes when it is formatted:
/// `ESC [ 3 9 m`, whether or not `NO_COLOR` is set.
#[verifier::external_body]
pub(crate) fn fg_reset() -> (r: String)
    ensures
        r@ == fg_reset_seq(),
{
    format!("{}", termion::color::Fg(termion::color::Reset))
}

/// What `termion::clear::All` writes when it is formatted: `ESC [ 2 J`.
#[verifier::external_body]
pub(crate) fn clear_all() -> (r: String)
    ensures
        r@ == clear_all_seq(),
{
    format!("{}", termion::clear::All)
}

/// What `termion::cursor::Goto` writes when it is formatted: `ESC [`, the row,
/// `;`, the column, `H`, both numbers in decimal. In a debug build termion
/// panics on the position (0, 0), which is left out here.
#[verifier::external_body]
pub(crate) fn goto(x: u16, y: u16) -> (r: String)
    requires
        x != 0 || y != 0,
    ensures
        r@ == goto_seq(x, y),
{
    format!("{}", termion::cursor::Goto(x, y))
}

/// What `termion::cursor::Left` writes when it is formatted: `ESC [`, the count
/// in decimal, `D`.
#[verifier::external_body]
pub(crate) fn left(n: u16) -> (r: String)
    ensures
        r@ == left_seq(n),
{
    format!("{}", termion::cursor::Left(n))
}

/// What `termion::cursor::BlinkingBar` writes when it is formatted:
/// `ESC [ 5 space q`.
#[verifier::external_body]
pub(crate) fn blinking_bar() -> (r: String)
    ensures
        r@ == blinking_bar_seq(),
{
    format!("{}", termion::cursor::BlinkingBar)
}

/// What `termion::cursor::SteadyBlock` writes when it is formatted:
/// `ESC [ 2 space q`.
#[verifier::external_body]
pub(crate) fn steady_block() -> (r: String)
    ensures
        r@ == steady_block_seq(),
{
    format!("{}", termion::cursor::SteadyBlock)
}

/// What `termion::cursor::Hide` writes when it is formatted: `ESC [ ? 2 5 l`.
#[verifier::external_body]
pub(crate) fn hide_cursor() -> (r: String)
    ensures
        r@ == hide_seq(),
{
    format!("{}", termion::cursor::Hide)
}

/// What `termion::cursor::Show` writes when it is formatted: `ESC [ ? 2 5 h`.
#[verifier::external_body]
pub(crate) fn show_cursor() -> (r: String)
    ensures
        r@ == show_seq(),
{
    format!("{}", termion::cursor::Show)
}

/// The sequence that selects `color`, or nothing where colours are switched off.
pub fn fg(color: Color) -> (r: String)
    ensures
        r@ == fg_choice(color, true) || r@ == fg_choice(color, false),
{
    match color {
        Color::Ansi(value) => fg_ansi(value),
        Color::Rgb(r, g, b) => fg_rgb(r, g, b),
        Color::Reset => fg_reset(),
    }
}

/// How long the sequences for styles are, and the character that tells the
/// style.
pub proof fn lemma_style_shapes()
    ensures
        faint_seq().len() == 4 && faint_seq()[2] == '2',
        no_faint_seq().len() == 5,
        underline_seq().len() == 4 && underline_seq()[2] == '4',
        style_reset_seq().len() == 3,
        fg_reset_seq().len() == 5 && fg_reset_seq()[2] == '3' && fg_reset_seq()[3] == '9',
{
    reveal_strlit("\x1b[2m");
    reveal_strlit("\x1b[22m");
    reveal_strlit("\x1b[4m");
    reveal_strlit("\x1b[m");
    reveal_strlit("\x1b[39m");
}

/// What the sequence for an indexed colour starts with, and what follows.
pub proof fn lemma_fg_ansi_shape(value: u8)
    ensures
        fg_ansi_seq(value).len() > 7,
        fg_ansi_seq(value)[2] == '3',
        fg_ansi_seq(value)[3] == '8',
        fg_ansi_seq(value)[5] == '5',
        fg_ansi_seq(value).skip(7) == decimal(value as nat) + seq!['m'] + Seq::<char>::empty(),
{
    reveal_strlit("\x1b[38;5;");
    reveal_strlit("m");
    let start = "\x1b[38;5;"@;
    let seq = fg_ansi_seq(value);
    assert(seq[2] == start[2]);
    assert(seq[3] == start[3]);
    assert(seq[5] == start[5]);
    assert(seq.skip(7) =~= decimal(value as nat) + seq!['m'] + Seq::<char>::empty());
}

/// What the sequence for a colour by its parts starts with, and what follows.
pub proof fn lemma_fg_rgb_shape(r: u8, g: u8, b: u8)
    ensures
        fg_rgb_seq(r, g, b).len() > 7,
        fg_rgb_seq(r, g, b)[2] == '3',
        fg_rgb_seq(r, g, b)[3] == '8',
        fg_rgb_seq(r, g, b)[5] == '2',
        fg_rgb_seq(r, g, b).skip(7) == decimal(r as nat) + seq![';'] + (decimal(g as nat) + seq![
            ';',
        ] + (decimal(b as nat) + seq!['m'] + Seq::<char>::empty())),
{
    reveal_strlit("\x1b[38;2;");
    reveal_strlit("m");
    reveal_strlit(";");
    let start = "\x1b[38;2;"@;
    let seq = fg_rgb_seq(r, g, b);
    assert(seq[2] == start[2]);
    assert(seq[3] == start[3]);
    assert(seq[5] == start[5]);
    assert(seq.skip(7) =~= decimal(r as nat) + seq![';'] + (decimal(g as nat) + seq![';'] + (
    decimal(b as nat) + seq!['m'] + Seq::<char>::empty())));
}

/// Every sequence that selects a colour has `3` for its third character.
pub proof fn lemma_fg_seq_shape(c: Color)
    ensures
        fg_seq(c).len() >= 5,
        fg_seq(c)[2] == '3',
{
    lemma_style_shapes();
    match c {
        Color::Ansi(value) => lemma_fg_ansi_shape(value),
        Color::Rgb(r, g, b) => lemma_fg_rgb_shape(r, g, b),
        Color::Reset => {},
    }
}

/// Two colours that are selected by the same sequence are the same colour.
pub proof fn lemma_fg_seq_injective(c: Color, d: Color)
    requires
        fg_seq(c) == fg_seq(d),
    ensures
        c == d,
{
    let none = Seq::<char>::empty();
    lemma_style_shapes();
    match c {
        Color::Ansi(value) => lemma_fg_ansi_shape(value),
        Color::Rgb(r, g, b) => lemma_fg_rgb_shape(r, g, b),
        Color::Reset => {},
    }
    match d {
        Color::Ansi(value) => lemma_fg_ansi_shape(value),
        Color::Rgb(r, g, b) => lemma_fg_rgb_shape(r, g, b),
        Color::Reset => {},
    }
    match (c, d) {
        (Color::Ansi(a), Color::Ansi(b)) => {
            lemma_decimal_splits(a as nat, b as nat, 'm', none, none);
        },
        (Color::Rgb(r1, g1, b1), Color::Rgb(r2, g2, b2)) => {
            let blue1 = decimal(b1 as nat) + seq!['m'] + none;
            let blue2 = decimal(b2 as nat) + seq!['m'] + none;
            let green1 = decimal(g1 as nat) + seq![';'] + blue1;
            let green2 = decimal(g2 as nat) + seq![';'] + blue2;
            lemma_decimal_splits(r1 as nat, r2 as nat, ';', green1, green2);
            lemma_decimal_splits(g1 as nat, g2 as nat, ';', blue1, blue2);
            lemma_decimal_splits(b1 as nat, b2 as nat, 'm', none, none);
        },
        _ => {},
    }
}

} // verus!
