//! Text for a terminal: each scored letter painted in the colours of its
//! match, and the messages that end a game.
use vstd::prelude::*;
use ansi_term::Colour;
use crate::scoring::{Input, Match, TurnInput, WORD_LEN};
use crate::text::push_char;
use crate::wordle::PlayResult;

verus! {

/// A terminal colour.
#[derive(Debug, Clone, Copy, PartialEq, Eq, Structural)]
pub enum Tint {
    /// The terminal's red.
    Red,
    /// The terminal's green.
    Green,
    /// The terminal's white.
    White,
    /// A 24-bit colour.
    Rgb(u8, u8, u8),
}

/// What `paint` makes of `text` in bold, with foreground `fg` on background
/// `bg`: the text wrapped in the escape codes of the style.
pub uninterp spec fn painted(text: Seq<char>, fg: Tint, bg: Tint) -> Seq<char>;

/// Relies on ansi_term: `fg.bold().on(bg).paint(text)`, formatted as text.
#[verifier::external_body]
fn paint(text: &str, fg: Tint, bg: Tint) -> (r: String)
    ensures
        r@ == painted(text@, fg, bg),
{
    let colour = |t: Tint| match t {
        Tint::Red => Colour::Red,
        Tint::Green => Colour::Green,
        Tint::White => Colour::White,
        Tint::Rgb(r, g, b) => Colour::RGB(r, g, b),
    };
    format!("{:3}", colour(fg).bold().on(colour(bg)).paint(text))
}

/// The text of the cell of a letter: the letter between two spaces.
pub open spec fn cell_of(letter: u8) -> Seq<char> {
    seq![' ', letter as char, ' ']
}

/// The cell of a letter.
pub fn cell(letter: u8) -> (r: String)
    ensures
        r@ == cell_of(letter),
{
    let mut r = String::new();
    push_char(&mut r, ' ');
    push_char(&mut r, letter as char);
    push_char(&mut r, ' ');
    assert(r@ =~= cell_of(letter));
    r
}

/// The foreground and background colours of each kind of match: white on
/// red for absent, black on green for exact, black on yellow for present.
pub open spec fn tints_of(m: Match) -> (Tint, Tint) {
    match m {
        Match::AbsentInWord => (Tint::White, Tint::Red),
        Match::ExactLocation => (Tint::Rgb(0, 0, 0), Tint::Green),
        Match::PresentInWord => (Tint::Rgb(0, 0, 0), Tint::Rgb(255, 255, 0)),
    }
}

/// The colours of a kind of match.
pub fn tints(m: Match) -> (r: (Tint, Tint))
    ensures
        r == tints_of(m),
{
    match m {
        Match::AbsentInWord => (Tint::White, Tint::Red),
        Match::ExactLocation => (Tint::Rgb(0, 0, 0), Tint::Green),
        Match::PresentInWord => (Tint::Rgb(0, 0, 0), Tint::Rgb(255, 255, 0)),
    }
}

/// Each kind of match has colours of its own.
pub proof fn lemma_tints_distinct(m1: Match, m2: Match)
    ensures
        m1 != m2 ==> tints_of(m1) != tints_of(m2),
{
}

/// The text of one scored letter.
pub open spec fn cell_text(i: Input) -> Seq<char> {
    painted(cell_of(i.chr), tints_of(i.mch).0, tints_of(i.mch).1)
}

/// The text of the first `n` scored letters, one after the other.
pub open spec fn turn_text(t: Seq<Input>, n: int) -> Seq<char>
    decreases n,
{
    if n <= 0 {
        Seq::empty()
    } else {
        turn_text(t, n - 1) + cell_text(t[n - 1])
    }
}

/// The message that follows the winning guess.
pub open spec fn won_text() -> Seq<char> {
    "\nCongratulations you won! 🎉\n"@
}

/// The message that reveals the answer `w` of a lost game.
pub open spec fn lost_text(w: Seq<char>) -> Seq<char> {
    "The word is "@ + w + ". Ouch! 🤕\n"@
}

/// The text of a scored guess: its letters, each painted in the colours of
/// its match.
pub fn render_turn(turn: &TurnInput) -> (r: String)
    ensures
        r@ == turn_text(turn@, WORD_LEN as int),
{
    let mut r = String::new();
    for i in 0..WORD_LEN
        invariant
            r@ == turn_text(turn@, i as int),
    {
        let (fg, bg) = tints(turn[i].mch);
        let text = cell(turn[i].chr);
        let painted_cell = paint(text.as_str(), fg, bg);
        r.append(painted_cell.as_str());
    }
    r
}

impl PlayResult {
    /// The text of a play outcome: the scored guess; the scored guess and a
    /// message of success; or the answer and a message of failure.
    pub fn render(&self) -> (r: String)
        ensures
            match self {
                PlayResult::TurnResult(t) => r@ == turn_text(t@, WORD_LEN as int),
                PlayResult::YouWon(t) => r@ == turn_text(t@, WORD_LEN as int) + won_text(),
                PlayResult::YouLost(w) => r@ == lost_text(w@),
            },
    {
        match self {
            PlayResult::TurnResult(t) => render_turn(t),
            PlayResult::YouWon(t) => {
                let mut r = render_turn(t);
                r.append("\nCongratulations you won! 🎉\n");
                r
            },
            PlayResult::YouLost(w) => {
                let mut r = String::from_str("The word is ");
                r.append(w.as_str());
                r.append(". Ouch! 🤕\n");
                r
            },
        }
    }
}

} // verus!
