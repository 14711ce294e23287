use ansi_term::Colour::{Green, Red, White, RGB};
use wordler::render::{cell, render_turn, tints, Tint};
use wordler::wordle::{Input, Match, PlayResult};

fn turn() -> [Input; 5] {
    [
        Input { chr: b'D', mch: Match::AbsentInWord },
        Input { chr: b'R', mch: Match::ExactLocation },
        Input { chr: b'E', mch: Match::PresentInWord },
        Input { chr: b'A', mch: Match::PresentInWord },
        Input { chr: b'M', mch: Match::AbsentInWord },
    ]
}

#[test]
fn turn_is_painted_letter_by_letter() {
    let expected = format!(
        "{:3}{:3}{:3}{:3}{:3}",
        White.bold().on(Red).paint(" D "),
        RGB(0, 0, 0).bold().on(Green).paint(" R "),
        RGB(0, 0, 0).bold().on(RGB(255, 255, 0)).paint(" E "),
        RGB(0, 0, 0).bold().on(RGB(255, 255, 0)).paint(" A "),
        White.bold().on(Red).paint(" M "),
    );
    assert_eq!(render_turn(&turn()), expected);
    assert!(render_turn(&turn()).contains(" D "));
}

#[test]
fn each_match_has_its_own_colours() {
    assert_eq!(tints(Match::AbsentInWord), (Tint::White, Tint::Red));
    assert_eq!(tints(Match::ExactLocation), (Tint::Rgb(0, 0, 0), Tint::Green));
    assert_eq!(tints(Match::PresentInWord), (Tint::Rgb(0, 0, 0), Tint::Rgb(255, 255, 0)));
}

#[test]
fn turn_result_renders_the_turn() {
    assert_eq!(PlayResult::TurnResult(turn()).render(), render_turn(&turn()));
}

#[test]
fn win_renders_turn_and_congratulations() {
    let t = [Input { chr: b'A', mch: Match::ExactLocation }; 5];
    let text = PlayResult::YouWon(t).render();
    assert_eq!(text, format!("{}\nCongratulations you won! 🎉\n", render_turn(&t)));
}

#[test]
fn loss_reveals_the_word() {
    let text = PlayResult::YouLost(String::from("ARIEL")).render();
    assert_eq!(text, "The word is ARIEL. Ouch! 🤕\n");
}

#[test]
fn cell_puts_the_letter_between_spaces() {
    assert_eq!(cell(b'A'), " A ");
    assert_eq!(cell(b'Z'), " Z ");
}
