use wordler::scoring::{score_turn, Input, Match};
use wordler::text::{char_count, normalize, word_letters};

fn word(s: &str) -> [u8; 5] {
    word_letters(s).unwrap()
}

fn marks(t: &[Input; 5]) -> Vec<Match> {
    t.iter().map(|i| i.mch).collect()
}

#[test]
fn elite_against_greed() {
    let t = score_turn(&word("ELITE"), &word("GREED"));
    assert_eq!(
        marks(&t),
        vec![Match::PresentInWord, Match::AbsentInWord, Match::AbsentInWord, Match::AbsentInWord, Match::PresentInWord]
    );
    let letters: Vec<u8> = t.iter().map(|i| i.chr).collect();
    assert_eq!(letters, b"ELITE".to_vec());
}

#[test]
fn kelly_against_truly() {
    let t = score_turn(&word("KELLY"), &word("TRULY"));
    assert_eq!(
        marks(&t),
        vec![Match::AbsentInWord, Match::AbsentInWord, Match::AbsentInWord, Match::ExactLocation, Match::ExactLocation]
    );
}

#[test]
fn answer_against_itself_is_all_exact() {
    let t = score_turn(&word("ARIEL"), &word("ARIEL"));
    assert!(t.iter().all(|i| i.mch == Match::ExactLocation));
}

#[test]
fn exact_count_equals_agreeing_positions() {
    let pairs = [("CREAM", "DREAM"), ("EAGLE", "AGILE"), ("SPEED", "ERASE"), ("ABBEY", "BABES")];
    for (g, a) in pairs {
        let t = score_turn(&word(g), &word(a));
        let exact = t.iter().filter(|i| i.mch == Match::ExactLocation).count();
        let agree = g.bytes().zip(a.bytes()).filter(|(x, y)| x == y).count();
        assert_eq!(exact, agree);
    }
}

#[test]
fn claimed_letters_within_answer_counts() {
    let pairs = [("EERIE", "GREED"), ("SPEED", "ERASE"), ("LLAMA", "HELLO"), ("ABBEY", "BABES")];
    for (g, a) in pairs {
        let t = score_turn(&word(g), &word(a));
        for c in b'A'..=b'Z' {
            let claimed = t
                .iter()
                .filter(|i| i.chr == c && i.mch != Match::AbsentInWord)
                .count();
            let in_answer = a.bytes().filter(|x| *x == c).count();
            assert!(claimed <= in_answer);
        }
    }
}

#[test]
fn eerie_against_greed_leftmost_claims_first() {
    let t = score_turn(&word("EERIE"), &word("GREED"));
    assert_eq!(
        marks(&t),
        vec![Match::PresentInWord, Match::PresentInWord, Match::PresentInWord, Match::AbsentInWord, Match::AbsentInWord]
    );
}

#[test]
fn word_letters_takes_five_uppercase_letters_only() {
    assert_eq!(word_letters("ABCDE"), Some(*b"ABCDE"));
    assert_eq!(word_letters("ABCD"), None);
    assert_eq!(word_letters("ABCDEF"), None);
    assert_eq!(word_letters("abcde"), None);
    assert_eq!(word_letters("AB'DE"), None);
}

#[test]
fn normalize_trims_and_uppercases() {
    assert_eq!(normalize("  dream\t\n"), "DREAM");
    assert_eq!(normalize("ArIeL"), "ARIEL");
    assert_eq!(normalize("   "), "");
}

#[test]
fn char_count_counts_characters() {
    assert_eq!(char_count("ÉTUDE"), 5);
    assert_eq!(char_count(""), 0);
}
