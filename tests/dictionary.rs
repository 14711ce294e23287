use wordler::dictionary::{is_space, Dictionary, DictionaryError, EnglishDictionary};
use wordler::wordle::{PlayResult, Wordle};

#[test]
fn keeps_five_character_tokens_uppercased_once() {
    let d = EnglishDictionary::new("ariel Ariel  glide\ncan't a toolong\tDREAM\r\nabc").unwrap();
    assert_eq!(d.len(), 3);
    assert_eq!(d.word_at(0), "ARIEL");
    assert_eq!(d.word_at(1), "GLIDE");
    assert_eq!(d.word_at(2), "DREAM");
    assert!(d.contains("ARIEL"));
    assert!(!d.contains("ariel"));
    assert!(!d.contains("CAN'T"));
    assert!(!d.contains("TOOLONG"));
}

#[test]
fn last_token_without_trailing_space_is_kept() {
    let d = EnglishDictionary::new("  greed").unwrap();
    assert_eq!(d.len(), 1);
    assert!(d.is_valid_word("GREED"));
    assert!(d.is_valid_word("greed"));
    assert!(d.contains_uppercased("GrEeD"));
    assert!(!d.contains_uppercased("gree"));
}

#[test]
fn no_five_letter_word_is_an_error() {
    assert!(matches!(
        EnglishDictionary::new("abc defg hijklm"),
        Err(DictionaryError::EmptyVocabulary)
    ));
    assert!(matches!(EnglishDictionary::new(""), Err(DictionaryError::EmptyVocabulary)));
}

#[test]
fn sample_is_a_word_of_the_dictionary() {
    let d = EnglishDictionary::new("ariel glide dream greed truly").unwrap();
    for _ in 0..50 {
        let w = d.random_word();
        assert!(d.contains(w));
    }
}

#[test]
fn game_over_english_dictionary() {
    let d = EnglishDictionary::new("ariel glide dream").unwrap();
    let mut wordle = Wordle::with_seed(&d, "dream").unwrap();
    assert!(matches!(wordle.play("ariel"), Ok(PlayResult::TurnResult(_))));
    assert!(matches!(wordle.play("dream"), Ok(PlayResult::YouWon(_))));
}

#[test]
fn white_space_characters() {
    assert!(is_space(' '));
    assert!(is_space('\t'));
    assert!(is_space('\u{3000}'));
    assert!(!is_space('a'));
    assert!(!is_space('\u{200b}'));
}

#[test]
fn random_word_is_accepted_in_any_case() {
    let d = EnglishDictionary::new("Ariel glide").unwrap();
    let w = d.random_word().to_lowercase();
    assert!(d.is_valid_word(&w));
    assert!(!d.is_valid_word("zebra"));
}
