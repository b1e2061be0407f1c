use crustle::score::compare;
use crustle::validate::{same_text, validate_guess, Dictionary, GuessError};

fn dictionary(words: &[&str]) -> Dictionary {
    Dictionary::new(words.iter().map(|w| w.to_string()).collect())
}

#[test]
fn dictionary_membership() {
    let d = dictionary(&["crane", "train", "lever"]);
    assert_eq!(d.len(), 3);
    assert!(d.contains("train"));
    assert!(!d.contains("Train"));
    assert!(!d.contains("trai"));
    assert!(!dictionary(&[]).contains("crane"));
}

#[test]
fn texts_compare_exactly() {
    assert!(same_text("crane", "crane"));
    assert!(!same_text("crane", "Crane"));
    assert!(!same_text("crane", "cranes"));
    assert!(same_text("", ""));
}

#[test]
fn wrong_length_rejected_even_if_listed() {
    let d = dictionary(&["abc", "abcdef", "crane"]);
    let history = Vec::new();
    assert_eq!(validate_guess("abc", &d, &history, "crane"), Err(GuessError::WrongLength));
    assert_eq!(validate_guess("abcdef", &d, &history, "crane"), Err(GuessError::WrongLength));
    assert_eq!(validate_guess("", &d, &history, "crane"), Err(GuessError::WrongLength));
}

#[test]
fn unknown_word_rejected() {
    let d = dictionary(&["crane"]);
    let history = Vec::new();
    assert_eq!(validate_guess("zzzzz", &d, &history, "crane"), Err(GuessError::NotInDictionary));
}

#[test]
fn repeated_guess_rejected() {
    let d = dictionary(&["crane", "train"]);
    let history = vec![("train".to_string(), compare("train", "crane"))];
    assert_eq!(validate_guess("train", &d, &history, "crane"), Err(GuessError::AlreadyGuessed));
}

#[test]
fn repeat_check_is_case_sensitive() {
    let d = dictionary(&["crane", "train", "TRAIN"]);
    let history = vec![("train".to_string(), compare("train", "crane"))];
    assert_eq!(validate_guess("TRAIN", &d, &history, "crane"), Ok(()));
}

#[test]
fn repeat_check_keys_on_the_score_too() {
    let d = dictionary(&["crane", "train"]);
    let history = vec![("train".to_string(), compare("train", "lever"))];
    assert_eq!(validate_guess("train", &d, &history, "crane"), Ok(()));
}

#[test]
fn fresh_valid_guess_accepted() {
    let d = dictionary(&["crane", "train"]);
    assert_eq!(validate_guess("train", &d, &Vec::new(), "crane"), Ok(()));
}
