use crustle::score::compare;
use crustle::score::KeyResult::{CorrectPosition as C, IncorrectPosition as I, NotInWord as N};

#[test]
fn exact_guess_is_all_correct() {
    assert_eq!(compare("crane", "crane"), [C, C, C, C, C]);
    assert_eq!(compare("eerie", "eerie"), [C, C, C, C, C]);
}

#[test]
fn disjoint_guess_is_all_absent() {
    assert_eq!(compare("lumpy", "crane"), [N, N, N, N, N]);
    assert_eq!(compare("fjord", "thumb"), [N, N, N, N, N]);
}

#[test]
fn single_letter_consumed_by_exact_match() {
    assert_eq!(compare("lever", "mover"), [N, N, C, C, C]);
}

#[test]
fn repeated_letter_misplaced_and_exact() {
    assert_eq!(compare("lever", "knees"), [N, I, N, C, N]);
}

#[test]
fn earlier_position_wins_the_misplaced_letter() {
    assert_eq!(compare("speed", "abide"), [N, N, I, N, I]);
}

#[test]
fn credited_letters_never_exceed_answer_count() {
    assert_eq!(compare("eeeee", "lever"), [N, C, N, C, N]);
    assert_eq!(compare("aaabb", "babab"), [I, C, N, I, C]);
}

#[test]
fn scoring_is_repeatable() {
    let first = compare("train", "crane");
    let second = compare("train", "crane");
    assert_eq!(first, second);
}

#[test]
fn mixed_classification() {
    assert_eq!(compare("train", "crane"), [N, C, C, N, I]);
    assert_eq!(compare("nacre", "crane"), [I, I, I, I, C]);
}
