use crustle::score::KeyResult::{CorrectPosition as C, IncorrectPosition as I, NotInWord as N};
use crustle::session::{menu_choice, MenuAction, Phase, Session, Turn};
use crustle::validate::{Dictionary, GuessError};

fn dictionary(words: &[&str]) -> Dictionary {
    Dictionary::new(words.iter().map(|w| w.to_string()).collect())
}

#[test]
fn round_won_on_second_guess() {
    let d = dictionary(&["train", "crane"]);
    let mut s = Session::new("crane".to_string());
    assert_eq!(s.phase(), Phase::AwaitingGuess);
    assert_eq!(s.submit("train", &d), Ok(Turn::Scored([N, C, C, N, I])));
    assert_eq!(s.guesses(), 1);
    assert_eq!(s.history().len(), 1);
    assert_eq!(s.submit("crane", &d), Ok(Turn::Won));
    assert_eq!(s.guesses(), 2);
    assert_eq!(s.history().len(), 1);
    assert_eq!(s.phase(), Phase::PostWinMenu);
    assert_eq!(s.answer(), "crane");
}

#[test]
fn refused_guess_changes_nothing() {
    let d = dictionary(&["train", "crane"]);
    let mut s = Session::new("crane".to_string());
    assert_eq!(s.submit("tra", &d), Err(GuessError::WrongLength));
    assert_eq!(s.submit("zzzzz", &d), Err(GuessError::NotInDictionary));
    assert_eq!(s.submit("train", &d), Ok(Turn::Scored([N, C, C, N, I])));
    assert_eq!(s.submit("train", &d), Err(GuessError::AlreadyGuessed));
    assert_eq!(s.guesses(), 1);
    assert_eq!(s.history().len(), 1);
    assert_eq!(s.phase(), Phase::AwaitingGuess);
}

#[test]
fn menu_lines() {
    assert_eq!(menu_choice("1"), MenuAction::PlayAgain);
    assert_eq!(menu_choice("2"), MenuAction::ShowInstructions);
    assert_eq!(menu_choice("3"), MenuAction::Quit);
    assert_eq!(menu_choice("4"), MenuAction::Unknown);
    assert_eq!(menu_choice(""), MenuAction::Unknown);
    assert_eq!(menu_choice("1 "), MenuAction::Unknown);
}

#[test]
fn menu_transitions() {
    let d = dictionary(&["crane"]);
    let mut s = Session::new("crane".to_string());
    assert_eq!(s.submit("crane", &d), Ok(Turn::Won));
    assert_eq!(s.pick("x"), MenuAction::Unknown);
    assert_eq!(s.phase(), Phase::PostWinMenu);
    assert_eq!(s.pick("2"), MenuAction::ShowInstructions);
    assert_eq!(s.phase(), Phase::PostWinMenu);
    assert_eq!(s.pick("1"), MenuAction::PlayAgain);
    assert_eq!(s.phase(), Phase::ReplayRequested);

    let mut t = Session::new("crane".to_string());
    assert_eq!(t.submit("crane", &d), Ok(Turn::Won));
    assert_eq!(t.pick("3"), MenuAction::Quit);
    assert_eq!(t.phase(), Phase::QuitRequested);
    assert_eq!(t.guesses(), 1);
}

#[test]
fn start_draws_from_the_answers() {
    assert!(Session::start(&Vec::new()).is_none());
    let answers = vec!["crane".to_string(), "lever".to_string()];
    for _ in 0..20 {
        let s = Session::start(&answers).unwrap();
        assert!(s.answer() == "crane" || s.answer() == "lever");
        assert_eq!(s.guesses(), 0);
        assert_eq!(s.history().len(), 0);
        assert_eq!(s.phase(), Phase::AwaitingGuess);
    }
    let single = vec!["knees".to_string()];
    assert_eq!(Session::start(&single).unwrap().answer(), "knees");
}
