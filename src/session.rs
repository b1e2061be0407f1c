//! A round of the game: the hidden answer, the guesses made so far, and the
//! menu offered once the answer is found.

use vstd::prelude::*;
use crate::score::{compare, score, KeyResult, WORD_LEN};
use crate::validate::{history_view, same_text, validate_guess, validation, Dictionary, GuessError};

verus! {

/// Where a round stands.
#[derive(Debug, Clone, Copy, PartialEq, Eq, Structural)]
pub enum Phase {
    /// The player is to enter a guess.
    AwaitingGuess,
    /// The answer was found; the player picks from the menu.
    PostWinMenu,
    /// The player asked for a new round.
    ReplayRequested,
    /// The player asked to quit.
    QuitRequested,
}

/// What came of an accepted guess.
#[derive(Debug, Clone, Copy, PartialEq, Eq)]
pub enum Turn {
    /// The guess is not the answer; it scored so.
    Scored([KeyResult; 5]),
    /// The guess is the answer.
    Won,
}

/// What the player picked from the menu after a win.
#[derive(Debug, Clone, Copy, PartialEq, Eq, Structural)]
pub enum MenuAction {
    /// Start a new round.
    PlayAgain,
    /// Show the instructions, then the menu again.
    ShowInstructions,
    /// Leave the game.
    Quit,
    /// Not a choice on the menu: ask again.
    Unknown,
}

/// The action that the menu line `choice` selects.
pub open spec fn menu_action(choice: Seq<char>) -> MenuAction {
    if choice == seq!['1'] {
        MenuAction::PlayAgain
    } else if choice == seq!['2'] {
        MenuAction::ShowInstructions
    } else if choice == seq!['3'] {
        MenuAction::Quit
    } else {
        MenuAction::Unknown
    }
}

/// The phase that follows the post-win menu when `action` is picked.
pub open spec fn phase_after(action: MenuAction) -> Phase {
    match action {
        MenuAction::PlayAgain => Phase::ReplayRequested,
        MenuAction::Quit => Phase::QuitRequested,
        _ => Phase::PostWinMenu,
    }
}

/// Reads the post-win menu line `choice`: "1", "2" or "3", exactly.
pub fn menu_choice(choice: &str) -> (r: MenuAction)
    ensures
        r == menu_action(choice@),
{
    if choice.unicode_len() != 1 {
        return MenuAction::Unknown;
    }
    let c = choice.get_char(0);
    assert(choice@ =~= seq![c]);
    if c == '1' {
        MenuAction::PlayAgain
    } else if c == '2' {
        MenuAction::ShowInstructions
    } else if c == '3' {
        MenuAction::Quit
    } else {
        MenuAction::Unknown
    }
}

/// Relies on rand's `SliceRandom::choose` with the thread-local generator:
/// `None` for an empty slice, else one of its elements.
#[verifier::external_body]
fn choose_word(words: &Vec<String>) -> (r: Option<String>)
    ensures
        r is None <==> words.len() == 0,
        r is Some ==> exists|i: int| 0 <= i < words.len() && words[i]@ == r->Some_0@,
{
    rand::seq::SliceRandom::choose(words.as_slice(), &mut rand::thread_rng()).cloned()
}

/// One round: the answer, the accepted guesses that missed it with their
/// scores, the count of accepted guesses, and the phase.
pub struct Session {
    answer: String,
    history: Vec<(String, [KeyResult; 5])>,
    guesses: u64,
    phase: Phase,
}

impl Session {
    /// The hidden answer.
    pub closed spec fn spec_answer(&self) -> Seq<char> {
        self.answer@
    }

    /// The accepted guesses that missed, oldest first, with their scores.
    pub closed spec fn spec_history(&self) -> Seq<(Seq<char>, Seq<KeyResult>)> {
        history_view(self.history@)
    }

    /// The number of accepted guesses.
    pub closed spec fn spec_guesses(&self) -> nat {
        self.guesses as nat
    }

    /// Where the round stands.
    pub closed spec fn spec_phase(&self) -> Phase {
        self.phase
    }

    /// The answer has five letters; every entry of the history is a
    /// five-letter word other than the answer, with its score; and the count
    /// of accepted guesses is the length of the history, plus one for the
    /// winning guess once the round is won.
    pub open spec fn wf(&self) -> bool {
        &&& self.spec_answer().len() == WORD_LEN
        &&& self.spec_guesses() == self.spec_history().len() + if self.spec_phase()
            == Phase::AwaitingGuess {
            0int
        } else {
            1int
        }
        &&& forall|i: int|
            0 <= i < self.spec_history().len() ==> {
                let e = #[trigger] self.spec_history()[i];
                &&& e.0.len() == WORD_LEN
                &&& e.0 != self.spec_answer()
                &&& e.1 == score(e.0, self.spec_answer())
            }
    }

    /// A fresh round whose answer is `answer`.
    pub fn new(answer: String) -> (s: Session)
        requires
            answer@.len() == WORD_LEN,
        ensures
            s.wf(),
            s.spec_answer() == answer@,
            s.spec_history().len() == 0,
            s.spec_guesses() == 0,
            s.spec_phase() == Phase::AwaitingGuess,
    {
        Session { answer, history: Vec::new(), guesses: 0, phase: Phase::AwaitingGuess }
    }

    /// A fresh round whose answer is drawn at random from `answers`; `None`
    /// when there is nothing to draw from.
    pub fn start(answers: &Vec<String>) -> (r: Option<Session>)
        requires
            forall|i: int| 0 <= i < answers.len() ==> (#[trigger] answers[i])@.len() == WORD_LEN,
        ensures
            r is None <==> answers.len() == 0,
            r matches Some(s) ==> {
                &&& s.wf()
                &&& exists|i: int| 0 <= i < answers.len() && answers[i]@ == s.spec_answer()
                &&& s.spec_history().len() == 0
                &&& s.spec_guesses() == 0
                &&& s.spec_phase() == Phase::AwaitingGuess
            },
    {
        match choose_word(answers) {
            None => None,
            Some(word) => Some(Session::new(word)),
        }
    }

    /// The hidden answer.
    pub fn answer(&self) -> (r: &str)
        ensures
            r@ == self.spec_answer(),
    {
        self.answer.as_str()
    }

    /// The accepted guesses that missed, oldest first, with their scores.
    pub fn history(&self) -> (r: &Vec<(String, [KeyResult; 5])>)
        ensures
            history_view(r@) == self.spec_history(),
    {
        &self.history
    }

    /// The number of accepted guesses.
    pub fn guesses(&self) -> (r: u64)
        ensures
            r == self.spec_guesses(),
    {
        self.guesses
    }

    /// Where the round stands.
    pub fn phase(&self) -> (r: Phase)
        ensures
            r == self.spec_phase(),
    {
        self.phase
    }

    /// Takes the line `guess` as the next guess of the round.
    ///
    /// A guess that `validation` refuses leaves the round as it was and
    /// returns the reason. An accepted guess is counted. If it is the answer
    /// the round is won and moves to the post-win menu; else it is scored
    /// and appended to the history.
    pub fn submit(&mut self, guess: &str, valid_words: &Dictionary) -> (r: Result<Turn, GuessError>)
        requires
            old(self).wf(),
            old(self).spec_phase() == Phase::AwaitingGuess,
            old(self).spec_guesses() < u64::MAX,
        ensures
            final(self).wf(),
            final(self).spec_answer() == old(self).spec_answer(),
            r is Err <==> validation(
                guess@,
                valid_words@,
                old(self).spec_history(),
                old(self).spec_answer(),
            ) is Err,
            r is Err ==> r->Err_0 == validation(
                guess@,
                valid_words@,
                old(self).spec_history(),
                old(self).spec_answer(),
            )->Err_0 && *final(self) == *old(self),
            r is Ok ==> final(self).spec_guesses() == old(self).spec_guesses() + 1,
            r is Ok && guess@ == old(self).spec_answer() ==> {
                &&& r->Ok_0 == Turn::Won
                &&& final(self).spec_history() == old(self).spec_history()
                &&& final(self).spec_phase() == Phase::PostWinMenu
            },
            r is Ok && guess@ != old(self).spec_answer() ==> {
                &&& r->Ok_0 is Scored
                &&& (r->Ok_0)->Scored_0@ == score(guess@, old(self).spec_answer())
                &&& final(self).spec_history() == old(self).spec_history().push(
                    (guess@, score(guess@, old(self).spec_answer())),
                )
                &&& final(self).spec_phase() == Phase::AwaitingGuess
            },
    {
        match validate_guess(guess, valid_words, &self.history, self.answer.as_str()) {
            Err(e) => Err(e),
            Ok(()) => {
                self.guesses = self.guesses + 1;
                if same_text(guess, self.answer.as_str()) {
                    self.phase = Phase::PostWinMenu;
                    Ok(Turn::Won)
                } else {
                    let scored = compare(guess, self.answer.as_str());
                    let ghost before = self.history@;
                    self.history.push((guess.to_owned(), scored));
                    assert(history_view(self.history@) =~= history_view(before).push(
                        (guess@, scored@),
                    ));
                    Ok(Turn::Scored(scored))
                }
            },
        }
    }

    /// Applies the post-win menu line `choice`: "1" asks for a new round,
    /// "3" to quit; "2" and anything else keep the menu up.
    pub fn pick(&mut self, choice: &str) -> (r: MenuAction)
        requires
            old(self).spec_phase() == Phase::PostWinMenu,
        ensures
            r == menu_action(choice@),
            final(self).spec_phase() == phase_after(r),
            final(self).spec_answer() == old(self).spec_answer(),
            final(self).spec_history() == old(self).spec_history(),
            final(self).spec_guesses() == old(self).spec_guesses(),
            old(self).wf() ==> final(self).wf(),
    {
        let action = menu_choice(choice);
        self.phase = match action {
            MenuAction::PlayAgain => Phase::ReplayRequested,
            MenuAction::Quit => Phase::QuitRequested,
            _ => Phase::PostWinMenu,
        };
        action
    }
}

} // verus!
