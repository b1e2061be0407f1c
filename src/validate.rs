//! Deciding whether a raw line of input is accepted as a guess.

use vstd::prelude::*;
use crate::score::{compare, score, KeyResult, WORD_LEN};

verus! {

/// Why a guess was refused. The player is told and tries again.
#[derive(Debug, Clone, Copy, PartialEq, Eq, Structural)]
pub enum GuessError {
    /// The guess does not have five letters.
    WrongLength,
    /// The guess is not a known word.
    NotInDictionary,
    /// The guess, with the score it gets, is already in the history.
    AlreadyGuessed,
}

/// The words accepted as guesses.
pub struct Dictionary {
    words: Vec<String>,
}

impl View for Dictionary {
    type V = Seq<Seq<char>>;

    closed spec fn view(&self) -> Seq<Seq<char>> {
        self.words@.map_values(|w: String| w@)
    }
}

impl Dictionary {
    /// A dictionary holding `words`.
    pub fn new(words: Vec<String>) -> (d: Dictionary)
        ensures
            d@ == words@.map_values(|w: String| w@),
    {
        Dictionary { words }
    }

    /// Number of words held, counted with repetition.
    pub fn len(&self) -> (n: usize)
        ensures
            n == self@.len(),
    {
        self.words.len()
    }

    /// Whether `word` is one of the words held.
    pub fn contains(&self, word: &str) -> (r: bool)
        ensures
            r == self@.contains(word@),
    {
        let mut i: usize = 0;
        while i < self.words.len()
            invariant
                i <= self.words.len(),
                forall|k: int| 0 <= k < i ==> #[trigger] self.words@[k]@ != word@,
            decreases self.words.len() - i,
        {
            if same_text(self.words[i].as_str(), word) {
                assert(self@[i as int] == word@);
                return true;
            }
            i += 1;
        }
        assert forall|k: int| 0 <= k < self@.len() implies self@[k] != word@ by {
            assert(self.words@[k]@ != word@);
        }
        false
    }
}

/// Whether `a` and `b` hold the same characters.
pub fn same_text(a: &str, b: &str) -> (r: bool)
    ensures
        r == (a@ == b@),
{
    let n = a.unicode_len();
    if n != b.unicode_len() {
        return false;
    }
    let mut i: usize = 0;
    while i < n
        invariant
            n == a@.len(),
            n == b@.len(),
            i <= n,
            a@.subrange(0, i as int) == b@.subrange(0, i as int),
        decreases n - i,
    {
        if a.get_char(i) != b.get_char(i) {
            assert(a@[i as int] != b@[i as int]);
            return false;
        }
        assert(a@.subrange(0, i + 1) =~= a@.subrange(0, i as int).push(a@[i as int]));
        assert(b@.subrange(0, i + 1) =~= b@.subrange(0, i as int).push(b@[i as int]));
        i += 1;
    }
    assert(a@ =~= a@.subrange(0, n as int));
    assert(b@ =~= b@.subrange(0, n as int));
    true
}

/// Whether two scores classify every position alike.
fn same_score(x: &[KeyResult; 5], y: &[KeyResult; 5]) -> (r: bool)
    ensures
        r == (x@ == y@),
{
    let mut i: usize = 0;
    while i < WORD_LEN
        invariant
            i <= WORD_LEN,
            forall|k: int| 0 <= k < i ==> #[trigger] x@[k] == y@[k],
        decreases WORD_LEN - i,
    {
        if x[i] != y[i] {
            return false;
        }
        i += 1;
    }
    assert(x@ =~= y@);
    true
}

/// The history of accepted guesses as text and score.
pub open spec fn history_view(history: Seq<(String, [KeyResult; 5])>) -> Seq<
    (Seq<char>, Seq<KeyResult>),
> {
    history.map_values(|e: (String, [KeyResult; 5])| (e.0@, e.1@))
}

/// The verdict on `guess`: the first of the rules on length, dictionary and
/// repetition that it breaks, else acceptance.
///
/// A guess repeats when the history holds it together with the score it gets
/// against `answer`.
pub open spec fn validation(
    guess: Seq<char>,
    dictionary: Seq<Seq<char>>,
    history: Seq<(Seq<char>, Seq<KeyResult>)>,
    answer: Seq<char>,
) -> Result<(), GuessError> {
    if guess.len() != WORD_LEN {
        Err(GuessError::WrongLength)
    } else if !dictionary.contains(guess) {
        Err(GuessError::NotInDictionary)
    } else if history.contains((guess, score(guess, answer))) {
        Err(GuessError::AlreadyGuessed)
    } else {
        Ok(())
    }
}

/// Checks `guess` against the rules on length, dictionary and repetition,
/// in that order, for a round whose answer is `word`.
pub fn validate_guess(
    guess: &str,
    valid_words: &Dictionary,
    previous_guesses: &Vec<(String, [KeyResult; 5])>,
    word: &str,
) -> (r: Result<(), GuessError>)
    requires
        word@.len() == WORD_LEN,
    ensures
        r == validation(guess@, valid_words@, history_view(previous_guesses@), word@),
{
    if guess.unicode_len() != WORD_LEN {
        return Err(GuessError::WrongLength);
    }
    if !valid_words.contains(guess) {
        return Err(GuessError::NotInDictionary);
    }
    let scored = compare(guess, word);
    let ghost h = history_view(previous_guesses@);
    let mut i: usize = 0;
    while i < previous_guesses.len()
        invariant
            i <= previous_guesses.len(),
            h == history_view(previous_guesses@),
            guess@.len() == WORD_LEN,
            valid_words@.contains(guess@),
            scored@ == score(guess@, word@),
            forall|k: int| 0 <= k < i ==> #[trigger] h[k] != (guess@, scored@),
        decreases previous_guesses.len() - i,
    {
        let entry = &previous_guesses[i];
        if same_text(entry.0.as_str(), guess) && same_score(&entry.1, &scored) {
            assert(h[i as int] == (guess@, scored@));
            assert(h.contains((guess@, scored@)));
            return Err(GuessError::AlreadyGuessed);
        }
        i += 1;
    }
    assert(!h.contains((guess@, scored@))) by {
        if h.contains((guess@, scored@)) {
            let k = choose|k: int| 0 <= k < h.len() && h[k] == (guess@, scored@);
            assert(h[k] != (guess@, scored@));
        }
    }
    Ok(())
}

/// A guess whose length is not five letters is refused as `WrongLength`,
/// whatever the dictionary and the history hold.
pub proof fn lemma_wrong_length_rejected(
    guess: Seq<char>,
    dictionary: Seq<Seq<char>>,
    history: Seq<(Seq<char>, Seq<KeyResult>)>,
    answer: Seq<char>,
)
    requires
        guess.len() != WORD_LEN,
    ensures
        validation(guess, dictionary, history, answer) == Err::<(), GuessError>(
            GuessError::WrongLength,
        ),
{
}

/// A guess that the history already holds with the score it gets is never
/// accepted; the texts are compared exactly, with no case folding.
pub proof fn lemma_repeat_rejected(
    guess: Seq<char>,
    dictionary: Seq<Seq<char>>,
    history: Seq<(Seq<char>, Seq<KeyResult>)>,
    answer: Seq<char>,
)
    requires
        history.contains((guess, score(guess, answer))),
    ensures
        validation(guess, dictionary, history, answer) is Err,
{
}

} // verus!
