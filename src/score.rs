//! Scoring a guess against the answer, letter by letter.

use vstd::prelude::*;

verus! {

broadcast use vstd::array::group_array_axioms;

/// Number of letters in every guess and every answer.
pub const WORD_LEN: usize = 5;

/// What a letter of a guess tells the player.
#[derive(Debug, Clone, Copy, PartialEq, Eq, Structural)]
pub enum KeyResult {
    /// The letter stands at this position in the answer.
    CorrectPosition,
    /// The letter is in the answer, at another position.
    IncorrectPosition,
    /// The letter is not (or no more often) in the answer.
    NotInWord,
}

/// The letters of `s` among its first `n` positions at which `s` and `t`
/// differ, in order.
pub open spec fn unmatched(s: Seq<char>, t: Seq<char>, n: nat) -> Seq<char>
    decreases n,
{
    if n == 0 {
        Seq::empty()
    } else {
        let prev = unmatched(s, t, (n - 1) as nat);
        if s[n - 1] != t[n - 1] {
            prev.push(s[n - 1])
        } else {
            prev
        }
    }
}

/// How often `c` occurs in `s`.
pub open spec fn occurrences(s: Seq<char>, c: char) -> nat
    decreases s.len(),
{
    if s.len() == 0 {
        0
    } else {
        occurrences(s.drop_last(), c) + if s.last() == c {
            1nat
        } else {
            0nat
        }
    }
}

/// The classification of position `i` of `guess` against `answer`.
///
/// An exact match is `CorrectPosition`. Otherwise the letter is
/// `IncorrectPosition` while the unmatched occurrences of it in the answer are
/// not yet used up by earlier unmatched occurrences of it in the guess.
pub open spec fn classify(guess: Seq<char>, answer: Seq<char>, i: int) -> KeyResult {
    if guess[i] == answer[i] {
        KeyResult::CorrectPosition
    } else if occurrences(unmatched(guess, answer, i as nat), guess[i]) < occurrences(
        unmatched(answer, guess, WORD_LEN as nat),
        guess[i],
    ) {
        KeyResult::IncorrectPosition
    } else {
        KeyResult::NotInWord
    }
}

/// The score of `guess` against `answer`: one classification per position.
pub open spec fn score(guess: Seq<char>, answer: Seq<char>) -> Seq<KeyResult> {
    Seq::new(WORD_LEN as nat, |i: int| classify(guess, answer, i))
}

/// Appending `x` adds one occurrence of `c` exactly when `x` is `c`.
proof fn lemma_occurrences_push(s: Seq<char>, x: char, c: char)
    ensures
        occurrences(s.push(x), c) == occurrences(s, c) + if x == c {
            1nat
        } else {
            0nat
        },
{
    assert(s.push(x).drop_last() =~= s);
}

/// A letter occurs zero times exactly when it is absent.
proof fn lemma_occurrences_zero(s: Seq<char>, c: char)
    ensures
        occurrences(s, c) == 0 <==> !s.contains(c),
    decreases s.len(),
{
    if s.len() > 0 {
        lemma_occurrences_zero(s.drop_last(), c);
        if s.drop_last().contains(c) {
            let k = choose|k: int| 0 <= k < s.len() - 1 && s.drop_last()[k] == c;
            assert(s[k] == c);
        }
        if s.contains(c) && s.last() != c {
            let k = choose|k: int| 0 <= k < s.len() && s[k] == c;
            assert(s.drop_last()[k] == c);
        }
    }
}

/// A letter occurs at most as often as the sequence is long.
proof fn lemma_occurrences_bound(s: Seq<char>, c: char)
    ensures
        occurrences(s, c) <= s.len(),
    decreases s.len(),
{
    if s.len() > 0 {
        lemma_occurrences_bound(s.drop_last(), c);
    }
}

/// The unmatched letters among `n` positions are at most `n`.
proof fn lemma_unmatched_len(s: Seq<char>, t: Seq<char>, n: nat)
    ensures
        unmatched(s, t, n).len() <= n,
    decreases n,
{
    if n > 0 {
        lemma_unmatched_len(s, t, (n - 1) as nat);
    }
}

/// The characters of `s`, in order.
fn chars_of(s: &str) -> (v: Vec<char>)
    ensures
        v@ == s@,
{
    let n = s.unicode_len();
    let mut v: Vec<char> = Vec::new();
    let mut i: usize = 0;
    while i < n
        invariant
            n == s@.len(),
            i <= n,
            v@ == s@.subrange(0, i as int),
        decreases n - i,
    {
        v.push(s.get_char(i));
        i += 1;
    }
    assert(v@ =~= s@);
    v
}

/// Relies on itertools' `Itertools::unique`: it yields each distinct element
/// once, every element of its input is yielded, and they come in the order of
/// their first occurrences.
#[verifier::external_body]
fn distinct_letters(letters: &Vec<char>) -> (r: Vec<char>)
    ensures
        r@.no_duplicates(),
        forall|c: char| r@.contains(c) <==> letters@.contains(c),
        forall|i: int, j: int|
            0 <= i < j < r.len() ==> exists|p: int|
                0 <= p < letters.len() && letters[p] == #[trigger] r[i] && forall|q: int|
                    0 <= q < letters.len() && letters[q] == #[trigger] r[j] ==> p < q,
{
    itertools::Itertools::unique(letters.clone().into_iter()).collect()
}

/// How often `c` occurs in `letters`.
fn count_letter(letters: &Vec<char>, c: char) -> (n: u8)
    requires
        letters.len() <= WORD_LEN,
    ensures
        n == occurrences(letters@, c),
{
    let mut n: u8 = 0;
    let mut i: usize = 0;
    while i < letters.len()
        invariant
            i <= letters.len() <= WORD_LEN,
            n == occurrences(letters@.subrange(0, i as int), c),
        decreases letters.len() - i,
    {
        proof {
            lemma_occurrences_push(letters@.subrange(0, i as int), letters@[i as int], c);
            assert(letters@.subrange(0, i as int).push(letters@[i as int]) =~= letters@.subrange(
                0,
                i + 1,
            ));
            lemma_occurrences_bound(letters@.subrange(0, i as int), c);
        }
        if letters[i] == c {
            n = n + 1;
        }
        i += 1;
    }
    assert(letters@.subrange(0, letters.len() as int) =~= letters@);
    n
}

/// Scores `guess` against `answer`.
///
/// Exact matches are marked first, and the answer's letters that they use are
/// taken out. Every other position, from left to right, is `IncorrectPosition`
/// while an unused occurrence of its letter is left in the answer, and uses it
/// up; else `NotInWord`.
pub fn compare(guess: &str, answer: &str) -> (r: [KeyResult; 5])
    requires
        guess@.len() == WORD_LEN,
        answer@.len() == WORD_LEN,
    ensures
        r@ == score(guess@, answer@),
{
    let guess_chars = chars_of(guess);
    let answer_chars = chars_of(answer);
    let ghost g = guess@;
    let ghost a = answer@;
    let mut result = [KeyResult::NotInWord; 5];
    let mut rest: Vec<char> = Vec::new();
    let mut index: usize = 0;
    while index < WORD_LEN
        invariant
            guess_chars@ == g,
            answer_chars@ == a,
            g.len() == WORD_LEN,
            a.len() == WORD_LEN,
            index <= WORD_LEN,
            rest@ == unmatched(a, g, index as nat),
            forall|j: int|
                0 <= j < WORD_LEN ==> #[trigger] result@[j] == if j < index && g[j] == a[j] {
                    KeyResult::CorrectPosition
                } else {
                    KeyResult::NotInWord
                },
        decreases WORD_LEN - index,
    {
        if guess_chars[index] == answer_chars[index] {
            result[index] = KeyResult::CorrectPosition;
        } else {
            rest.push(answer_chars[index]);
        }
        index += 1;
    }
    proof {
        lemma_unmatched_len(a, g, WORD_LEN as nat);
    }
    let letters = distinct_letters(&rest);
    let mut counts: Vec<(char, u8)> = Vec::new();
    let mut k: usize = 0;
    while k < letters.len()
        invariant
            rest@ == unmatched(a, g, WORD_LEN as nat),
            rest.len() <= WORD_LEN,
            k <= letters.len(),
            counts.len() == k,
            forall|m: int|
                0 <= m < k ==> counts[m].0 == letters[m] && counts[m].1 == occurrences(
                    rest@,
                    letters[m],
                ),
        decreases letters.len() - k,
    {
        let c = letters[k];
        let n = count_letter(&rest, c);
        counts.push((c, n));
        k += 1;
    }
    let ghost remaining = rest@;
    index = 0;
    while index < WORD_LEN
        invariant
            guess_chars@ == g,
            answer_chars@ == a,
            g.len() == WORD_LEN,
            a.len() == WORD_LEN,
            index <= WORD_LEN,
            remaining == unmatched(a, g, WORD_LEN as nat),
            letters@.no_duplicates(),
            forall|c: char| letters@.contains(c) <==> remaining.contains(c),
            counts.len() == letters.len(),
            forall|m: int|
                0 <= m < counts.len() ==> counts[m].0 == letters[m] && counts[m].1 == occurrences(
                    remaining,
                    letters[m],
                ) - vstd::math::min(
                    occurrences(remaining, letters[m]) as int,
                    occurrences(unmatched(g, a, index as nat), letters[m]) as int,
                ),
            forall|j: int|
                0 <= j < WORD_LEN ==> #[trigger] result@[j] == if j < index {
                    classify(g, a, j)
                } else if g[j] == a[j] {
                    KeyResult::CorrectPosition
                } else {
                    KeyResult::NotInWord
                },
        decreases WORD_LEN - index,
    {
        let ghost before = unmatched(g, a, index as nat);
        if guess_chars[index] != answer_chars[index] {
            let c = guess_chars[index];
            let mut m: usize = 0;
            while m < counts.len() && counts[m].0 != c
                invariant
                    m <= counts.len(),
                    forall|p: int| 0 <= p < m ==> counts[p].0 != c,
                decreases counts.len() - m,
            {
                m += 1;
            }
            proof {
                lemma_occurrences_push(before, c, c);
                if m == counts.len() {
                    assert(!letters@.contains(c)) by {
                        if letters@.contains(c) {
                            let p = choose|p: int| 0 <= p < letters.len() && letters[p] == c;
                            assert(counts[p].0 == c);
                        }
                    }
                    lemma_occurrences_zero(remaining, c);
                }
            }
            proof {
                assert forall|p: int| 0 <= p < counts.len() && p != m implies counts[p].0 != c by {
                    if m < counts.len() && letters[p] == c {
                        assert(letters[m as int] == c);
                        assert(letters@.no_duplicates());
                    }
                }
            }
            proof {
                if m < counts.len() {
                    assert(counts[m as int].0 == c);
                    assert(letters[m as int] == c);
                    assert(counts[m as int].1 == occurrences(remaining, c) - vstd::math::min(
                        occurrences(remaining, c) as int,
                        occurrences(before, c) as int,
                    ));
                    assert(counts[m as int].1 > 0 <==> occurrences(before, c) < occurrences(
                        remaining,
                        c,
                    ));
                }
            }
            if m < counts.len() && counts[m].1 > 0 {
                let left = counts[m].1 - 1;
                counts.set(m, (c, left));
                result[index] = KeyResult::IncorrectPosition;
            }
            proof {
                assert forall|p: int| 0 <= p < counts.len() && counts[p].0 != c implies occurrences(
                    unmatched(g, a, (index + 1) as nat),
                    counts[p].0,
                ) == occurrences(before, counts[p].0) by {
                    lemma_occurrences_push(before, c, counts[p].0);
                }
            }
        }
        assert(result@[index as int] == classify(g, a, index as int));
        assert(unmatched(g, a, (index + 1) as nat) == if g[index as int] != a[index as int] {
            before.push(g[index as int])
        } else {
            before
        });
        index += 1;
    }
    assert(result@ =~= score(g, a));
    result
}

/// Number of positions below `n` at which `guess` holds `letter` and the
/// score credits it, as `CorrectPosition` or `IncorrectPosition`.
pub open spec fn credited_upto(guess: Seq<char>, answer: Seq<char>, letter: char, n: nat) -> nat
    decreases n,
{
    if n == 0 {
        0
    } else {
        credited_upto(guess, answer, letter, (n - 1) as nat) + if guess[n - 1] == letter
            && classify(guess, answer, n - 1) != KeyResult::NotInWord {
            1nat
        } else {
            0nat
        }
    }
}

/// Number of positions below `n` at which both words hold `letter`.
pub open spec fn exact_upto(guess: Seq<char>, answer: Seq<char>, letter: char, n: nat) -> nat
    decreases n,
{
    if n == 0 {
        0
    } else {
        exact_upto(guess, answer, letter, (n - 1) as nat) + if guess[n - 1] == letter && answer[n
            - 1] == letter {
            1nat
        } else {
            0nat
        }
    }
}

/// Every unmatched letter of `s` occurs in `s`.
proof fn lemma_unmatched_contains(s: Seq<char>, t: Seq<char>, n: nat, x: char)
    requires
        n <= s.len(),
        n <= t.len(),
        unmatched(s, t, n).contains(x),
    ensures
        exists|j: int| 0 <= j < n && s[j] == x,
    decreases n,
{
    let prev = unmatched(s, t, (n - 1) as nat);
    if prev.contains(x) {
        lemma_unmatched_contains(s, t, (n - 1) as nat, x);
    } else {
        let k = choose|k: int| 0 <= k < unmatched(s, t, n).len() && unmatched(s, t, n)[k] == x;
        if s[n - 1] != t[n - 1] {
            assert(k == prev.len());
        } else {
            assert(prev[k] == x);
        }
    }
}

/// The credited positions for `letter`: the exact matches, plus the unmatched
/// guess positions as long as unmatched answer occurrences remain.
proof fn lemma_credited(guess: Seq<char>, answer: Seq<char>, letter: char, n: nat)
    requires
        guess.len() == WORD_LEN,
        answer.len() == WORD_LEN,
        n <= WORD_LEN,
    ensures
        credited_upto(guess, answer, letter, n) == exact_upto(guess, answer, letter, n)
            + vstd::math::min(
            occurrences(unmatched(guess, answer, n), letter) as int,
            occurrences(unmatched(answer, guess, WORD_LEN as nat), letter) as int,
        ),
    decreases n,
{
    if n > 0 {
        let i = n - 1;
        lemma_credited(guess, answer, letter, i as nat);
        lemma_occurrences_push(unmatched(guess, answer, i as nat), guess[i], letter);
    }
}

/// The occurrences of `letter` in the answer split into exact matches and
/// unmatched ones.
proof fn lemma_answer_split(guess: Seq<char>, answer: Seq<char>, letter: char, n: nat)
    requires
        guess.len() == WORD_LEN,
        answer.len() == WORD_LEN,
        n <= WORD_LEN,
    ensures
        occurrences(answer.subrange(0, n as int), letter) == exact_upto(guess, answer, letter, n)
            + occurrences(unmatched(answer, guess, n), letter),
    decreases n,
{
    if n > 0 {
        let i = n - 1;
        lemma_answer_split(guess, answer, letter, i as nat);
        assert(answer.subrange(0, n as int) =~= answer.subrange(0, i as int).push(answer[i]));
        lemma_occurrences_push(answer.subrange(0, i as int), answer[i], letter);
        lemma_occurrences_push(unmatched(answer, guess, i as nat), answer[i], letter);
    }
}

/// A guess equal to the answer is scored `CorrectPosition` everywhere.
pub proof fn lemma_exact_guess(word: Seq<char>)
    requires
        word.len() == WORD_LEN,
    ensures
        score(word, word) == Seq::new(WORD_LEN as nat, |i: int| KeyResult::CorrectPosition),
{
    assert(score(word, word) =~= Seq::new(WORD_LEN as nat, |i: int| KeyResult::CorrectPosition));
}

/// A guess that shares no letter with the answer is scored `NotInWord`
/// everywhere.
pub proof fn lemma_disjoint_guess(guess: Seq<char>, answer: Seq<char>)
    requires
        guess.len() == WORD_LEN,
        answer.len() == WORD_LEN,
        forall|i: int, j: int| 0 <= i < WORD_LEN && 0 <= j < WORD_LEN ==> guess[i] != answer[j],
    ensures
        score(guess, answer) == Seq::new(WORD_LEN as nat, |i: int| KeyResult::NotInWord),
{
    assert forall|i: int| 0 <= i < WORD_LEN implies classify(guess, answer, i)
        == KeyResult::NotInWord by {
        let rest = unmatched(answer, guess, WORD_LEN as nat);
        if rest.contains(guess[i]) {
            lemma_unmatched_contains(answer, guess, WORD_LEN as nat, guess[i]);
        }
        lemma_occurrences_zero(rest, guess[i]);
    }
    assert(score(guess, answer) =~= Seq::new(WORD_LEN as nat, |i: int| KeyResult::NotInWord));
}

/// For every letter, the positions of the guess that hold it and that the
/// score credits (`CorrectPosition` or `IncorrectPosition`) are no more than
/// its occurrences in the answer.
pub proof fn lemma_letter_conservation(guess: Seq<char>, answer: Seq<char>, letter: char)
    requires
        guess.len() == WORD_LEN,
        answer.len() == WORD_LEN,
    ensures
        credited_upto(guess, answer, letter, WORD_LEN as nat) <= occurrences(answer, letter),
{
    lemma_credited(guess, answer, letter, WORD_LEN as nat);
    lemma_answer_split(guess, answer, letter, WORD_LEN as nat);
    assert(answer.subrange(0, WORD_LEN as int) =~= answer);
}

/// Scoring is a function of the guess and the answer alone: equal inputs
/// give equal scores.
pub proof fn lemma_score_deterministic(
    guess1: Seq<char>,
    answer1: Seq<char>,
    guess2: Seq<char>,
    answer2: Seq<char>,
)
    requires
        guess1 == guess2,
        answer1 == answer2,
    ensures
        score(guess1, answer1) == score(guess2, answer2),
{
}

} // verus!
