//! Letter-by-letter scoring of a guess against the answer.
//!
//! A word is five uppercase ASCII letters, held as bytes. Scoring runs in two
//! passes over a table of letter budgets: exact matches first, then the
//! misplaced letters from left to right, each one using up one occurrence of
//! its letter in the answer.
use vstd::prelude::*;

verus! {

/// The number of letters in a word.
pub const WORD_LEN: usize = 5;

/// The size of the alphabet.
pub const ALPHABET_LEN: usize = 26;

/// Represent the type of match for each letter in user input.
#[derive(Debug, Clone, Copy, PartialEq, Eq, Structural)]
pub enum Match {
    /// The guessed letter stands at the same place in the answer.
    /// If the answer is "DREAM" and the guess is "CREAM", the four
    /// letters "REAM" match at their exact location.
    ExactLocation,
    /// The guessed letter occurs elsewhere in the answer, and the answer
    /// still has an occurrence of it left over. If the answer is "AGILE"
    /// and the guess is "EAGLE", "EAG" are present in the word.
    PresentInWord,
    /// The guessed letter does not occur in the answer, or every occurrence
    /// of it has already been claimed by other positions of the guess.
    AbsentInWord,
}

impl Default for Match {
    fn default() -> (r: Self)
        ensures
            r == Match::AbsentInWord,
    {
        Match::AbsentInWord
    }
}

/// One letter of a guess together with its [Match] against the answer.
#[derive(Debug, Clone, Copy, PartialEq, Eq, Structural)]
pub struct Input {
    /// The letter, an uppercase ASCII byte.
    pub chr: u8,
    /// How the letter matched.
    pub mch: Match,
}

/// All five letters of a guess and their [Match] against the answer.
pub type TurnInput = [Input; 5];

/// An uppercase ASCII letter.
pub open spec fn is_letter(b: u8) -> bool {
    65 <= b <= 90
}

/// Five uppercase ASCII letters.
pub open spec fn is_word_bytes(w: Seq<u8>) -> bool {
    w.len() == WORD_LEN && forall|i: int| 0 <= i < w.len() ==> is_letter(#[trigger] w[i])
}

/// The letter with alphabet index `k`.
pub open spec fn letter_at(k: int) -> u8 {
    (k + 65) as u8
}

/// The number of positions `j < n` where `s` holds the letter `c`.
pub open spec fn count_letter(s: Seq<u8>, c: u8, n: int) -> int
    decreases n,
{
    if n <= 0 {
        0
    } else {
        count_letter(s, c, n - 1) + if s[n - 1] == c {
            1int
        } else {
            0int
        }
    }
}

/// The number of positions `j < n` where guess and answer both hold `c`.
pub open spec fn count_exact(g: Seq<u8>, a: Seq<u8>, c: u8, n: int) -> int
    decreases n,
{
    if n <= 0 {
        0
    } else {
        count_exact(g, a, c, n - 1) + if g[n - 1] == c && a[n - 1] == c {
            1int
        } else {
            0int
        }
    }
}

/// The number of positions `j < n` where the guess holds `c` and the answer
/// holds another letter.
pub open spec fn count_misplaced(g: Seq<u8>, a: Seq<u8>, c: u8, n: int) -> int
    decreases n,
{
    if n <= 0 {
        0
    } else {
        count_misplaced(g, a, c, n - 1) + if g[n - 1] == c && a[n - 1] != c {
            1int
        } else {
            0int
        }
    }
}

/// The occurrences of `c` in the answer that exact matches leave over for
/// misplaced letters of the guess.
pub open spec fn budget(g: Seq<u8>, a: Seq<u8>, c: u8) -> int {
    count_letter(a, c, WORD_LEN as int) - count_exact(g, a, c, WORD_LEN as int)
}

/// The match of position `i` of guess `g` against answer `a`: exact where
/// the letters agree; otherwise present while the misplaced occurrences of
/// the letter to its left have not used up the letter's budget.
pub open spec fn match_at(g: Seq<u8>, a: Seq<u8>, i: int) -> Match {
    if g[i] == a[i] {
        Match::ExactLocation
    } else if count_misplaced(g, a, g[i], i) < budget(g, a, g[i]) {
        Match::PresentInWord
    } else {
        Match::AbsentInWord
    }
}

/// The scored guess: each letter of `g` with its match.
pub open spec fn score(g: Seq<u8>, a: Seq<u8>) -> Seq<Input> {
    Seq::new(WORD_LEN as nat, |i: int| Input { chr: g[i], mch: match_at(g, a, i) })
}

/// The number of positions `j < n` of a scored guess that match exactly.
pub open spec fn count_exact_marks(t: Seq<Input>, n: int) -> int
    decreases n,
{
    if n <= 0 {
        0
    } else {
        count_exact_marks(t, n - 1) + if t[n - 1].mch == Match::ExactLocation {
            1int
        } else {
            0int
        }
    }
}

/// The number of positions `j < n` where guess and answer hold the same letter.
pub open spec fn count_agreeing(g: Seq<u8>, a: Seq<u8>, n: int) -> int
    decreases n,
{
    if n <= 0 {
        0
    } else {
        count_agreeing(g, a, n - 1) + if g[n - 1] == a[n - 1] {
            1int
        } else {
            0int
        }
    }
}

/// The number of positions `j < n` of a scored guess that hold the letter `c`
/// and are marked exact or present.
pub open spec fn count_claimed(t: Seq<Input>, c: u8, n: int) -> int
    decreases n,
{
    if n <= 0 {
        0
    } else {
        count_claimed(t, c, n - 1) + if t[n - 1].chr == c && t[n - 1].mch
            != Match::AbsentInWord {
            1int
        } else {
            0int
        }
    }
}

/// A guess equal to the answer scores every letter as an exact match.
pub proof fn lemma_answer_scores_exact(a: Seq<u8>)
    requires
        is_word_bytes(a),
    ensures
        forall|i: int|
            0 <= i < WORD_LEN ==> #[trigger] score(a, a)[i] == (Input {
                chr: a[i],
                mch: Match::ExactLocation,
            }),
{
}

/// The exact matches of a scored guess are exactly the positions where guess
/// and answer hold the same letter.
pub proof fn lemma_exact_marks_agree(g: Seq<u8>, a: Seq<u8>)
    requires
        is_word_bytes(g),
        is_word_bytes(a),
    ensures
        count_exact_marks(score(g, a), WORD_LEN as int) == count_agreeing(g, a, WORD_LEN as int),
{
    lemma_exact_marks_prefix(g, a, WORD_LEN as int);
}

proof fn lemma_exact_marks_prefix(g: Seq<u8>, a: Seq<u8>, n: int)
    requires
        is_word_bytes(g),
        is_word_bytes(a),
        0 <= n <= WORD_LEN,
    ensures
        count_exact_marks(score(g, a), n) == count_agreeing(g, a, n),
    decreases n,
{
    if n > 0 {
        lemma_exact_marks_prefix(g, a, n - 1);
    }
}

/// For every letter, the positions of a scored guess that hold it and are
/// marked exact or present never outnumber its occurrences in the answer.
pub proof fn lemma_claims_within_answer(g: Seq<u8>, a: Seq<u8>, c: u8)
    requires
        is_word_bytes(g),
        is_word_bytes(a),
    ensures
        count_claimed(score(g, a), c, WORD_LEN as int) <= count_letter(a, c, WORD_LEN as int),
{
    lemma_claimed_prefix(g, a, c, WORD_LEN as int);
    lemma_exact_within_letter(g, a, c, WORD_LEN as int);
}

proof fn lemma_claimed_prefix(g: Seq<u8>, a: Seq<u8>, c: u8, n: int)
    requires
        is_word_bytes(g),
        is_word_bytes(a),
        0 <= n <= WORD_LEN,
    ensures
        count_claimed(score(g, a), c, n) == count_exact(g, a, c, n) + if count_misplaced(
            g,
            a,
            c,
            n,
        ) < budget(g, a, c) {
            count_misplaced(g, a, c, n)
        } else {
            budget(g, a, c)
        },
    decreases n,
{
    lemma_exact_within_letter(g, a, c, WORD_LEN as int);
    if n > 0 {
        lemma_claimed_prefix(g, a, c, n - 1);
    }
}

/// Exact matches of a letter never outnumber its occurrences in the answer.
pub proof fn lemma_exact_within_letter(g: Seq<u8>, a: Seq<u8>, c: u8, n: int)
    ensures
        0 <= count_exact(g, a, c, n) <= count_letter(a, c, n),
    decreases n,
{
    if n > 0 {
        lemma_exact_within_letter(g, a, c, n - 1);
    }
}

/// Counting occurrences over a longer prefix never gives fewer.
pub proof fn lemma_letter_monotone(s: Seq<u8>, c: u8, m: int, n: int)
    requires
        m <= n,
    ensures
        count_letter(s, c, m) <= count_letter(s, c, n),
    decreases n - m,
{
    if m < n {
        lemma_letter_monotone(s, c, m, n - 1);
    }
}

/// Scores `guess` against `answer`. A table holds, for each letter, how many
/// of its occurrences in the answer are still unclaimed; exact matches claim
/// theirs first, then misplaced letters claim theirs from left to right.
pub fn score_turn(guess: &[u8; 5], answer: &[u8; 5]) -> (t: TurnInput)
    requires
        is_word_bytes(guess@),
        is_word_bytes(answer@),
    ensures
        t@ == score(guess@, answer@),
{
    let ghost g = guess@;
    let ghost a = answer@;
    let mut counts: [u8; ALPHABET_LEN] = [0u8; ALPHABET_LEN];
    // The occurrences of each letter in the answer.
    for j in 0..WORD_LEN
        invariant
            is_word_bytes(a),
            a == answer@,
            forall|k: int| 0 <= k < ALPHABET_LEN ==> counts[k] == count_letter(a, letter_at(k), j as int),
            forall|k: int| 0 <= k < ALPHABET_LEN ==> counts[k] <= j,
    {
        let k = (answer[j] - 65) as usize;
        assert(letter_at(k as int) == a[j as int]);
        counts[k] = counts[k] + 1;
    }
    let blank = Input { chr: 0, mch: Match::AbsentInWord };
    let mut turn: [Input; 5] = [blank; 5];
    // First pass: exact matches use up their letter's budget.
    for i in 0..WORD_LEN
        invariant
            is_word_bytes(a),
            is_word_bytes(g),
            a == answer@,
            g == guess@,
            forall|k: int|
                0 <= k < ALPHABET_LEN ==> counts[k] == count_letter(a, letter_at(k), 5) - count_exact(
                    g,
                    a,
                    letter_at(k),
                    i as int,
                ),
            forall|k: int| 0 <= k < ALPHABET_LEN ==> counts[k] <= 5,
            forall|p: int|
                0 <= p < i ==> turn[p] == (Input {
                    chr: g[p],
                    mch: if g[p] == a[p] {
                        Match::ExactLocation
                    } else {
                        Match::AbsentInWord
                    },
                }),
    {
        let c = guess[i];
        let k = (c - 65) as usize;
        assert(letter_at(k as int) == c);
        if c == answer[i] {
            turn[i] = Input { chr: c, mch: Match::ExactLocation };
            proof {
                lemma_exact_within_letter(g, a, c, i as int + 1);
                lemma_letter_monotone(a, c, i as int + 1, 5);
            }
            counts[k] = counts[k] - 1;
        } else {
            turn[i] = Input { chr: c, mch: Match::AbsentInWord };
        }
    }
    // Second pass: misplaced letters, leftmost first, while budget lasts.
    proof {
        assert forall|k: int| 0 <= k < ALPHABET_LEN implies budget(g, a, letter_at(k)) >= 0 by {
            lemma_exact_within_letter(g, a, letter_at(k), 5);
        }
    }
    for i in 0..WORD_LEN
        invariant
            is_word_bytes(a),
            is_word_bytes(g),
            a == answer@,
            g == guess@,
            forall|k: int| 0 <= k < ALPHABET_LEN ==> budget(g, a, letter_at(k)) >= 0,
            forall|k: int|
                0 <= k < ALPHABET_LEN ==> counts[k] == if count_misplaced(g, a, letter_at(k), i as int)
                    < budget(g, a, letter_at(k)) {
                    budget(g, a, letter_at(k)) - count_misplaced(g, a, letter_at(k), i as int)
                } else {
                    0
                },
            forall|p: int|
                0 <= p < i ==> turn[p] == (Input { chr: g[p], mch: match_at(g, a, p) }),
            forall|p: int|
                i <= p < 5 ==> turn[p] == (Input {
                    chr: g[p],
                    mch: if g[p] == a[p] {
                        Match::ExactLocation
                    } else {
                        Match::AbsentInWord
                    },
                }),
    {
        let c = guess[i];
        if c != answer[i] {
            let k = (c - 65) as usize;
            assert(letter_at(k as int) == c);
            if counts[k] > 0 {
                turn[i] = Input { chr: c, mch: Match::PresentInWord };
                counts[k] = counts[k] - 1;
            }
        }
    }
    assert(turn@ =~= score(g, a));
    turn
}

} // verus!
