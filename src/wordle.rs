//! The game: its state, and the move from one state to the next.
use vstd::prelude::*;
use crate::dictionary::Dictionary;
pub use crate::scoring::{Input, Match, TurnInput};
use crate::scoring::{is_word_bytes, lemma_answer_scores_exact, score, score_turn, WORD_LEN};
use crate::text::{
    char_count, is_ascii_text, is_ascii_upper_of, is_word, normalize, normalized, to_upper, trimmed,
    upper_of, word_bytes, word_letters,
};

verus! {

/// The number of attempts a game allows.
pub const MAX_ATTEMPTS: usize = 6;

/// Why a guess was refused. A refused guess leaves the game as it was.
#[derive(Debug, Clone, Copy, PartialEq, Eq, Structural)]
pub enum GuessError {
    /// The game was already won or lost.
    GameAlreadyEnded,
    /// The guess does not have five characters.
    InvalidLength,
    /// The guess is not a word of the dictionary made of five letters.
    NotInVocabulary,
}

/// Why a game could not be set up.
#[derive(Debug, Clone, Copy, PartialEq, Eq, Structural)]
pub enum SetupError {
    /// The answer given from outside is not a five-letter word of the dictionary.
    SeedInvalid,
    /// The word the dictionary picked is not five letters.
    SampleInvalid,
}

/// Output of a single game play.
#[derive(Debug)]
pub enum PlayResult {
    /// The game goes on: how each letter of the guess matched.
    TurnResult(TurnInput),
    /// The guess was the answer: every letter matched exactly.
    YouWon(TurnInput),
    /// The last attempt missed: the answer, revealed.
    YouLost(String),
}

/// Represents the Wordle game and its state.
pub struct Wordle<'w, D: Dictionary> {
    dictionary: &'w D,
    word: String,
    letters: [u8; 5],
    guesses: Vec<TurnInput>,
    ended: bool,
}

impl<'w, D: Dictionary> Wordle<'w, D> {
    /// The answer of the game.
    pub closed spec fn answer(&self) -> Seq<char> {
        self.word@
    }

    /// The scored guesses so far, oldest first.
    pub closed spec fn history(&self) -> Seq<Seq<Input>> {
        self.guesses@.map_values(|t: TurnInput| t@)
    }

    /// Whether the game was won or lost.
    pub closed spec fn is_over(&self) -> bool {
        self.ended
    }

    /// The dictionary the game checks guesses against.
    pub closed spec fn dictionary(&self) -> &'w D {
        self.dictionary
    }

    /// The state of a game: its answer is a word of five letters, at most six
    /// guesses are recorded, and a game with six of them is over.
    pub closed spec fn wf(&self) -> bool {
        &&& is_word(self.word@)
        &&& self.letters@ == word_bytes(self.word@)
        &&& is_word_bytes(self.letters@)
        &&& self.guesses.len() <= MAX_ATTEMPTS
        &&& self.guesses.len() == MAX_ATTEMPTS ==> self.ended
    }

    /// What the state of a game holds: a five-letter answer, at most six
    /// recorded guesses, and a game with six of them is over.
    pub proof fn lemma_state(&self)
        requires
            self.wf(),
        ensures
            is_word(self.answer()),
            self.history().len() <= MAX_ATTEMPTS,
            self.history().len() == MAX_ATTEMPTS ==> self.is_over(),
    {
    }

    /// A game that has just begun.
    pub open spec fn is_fresh(&self) -> bool {
        &&& self.wf()
        &&& self.history().len() == 0
        &&& !self.is_over()
    }

    /// What an accepted guess `g` does: from state `pre` to state `post`, with
    /// result `r`. The guess is scored and recorded; it wins when it is the
    /// answer, loses when it was the last attempt, and otherwise the game goes on.
    pub open spec fn accepted(pre: Self, post: Self, g: Seq<char>, r: Result<
        PlayResult,
        GuessError,
    >) -> bool {
        let t = score(word_bytes(g), word_bytes(pre.answer()));
        let won = g == pre.answer();
        let last = pre.history().len() + 1 == MAX_ATTEMPTS;
        &&& post.wf()
        &&& post.answer() == pre.answer()
        &&& post.dictionary() == pre.dictionary()
        &&& post.history() == pre.history().push(t)
        &&& post.is_over() == (won || last)
        &&& if won {
            r matches Ok(PlayResult::YouWon(x)) && x@ == t
        } else if last {
            r matches Ok(PlayResult::YouLost(s)) && s@ == pre.answer()
        } else {
            r matches Ok(PlayResult::TurnResult(x)) && x@ == t
        }
    }

    /// An accepted guess equal to the answer wins, and every letter of it
    /// matches at its exact location.
    pub proof fn lemma_answer_wins(pre: Self, post: Self, r: Result<PlayResult, GuessError>)
        requires
            pre.wf(),
            Self::accepted(pre, post, pre.answer(), r),
        ensures
            post.is_over(),
            r matches Ok(PlayResult::YouWon(x)) && forall|i: int|
                0 <= i < WORD_LEN ==> #[trigger] x@[i].mch == Match::ExactLocation,
    {
        lemma_answer_scores_exact(word_bytes(pre.answer()));
    }

    /// An accepted guess that misses the answer leaves the game going on
    /// while fewer than six guesses are recorded; the sixth such guess loses,
    /// and the result reveals the answer.
    pub proof fn lemma_sixth_miss_loses(
        pre: Self,
        post: Self,
        g: Seq<char>,
        r: Result<PlayResult, GuessError>,
    )
        requires
            pre.wf(),
            g != pre.answer(),
            Self::accepted(pre, post, g, r),
        ensures
            post.history().len() == pre.history().len() + 1,
            post.history().len() < MAX_ATTEMPTS ==> !post.is_over() && (r matches Ok(
                PlayResult::TurnResult(_),
            )),
            post.history().len() == MAX_ATTEMPTS ==> post.is_over() && (r matches Ok(
                PlayResult::YouLost(s),
            ) && s@ == pre.answer()),
    {
    }

    /// Starts a game with `answer`, whose membership in the dictionary the
    /// caller has checked: `known` tells the outcome of that check.
    pub fn with_answer(dictionary: &'w D, answer: String, known: bool) -> (r: Result<
        Self,
        SetupError,
    >)
        ensures
            r is Ok <==> known && is_word(answer@),
            r matches Err(e) ==> e == SetupError::SeedInvalid,
            r matches Ok(g) ==> g.is_fresh() && g.answer() == answer@ && g.dictionary()
                == dictionary,
    {
        if !known {
            return Err(SetupError::SeedInvalid);
        }
        match word_letters(answer.as_str()) {
            Some(letters) => Ok(
                Wordle { dictionary, word: answer, letters, guesses: Vec::new(), ended: false },
            ),
            None => Err(SetupError::SeedInvalid),
        }
    }

    /// Create a new Wordle game with given [Dictionary], whose answer is a
    /// word the dictionary picks at random, uppercased.
    pub fn new(dictionary: &'w D) -> (r: Result<Self, SetupError>)
        ensures
            r matches Err(e) ==> e == SetupError::SampleInvalid,
            r matches Ok(g) ==> g.is_fresh() && g.dictionary() == dictionary,
            r matches Ok(g) ==> exists|s: Seq<char>|
                dictionary.accepts(s) && g.answer() == #[trigger] upper_of(s),
    {
        let sample = dictionary.random_word();
        let answer = to_upper(sample);
        match Self::with_answer(dictionary, answer, true) {
            Ok(g) => Ok(g),
            Err(_) => Err(SetupError::SampleInvalid),
        }
    }

    /// Create a new Wordle game whose answer is `seed`, uppercased. The seed
    /// must be a five-letter word of the dictionary.
    pub fn with_seed(dictionary: &'w D, seed: &str) -> (r: Result<Self, SetupError>)
        ensures
            r is Ok <==> is_word(upper_of(seed@)) && dictionary.accepts(upper_of(seed@)),
            r matches Err(e) ==> e == SetupError::SeedInvalid,
            r matches Ok(g) ==> g.is_fresh() && g.answer() == upper_of(seed@) && g.dictionary()
                == dictionary,
    {
        let answer = to_upper(seed);
        let known = dictionary.is_valid_word(answer.as_str());
        Self::with_answer(dictionary, answer, known)
    }

    /// The attempt number for the current play.
    pub fn current_attempt(&self) -> (n: u8)
        requires
            self.wf(),
        ensures
            n == self.history().len() + 1,
    {
        (self.guesses.len() + 1) as u8
    }

    /// Plays the normalized guess `word`, whose membership in the dictionary
    /// the caller has checked: `known` tells the outcome of that check.
    /// The checks come in this order: the game is over, the guess does not
    /// have five characters, the guess is not a known word of five letters.
    pub fn play_normalized(&mut self, word: &String, known: bool) -> (r: Result<
        PlayResult,
        GuessError,
    >)
        requires
            old(self).wf(),
        ensures
            final(self).wf(),
            old(self).is_over() ==> r == Err::<PlayResult, GuessError>(
                GuessError::GameAlreadyEnded,
            ),
            !old(self).is_over() && word@.len() != WORD_LEN ==> r == Err::<PlayResult, GuessError>(
                GuessError::InvalidLength,
            ),
            !old(self).is_over() && word@.len() == WORD_LEN && !(known && is_word(word@)) ==> r
                == Err::<PlayResult, GuessError>(GuessError::NotInVocabulary),
            r is Err ==> *final(self) == *old(self),
            !old(self).is_over() && known && is_word(word@) ==> Self::accepted(
                *old(self),
                *final(self),
                word@,
                r,
            ),
    {
        if self.ended {
            return Err(GuessError::GameAlreadyEnded);
        }
        if char_count(word.as_str()) != WORD_LEN {
            return Err(GuessError::InvalidLength);
        }
        if !known {
            return Err(GuessError::NotInVocabulary);
        }
        let letters = match word_letters(word.as_str()) {
            Some(b) => b,
            None => {
                return Err(GuessError::NotInVocabulary);
            },
        };
        let turn = score_turn(&letters, &self.letters);
        let ghost pre = *self;
        self.guesses.push(turn);
        assert(self.history() =~= pre.history().push(turn@));
        if word.eq(&self.word) {
            self.ended = true;
            Ok(PlayResult::YouWon(turn))
        } else if self.guesses.len() == MAX_ATTEMPTS {
            self.ended = true;
            Ok(PlayResult::YouLost(self.word.clone()))
        } else {
            Ok(PlayResult::TurnResult(turn))
        }
    }

    /// Take user input as `word` and return the play outcome. The input is
    /// trimmed and uppercased, then played as [Wordle::play_normalized] plays
    /// it, with the dictionary's verdict on it.
    pub fn play(&mut self, word: &str) -> (r: Result<PlayResult, GuessError>)
        requires
            old(self).wf(),
        ensures
            final(self).wf(),
            is_ascii_text(trimmed(word@)) ==> normalized(word@).len() == trimmed(word@).len()
                && forall|i: int|
                0 <= i < normalized(word@).len() ==> is_ascii_upper_of(
                    trimmed(word@)[i],
                    #[trigger] normalized(word@)[i],
                ),
            old(self).is_over() ==> r == Err::<PlayResult, GuessError>(
                GuessError::GameAlreadyEnded,
            ),
            !old(self).is_over() && normalized(word@).len() != WORD_LEN ==> r == Err::<
                PlayResult,
                GuessError,
            >(GuessError::InvalidLength),
            !old(self).is_over() && normalized(word@).len() == WORD_LEN && !(is_word(
                normalized(word@),
            ) && old(self).dictionary().accepts(normalized(word@))) ==> r == Err::<
                PlayResult,
                GuessError,
            >(GuessError::NotInVocabulary),
            !old(self).is_over() && is_word(normalized(word@)) && old(self).dictionary().accepts(
                normalized(word@),
            ) ==> Self::accepted(*old(self), *final(self), normalized(word@), r),
            r is Err ==> *final(self) == *old(self),
    {
        let w = normalize(word);
        let known = !self.ended && self.dictionary.is_valid_word(w.as_str());
        self.play_normalized(&w, known)
    }
}

} // verus!
