//! A word-guessing game: a hidden five-letter answer, six attempts, and each
//! guess scored letter by letter against the answer.
//!
//! [wordle::Wordle] holds the state of one game. Each call of
//! [wordle::Wordle::play] checks the guess, scores it with the two-pass
//! algorithm of [scoring], records it, and tells whether the game goes on,
//! was won or was lost.
pub mod dictionary;
pub mod render;
pub mod scoring;
pub mod text;
pub mod wordle;
