//! A five-letter word-guessing game: the scoring of a guess against the
//! hidden answer, the validation of a guess, and the session that drives a
//! round from the first guess to the post-win menu.

pub mod score;
pub mod session;
pub mod validate;
