//! Scoring a guess against a target word, letter by letter.

use vstd::prelude::*;
use vstd::string::*;
use vstd::utf8::*;
use crate::text::{byte_range, count_letter, lemma_ascii_byte_range, occurrences, on_boundary, split_bytes};

verus! {

/// The mark of the letter at place `at` of the guess:
///
/// - `2` where the target has the same letter at that place;
/// - else `1` where the target holds the letter at least as often as it has
///   been seen so far, the letter at `at` counted;
/// - else `0`.
///
/// The letters seen so far are those in the first `at + 1` bytes of the
/// guess. In ASCII text these are its first `at + 1` letters.
pub open spec fn mark(target: Seq<char>, guess: Seq<char>, at: int) -> char {
    if guess[at] == target[at] {
        '2'
    } else if occurrences(target, guess[at]) >= occurrences(byte_range(guess, 0, at + 1), guess[at]) {
        '1'
    } else {
        '0'
    }
}

/// The marks of all the letters of the guess, in order.
pub open spec fn marks(target: Seq<char>, guess: Seq<char>) -> Seq<char> {
    Seq::new(guess.len(), |at: int| mark(target, guess, at))
}

/// The guess can be scored against the target: the target has a letter at
/// every place of the guess, and wherever the two differ, the byte offset
/// just after that place does not fall inside a character of the guess.
pub open spec fn scorable(target: Seq<char>, guess: Seq<char>) -> bool {
    &&& guess.len() <= target.len()
    &&& forall|at: int| 0 <= at < guess.len() && guess[at] != target[at] ==> #[trigger] on_boundary(guess, at + 1)
}

/// An ASCII guess can be scored against any target that is at least as
/// long, and the letters seen so far at a place are the letters up to it.
pub proof fn lemma_ascii_guess(target: Seq<char>, guess: Seq<char>)
    requires
        is_ascii_chars(guess),
        guess.len() <= target.len(),
    ensures
        scorable(target, guess),
        forall|at: int| 0 <= at < guess.len() ==> #[trigger] byte_range(guess, 0, at + 1) == guess.take(at + 1),
{
    assert forall|at: int| 0 <= at < guess.len() implies #[trigger] on_boundary(guess, at + 1) by {
        lemma_ascii_byte_range(guess, 0, at + 1);
    }
    assert forall|at: int| 0 <= at < guess.len() implies #[trigger] byte_range(guess, 0, at + 1) == guess.take(
        at + 1,
    ) by {
        lemma_ascii_byte_range(guess, 0, at + 1);
    }
}

/// A target word and a guess at it.
pub struct Wordle {
    target: String,
    guess: String,
}

impl Wordle {
    /// The word to be found.
    pub closed spec fn target(&self) -> Seq<char> {
        self.target@
    }

    /// The word that was tried.
    pub closed spec fn guess(&self) -> Seq<char> {
        self.guess@
    }

    /// Pairs a target with a guess.
    pub fn new(target: String, guess: String) -> (wordle: Wordle)
        ensures
            wordle.target() == target@,
            wordle.guess() == guess@,
    {
        Self { target, guess }
    }

    /// Whether the guess can be scored against the target, as `check_guess` asks.
    pub fn is_scorable(&self) -> (ready: bool)
        ensures
            ready == scorable(self.target(), self.guess()),
    {
        let target = self.target.as_str();
        let guess = self.guess.as_str();
        let length = guess.unicode_len();
        if length > target.unicode_len() {
            return false;
        }
        let mut at: usize = 0;
        while at < length
            invariant
                target@ == self.target(),
                guess@ == self.guess(),
                length == guess@.len(),
                length <= target@.len(),
                at <= length,
                forall|i: int| 0 <= i < at && guess@[i] != target@[i] ==> #[trigger] on_boundary(guess@, i + 1),
            decreases length - at,
        {
            if guess.get_char(at) != target.get_char(at) && !guess.is_char_boundary(at + 1) {
                assert(!on_boundary(guess@, at + 1));
                return false;
            }
            at += 1;
        }
        true
    }

    /// The marks of the guess: one of `2`, `1` and `0` for each of its letters.
    pub fn check_guess(&self) -> (result: String)
        requires
            scorable(self.target(), self.guess()),
        ensures
            result@ == marks(self.target(), self.guess()),
    {
        let target = self.target.as_str();
        let guess = self.guess.as_str();
        let length = guess.unicode_len();
        let mut result = String::new();
        let mut at: usize = 0;
        while at < length
            invariant
                target@ == self.target(),
                guess@ == self.guess(),
                scorable(target@, guess@),
                length == guess@.len(),
                at <= length,
                result@ == marks(target@, guess@).take(at as int),
            decreases length - at,
        {
            let letter = guess.get_char(at);
            if letter == target.get_char(at) {
                proof {
                    reveal_strlit("2");
                }
                result.append("2");
            } else {
                let (seen, _) = split_bytes(guess, at + 1);
                let guess_count = count_letter(seen, letter);
                let target_count = count_letter(target, letter);
                if target_count >= guess_count {
                    proof {
                        reveal_strlit("1");
                    }
                    result.append("1");
                } else {
                    proof {
                        reveal_strlit("0");
                    }
                    result.append("0");
                }
            }
            at += 1;
        }
        result
    }
}

} // verus!
