//! The outcome of a game.

use crate::text::{push_signed_decimal, signed_decimal};
use vstd::prelude::*;
use vstd::string::StringExecFns;

verus! {

/// The score of a finished game, or nothing when the player left it.
#[derive(Debug, Clone, Copy, PartialEq, Eq, Structural)]
pub struct GameScore(pub Option<i32>);

/// Text of a score: "Score: <n>", or nothing for a game that was left.
pub open spec fn score_text(score: Option<i32>) -> Seq<char> {
    match score {
        Some(n) => "Score: "@ + signed_decimal(n as int),
        None => Seq::empty(),
    }
}

impl GameScore {
    pub fn to_text(&self) -> (r: String)
        ensures
            r@ == score_text(self.0),
    {
        match self.0 {
            Some(score) => {
                let mut s = String::from_str("Score: ");
                push_signed_decimal(&mut s, score as i64);
                s
            },
            None => String::new(),
        }
    }
}

} // verus!
