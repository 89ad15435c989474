//! The player's choices, read from single key presses.

use vstd::prelude::*;

verus! {

/// Why a key press is not a choice.
#[allow(non_camel_case_types)]
#[derive(Debug, Clone, PartialEq, Eq)]
pub enum ChoiceParseError {
    /// The key pressed, or `None` for a key that is not a character.
    INVALID_KEY(Option<char>),
    INVALID_OPTION(String),
}

/// A choice of the player.
#[allow(non_camel_case_types)]
#[derive(Debug, Clone, Copy, PartialEq, Eq, Structural)]
pub enum Choice {
    /// Pick the card of this slot number, from 1 to 4.
    OPTION(u8),
    /// Answer whether to fight with the weapon.
    FIGHT_WITH_WEAPON(bool),
    /// Avoid the room.
    RUN,
    EXIT,
}

/// The choice that a key stands for: 'q' leaves, 'y' and 'n' answer the
/// weapon question, '0' avoids the room and '1' to '4' pick a slot.
pub open spec fn choice_for_key(key: Option<char>) -> Option<Choice> {
    match key {
        Some('q') => Some(Choice::EXIT),
        Some('y') => Some(Choice::FIGHT_WITH_WEAPON(true)),
        Some('n') => Some(Choice::FIGHT_WITH_WEAPON(false)),
        Some('0') => Some(Choice::RUN),
        Some('1') => Some(Choice::OPTION(1)),
        Some('2') => Some(Choice::OPTION(2)),
        Some('3') => Some(Choice::OPTION(3)),
        Some('4') => Some(Choice::OPTION(4)),
        _ => None,
    }
}

impl Choice {
    /// The choice that a key press stands for; `None` as `key` stands for a
    /// key that is not a character. Any other key is refused.
    pub fn from_key(key: Option<char>) -> (r: Result<Choice, ChoiceParseError>)
        ensures
            choice_for_key(key) matches Some(c) ==> r == Ok::<Choice, ChoiceParseError>(c),
            choice_for_key(key) is None ==> r == Err::<Choice, ChoiceParseError>(
                ChoiceParseError::INVALID_KEY(key),
            ),
    {
        match key {
            Some('q') => Ok(Choice::EXIT),
            Some('y') => Ok(Choice::FIGHT_WITH_WEAPON(true)),
            Some('n') => Ok(Choice::FIGHT_WITH_WEAPON(false)),
            Some('0') => Ok(Choice::RUN),
            Some('1') => Ok(Choice::OPTION(1)),
            Some('2') => Ok(Choice::OPTION(2)),
            Some('3') => Ok(Choice::OPTION(3)),
            Some('4') => Ok(Choice::OPTION(4)),
            _ => Err(ChoiceParseError::INVALID_KEY(key)),
        }
    }
}

} // verus!
