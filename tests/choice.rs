use scoundrel::app::{Action, CurrentScreen};
use scoundrel::game::choice::{Choice, ChoiceParseError};
use scoundrel::game::game::GameScore;

#[test]
fn keys_map_to_choices() {
    assert_eq!(Choice::from_key(Some('q')), Ok(Choice::EXIT));
    assert_eq!(Choice::from_key(Some('y')), Ok(Choice::FIGHT_WITH_WEAPON(true)));
    assert_eq!(Choice::from_key(Some('n')), Ok(Choice::FIGHT_WITH_WEAPON(false)));
    assert_eq!(Choice::from_key(Some('0')), Ok(Choice::RUN));
    assert_eq!(Choice::from_key(Some('3')), Ok(Choice::OPTION(3)));
}

#[test]
fn other_keys_are_refused() {
    assert_eq!(Choice::from_key(Some('5')), Err(ChoiceParseError::INVALID_KEY(Some('5'))));
    assert_eq!(Choice::from_key(None), Err(ChoiceParseError::INVALID_KEY(None)));
}

#[test]
fn keys_map_to_actions_by_phase() {
    assert_eq!(Action::from_key(CurrentScreen::Welcome, Some('x')), Some(Action::BeginGame));
    assert_eq!(Action::from_key(CurrentScreen::Welcome, None), Some(Action::BeginGame));
    assert_eq!(Action::from_key(CurrentScreen::Welcome, Some('q')), Some(Action::Quit));
    assert_eq!(Action::from_key(CurrentScreen::BeforeRoom, Some('y')), Some(Action::EnterRoom));
    assert_eq!(Action::from_key(CurrentScreen::BeforeRoom, Some('n')), Some(Action::AvoidRoom));
    assert_eq!(Action::from_key(CurrentScreen::BeforeRoom, Some('1')), None);
    assert_eq!(Action::from_key(CurrentScreen::ChooseCard, Some('4')), Some(Action::PlayCard(4)));
    assert_eq!(Action::from_key(CurrentScreen::ChooseCard, Some('5')), None);
    assert_eq!(
        Action::from_key(CurrentScreen::ChooseWeaponOrBareKnuckle, Some('y')),
        Some(Action::FightWithWeapon)
    );
    assert_eq!(
        Action::from_key(CurrentScreen::ChooseWeaponOrBareKnuckle, Some('n')),
        Some(Action::FightBareKnuckle)
    );
    assert_eq!(Action::from_key(CurrentScreen::ChooseWeaponOrBareKnuckle, Some('q')), None);
    assert_eq!(Action::from_key(CurrentScreen::Won, Some('q')), None);
}

#[test]
fn score_text_shows_the_score() {
    assert_eq!(GameScore(Some(15)).to_text(), "Score: 15");
    assert_eq!(GameScore(Some(-20)).to_text(), "Score: -20");
    assert_eq!(GameScore(Some(0)).to_text(), "Score: 0");
    assert_eq!(GameScore(None).to_text(), "");
}
