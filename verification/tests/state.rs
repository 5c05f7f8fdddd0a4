use gra2d::state::GameState;

#[test]
fn game_starts_in_the_menu() {
    assert_eq!(GameState::initial(), GameState::Menu);
}

#[test]
fn menu_waits_for_the_key() {
    assert_eq!(GameState::Menu.transition(false, false), GameState::Menu);
    assert_eq!(GameState::Menu.transition(false, true), GameState::Menu);
    assert_eq!(GameState::Menu.transition(true, false), GameState::Playing);
}

#[test]
fn play_ends_when_the_player_is_down() {
    assert_eq!(GameState::Playing.transition(false, false), GameState::Playing);
    assert_eq!(GameState::Playing.transition(true, false), GameState::Playing);
    assert_eq!(GameState::Playing.transition(false, true), GameState::GameOver);
    assert_eq!(GameState::Playing.transition(true, true), GameState::GameOver);
}

#[test]
fn game_over_waits_for_the_key() {
    assert_eq!(GameState::GameOver.transition(false, false), GameState::GameOver);
    assert_eq!(GameState::GameOver.transition(false, true), GameState::GameOver);
    assert_eq!(GameState::GameOver.transition(true, false), GameState::Playing);
}
