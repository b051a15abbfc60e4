use auto_runner::menu::{button_color, next_state, ButtonColor, GameState, Interaction};

#[test]
fn each_interaction_has_its_color() {
    assert_eq!(button_color(Interaction::Idle), ButtonColor::Black);
    assert_eq!(button_color(Interaction::Hovered), ButtonColor::Gray);
    assert_eq!(button_color(Interaction::Pressed), ButtonColor::White);
}

#[test]
fn colors_are_distinct() {
    let all = [Interaction::Idle, Interaction::Hovered, Interaction::Pressed];
    for a in all {
        for b in all {
            assert_eq!(button_color(a) == button_color(b), a == b);
        }
    }
}

#[test]
fn only_a_press_in_the_menu_starts_a_run() {
    assert_eq!(next_state(GameState::Menu, Interaction::Pressed), GameState::InGame);
    assert_eq!(next_state(GameState::Menu, Interaction::Hovered), GameState::Menu);
    assert_eq!(next_state(GameState::Menu, Interaction::Idle), GameState::Menu);
    assert_eq!(next_state(GameState::InGame, Interaction::Pressed), GameState::InGame);
    assert_eq!(next_state(GameState::InGame, Interaction::Idle), GameState::InGame);
}
