//! The two states of the application and the start button of the menu.

use vstd::prelude::*;

verus! {

/// Whether the menu is shown or a run is on.
#[derive(Clone, Copy, Debug, PartialEq, Eq, Hash, Structural)]
pub enum GameState {
    Menu,
    InGame,
}

/// What the pointer does to the start button.
#[derive(Clone, Copy, Debug, PartialEq, Eq, Structural)]
pub enum Interaction {
    Idle,
    Hovered,
    Pressed,
}

/// The colours in which the start button is drawn.
#[derive(Clone, Copy, Debug, PartialEq, Eq, Structural)]
pub enum ButtonColor {
    Black,
    Gray,
    White,
}

/// The colour of the button under an interaction: black when idle, grey when
/// hovered, white when pressed.
pub open spec fn color_of(interaction: Interaction) -> ButtonColor {
    match interaction {
        Interaction::Idle => ButtonColor::Black,
        Interaction::Hovered => ButtonColor::Gray,
        Interaction::Pressed => ButtonColor::White,
    }
}

/// The state that follows `state` under an interaction with the button: a
/// press in the menu starts a run, and nothing else changes the state.
pub open spec fn state_after(state: GameState, interaction: Interaction) -> GameState {
    if state == GameState::Menu && interaction == Interaction::Pressed {
        GameState::InGame
    } else {
        state
    }
}

/// The colour of the button under `interaction`.
pub fn button_color(interaction: Interaction) -> (color: ButtonColor)
    ensures
        color == color_of(interaction),
{
    match interaction {
        Interaction::Idle => ButtonColor::Black,
        Interaction::Hovered => ButtonColor::Gray,
        Interaction::Pressed => ButtonColor::White,
    }
}

/// The state that follows `state` under `interaction`.
pub fn next_state(state: GameState, interaction: Interaction) -> (next: GameState)
    ensures
        next == state_after(state, interaction),
{
    match (state, interaction) {
        (GameState::Menu, Interaction::Pressed) => GameState::InGame,
        _ => state,
    }
}

/// Different interactions show in different colours.
pub proof fn lemma_colors_distinct(a: Interaction, b: Interaction)
    ensures
        color_of(a) == color_of(b) <==> a == b,
{
}

} // verus!
