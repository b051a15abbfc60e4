use auto_runner::game::Game;
use auto_runner::jump::JumpState;
use auto_runner::menu::{ButtonColor, GameState, Interaction};
use auto_runner::score::score_text;
use auto_runner::units::{GROUND, WINDOW_RIGHT};

fn assert_menu(game: &Game) {
    assert_eq!(game.state(), GameState::Menu);
    assert_eq!(game.elapsed_ms(), 0);
    assert!(game.player().is_none());
    assert_eq!(game.obstacle_count(), 0);
    assert!(game.obstacle(0).is_none());
    assert!(game.scoreboard().is_none());
}

fn assert_fresh_run(game: &Game) {
    assert_eq!(game.state(), GameState::InGame);
    assert_eq!(game.elapsed_ms(), 0);
    assert!(game.gate_open());
    let player = game.player().unwrap();
    assert_eq!(player.y(), GROUND);
    assert_eq!(player.state(), JumpState::Grounded);
    assert_eq!(game.obstacle_count(), 2);
    let low = game.obstacle(0).unwrap();
    assert_eq!(low.x(), WINDOW_RIGHT + 50_000_000);
    assert_eq!(low.delay_left(), 500);
    assert!(!low.moving());
    assert_eq!(low.velocity(), 300_000);
    assert_eq!(low.bounds().half_width, 50_000_000);
    assert_eq!(low.bounds().height, 50_000_000);
    let tall = game.obstacle(1).unwrap();
    assert_eq!(tall.x(), WINDOW_RIGHT + 25_000_000);
    assert_eq!(tall.delay_left(), 3000);
    assert!(!tall.moving());
    assert_eq!(tall.bounds().half_width, 25_000_000);
    assert_eq!(tall.bounds().height, 75_000_000);
    assert!(game.obstacle(2).is_none());
    assert_eq!(game.scoreboard().unwrap(), "00000");
    assert!(game.button().is_none());
}

#[test]
fn new_game_shows_the_menu() {
    let game = Game::new();
    assert_menu(&game);
    assert_eq!(game.button(), Some(ButtonColor::Black));
    assert!(game.gate_open());
}

#[test]
fn button_takes_the_color_of_the_interaction() {
    let mut game = Game::new();
    game.interact(Interaction::Hovered);
    assert_eq!(game.button(), Some(ButtonColor::Gray));
    assert_menu(&game);
    game.interact(Interaction::Idle);
    assert_eq!(game.button(), Some(ButtonColor::Black));
    assert_menu(&game);
}

#[test]
fn frames_do_nothing_in_the_menu() {
    let mut game = Game::new();
    game.interact(Interaction::Hovered);
    assert!(!game.frame(16, true));
    game.advance(1000);
    assert!(!game.resolve());
    game.press_jump(true);
    assert_menu(&game);
    assert_eq!(game.button(), Some(ButtonColor::Gray));
}

#[test]
fn press_starts_a_run() {
    let mut game = Game::new();
    game.interact(Interaction::Pressed);
    assert_fresh_run(&game);
}

#[test]
fn button_is_ignored_during_a_run() {
    let mut game = Game::new();
    game.interact(Interaction::Pressed);
    assert!(!game.frame(16, false));
    game.interact(Interaction::Pressed);
    game.interact(Interaction::Hovered);
    assert_eq!(game.state(), GameState::InGame);
    assert_eq!(game.elapsed_ms(), 16);
    assert!(game.button().is_none());
}

#[test]
fn frame_counts_time_and_shows_the_score() {
    let mut game = Game::new();
    game.interact(Interaction::Pressed);
    assert!(!game.frame(16, false));
    assert_eq!(game.elapsed_ms(), 16);
    assert_eq!(game.scoreboard().unwrap(), "00000");
    assert!(!game.frame(100, false));
    assert_eq!(game.elapsed_ms(), 116);
    assert_eq!(game.scoreboard().unwrap(), "00001");
    assert!(!game.frame(300, false));
    assert_eq!(game.scoreboard().unwrap(), "00004");
    assert_eq!(game.obstacle(0).unwrap().delay_left(), 84);
    assert_eq!(game.obstacle(1).unwrap().delay_left(), 2584);
}

#[test]
fn jump_input_counts_at_the_end_of_the_frame() {
    let mut game = Game::new();
    game.interact(Interaction::Pressed);
    assert!(!game.frame(16, true));
    let player = game.player().unwrap();
    assert_eq!(player.state(), JumpState::Airborne(600_000));
    assert_eq!(player.y(), GROUND);
    assert!(!game.frame(100, true));
    let player = game.player().unwrap();
    assert_eq!(player.state(), JumpState::Airborne(520_000));
    assert_eq!(player.y(), -194_000_000);
}

#[test]
fn first_obstacle_starts_and_closes_the_gate() {
    let mut game = Game::new();
    game.interact(Interaction::Pressed);
    assert!(!game.frame(499, false));
    assert!(game.gate_open());
    assert!(!game.obstacle(0).unwrap().moving());
    assert!(!game.frame(1, false));
    assert!(game.obstacle(0).unwrap().moving());
    assert!(!game.gate_open());
    assert!(!game.frame(1000, false));
    assert_eq!(game.obstacle(0).unwrap().x(), 390_000_000);
    assert!(!game.obstacle(1).unwrap().moving());
}

#[test]
fn collision_ends_the_run() {
    let mut game = Game::new();
    game.interact(Interaction::Pressed);
    let mut frames: u32 = 0;
    let mut collided: bool = false;
    while !collided {
        assert!(frames < 1000);
        collided = game.frame(16, false);
        frames += 1;
        if !collided {
            assert_eq!(game.state(), GameState::InGame);
            assert_eq!(game.elapsed_ms(), 16 * frames as u64);
            assert_eq!(game.scoreboard().unwrap(), score_text(game.elapsed_ms()));
            assert_eq!(game.obstacle_count(), 2);
        }
    }
    assert_eq!(frames, 265);
    assert_menu(&game);
    assert_eq!(game.button(), Some(ButtonColor::Black));
}

#[test]
fn run_can_be_started_again() {
    let mut game = Game::new();
    game.interact(Interaction::Pressed);
    let mut frames: u32 = 0;
    while !game.frame(50, false) {
        frames += 1;
        assert!(frames < 1000);
    }
    assert_menu(&game);
    game.interact(Interaction::Hovered);
    assert_menu(&game);
    game.interact(Interaction::Pressed);
    assert_fresh_run(&game);
}

#[test]
fn split_frame_is_the_whole_frame() {
    let mut whole = Game::new();
    let mut parts = Game::new();
    whole.interact(Interaction::Pressed);
    parts.interact(Interaction::Pressed);
    for (dt, jump) in [(16u32, false), (500, true), (100, false), (700, true), (900, false)] {
        let collided = whole.frame(dt, jump);
        parts.advance(dt);
        let hit = parts.resolve();
        parts.press_jump(jump);
        assert_eq!(collided, hit);
        assert_eq!(whole.state(), parts.state());
        assert_eq!(whole.elapsed_ms(), parts.elapsed_ms());
        assert_eq!(whole.gate_open(), parts.gate_open());
        assert_eq!(whole.scoreboard(), parts.scoreboard());
        assert_eq!(whole.player().map(|p| (p.y(), p.state())), parts.player().map(|p| (p.y(), p.state())));
        for i in 0..2usize {
            let a = whole.obstacle(i).unwrap();
            let b = parts.obstacle(i).unwrap();
            assert_eq!((a.x(), a.moving(), a.velocity(), a.delay_left()), (b.x(), b.moving(), b.velocity(), b.delay_left()));
        }
    }
}

#[test]
fn jumping_player_clears_the_low_obstacle() {
    let mut game = Game::new();
    game.interact(Interaction::Pressed);
    assert!(!game.frame(500, false));
    assert!(!game.frame(3300, true));
    assert_eq!(game.obstacle(0).unwrap().x(), -300_000_000);
    let mut spent: u32 = 0;
    while spent < 1000 {
        assert!(!game.frame(10, false));
        spent += 10;
    }
    assert_eq!(game.state(), GameState::InGame);
    assert!(game.obstacle(0).unwrap().x() < -575_000_000);
}

#[test]
fn longest_frames_do_not_overflow() {
    let mut game = Game::new();
    game.interact(Interaction::Pressed);
    assert!(!game.frame(u32::MAX, true));
    let low = game.obstacle(0).unwrap();
    assert!(low.moving());
    assert_eq!(low.velocity(), 1_000_000_000);
    assert_eq!(low.x(), WINDOW_RIGHT + 50_000_000);
    assert!(!game.frame(u32::MAX, true));
    let low = game.obstacle(0).unwrap();
    assert_eq!(low.x(), 690_000_000 - 1_000_000_000 * u32::MAX as i64);
    assert_eq!(game.player().unwrap().state(), JumpState::Airborne(600_000));
    assert_eq!(game.player().unwrap().y(), GROUND);
    assert!(!game.frame(u32::MAX, false));
    let low = game.obstacle(0).unwrap();
    assert!(!low.moving());
    assert_eq!(low.x(), WINDOW_RIGHT + 50_000_000);
    assert!(low.delay_left() >= 500 && low.delay_left() < 3000);
    assert_eq!(game.state(), GameState::InGame);
    assert_eq!(game.elapsed_ms(), 3 * u32::MAX as u64);
    assert_eq!(game.scoreboard().unwrap(), "65535");
    assert!(!game.obstacle(1).unwrap().moving());
    assert_eq!(game.obstacle(1).unwrap().delay_left(), 0);
}
