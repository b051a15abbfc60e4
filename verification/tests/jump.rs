use auto_runner::jump::{JumpState, Player};
use auto_runner::units::{APEX, GROUND, LAUNCH_VELOCITY};

#[test]
fn new_player_stands_on_the_ground() {
    let p = Player::new();
    assert_eq!(p.y(), GROUND);
    assert_eq!(p.state(), JumpState::Grounded);
}

#[test]
fn jump_launches_at_the_launch_velocity() {
    let mut p = Player::new();
    p.jump();
    assert_eq!(p.state(), JumpState::Airborne(LAUNCH_VELOCITY));
    assert_eq!(p.state(), JumpState::Airborne(600_000));
    assert_eq!(p.y(), GROUND);
}

#[test]
fn jump_is_ignored_in_the_air() {
    let mut p = Player::new();
    p.jump();
    p.tick(100);
    let before = (p.y(), p.state());
    p.jump();
    assert_eq!((p.y(), p.state()), before);
}

#[test]
fn one_frame_follows_the_kinematics() {
    let mut p = Player::new();
    p.jump();
    p.tick(100);
    assert_eq!(p.y(), -194_000_000);
    assert_eq!(p.state(), JumpState::Airborne(520_000));
}

#[test]
fn apex_is_reached_after_half_the_flight() {
    let mut p = Player::new();
    p.jump();
    p.tick(750);
    assert_eq!(p.y(), GROUND + APEX);
    assert_eq!(p.state(), JumpState::Airborne(0));
}

#[test]
fn grounded_player_does_not_move() {
    let mut p = Player::new();
    p.tick(16);
    p.tick(u32::MAX);
    assert_eq!(p.y(), GROUND);
    assert_eq!(p.state(), JumpState::Grounded);
}

#[test]
fn frame_of_no_length_cancels_a_fresh_jump() {
    let mut p = Player::new();
    p.jump();
    p.tick(0);
    assert_eq!(p.state(), JumpState::Grounded);
    assert_eq!(p.y(), GROUND);
}

#[test]
fn frame_of_no_length_changes_nothing_in_flight() {
    let mut p = Player::new();
    p.jump();
    p.tick(10);
    let before = (p.y(), p.state());
    p.tick(0);
    assert_eq!((p.y(), p.state()), before);
}

#[test]
fn jump_lands_exactly_on_the_ground() {
    let mut p = Player::new();
    p.jump();
    let mut frames: u32 = 0;
    while p.state() != JumpState::Grounded {
        p.tick(16);
        frames += 1;
        assert!(p.y() >= GROUND);
        assert!(p.y() <= GROUND + APEX);
        assert!(frames <= 94);
    }
    assert_eq!(frames, 94);
    assert_eq!(p.y(), GROUND);
}

#[test]
fn uneven_frames_land_after_the_flight_time() {
    let mut p = Player::new();
    p.jump();
    for dt in [1u32, 499, 7, 293, 700] {
        p.tick(dt);
    }
    assert_eq!(p.state(), JumpState::Grounded);
    assert_eq!(p.y(), GROUND);
}

#[test]
fn just_before_landing_the_player_still_flies() {
    let mut p = Player::new();
    p.jump();
    p.tick(1499);
    assert_eq!(p.state(), JumpState::Airborne(-599_200));
    assert_eq!(p.y(), GROUND + 400 * 1499);
    p.tick(1);
    assert_eq!(p.state(), JumpState::Grounded);
    assert_eq!(p.y(), GROUND);
}

#[test]
fn longest_frame_lands_without_overflow() {
    let mut p = Player::new();
    p.jump();
    p.tick(u32::MAX);
    assert_eq!(p.state(), JumpState::Grounded);
    assert_eq!(p.y(), GROUND);
}

#[test]
fn player_bounds_follow_its_height() {
    let mut p = Player::new();
    p.jump();
    p.tick(100);
    let b = p.bounds();
    assert_eq!(b.x, -500_000_000);
    assert_eq!(b.y, -194_000_000);
    assert_eq!(b.half_width, 25_000_000);
    assert_eq!(b.height, 100_000_000);
}
