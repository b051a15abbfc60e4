use auto_runner::collision::{overlaps, Bounds};

fn boxed(left: i64, right: i64, bottom: i64, top: i64) -> Bounds {
    Bounds {
        x: (left + right) / 2,
        y: bottom,
        half_width: ((right - left) / 2) as u32,
        height: (top - bottom) as u32,
    }
}

#[test]
fn overlapping_boxes_collide() {
    let player = boxed(0, 100, 0, 100);
    let obstacle = boxed(50, 150, 0, 50);
    assert!(overlaps(&player, &obstacle));
    assert!(overlaps(&obstacle, &player));
}

#[test]
fn distant_boxes_do_not_collide() {
    let player = boxed(0, 100, 0, 100);
    assert!(!overlaps(&player, &boxed(200, 300, 0, 50)));
    assert!(!overlaps(&player, &boxed(-300, -200, 0, 50)));
    assert!(!overlaps(&player, &boxed(0, 100, 200, 300)));
    assert!(!overlaps(&player, &boxed(0, 100, -300, -200)));
}

#[test]
fn touching_boxes_do_not_collide() {
    let player = boxed(0, 100, 0, 100);
    assert!(!overlaps(&player, &boxed(100, 200, 0, 50)));
    assert!(!overlaps(&player, &boxed(-100, 0, 0, 50)));
    assert!(!overlaps(&player, &boxed(0, 100, 100, 150)));
    assert!(!overlaps(&player, &boxed(0, 100, -50, 0)));
}

#[test]
fn smallest_overlap_collides() {
    let player = boxed(0, 100, 0, 100);
    assert!(overlaps(&player, &boxed(98, 200, 99, 150)));
}

#[test]
fn box_inside_another_collides() {
    let outer = boxed(0, 100, 0, 100);
    let inner = boxed(40, 60, 40, 60);
    assert!(overlaps(&outer, &inner));
    assert!(overlaps(&inner, &outer));
}

#[test]
fn jumping_over_an_obstacle_avoids_it() {
    let obstacle = Bounds { x: -500_000_000, y: -250_000_000, half_width: 50_000_000, height: 50_000_000 };
    let low = Bounds { x: -500_000_000, y: -201_000_000, half_width: 25_000_000, height: 100_000_000 };
    let high = Bounds { x: -500_000_000, y: -200_000_000, half_width: 25_000_000, height: 100_000_000 };
    assert!(overlaps(&low, &obstacle));
    assert!(!overlaps(&high, &obstacle));
}

#[test]
fn extreme_boxes_do_not_overflow() {
    let a = Bounds { x: i64::MAX, y: i64::MAX, half_width: u32::MAX, height: u32::MAX };
    let b = Bounds { x: i64::MIN, y: i64::MIN, half_width: u32::MAX, height: u32::MAX };
    assert!(!overlaps(&a, &b));
    assert!(overlaps(&a, &a));
}
