use evosim::eye::Eye;
use evosim::food::Food;
use evosim::trig::{atan2_turns, cos_turns, sin_turns};
use evosim::vec2::{torus_dist, Vec2};

fn food_at(x: i64, y: i64) -> Food {
    Food {
        position: Vec2 { x, y },
    }
}

#[test]
fn sin_cos_exact_points() {
    assert_eq!(sin_turns(0), 0);
    assert_eq!(sin_turns(16384), 65536);
    assert_eq!(sin_turns(32768), 0);
    assert_eq!(sin_turns(49152), -65536);
    assert_eq!(cos_turns(0), 65536);
    assert_eq!(cos_turns(32768), -65536);
}

#[test]
fn atan2_axes() {
    assert_eq!(atan2_turns(0, 100), 0);
    assert_eq!(atan2_turns(100, 0), 16384);
    assert_eq!(atan2_turns(0, -100), 32768);
    assert_eq!(atan2_turns(-100, 0), 49152);
}

#[test]
fn torus_distance_wraps() {
    assert_eq!(torus_dist(Vec2 { x: 0, y: 0 }, Vec2 { x: 300, y: 400 }), 500);
    // Shortest path crosses the wrap edge: 100 -> 65436 is 200 away.
    assert_eq!(torus_dist(Vec2 { x: 100, y: 0 }, Vec2 { x: 65436, y: 0 }), 200);
}

#[test]
fn vision_food_at_exact_range_contributes_nothing() {
    let eye = Eye::new(16384, 32768, 4);
    let pos = Vec2 { x: 32768, y: 32768 };
    let foods = vec![food_at(32768 + 16384, 32768)];
    assert_eq!(eye.process_vision(pos, 0, &foods), vec![0, 0, 0, 0]);
}

#[test]
fn vision_food_beyond_range_contributes_nothing() {
    let eye = Eye::new(16384, 32768, 4);
    let pos = Vec2 { x: 32768, y: 32768 };
    let foods = vec![food_at(32768 + 16384 + 100, 32768)];
    assert_eq!(eye.process_vision(pos, 0, &foods), vec![0, 0, 0, 0]);
}

#[test]
fn vision_food_outside_angle_contributes_nothing() {
    // Half-turn field of view looking along +x: a pellet straight
    // behind is close but out of the angular span.
    let eye = Eye::new(16384, 32768, 4);
    let pos = Vec2 { x: 32768, y: 32768 };
    let foods = vec![food_at(32768 - 1000, 32768)];
    assert_eq!(eye.process_vision(pos, 0, &foods), vec![0, 0, 0, 0]);
}

#[test]
fn vision_food_at_zero_distance_full_energy() {
    let eye = Eye::new(16384, 32768, 4);
    let pos = Vec2 { x: 32768, y: 32768 };
    let foods = vec![food_at(32768, 32768)];
    // Energy exactly 1.0, in the sector holding bearing zero.
    assert_eq!(eye.process_vision(pos, 0, &foods), vec![0, 0, 65536, 0]);
}

#[test]
fn vision_same_sector_sums() {
    let eye = Eye::new(16384, 32768, 4);
    let pos = Vec2 { x: 32768, y: 32768 };
    let foods = vec![food_at(32768, 32768), food_at(32768, 32768)];
    assert_eq!(eye.process_vision(pos, 0, &foods), vec![0, 0, 131072, 0]);
}

#[test]
fn vision_energy_falls_linearly() {
    let eye = Eye::new(16384, 32768, 4);
    let pos = Vec2 { x: 32768, y: 32768 };
    // A pellet at half the range straight ahead: energy 0.5.
    let foods = vec![food_at(32768 + 8192, 32768)];
    assert_eq!(eye.process_vision(pos, 0, &foods), vec![0, 0, 32768, 0]);
}
