use web_shooter::aim::{aim_direction, aim_level, DEFAULT_AIM_LEVEL};
use web_shooter::input::{
    decode_input, input, PlayerIntent, INPUT_ANGLE, INPUT_DOWN, INPUT_FIRE, INPUT_LEFT, INPUT_RIGHT,
    INPUT_UP,
};

fn intent(up: bool, down: bool, right: bool, left: bool, fire: bool, angle_level: u8) -> PlayerIntent {
    PlayerIntent { up, down, right, left, fire, angle_level }
}

#[test]
fn encode_gives_exact_word() {
    let word = input(intent(true, false, false, false, true, 200));
    assert_eq!(word, INPUT_UP | INPUT_FIRE | (200u16 << 8));
    assert_eq!(word, 51217);
    assert_eq!(input(intent(false, true, true, true, false, 0)), INPUT_DOWN | INPUT_RIGHT | INPUT_LEFT);
    assert_eq!(input(intent(false, false, false, false, false, 255)), INPUT_ANGLE);
}

#[test]
fn decode_reads_every_field() {
    let d = decode_input(0x7f13);
    assert_eq!(d, intent(true, false, true, false, true, 0x7f));
    let zero = decode_input(0);
    assert_eq!(zero, intent(false, false, false, false, false, 0));
}

#[test]
fn round_trip_over_all_flags_and_levels() {
    for bits in 0u8..32 {
        for level in 0u16..256 {
            let i = intent(
                bits & 1 != 0,
                bits & 2 != 0,
                bits & 4 != 0,
                bits & 8 != 0,
                bits & 16 != 0,
                level as u8,
            );
            assert_eq!(decode_input(input(i)), i);
        }
    }
}

#[test]
fn aim_direction_values() {
    assert_eq!(aim_direction(0), (-1000, 0));
    assert_eq!(aim_direction(255), (-1000, 0));
    assert_eq!(aim_direction(127), (1000, -12));
    assert_eq!(aim_direction(128), (1000, 12));
    assert_eq!(aim_direction(191), (6, 1000));
    assert_eq!(aim_direction(64), (6, -1000));
    assert_eq!(aim_direction(63), (-18, -1000));
    assert_eq!(aim_direction(1), (-1000, -25));
}

#[test]
fn aim_level_rounds_to_nearest_level() {
    assert_eq!(aim_level(0, 0), DEFAULT_AIM_LEVEL);
    // angle 0 lies halfway between levels 127 and 128: halves round up
    assert_eq!(aim_level(1, 0), 128);
    assert_eq!(aim_level(0, 5), 191);
    // angle pi
    assert_eq!(aim_level(-3, 0), 255);
    assert_eq!(aim_level(0, -1), 64);
    assert_eq!(aim_level(1, 1), 159);
    assert_eq!(aim_level(-1, -1), 32);
    assert_eq!(aim_level(-5, 1), 247);
    assert_eq!(aim_level(i64::MAX, i64::MIN), 96);
    assert_eq!(aim_level(1, -1), 96);
}

#[test]
fn aim_level_matches_float_rounding() {
    let mut seed: u64 = 12345;
    for _ in 0..2000 {
        seed = seed.wrapping_mul(6364136223846793005).wrapping_add(1442695040888963407);
        let dx = ((seed >> 33) % 2_000_001) as i64 - 1_000_000;
        seed = seed.wrapping_mul(6364136223846793005).wrapping_add(1442695040888963407);
        let dy = ((seed >> 33) % 2_000_001) as i64 - 1_000_000;
        if dx == 0 && dy == 0 {
            continue;
        }
        let a = (dy as f64).atan2(dx as f64);
        let expected = ((a + std::f64::consts::PI) / (2.0 * std::f64::consts::PI) * 255.0).round();
        assert_eq!(aim_level(dx, dy) as f64, expected, "offset ({}, {})", dx, dy);
    }
}

#[test]
fn level_direction_maps_back_to_level() {
    for q in 1u16..256 {
        let (c, s) = aim_direction(q as u8);
        assert_eq!(aim_level(c, s), q as u8);
    }
    // level 0 is the angle -pi, the same direction as pi
    let (c, s) = aim_direction(0);
    assert_eq!(aim_level(c, s), 255);
}
