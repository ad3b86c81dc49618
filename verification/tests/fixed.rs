use platformer_game::fixed::{
    accrued, blend, difference, product, rate, sum, within, Vec2, Vec3, SECOND, UNIT,
};

#[test]
fn sums_and_differences_are_held_in_range() {
    assert_eq!(sum(2, 3), 5);
    assert_eq!(sum(i64::MAX, 1), i64::MAX);
    assert_eq!(sum(i64::MIN, -1), i64::MIN);
    assert_eq!(difference(2, 3), -1);
    assert_eq!(difference(i64::MIN, 1), i64::MIN);
    assert_eq!(difference(i64::MAX, -1), i64::MAX);
}

#[test]
fn products_are_in_thousandths_and_round_toward_zero() {
    assert_eq!(product(1_500, 2_000), 3_000);
    assert_eq!(product(UNIT, 24_000), 24_000);
    assert_eq!(product(1, 999), 0);
    assert_eq!(product(-1, 999), 0);
    assert_eq!(product(-1_500, 3), -4);
    assert_eq!(product(i64::MAX, i64::MAX), i64::MAX);
    assert_eq!(product(i64::MAX, i64::MIN), i64::MIN);
}

#[test]
fn rates_accrue_over_microseconds() {
    assert_eq!(accrued(300_000, 16_000), 4_800);
    assert_eq!(accrued(-300_000, 16_000), -4_800);
    assert_eq!(accrued(1, SECOND - 1), 0);
    assert_eq!(accrued(-1, SECOND - 1), 0);
    assert_eq!(accrued(7, SECOND), 7);
    assert_eq!(accrued(i64::MAX, u64::MAX), i64::MAX);
    assert_eq!(accrued(i64::MIN, u64::MAX), i64::MIN);
}

#[test]
fn rate_is_distance_over_time() {
    assert_eq!(rate(2_400, 20_000), 120_000);
    assert_eq!(rate(-1, 3), -333_333);
    assert_eq!(rate(i64::MAX, 1), i64::MAX);
    assert_eq!(rate(5, 0), i64::MAX);
    assert_eq!(rate(-5, 0), i64::MIN);
    assert_eq!(rate(0, 0), 0);
}

#[test]
fn blend_walks_the_line_and_runs_on_past_its_end() {
    assert_eq!(blend(1_000, 1_200, 0, 50_000), 1_000);
    assert_eq!(blend(1_000, 1_200, 20_000, 50_000), 1_080);
    assert_eq!(blend(1_000, 800, 20_000, 50_000), 920);
    assert_eq!(blend(1_000, 1_200, 50_000, 50_000), 1_200);
    assert_eq!(blend(1_000, 1_200, 75_000, 50_000), 1_300);
    assert_eq!(blend(1_000, 1_200, 10, 0), 1_000);
    assert_eq!(blend(0, i64::MAX, u64::MAX, 1), i64::MAX);
    assert_eq!(blend(0, i64::MIN, u64::MAX, 1), i64::MIN);
}

#[test]
fn within_holds_to_both_limits() {
    assert_eq!(within(5, 3), 3);
    assert_eq!(within(-5, 3), -3);
    assert_eq!(within(2, 3), 2);
    assert_eq!(within(2, 0), 0);
}

#[test]
fn vectors_add_by_component() {
    let place = Vec3 { x: 1, y: 2, z: 3 }.plus(Vec3 { x: 10, y: 20, z: i64::MAX });
    assert_eq!(place, Vec3 { x: 11, y: 22, z: i64::MAX });
    assert_eq!(Vec2::one(), Vec2 { x: 1_000, y: 1_000 });
}
