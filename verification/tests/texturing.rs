use r_tracer::texture::{sample_wrapped, wrap_index};
use r_tracer::vector2d::Vector2D;

#[test]
fn wrap_index_keeps_in_range_values() {
    assert_eq!(wrap_index(0, 4), 0);
    assert_eq!(wrap_index(3, 4), 3);
}

#[test]
fn wrap_index_reduces_past_the_edge() {
    assert_eq!(wrap_index(4, 4), 0);
    assert_eq!(wrap_index(5, 2), 1);
    assert_eq!(wrap_index(10, 3), 1);
}

#[test]
fn wrap_index_reenters_from_negative_coordinates() {
    assert_eq!(wrap_index(-1, 4), 3);
    assert_eq!(wrap_index(-4, 4), 0);
    assert_eq!(wrap_index(-5, 4), 3);
    assert_eq!(wrap_index(i32::MIN, 3), {
        let r = (i32::MIN as i64).rem_euclid(3);
        r as usize
    });
}

#[test]
fn sampling_wraps_in_both_directions() {
    // 2 x 2 map laid out row-major: 10 11 / 20 21
    let mut map: Vector2D<u8> = Vector2D::new(2, 2, 0);
    map.set(0, 0, 10);
    map.set(0, 1, 11);
    map.set(1, 0, 20);
    map.set(1, 1, 21);

    assert_eq!(*sample_wrapped(&map, 0, 0), 10);
    assert_eq!(*sample_wrapped(&map, 2, 0), 10);
    assert_eq!(*sample_wrapped(&map, 3, 1), 21);
    assert_eq!(*sample_wrapped(&map, -1, 0), 11);
    assert_eq!(*sample_wrapped(&map, 0, -1), 20);
}

#[test]
fn uv_half_turn_past_the_edge_matches_the_wrapped_sample() {
    // A 2-wide, 1-tall texture: scaling UV by the width sends u = 1.5 to
    // texel 3 and u = 0.5 to texel 1, and wrap-around makes them the same
    // sample.
    let mut map: Vector2D<u8> = Vector2D::new(2, 1, 0);
    map.set(0, 0, 100);
    map.set(0, 1, 200);

    let width = map.width as f32;
    let high = (1.5f32 * width) as i32;
    let low = (0.5f32 * width) as i32;
    assert_eq!(*sample_wrapped(&map, high, 0), *sample_wrapped(&map, low, 0));
    assert_eq!(*sample_wrapped(&map, high, 0), 200);
}
