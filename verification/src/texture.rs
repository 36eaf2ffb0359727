//! Wrap-around (tiling) texel addressing. Texture lookups scale a UV
//! coordinate to a signed texel coordinate; this module reduces that
//! coordinate into the map, so that a texture repeats in both directions,
//! and reads the texel from the map's grid.

use crate::vector2d::Vector2D;
use vstd::prelude::*;

verus! {

/// Flat position in a `width x height` map of the texel that the signed
/// coordinates (x, y) land on after wrap-around.
pub open spec fn wrapped_texel(width: int, height: int, x: int, y: int) -> int {
    (y % height) * width + (x % width)
}

/// Reduces the signed coordinate `i` into `0 .. size` by wrap-around, as the
/// Euclidean remainder of `i` modulo `size`.
pub fn wrap_index(i: i32, size: usize) -> (r: usize)
    requires
        0 < size <= i32::MAX,
    ensures
        r == i as int % size as int,
        r < size,
{
    if i >= 0 {
        (i as usize) % size
    } else {
        let magnitude: usize = (-(i as i64)) as usize;
        let remainder: usize = magnitude % size;
        proof {
            let a = i as int;
            let n = size as int;
            let q = (-a) / n;
            let r = (-a) % n;
            vstd::arithmetic::div_mod::lemma_fundamental_div_mod(-a, n);
            vstd::arithmetic::mul::lemma_mul_is_commutative(n, q);
            vstd::arithmetic::mul::lemma_mul_unary_negation(q, n);
            assert(a == (-q) * n - r);
            if remainder == 0 {
                vstd::arithmetic::div_mod::lemma_fundamental_div_mod_converse(a, n, -q, 0);
            } else {
                vstd::arithmetic::mul::lemma_mul_is_distributive_add_other_way(n, -q - 1, 1);
                vstd::arithmetic::mul::lemma_mul_basics(n);
                assert(a == (-q - 1) * n + (n - r));
                vstd::arithmetic::div_mod::lemma_fundamental_div_mod_converse(
                    a,
                    n,
                    -q - 1,
                    n - r,
                );
            }
        }
        if remainder == 0 {
            0
        } else {
            size - remainder
        }
    }
}

/// The texel of `map` that the signed coordinates (x, y) land on after
/// wrap-around in both directions: sampling off either edge re-enters the
/// map on the opposite side.
pub fn sample_wrapped<T>(map: &Vector2D<T>, x: i32, y: i32) -> (texel: &T)
    requires
        map.wf(),
        0 < map.width <= i32::MAX,
        0 < map.height <= i32::MAX,
    ensures
        *texel == map.data@[wrapped_texel(map.width as int, map.height as int, x as int, y as int)],
{
    let wrapped_x: usize = wrap_index(x, map.width);
    let wrapped_y: usize = wrap_index(y, map.height);
    proof {
        vstd::arithmetic::mul::lemma_mul_inequality(
            wrapped_y as int + 1,
            map.height as int,
            map.width as int,
        );
        vstd::arithmetic::mul::lemma_mul_is_distributive_add_other_way(
            map.width as int,
            wrapped_y as int,
            1,
        );
        vstd::arithmetic::mul::lemma_mul_is_commutative(map.height as int, map.width as int);
    }
    map.get(wrapped_y, wrapped_x)
}

/// Wrap-around addressing is periodic: moving a whole map width (or height)
/// along either axis lands on the same texel.
pub proof fn lemma_wrapped_texel_periodic(width: int, height: int, x: int, y: int)
    requires
        0 < width,
        0 < height,
    ensures
        wrapped_texel(width, height, x + width, y) == wrapped_texel(width, height, x, y),
        wrapped_texel(width, height, x, y + height) == wrapped_texel(width, height, x, y),
{
    vstd::arithmetic::div_mod::lemma_mod_add_multiples_vanish(x, width);
    vstd::arithmetic::div_mod::lemma_mod_add_multiples_vanish(y, height);
}

} // verus!
