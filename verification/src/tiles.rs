//! Decomposition of the output image into square tiles. Each tile is an
//! independent unit of render work; its origin is a pixel coordinate and its
//! extent is clamped at the image edges by the consumer. The tiles cover the
//! image without overlap, which `lemma_tiles_partition` states exactly.

use vstd::arithmetic::div_mod::{lemma_fundamental_div_mod, lemma_fundamental_div_mod_converse};
use vstd::arithmetic::mul::{
    lemma_mul_is_commutative, lemma_mul_is_distributive_add_other_way,
    lemma_mul_strict_inequality_converse,
};
use vstd::prelude::*;

verus! {

/// How many tiles of size `tile_size` cover an extent of `extent` pixels:
/// the quotient rounded up.
pub open spec fn tile_count(extent: int, tile_size: int) -> int {
    (extent + tile_size - 1) / tile_size
}

/// `tiles` is the tile decomposition of a `width x height` image: one tile
/// origin for every (column multiple, row multiple) of `tile_size` inside the
/// image, ordered with the vertical coordinate varying fastest.
pub open spec fn is_tile_grid(
    tiles: Seq<(usize, usize)>,
    width: int,
    height: int,
    tile_size: int,
) -> bool {
    let ny = tile_count(height, tile_size);
    &&& tiles.len() == tile_count(width, tile_size) * ny
    &&& forall|k: int|
        0 <= k < tiles.len() ==> (#[trigger] tiles[k]).0 == tile_size * (k / ny) && tiles[k].1
            == tile_size * (k % ny)
}

/// Pixel (px, py) falls inside the tile of size `tile_size` whose origin is
/// `origin`.
pub open spec fn tile_covers(origin: (usize, usize), tile_size: int, px: int, py: int) -> bool {
    &&& origin.0 <= px < origin.0 + tile_size
    &&& origin.1 <= py < origin.1 + tile_size
}

/// A multiple of `tile_size` in `0 .. extent` is a tile origin: its quotient
/// lies below the tile count.
proof fn lemma_origin_below_count(extent: int, tile_size: int, pos: int)
    requires
        0 < tile_size,
        0 <= pos < extent,
    ensures
        pos / tile_size < tile_count(extent, tile_size),
{
    let count = tile_count(extent, tile_size);
    lemma_fundamental_div_mod(extent + tile_size - 1, tile_size);
    assert(tile_size * count >= extent);
    lemma_fundamental_div_mod(pos, tile_size);
    assert(tile_size * (pos / tile_size) < tile_size * count);
    lemma_mul_is_commutative(tile_size, pos / tile_size);
    lemma_mul_is_commutative(tile_size, count);
    lemma_mul_strict_inequality_converse(pos / tile_size, count, tile_size);
}

/// The first multiple of `tile_size` at or past `extent` is `tile_size`
/// times the tile count.
proof fn lemma_ceil_of_multiple(extent: int, tile_size: int, multiple: int)
    requires
        0 < tile_size,
        0 <= extent,
        multiple % tile_size == 0,
        extent <= multiple < extent + tile_size,
    ensures
        multiple / tile_size == tile_count(extent, tile_size),
{
    let m = multiple / tile_size;
    lemma_fundamental_div_mod(multiple, tile_size);
    assert(multiple == tile_size * m);
    lemma_fundamental_div_mod_converse(
        extent + tile_size - 1,
        tile_size,
        m,
        extent + tile_size - 1 - tile_size * m,
    );
}

/// Stepping a multiple of `tile_size` by one tile size advances its
/// quotient by one.
proof fn lemma_next_multiple(pos: int, tile_size: int)
    requires
        0 < tile_size,
        0 <= pos,
        pos % tile_size == 0,
    ensures
        (pos + tile_size) % tile_size == 0,
        (pos + tile_size) / tile_size == pos / tile_size + 1,
{
    lemma_fundamental_div_mod(pos, tile_size);
    lemma_mul_is_commutative(tile_size, pos / tile_size);
    lemma_mul_is_distributive_add_other_way(tile_size, pos / tile_size, 1);
    assert(pos + tile_size == (pos / tile_size + 1) * tile_size);
    lemma_mul_is_commutative(pos / tile_size + 1, tile_size);
    lemma_fundamental_div_mod_converse(pos + tile_size, tile_size, pos / tile_size + 1, 0);
}

/// Splitting a flat tile index into its column and row parts is exact.
proof fn lemma_tile_index_parts(ix: int, iy: int, ny: int)
    requires
        0 <= ix,
        0 <= iy < ny,
    ensures
        (ix * ny + iy) / ny == ix,
        (ix * ny + iy) % ny == iy,
{
    lemma_fundamental_div_mod_converse(ix * ny + iy, ny, ix, iy);
}

/// The origins of the tiles that partition a `width x height` image into
/// `tile_size x tile_size` blocks (clamped at the image edges by the
/// consumer), column by column, top to bottom within a column.
pub fn get_tiles(width: usize, height: usize, tile_size: usize) -> (tiles: Vec<(usize, usize)>)
    requires
        0 < tile_size,
        width + tile_size <= usize::MAX,
        height + tile_size <= usize::MAX,
    ensures
        is_tile_grid(tiles@, width as int, height as int, tile_size as int),
{
    let ghost nx = tile_count(width as int, tile_size as int);
    let ghost ny = tile_count(height as int, tile_size as int);
    let mut tiles: Vec<(usize, usize)> = Vec::new();
    proof {
        lemma_fundamental_div_mod_converse(0, tile_size as int, 0, 0);
    }
    let mut x: usize = 0;
    while x < width
        invariant
            0 < tile_size,
            width + tile_size <= usize::MAX,
            height + tile_size <= usize::MAX,
            nx == tile_count(width as int, tile_size as int),
            ny == tile_count(height as int, tile_size as int),
            x % tile_size == 0,
            x < width + tile_size,
            tiles@.len() == (x as int / tile_size as int) * ny,
            forall|k: int|
                0 <= k < tiles@.len() ==> (#[trigger] tiles@[k]).0 == tile_size * (k / ny)
                    && tiles@[k].1 == tile_size * (k % ny),
        decreases width + tile_size - x,
    {
        let ghost ix = x as int / tile_size as int;
        proof {
            lemma_fundamental_div_mod(x as int, tile_size as int);
            lemma_origin_below_count(width as int, tile_size as int, x as int);
            lemma_fundamental_div_mod_converse(0, tile_size as int, 0, 0);
        }
        let mut y: usize = 0;
        while y < height
            invariant
                0 < tile_size,
                height + tile_size <= usize::MAX,
                ny == tile_count(height as int, tile_size as int),
                y % tile_size == 0,
                y < height + tile_size,
                x == tile_size * ix,
                0 <= ix,
                tiles@.len() == ix * ny + y as int / tile_size as int,
                forall|k: int|
                    0 <= k < tiles@.len() ==> (#[trigger] tiles@[k]).0 == tile_size * (k / ny)
                        && tiles@[k].1 == tile_size * (k % ny),
            decreases height + tile_size - y,
        {
            proof {
                let iy = y as int / tile_size as int;
                lemma_fundamental_div_mod(y as int, tile_size as int);
                lemma_origin_below_count(height as int, tile_size as int, y as int);
                lemma_tile_index_parts(ix, iy, ny);
            }
            tiles.push((x, y));
            proof {
                lemma_next_multiple(y as int, tile_size as int);
            }
            y = y + tile_size;
        }
        proof {
            lemma_ceil_of_multiple(height as int, tile_size as int, y as int);
            lemma_mul_is_commutative(ny, ix);
            lemma_mul_is_distributive_add_other_way(ny, ix, 1);
            lemma_next_multiple(x as int, tile_size as int);
        }
        x = x + tile_size;
    }
    proof {
        lemma_ceil_of_multiple(width as int, tile_size as int, x as int);
    }
    tiles
}

/// The tiles partition the image: every pixel inside the image falls in
/// exactly one tile of the decomposition.
pub proof fn lemma_tiles_partition(
    tiles: Seq<(usize, usize)>,
    width: int,
    height: int,
    tile_size: int,
    px: int,
    py: int,
)
    requires
        0 < tile_size,
        is_tile_grid(tiles, width, height, tile_size),
        0 <= px < width,
        0 <= py < height,
    ensures
        exists|k: int|
            0 <= k < tiles.len() && tile_covers(#[trigger] tiles[k], tile_size, px, py),
        forall|k1: int, k2: int|
            0 <= k1 < tiles.len() && tile_covers(#[trigger] tiles[k1], tile_size, px, py) && 0
                <= k2 < tiles.len() && tile_covers(#[trigger] tiles[k2], tile_size, px, py)
                ==> k1 == k2,
{
    let nx = tile_count(width, tile_size);
    let ny = tile_count(height, tile_size);
    let ix = px / tile_size;
    let iy = py / tile_size;
    let kw = ix * ny + iy;
    lemma_fundamental_div_mod(px, tile_size);
    lemma_fundamental_div_mod(py, tile_size);
    lemma_origin_below_count(width, tile_size, px);
    lemma_origin_below_count(height, tile_size, py);
    lemma_tile_index_parts(ix, iy, ny);
    assert(kw < nx * ny) by {
        lemma_mul_is_distributive_add_other_way(ny, ix, 1);
        vstd::arithmetic::mul::lemma_mul_inequality(ix + 1, nx, ny);
    }
    assert(tile_covers(tiles[kw], tile_size, px, py));
    assert forall|k1: int, k2: int|
        0 <= k1 < tiles.len() && tile_covers(#[trigger] tiles[k1], tile_size, px, py) && 0 <= k2
            < tiles.len() && tile_covers(#[trigger] tiles[k2], tile_size, px, py) implies k1
        == k2 by {
        lemma_unique_cover(tiles, width, height, tile_size, px, py, k1);
        lemma_unique_cover(tiles, width, height, tile_size, px, py, k2);
    }
}

/// A tile that covers pixel (px, py) sits at the flat index built from the
/// pixel's tile column and row.
proof fn lemma_unique_cover(
    tiles: Seq<(usize, usize)>,
    width: int,
    height: int,
    tile_size: int,
    px: int,
    py: int,
    k: int,
)
    requires
        0 < tile_size,
        is_tile_grid(tiles, width, height, tile_size),
        0 <= px < width,
        0 <= py < height,
        0 <= k < tiles.len(),
        tile_covers(tiles[k], tile_size, px, py),
    ensures
        k == (px / tile_size) * tile_count(height, tile_size) + py / tile_size,
{
    let ny = tile_count(height, tile_size);
    assert(0 < ny) by {
        lemma_origin_below_count(height, tile_size, py);
    }
    lemma_fundamental_div_mod(k, ny);
    let kx = k / ny;
    let ky = k % ny;
    assert(tiles[k].0 == tile_size * kx && tiles[k].1 == tile_size * ky);
    lemma_fundamental_div_mod_converse(px, tile_size, kx, px - tile_size * kx);
    lemma_fundamental_div_mod_converse(py, tile_size, ky, py - tile_size * ky);
    lemma_mul_is_commutative(kx, ny);
}

} // verus!
