//! Division of a render layer into tiles.
//!
//! A layer is scaled by the zoom factor and cut into square tiles, row by row from the top left.
//! The tiles of the last column and of the last row are cut off at the layer's edge.

use vstd::prelude::*;

use crate::geometry::{Point2D, Rect, Size2D};

verus! {

/// One tile of a layer.
#[derive(Clone, Copy, Debug, PartialEq, Eq, Structural)]
pub struct Tile {
    /// The position of the tile in unscaled page coordinates, with its size on screen.
    pub rect: Rect,
    /// The rectangle that the tile takes up on screen.
    pub screen_pos: Rect,
    /// The number of bytes in one row of the tile's buffer.
    pub stride: usize,
}

/// The smaller of two numbers.
pub open spec fn min(a: int, b: int) -> int {
    if a < b {
        a
    } else {
        b
    }
}

/// How many tiles of `tile_size` pixels it takes to span `extent` pixels.
pub open spec fn tile_count(extent: int, tile_size: int) -> int {
    if extent == 0 {
        0
    } else {
        (extent + tile_size - 1) / tile_size
    }
}

/// The tile in the given row and column of a layer of the given size.
pub open spec fn tile_at(size: Size2D, tile_size: usize, scale: usize, row: int, col: int) -> Tile {
    let x = col * tile_size;
    let y = row * tile_size;
    let extent = Size2D {
        width: min(tile_size as int, size.width * scale - x) as usize,
        height: min(tile_size as int, size.height * scale - y) as usize,
    };
    Tile {
        rect: Rect {
            origin: Point2D { x: (x / scale as int) as usize, y: (y / scale as int) as usize },
            size: extent,
        },
        screen_pos: Rect { origin: Point2D { x: x as usize, y: y as usize }, size: extent },
        stride: (4 * extent.width) as usize,
    }
}

/// The number of tiles in one row of the layer.
pub open spec fn columns(size: Size2D, tile_size: usize, scale: usize) -> int {
    tile_count(size.width * scale, tile_size as int)
}

/// The number of rows of tiles in the layer.
pub open spec fn rows(size: Size2D, tile_size: usize, scale: usize) -> int {
    tile_count(size.height * scale, tile_size as int)
}

/// All tiles of a layer, row by row.
pub open spec fn layer_tiles(size: Size2D, tile_size: usize, scale: usize) -> Seq<Tile> {
    let cols = columns(size, tile_size, scale);
    Seq::new(
        (rows(size, tile_size, scale) * cols) as nat,
        |k: int| tile_at(size, tile_size, scale, k / cols, k % cols),
    )
}

/// Whether a layer can be divided: it has no rows of pixels, or else tiles are not empty, and the
/// scaled layer and the rows of a tile's buffer can be measured in machine words.
pub open spec fn tileable(size: Size2D, tile_size: usize, scale: usize) -> bool {
    &&& size.height * scale <= usize::MAX
    &&& size.height * scale > 0 ==> {
        &&& tile_size > 0
        &&& size.width * scale <= usize::MAX
        &&& 4 * min(tile_size as int, size.width * scale) <= usize::MAX
    }
}

/// Decides whether a layer can be divided into tiles.
pub fn is_tileable(size: Size2D, tile_size: usize, scale: usize) -> (res: bool)
    ensures
        res == tileable(size, tile_size, scale),
{
    match (size.width.checked_mul(scale), size.height.checked_mul(scale)) {
        (_, Some(0)) => true,
        (Some(width), Some(_)) => {
            let widest: usize = if tile_size < width {
                tile_size
            } else {
                width
            };
            tile_size > 0 && widest <= usize::MAX / 4
        },
        _ => false,
    }
}

/// Divides a layer into tiles.
pub fn divide_into_tiles(size: Size2D, tile_size: usize, scale: usize) -> (tiles: Vec<Tile>)
    requires
        tileable(size, tile_size, scale),
    ensures
        tiles@ == layer_tiles(size, tile_size, scale),
{
    let layer_height: usize = size.height * scale;
    let ghost cols = columns(size, tile_size, scale);
    let mut tiles: Vec<Tile> = Vec::new();
    if layer_height == 0 {
        assert(0 * cols == 0);
        assert(tiles@ =~= layer_tiles(size, tile_size, scale));
        return tiles;
    }
    let layer_width: usize = size.width * scale;
    let mut y: usize = 0;
    let ghost mut row: int = 0;
    proof {
        lemma_tile_count(layer_width as int, tile_size as int, 0);
        lemma_tile_count(layer_height as int, tile_size as int, 0);
        assert(0 * tile_size == 0);
        assert(0 * cols == 0);
    }
    while y < layer_height
        invariant
            tileable(size, tile_size, scale),
            layer_width == size.width * scale,
            layer_height == size.height * scale,
            layer_height > 0,
            cols == columns(size, tile_size, scale),
            0 <= row <= rows(size, tile_size, scale),
            y == min(row * tile_size, layer_height as int),
            tiles@.len() == row * cols,
            forall|k: int|
                0 <= k < tiles@.len() ==> #[trigger] tiles@[k] == tile_at(
                    size,
                    tile_size,
                    scale,
                    k / cols,
                    k % cols,
                ),
        decreases layer_height - y,
    {
        let height: usize = if tile_size < layer_height - y {
            tile_size
        } else {
            layer_height - y
        };
        let mut x: usize = 0;
        let ghost mut col: int = 0;
        proof {
            lemma_tile_count(layer_width as int, tile_size as int, 0);
            lemma_tile_count(layer_height as int, tile_size as int, row);
            assert(0 * tile_size == 0);
        }
        while x < layer_width
            invariant
                tileable(size, tile_size, scale),
                layer_width == size.width * scale,
                layer_height == size.height * scale,
                layer_height > 0,
                cols == columns(size, tile_size, scale),
                0 <= row < rows(size, tile_size, scale),
                0 <= col <= cols,
                y == row * tile_size,
                y < layer_height,
                height == min(tile_size as int, layer_height - y),
                x == min(col * tile_size, layer_width as int),
                tiles@.len() == row * cols + col,
                forall|k: int|
                    0 <= k < tiles@.len() ==> #[trigger] tiles@[k] == tile_at(
                        size,
                        tile_size,
                        scale,
                        k / cols,
                        k % cols,
                    ),
            decreases layer_width - x,
        {
            let width: usize = if tile_size < layer_width - x {
                tile_size
            } else {
                layer_width - x
            };
            proof {
                lemma_tile_count(layer_width as int, tile_size as int, col);
                lemma_cell_index(cols, row, col);
                assert(scale > 0) by (nonlinear_arith)
                    requires
                        size.width * scale > 0,
                ;
                lemma_next_multiple(tile_size as int, col);
            }
            let extent = Size2D { width, height };
            tiles.push(
                Tile {
                    rect: Rect { origin: Point2D { x: x / scale, y: y / scale }, size: extent },
                    screen_pos: Rect { origin: Point2D { x, y }, size: extent },
                    stride: width * 4,
                },
            );
            x = x + width;
            proof {
                col = col + 1;
            }
        }
        proof {
            if col < cols {
                lemma_tile_count(layer_width as int, tile_size as int, col);
            }
            lemma_next_multiple(tile_size as int, row);
            lemma_next_multiple(cols, row);
        }
        y = y + height;
        proof {
            row = row + 1;
        }
    }
    proof {
        if row < rows(size, tile_size, scale) {
            lemma_tile_count(layer_height as int, tile_size as int, row);
        }
        assert(tiles@ =~= layer_tiles(size, tile_size, scale));
    }
    tiles
}

/// A multiple of `tile_size` lies inside the extent exactly when its index is below the count.
proof fn lemma_tile_count(extent: int, tile_size: int, index: int)
    requires
        tile_size > 0,
        extent >= 0,
        index >= 0,
    ensures
        tile_count(extent, tile_size) >= 0,
        index * tile_size < extent <==> index < tile_count(extent, tile_size),
{
    let top = extent + tile_size - 1;
    let count = top / tile_size;
    vstd::arithmetic::div_mod::lemma_fundamental_div_mod(top, tile_size);
    vstd::arithmetic::div_mod::lemma_mod_bound(top, tile_size);
    vstd::arithmetic::div_mod::lemma_div_pos_is_pos(top, tile_size);
    assert(top == tile_size * count + top % tile_size);
    assert(index * tile_size < extent <==> index < count) by (nonlinear_arith)
        requires
            tile_size > 0,
            top == extent + tile_size - 1,
            tile_size * count <= top < tile_size * count + tile_size,
    ;
    if extent == 0 {
        assert(index * tile_size >= 0) by (nonlinear_arith)
            requires
                index >= 0,
                tile_size > 0,
        ;
    }
}

/// The cell in row `row` and column `col` has index `row * cols + col`.
proof fn lemma_cell_index(cols: int, row: int, col: int)
    requires
        0 <= col < cols,
        0 <= row,
    ensures
        (row * cols + col) / cols == row,
        (row * cols + col) % cols == col,
{
    vstd::arithmetic::div_mod::lemma_fundamental_div_mod_converse(
        row * cols + col,
        cols,
        row,
        col,
    );
}

proof fn lemma_next_multiple(step: int, index: int)
    ensures
        (index + 1) * step == index * step + step,
{
    assert((index + 1) * step == index * step + step) by (nonlinear_arith);
}

/// The place and the size of one tile, without machine words.
proof fn lemma_tile_place(size: Size2D, tile_size: usize, scale: usize, row: int, col: int)
    requires
        tileable(size, tile_size, scale),
        0 <= row < rows(size, tile_size, scale),
        0 <= col < columns(size, tile_size, scale),
    ensures
        ({
            let tile = tile_at(size, tile_size, scale, row, col);
            &&& tile.screen_pos.origin.x == col * tile_size
            &&& tile.screen_pos.origin.y == row * tile_size
            &&& tile.screen_pos.size.width == min(
                tile_size as int,
                size.width * scale - col * tile_size,
            )
            &&& tile.screen_pos.size.height == min(
                tile_size as int,
                size.height * scale - row * tile_size,
            )
            &&& tile.screen_pos.size.width > 0
            &&& tile.screen_pos.size.height > 0
            &&& tile.stride == 4 * tile.screen_pos.size.width
        }),
{
    lemma_tile_count(size.width * scale, tile_size as int, col);
    lemma_tile_count(size.height * scale, tile_size as int, row);
    assert(col * tile_size >= 0) by (nonlinear_arith)
        requires
            col >= 0,
    ;
    assert(row * tile_size >= 0) by (nonlinear_arith)
        requires
            row >= 0,
    ;
}

/// The row and the column of a tile, from its place in the list.
proof fn lemma_cell_of_index(rows: int, cols: int, k: int)
    requires
        0 <= k < rows * cols,
        rows >= 0,
        cols >= 0,
    ensures
        cols > 0,
        0 <= k / cols < rows,
        0 <= k % cols < cols,
        k == (k / cols) * cols + k % cols,
{
    assert(cols > 0) by (nonlinear_arith)
        requires
            0 < rows * cols,
            rows >= 0,
            cols >= 0,
    ;
    vstd::arithmetic::div_mod::lemma_fundamental_div_mod(k, cols);
    vstd::arithmetic::div_mod::lemma_mod_bound(k, cols);
    let row = k / cols;
    assert(row * cols == cols * row) by (nonlinear_arith);
    assert(0 <= row < rows) by (nonlinear_arith)
        requires
            0 <= k < rows * cols,
            row * cols <= k < row * cols + cols,
            cols > 0,
    ;
}

/// The tile of a pixel: the quotients of its coordinates by the tile size.
proof fn lemma_cell_of_pixel(p: int, tile_size: int, index: int)
    requires
        tile_size > 0,
        index * tile_size <= p < index * tile_size + tile_size,
    ensures
        index == p / tile_size,
{
    vstd::arithmetic::div_mod::lemma_fundamental_div_mod_converse(
        p,
        tile_size,
        index,
        p - index * tile_size,
    );
}

/// Every pixel of the scaled layer lies in one tile, and in no other.
pub proof fn law_each_pixel_in_exactly_one_tile(
    size: Size2D,
    tile_size: usize,
    scale: usize,
    px: int,
    py: int,
)
    requires
        tileable(size, tile_size, scale),
        0 <= px < size.width * scale,
        0 <= py < size.height * scale,
    ensures
        exists|k: int|
            0 <= k < layer_tiles(size, tile_size, scale).len() && (#[trigger] layer_tiles(
                size,
                tile_size,
                scale,
            )[k]).screen_pos.covers(px, py),
        forall|j: int, k: int|
            #![trigger layer_tiles(size, tile_size, scale)[j], layer_tiles(size, tile_size, scale)[k]]
            {
                &&& 0 <= j < layer_tiles(size, tile_size, scale).len()
                &&& 0 <= k < layer_tiles(size, tile_size, scale).len()
                &&& layer_tiles(size, tile_size, scale)[j].screen_pos.covers(px, py)
                &&& layer_tiles(size, tile_size, scale)[k].screen_pos.covers(px, py)
            } ==> j == k,
{
    let tiles = layer_tiles(size, tile_size, scale);
    let t = tile_size as int;
    let cols = columns(size, tile_size, scale);
    let rs = rows(size, tile_size, scale);
    let col = px / t;
    let row = py / t;
    lemma_tile_count(size.width * scale, t, 0);
    lemma_tile_count(size.height * scale, t, 0);
    vstd::arithmetic::div_mod::lemma_fundamental_div_mod(px, t);
    vstd::arithmetic::div_mod::lemma_mod_bound(px, t);
    vstd::arithmetic::div_mod::lemma_div_pos_is_pos(px, t);
    vstd::arithmetic::div_mod::lemma_fundamental_div_mod(py, t);
    vstd::arithmetic::div_mod::lemma_mod_bound(py, t);
    vstd::arithmetic::div_mod::lemma_div_pos_is_pos(py, t);
    assert(col * t == t * col) by (nonlinear_arith);
    assert(row * t == t * row) by (nonlinear_arith);
    lemma_tile_count(size.width * scale, t, col);
    lemma_tile_count(size.height * scale, t, row);
    lemma_tile_place(size, tile_size, scale, row, col);
    lemma_cell_index(cols, row, col);
    let home = row * cols + col;
    assert(0 <= home < rs * cols) by (nonlinear_arith)
        requires
            0 <= row < rs,
            0 <= col < cols,
            home == row * cols + col,
    ;
    assert(tiles[home].screen_pos.covers(px, py));
    assert forall|k: int|
        0 <= k < tiles.len() && (#[trigger] tiles[k]).screen_pos.covers(px, py) implies k
        == home by {
        lemma_cell_of_index(rs, cols, k);
        lemma_tile_place(size, tile_size, scale, k / cols, k % cols);
        lemma_cell_of_pixel(px, t, k % cols);
        lemma_cell_of_pixel(py, t, k / cols);
    }
}

/// No tile reaches beyond the edge of the scaled layer.
pub proof fn law_tiles_stay_inside_layer(
    size: Size2D,
    tile_size: usize,
    scale: usize,
    k: int,
    px: int,
    py: int,
)
    requires
        tileable(size, tile_size, scale),
        0 <= k < layer_tiles(size, tile_size, scale).len(),
        layer_tiles(size, tile_size, scale)[k].screen_pos.covers(px, py),
    ensures
        0 <= px < size.width * scale,
        0 <= py < size.height * scale,
{
    let cols = columns(size, tile_size, scale);
    let rs = rows(size, tile_size, scale);
    assert(0 * cols == 0);
    lemma_tile_count(size.width * scale, tile_size as int, 0);
    lemma_tile_count(size.height * scale, tile_size as int, 0);
    lemma_cell_of_index(rs, cols, k);
    lemma_tile_place(size, tile_size, scale, k / cols, k % cols);
}

/// No tile is empty and none is larger than the tile size; a row of its buffer holds four bytes
/// for each of its pixels.
pub proof fn law_tile_sizes(size: Size2D, tile_size: usize, scale: usize, k: int)
    requires
        tileable(size, tile_size, scale),
        0 <= k < layer_tiles(size, tile_size, scale).len(),
    ensures
        ({
            let tile = layer_tiles(size, tile_size, scale)[k];
            &&& 0 < tile.screen_pos.size.width <= tile_size
            &&& 0 < tile.screen_pos.size.height <= tile_size
            &&& tile.rect.size == tile.screen_pos.size
            &&& tile.stride == 4 * tile.screen_pos.size.width
        }),
{
    let cols = columns(size, tile_size, scale);
    let rs = rows(size, tile_size, scale);
    assert(0 * cols == 0);
    lemma_tile_count(size.width * scale, tile_size as int, 0);
    lemma_tile_count(size.height * scale, tile_size as int, 0);
    lemma_cell_of_index(rs, cols, k);
    lemma_tile_place(size, tile_size, scale, k / cols, k % cols);
}

/// Tiles begin at multiples of the tile size, inside the scaled layer, and reach to the next
/// multiple or to the layer's edge.
pub proof fn law_tile_grid(size: Size2D, tile_size: usize, scale: usize, k: int)
    requires
        tileable(size, tile_size, scale),
        0 <= k < layer_tiles(size, tile_size, scale).len(),
    ensures
        ({
            let place = layer_tiles(size, tile_size, scale)[k].screen_pos;
            let width = size.width * scale;
            let height = size.height * scale;
            &&& tile_size > 0
            &&& place.origin.x < width
            &&& place.origin.y < height
            &&& place.origin.x as int % tile_size as int == 0
            &&& place.origin.y as int % tile_size as int == 0
            &&& place.origin.x + place.size.width <= width
            &&& place.origin.y + place.size.height <= height
            &&& place.size.width == tile_size || place.origin.x + place.size.width == width
            &&& place.size.height == tile_size || place.origin.y + place.size.height == height
        }),
{
    let cols = columns(size, tile_size, scale);
    let rs = rows(size, tile_size, scale);
    assert(0 * cols == 0);
    lemma_tile_count(size.width * scale, tile_size as int, 0);
    lemma_tile_count(size.height * scale, tile_size as int, 0);
    lemma_cell_of_index(rs, cols, k);
    lemma_tile_place(size, tile_size, scale, k / cols, k % cols);
    vstd::arithmetic::div_mod::lemma_mod_multiples_basic(k % cols, tile_size as int);
    vstd::arithmetic::div_mod::lemma_mod_multiples_basic(k / cols, tile_size as int);
}

/// Tiles stand row by row from the top, and from left to right in a row.
pub proof fn law_tiles_stand_row_by_row(
    size: Size2D,
    tile_size: usize,
    scale: usize,
    j: int,
    k: int,
)
    requires
        tileable(size, tile_size, scale),
        0 <= j < k < layer_tiles(size, tile_size, scale).len(),
    ensures
        ({
            let one = layer_tiles(size, tile_size, scale)[j].screen_pos.origin;
            let other = layer_tiles(size, tile_size, scale)[k].screen_pos.origin;
            one.y < other.y || (one.y == other.y && one.x < other.x)
        }),
{
    let cols = columns(size, tile_size, scale);
    let rs = rows(size, tile_size, scale);
    assert(0 * cols == 0);
    lemma_tile_count(size.width * scale, tile_size as int, 0);
    lemma_tile_count(size.height * scale, tile_size as int, 0);
    lemma_cell_of_index(rs, cols, j);
    lemma_cell_of_index(rs, cols, k);
    lemma_tile_place(size, tile_size, scale, j / cols, j % cols);
    lemma_tile_place(size, tile_size, scale, k / cols, k % cols);
    let (row, col) = (j / cols, j % cols);
    let (below, right) = (k / cols, k % cols);
    assert(row < below || (row == below && col < right)) by (nonlinear_arith)
        requires
            j == row * cols + col,
            k == below * cols + right,
            j < k,
            0 <= col < cols,
            0 <= right < cols,
    ;
    let t = tile_size as int;
    assert(row < below ==> row * t < below * t) by (nonlinear_arith)
        requires
            t > 0,
    ;
    assert(col < right ==> col * t < right * t) by (nonlinear_arith)
        requires
            t > 0,
    ;
}

/// The page origin of a tile is its screen origin divided by the zoom factor, on both axes.
pub proof fn law_page_origins(size: Size2D, tile_size: usize, scale: usize, k: int)
    requires
        tileable(size, tile_size, scale),
        0 <= k < layer_tiles(size, tile_size, scale).len(),
    ensures
        ({
            let tile = layer_tiles(size, tile_size, scale)[k];
            let on_page = tile.rect.origin;
            let on_screen = tile.screen_pos.origin;
            &&& on_page.x * scale <= on_screen.x < (on_page.x + 1) * scale
            &&& on_page.y * scale <= on_screen.y < (on_page.y + 1) * scale
        }),
{
    law_tile_grid(size, tile_size, scale, k);
    let tile = layer_tiles(size, tile_size, scale)[k];
    let x = tile.screen_pos.origin.x as int;
    let y = tile.screen_pos.origin.y as int;
    let s = scale as int;
    assert(s > 0) by (nonlinear_arith)
        requires
            size.width * scale > 0,
            s == scale as int,
    ;
    lemma_quotient(x, s);
    lemma_quotient(y, s);
    let cols = columns(size, tile_size, scale);
    let rs = rows(size, tile_size, scale);
    assert(0 * cols == 0);
    lemma_tile_count(size.width * scale, tile_size as int, 0);
    lemma_tile_count(size.height * scale, tile_size as int, 0);
    lemma_cell_of_index(rs, cols, k);
    lemma_tile_place(size, tile_size, scale, k / cols, k % cols);
}

proof fn lemma_quotient(p: int, s: int)
    requires
        p >= 0,
        s > 0,
    ensures
        0 <= p / s <= p,
        (p / s) * s <= p < (p / s + 1) * s,
{
    vstd::arithmetic::div_mod::lemma_fundamental_div_mod(p, s);
    vstd::arithmetic::div_mod::lemma_mod_bound(p, s);
    vstd::arithmetic::div_mod::lemma_div_pos_is_pos(p, s);
    let q = p / s;
    assert(q * s == s * q && (q + 1) * s == s * q + s && q <= s * q) by (nonlinear_arith)
        requires
            q >= 0,
            s > 0,
    ;
}

} // verus!
