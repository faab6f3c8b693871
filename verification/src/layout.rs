//! Where the scalars go when a tensor is regrouped: the raster-scan order of the patches
//! and the grouping of the hidden channels into heads.

use vstd::prelude::*;
use vstd::arithmetic::div_mod::{
    lemma_fundamental_div_mod, lemma_fundamental_div_mod_converse, lemma_mod_bound,
};
use crate::config::{
    grid_side_of, head_dim_of, lemma_heads_tile_hidden, lemma_patches_tile_image, num_patches_of,
    patch_dim_of, valid_config, AIMv2Config, ConfigView,
};

verus! {

/// A pixel of one image: channel, row and column.
#[derive(Clone, Copy, Debug, PartialEq, Eq)]
pub struct Pixel {
    pub channel: u32,
    pub row: u32,
    pub col: u32,
}

/// A scalar of one patchified image: the index of the patch and the offset within the
/// flattened patch.
#[derive(Clone, Copy, Debug, PartialEq, Eq)]
pub struct PatchCell {
    pub patch: u64,
    pub offset: u64,
}

/// The channel, row and column that patch `patch` holds at offset `offset`.
///
/// Patches are numbered in raster-scan order, row by row over the grid. Within a patch the
/// scalars are laid out channel by channel, and within a channel row by row.
pub open spec fn source_pixel(m: ConfigView, patch: int, offset: int) -> (int, int, int) {
    let side = m.patch_size;
    let area = side * side;
    let grid_row = patch / grid_side_of(m);
    let grid_col = patch % grid_side_of(m);
    let within = offset % area;
    (offset / area, grid_row * side + within / side, grid_col * side + within % side)
}

/// The patch and the offset within it at which a pixel lands.
pub open spec fn patch_cell(m: ConfigView, channel: int, row: int, col: int) -> (int, int) {
    let side = m.patch_size;
    (
        (row / side) * grid_side_of(m) + col / side,
        channel * (side * side) + (row % side) * side + col % side,
    )
}

/// The pixel lies in the image.
pub open spec fn pixel_in_image(m: ConfigView, channel: int, row: int, col: int) -> bool {
    0 <= channel < m.num_channels && 0 <= row < m.image_size && 0 <= col < m.image_size
}

/// The cell lies in the patchified image.
pub open spec fn cell_in_patches(m: ConfigView, patch: int, offset: int) -> bool {
    0 <= patch < num_patches_of(m) && 0 <= offset < patch_dim_of(m)
}

/// `q * d + r` with `0 <= r < d` stays below `n * d` when `q < n`.
proof fn lemma_digits_bound(q: int, r: int, d: int, n: int)
    requires
        0 <= q < n,
        0 <= r < d,
    ensures
        0 <= q * d + r < n * d,
{
    assert(q * d + r < n * d && 0 <= q * d + r) by (nonlinear_arith)
        requires
            0 <= q < n,
            0 <= r < d,
    ;
}

/// Quotient and remainder of `x` by `d` when `x < n * d`.
proof fn lemma_split(x: int, d: int, n: int)
    requires
        d > 0,
        0 <= x < n * d,
    ensures
        0 <= x / d < n,
        0 <= x % d < d,
        x == (x / d) * d + x % d,
{
    lemma_fundamental_div_mod(x, d);
    lemma_mod_bound(x, d);
    let q = x / d;
    let r = x % d;
    assert(0 <= q < n) by (nonlinear_arith)
        requires
            d > 0,
            0 <= x < n * d,
            x == d * q + r,
            0 <= r < d,
    ;
    assert(d * q == q * d) by (nonlinear_arith);
}

/// Every cell of the patchified image holds a pixel of the image, and that pixel lands in
/// that very cell: no cell is filled twice or from outside.
pub proof fn lemma_cell_round_trip(m: ConfigView, patch: int, offset: int)
    requires
        valid_config(m),
        cell_in_patches(m, patch, offset),
    ensures
        ({
            let (channel, row, col) = source_pixel(m, patch, offset);
            pixel_in_image(m, channel, row, col) && patch_cell(m, channel, row, col) == (
                patch,
                offset,
            )
        }),
{
    lemma_patches_tile_image(m);
    let side = m.patch_size;
    let area = side * side;
    let grid = grid_side_of(m);
    assert(area > 0) by (nonlinear_arith)
        requires
            side > 0,
            area == side * side,
    ;
    assert(patch_dim_of(m) == m.num_channels * area) by (nonlinear_arith)
        requires
            patch_dim_of(m) == m.num_channels * side * side,
            area == side * side,
    ;
    assert(grid > 0) by (nonlinear_arith)
        requires
            grid * side == m.image_size,
            m.image_size >= 0,
            side > 0,
            0 <= patch < grid * grid,
    ;
    lemma_split(patch, grid, grid);
    lemma_split(offset, area, m.num_channels);
    let within = offset % area;
    lemma_split(within, side, side);
    let (channel, row, col) = source_pixel(m, patch, offset);
    lemma_digits_bound(patch / grid, within / side, side, grid);
    lemma_digits_bound(patch % grid, within % side, side, grid);
    lemma_fundamental_div_mod_converse(row, side, patch / grid, within / side);
    lemma_fundamental_div_mod_converse(col, side, patch % grid, within % side);
}

/// Every pixel of the image lands in a cell of the patchified image, and that cell holds
/// that very pixel: no pixel is lost.
pub proof fn lemma_pixel_round_trip(m: ConfigView, channel: int, row: int, col: int)
    requires
        valid_config(m),
        pixel_in_image(m, channel, row, col),
    ensures
        ({
            let (patch, offset) = patch_cell(m, channel, row, col);
            cell_in_patches(m, patch, offset) && source_pixel(m, patch, offset) == (
                channel,
                row,
                col,
            )
        }),
{
    lemma_patches_tile_image(m);
    let side = m.patch_size;
    let area = side * side;
    let grid = grid_side_of(m);
    assert(patch_dim_of(m) == m.num_channels * area) by (nonlinear_arith)
        requires
            patch_dim_of(m) == m.num_channels * side * side,
            area == side * side,
    ;
    lemma_split(row, side, grid);
    lemma_split(col, side, grid);
    let (patch, offset) = patch_cell(m, channel, row, col);
    let within = (row % side) * side + col % side;
    lemma_digits_bound(row / side, col / side, grid, grid);
    lemma_digits_bound(row % side, col % side, side, side);
    lemma_digits_bound(channel, within, area, m.num_channels);
    lemma_fundamental_div_mod_converse(patch, grid, row / side, col / side);
    lemma_fundamental_div_mod_converse(offset, area, channel, within);
    lemma_fundamental_div_mod_converse(within, side, row % side, col % side);
}

/// Patches are numbered row by row: among patches of one grid row the one further right has
/// the larger index, and every patch of a lower grid row has a larger index than every patch
/// of a higher one.
pub proof fn lemma_raster_order(m: ConfigView, row_a: int, col_a: int, row_b: int, col_b: int)
    requires
        valid_config(m),
        0 <= row_a < m.image_size,
        0 <= col_a < m.image_size,
        0 <= row_b < m.image_size,
        0 <= col_b < m.image_size,
    ensures
        ({
            let side = m.patch_size;
            let a = patch_cell(m, 0, row_a, col_a).0;
            let b = patch_cell(m, 0, row_b, col_b).0;
            a < b <==> (row_a / side < row_b / side || (row_a / side == row_b / side && col_a
                / side < col_b / side))
        }),
{
    lemma_patches_tile_image(m);
    let side = m.patch_size;
    let grid = grid_side_of(m);
    lemma_split(row_a, side, grid);
    lemma_split(col_a, side, grid);
    lemma_split(row_b, side, grid);
    lemma_split(col_b, side, grid);
    let ra = row_a / side;
    let ca = col_a / side;
    let rb = row_b / side;
    let cb = col_b / side;
    assert((ra * grid + ca < rb * grid + cb) <==> (ra < rb || (ra == rb && ca < cb)))
        by (nonlinear_arith)
        requires
            0 <= ca < grid,
            0 <= cb < grid,
            0 <= ra,
            0 <= rb,
    ;
}

/// The hidden channel that head `head` holds at lane `lane`: each head owns a contiguous run
/// of `head_dim` channels.
pub open spec fn head_channel(m: ConfigView, head: int, lane: int) -> int {
    head * head_dim_of(m) + lane
}

/// The head and the lane within it to which a hidden channel belongs.
pub open spec fn channel_head(m: ConfigView, channel: int) -> (int, int) {
    (channel / head_dim_of(m), channel % head_dim_of(m))
}

/// The lane lies in a head of the model.
pub open spec fn lane_in_heads(m: ConfigView, head: int, lane: int) -> bool {
    0 <= head < m.num_attention_heads && 0 <= lane < head_dim_of(m)
}

/// Every lane of every head holds a hidden channel, and that channel belongs to that very
/// lane.
pub proof fn lemma_lane_round_trip(m: ConfigView, head: int, lane: int)
    requires
        valid_config(m),
        lane_in_heads(m, head, lane),
    ensures
        0 <= head_channel(m, head, lane) < m.hidden_size,
        channel_head(m, head_channel(m, head, lane)) == (head, lane),
{
    lemma_heads_tile_hidden(m);
    let width = head_dim_of(m);
    lemma_digits_bound(head, lane, width, m.num_attention_heads);
    assert(m.num_attention_heads * width == width * m.num_attention_heads) by (nonlinear_arith);
    lemma_fundamental_div_mod_converse(head_channel(m, head, lane), width, head, lane);
}

/// Every hidden channel belongs to a lane of a head, and that lane holds that very channel:
/// the heads share out the hidden width with no channel left over and none shared.
pub proof fn lemma_channel_round_trip(m: ConfigView, channel: int)
    requires
        valid_config(m),
        0 <= channel < m.hidden_size,
    ensures
        ({
            let (head, lane) = channel_head(m, channel);
            lane_in_heads(m, head, lane) && head_channel(m, head, lane) == channel
        }),
{
    lemma_heads_tile_hidden(m);
    let width = head_dim_of(m);
    assert(width > 0) by (nonlinear_arith)
        requires
            width * m.num_attention_heads == m.hidden_size,
            m.num_attention_heads > 0,
            m.hidden_size > 0,
    ;
    assert(m.num_attention_heads * width == width * m.num_attention_heads) by (nonlinear_arith);
    lemma_split(channel, width, m.num_attention_heads);
}

/// The pixel that a cell of the patchified image holds, or `None` for a cell outside it.
pub fn source_pixel_of(config: &AIMv2Config, cell: PatchCell) -> (pixel: Option<Pixel>)
    ensures
        pixel is Some <==> cell_in_patches(config@, cell.patch as int, cell.offset as int),
        pixel is Some ==> (
            pixel.unwrap().channel as int,
            pixel.unwrap().row as int,
            pixel.unwrap().col as int,
        ) == source_pixel(config@, cell.patch as int, cell.offset as int),
{
    proof {
        use_type_invariant(config);
    }
    if cell.patch >= config.num_patches() || cell.offset >= config.patch_dim() {
        return None;
    }
    proof {
        lemma_cell_round_trip(config@, cell.patch as int, cell.offset as int);
        lemma_patches_tile_image(config@);
    }
    let side: u64 = config.patch_size() as u64;
    let grid: u64 = config.grid_side() as u64;
    assert(grid > 0) by (nonlinear_arith)
        requires
            0 <= cell.patch < grid * grid,
            grid >= 0,
    ;
    assert(0 < side * side <= 0xFFFF_FFFF * 0xFFFF_FFFF) by (nonlinear_arith)
        requires
            0 < side <= 0xFFFF_FFFF,
    ;
    let area: u64 = side * side;
    let within: u64 = cell.offset % area;
    let grid_row: u64 = cell.patch / grid;
    let grid_col: u64 = cell.patch % grid;
    proof {
        lemma_split(cell.patch as int, grid as int, grid as int);
        lemma_split(within as int, side as int, side as int);
        lemma_digits_bound(grid_row as int, (within / side) as int, side as int, grid as int);
        lemma_digits_bound(grid_col as int, (within % side) as int, side as int, grid as int);
    }
    let channel: u64 = cell.offset / area;
    let row: u64 = grid_row * side + within / side;
    let col: u64 = grid_col * side + within % side;
    Some(Pixel { channel: channel as u32, row: row as u32, col: col as u32 })
}

/// The cell of the patchified image in which a pixel lands, or `None` for a pixel outside
/// the image.
pub fn patch_cell_of(config: &AIMv2Config, pixel: Pixel) -> (cell: Option<PatchCell>)
    ensures
        cell is Some <==> pixel_in_image(
            config@,
            pixel.channel as int,
            pixel.row as int,
            pixel.col as int,
        ),
        cell is Some ==> (cell.unwrap().patch as int, cell.unwrap().offset as int) == patch_cell(
            config@,
            pixel.channel as int,
            pixel.row as int,
            pixel.col as int,
        ),
{
    proof {
        use_type_invariant(config);
    }
    let size: u32 = config.image_size();
    if pixel.channel >= config.num_channels() || pixel.row >= size || pixel.col >= size {
        return None;
    }
    proof {
        lemma_pixel_round_trip(config@, pixel.channel as int, pixel.row as int, pixel.col as int);
        lemma_patches_tile_image(config@);
    }
    let side: u64 = config.patch_size() as u64;
    let grid: u64 = config.grid_side() as u64;
    let row: u64 = pixel.row as u64;
    let col: u64 = pixel.col as u64;
    assert(0 < side * side <= 0xFFFF_FFFF * 0xFFFF_FFFF) by (nonlinear_arith)
        requires
            0 < side <= 0xFFFF_FFFF,
    ;
    let area: u64 = side * side;
    proof {
        lemma_split(row as int, side as int, grid as int);
        lemma_split(col as int, side as int, grid as int);
        lemma_digits_bound((row / side) as int, (col / side) as int, grid as int, grid as int);
        lemma_digits_bound((row % side) as int, (col % side) as int, side as int, side as int);
        lemma_digits_bound(
            pixel.channel as int,
            ((row % side) * side + col % side) as int,
            area as int,
            config@.num_channels,
        );
        assert(patch_dim_of(config@) == config@.num_channels * area) by (nonlinear_arith)
            requires
                patch_dim_of(config@) == config@.num_channels * side * side,
                area == side * side,
        ;
        assert(grid * grid <= 0xFFFF_FFFF * 0xFFFF_FFFF) by (nonlinear_arith)
            requires
                0 <= grid <= 0xFFFF_FFFF,
        ;
        assert((pixel.channel as int) * (area as int) >= 0) by (nonlinear_arith)
            requires
                pixel.channel >= 0,
                area >= 0,
        ;
    }
    let within: u64 = (row % side) * side + col % side;
    let patch: u64 = (row / side) * grid + col / side;
    let offset: u64 = (pixel.channel as u64) * area + within;
    Some(PatchCell { patch, offset })
}

/// The hidden channel at a lane of a head, or `None` for a lane that no head has.
pub fn head_channel_of(config: &AIMv2Config, head: u32, lane: u32) -> (channel: Option<u32>)
    ensures
        channel is Some <==> lane_in_heads(config@, head as int, lane as int),
        channel is Some ==> channel.unwrap() == head_channel(config@, head as int, lane as int),
{
    proof {
        use_type_invariant(config);
    }
    let width: u32 = config.head_dim();
    if head >= config.num_attention_heads() || lane >= width {
        return None;
    }
    proof {
        lemma_lane_round_trip(config@, head as int, lane as int);
        assert((head as int) * (width as int) >= 0) by (nonlinear_arith)
            requires
                head >= 0,
                width >= 0,
        ;
    }
    Some(head * width + lane)
}

/// The head and the lane of a hidden channel, or `None` for a channel that the model does
/// not have.
pub fn channel_head_of(config: &AIMv2Config, channel: u32) -> (place: Option<(u32, u32)>)
    ensures
        place is Some <==> 0 <= channel < config@.hidden_size,
        place is Some ==> (place.unwrap().0 as int, place.unwrap().1 as int) == channel_head(
            config@,
            channel as int,
        ),
{
    proof {
        use_type_invariant(config);
    }
    if channel >= config.hidden_size() {
        return None;
    }
    proof {
        lemma_channel_round_trip(config@, channel as int);
    }
    let width: u32 = config.head_dim();
    Some((channel / width, channel % width))
}

} // verus!
