//! The grid of map areas.
//!
//! At scale `s` a map covers a square of `128 * 2^s` blocks, and the squares of
//! one scale tile the world. Along each axis a position is given here as a *grid
//! coordinate*: the world coordinate plus 64, rounded down to a whole block. Area
//! `n` of width `w` then holds the grid coordinates from `n * w` up to
//! `(n + 1) * w`.

use vstd::arithmetic::div_mod::{
    lemma_div_is_ordered, lemma_fundamental_div_mod, lemma_mod_bound, lemma_mod_multiples_basic,
};
use vstd::arithmetic::power2::{lemma2_to64, lemma_pow2_unfold, pow2};
use vstd::prelude::*;

verus! {

/// Pixels along one edge of a map, and blocks along one edge at scale 0.
pub const MAP_SIZE: i32 = 128;

/// Number of pixels of a map.
pub const MAP_COLOR_COUNT: usize = 16384;

/// Largest scale that a map can have.
pub const MAX_SCALE: i8 = 4;

/// Offset between world coordinates and grid coordinates.
pub const GRID_OFFSET: i32 = 64;

/// The nearest scale that a map can have.
pub open spec fn clamped_scale(scale: int) -> int {
    if scale < 0 {
        0
    } else if scale > MAX_SCALE {
        MAX_SCALE as int
    } else {
        scale
    }
}

/// Whether a map can have this scale.
pub open spec fn valid_scale(scale: int) -> bool {
    0 <= scale <= MAX_SCALE
}

/// Blocks along one edge of a map of the given scale.
pub open spec fn map_width(scale: int) -> int {
    MAP_SIZE * pow2(scale as nat)
}

/// The world coordinate of the centre of the area that holds `grid`.
pub open spec fn area_center(grid: int, scale: int) -> int {
    grid / map_width(scale) * map_width(scale) + map_width(scale) / 2 - GRID_OFFSET
}

/// Whether a map of the given centre and scale covers the grid coordinate `grid`.
pub open spec fn covers(center: int, scale: int, grid: int) -> bool {
    -map_width(scale) <= 2 * (grid - GRID_OFFSET - center) < map_width(scale)
}

/// Whether `center` is the centre of an area of the given scale.
pub open spec fn on_grid(center: int, scale: int) -> bool {
    (center + GRID_OFFSET - map_width(scale) / 2) % map_width(scale) == 0
}

/// Whether the area that holds `grid` lies within the 32-bit world coordinates.
pub open spec fn within_world(grid: int) -> bool {
    i32::MIN <= grid <= i32::MAX
}

proof fn lemma_widths()
    ensures
        map_width(0) == 128,
        map_width(1) == 256,
        map_width(2) == 512,
        map_width(3) == 1024,
        map_width(4) == 2048,
{
    lemma2_to64();
}

/// The area that holds a grid coordinate starts at or before it and ends after it,
/// and areas do not straddle the ends of the 32-bit range.
proof fn lemma_area_bounds(grid: int, scale: int)
    requires
        valid_scale(scale),
    ensures
        map_width(scale) >= 128,
        map_width(scale) % 128 == 0,
        grid / map_width(scale) * map_width(scale) <= grid,
        grid < grid / map_width(scale) * map_width(scale) + map_width(scale),
        within_world(grid) ==> {
            &&& i32::MIN <= grid / map_width(scale) <= i32::MAX
            &&& i32::MIN <= grid / map_width(scale) * map_width(scale)
            &&& grid / map_width(scale) * map_width(scale) + map_width(scale) <= i32::MAX + 1
        },
{
    lemma_widths();
    let width = map_width(scale);
    let areas: int = if scale == 0 {
        0x100_0000
    } else if scale == 1 {
        0x80_0000
    } else if scale == 2 {
        0x40_0000
    } else if scale == 3 {
        0x20_0000
    } else {
        0x10_0000
    };
    assert(areas * width == 0x8000_0000);
    lemma_fundamental_div_mod(grid, width);
    lemma_mod_bound(grid, width);
    let area = grid / width;
    assert(area * width == width * area) by (nonlinear_arith);
    if within_world(grid) {
        assert(-areas <= area < areas) by (nonlinear_arith)
            requires
                width > 0,
                area * width <= grid < area * width + width,
                -(areas * width) <= grid < areas * width,
        ;
        assert(-(areas * width) <= area * width && area * width + width <= areas * width) by (
            nonlinear_arith)
            requires
                width > 0,
                -areas <= area < areas,
        ;
    }
}

/// The 32-bit range ends where an area ends.
proof fn lemma_world_is_whole_areas(scale: int)
    requires
        valid_scale(scale),
    ensures
        i32::MAX as int / map_width(scale) * map_width(scale) + map_width(scale) == i32::MAX + 1,
{
    lemma_widths();
    if scale == 0 {
        assert(map_width(scale) == 128);
        assert(0x7fff_ffffint / 128 == 0xff_ffff);
    } else if scale == 1 {
        assert(map_width(scale) == 256);
        assert(0x7fff_ffffint / 256 == 0x7f_ffff);
    } else if scale == 2 {
        assert(map_width(scale) == 512);
        assert(0x7fff_ffffint / 512 == 0x3f_ffff);
    } else if scale == 3 {
        assert(map_width(scale) == 1024);
        assert(0x7fff_ffffint / 1024 == 0x1f_ffff);
    } else {
        assert(map_width(scale) == 2048);
        assert(0x7fff_ffffint / 2048 == 0xf_ffff);
    }
}

/// Rounds a scale to the nearest one that a map can have.
pub fn clamp_scale(scale: i8) -> (result: i8)
    ensures
        result == clamped_scale(scale as int),
        valid_scale(result as int),
{
    if scale < 0 {
        0
    } else if scale > MAX_SCALE {
        MAX_SCALE
    } else {
        scale
    }
}

/// Blocks along one edge of a map.
pub fn edge_length(scale: i8) -> (result: i32)
    requires
        valid_scale(scale as int),
    ensures
        result == map_width(scale as int),
        128 <= result <= 2048,
{
    let shift: u32 = scale as u32;
    proof {
        lemma_widths();
        assert(1i32 << 0u32 == 1) by (bit_vector);
        assert(1i32 << 1u32 == 2) by (bit_vector);
        assert(1i32 << 2u32 == 4) by (bit_vector);
        assert(1i32 << 3u32 == 8) by (bit_vector);
        assert(1i32 << 4u32 == 16) by (bit_vector);
    }
    MAP_SIZE * (1_i32 << shift)
}

/// The centre, in world coordinates, of the area that holds a grid coordinate.
pub fn fresh_center_coordinate(grid: i64, scale: i8) -> (result: i32)
    requires
        valid_scale(scale as int),
        within_world(grid as int),
    ensures
        result == area_center(grid as int, scale as int),
{
    let size: i32 = edge_length(scale);
    proof {
        lemma_area_bounds(grid as int, scale as int);
    }
    let area: i32 = match (grid as i32).checked_div_euclid(size) {
        Some(area) => area,
        None => 0,
    };
    area * size + size / 2 - GRID_OFFSET
}

/// The areas within the 32-bit world coordinates are exactly those whose start and
/// middle are 32-bit numbers.
pub proof fn law_world_bounds_are_exact(grid: int, scale: int)
    requires
        valid_scale(scale),
    ensures
        within_world(grid) <==> {
            let start = grid / map_width(scale) * map_width(scale);
            i32::MIN <= start && start + map_width(scale) / 2 <= i32::MAX
        },
{
    lemma_area_bounds(grid, scale);
    if grid > i32::MAX {
        lemma_area_bounds(i32::MAX as int, scale);
        let width = map_width(scale);
        let a = i32::MAX as int / width;
        let b = grid / width;
        lemma_div_is_ordered(i32::MAX as int, grid, width);
        lemma_world_is_whole_areas(scale);
        assert(b != a ==> a * width + width <= b * width) by (nonlinear_arith)
            requires
                a <= b,
                width > 0,
        ;
    }
}

/// A fresh map covers the position it was created at.
pub proof fn law_fresh_map_covers_its_origin(grid: int, scale: int)
    requires
        valid_scale(scale),
    ensures
        covers(area_center(grid, scale), scale, grid),
{
    lemma_area_bounds(grid, scale);
}

/// A fresh map is centred on the grid of its scale.
pub proof fn law_fresh_map_is_on_grid(grid: int, scale: int)
    requires
        valid_scale(scale),
    ensures
        on_grid(area_center(grid, scale), scale),
{
    lemma_area_bounds(grid, scale);
    let width = map_width(scale);
    lemma_mod_multiples_basic(grid / width, width);
}

/// A fresh map of scale `scale` has the same centre for every position that it
/// covers: maps of one scale created in the same area show the same area.
pub proof fn law_one_center_per_area(grid: int, other: int, scale: int)
    requires
        valid_scale(scale),
        covers(area_center(grid, scale), scale, other),
    ensures
        area_center(other, scale) == area_center(grid, scale),
{
    lemma_area_bounds(grid, scale);
    lemma_area_bounds(other, scale);
    let width = map_width(scale);
    let a = grid / width;
    let b = other / width;
    assert(a == b) by (nonlinear_arith)
        requires
            width > 0,
            a * width <= other < a * width + width,
            b * width <= other < b * width + width,
    ;
}

/// Creating a map at the centre of a map of the same scale gives that centre again.
pub proof fn law_center_is_stable(center: int, scale: int)
    requires
        valid_scale(scale),
        on_grid(center, scale),
    ensures
        area_center(center + GRID_OFFSET, scale) == center,
{
    lemma_area_bounds(center + GRID_OFFSET, scale);
    let width = map_width(scale);
    let start = center + GRID_OFFSET - width / 2;
    lemma_fundamental_div_mod(start, width);
    let a = start / width;
    let b = (center + GRID_OFFSET) / width;
    assert(width * a == a * width) by (nonlinear_arith);
    assert(a == b) by (nonlinear_arith)
        requires
            width > 1,
            start == a * width,
            center + GRID_OFFSET == start + width / 2,
            b * width <= center + GRID_OFFSET < b * width + width,
    ;
}

/// Zooming out loses nothing: the map one scale up that is created at the centre of
/// a map on the grid covers everything that the smaller map covers.
pub proof fn law_next_scale_covers(center: int, scale: int, grid: int)
    requires
        valid_scale(scale),
        valid_scale(scale + 1),
        on_grid(center, scale),
        covers(center, scale, grid),
    ensures
        covers(area_center(center + GRID_OFFSET, scale + 1), scale + 1, grid),
{
    lemma_widths();
    lemma_area_bounds(center + GRID_OFFSET, scale + 1);
    let width = map_width(scale);
    let start = center + GRID_OFFSET - width / 2;
    lemma_fundamental_div_mod(start, width);
    let a = start / width;
    let b = (center + GRID_OFFSET) / (2 * width);
    assert(map_width(scale + 1) == 2 * width);
    assert(width * a == a * width) by (nonlinear_arith);
    assert(2 * b <= a < 2 * b + 2) by (nonlinear_arith)
        requires
            width > 1,
            b * (2 * width) <= a * width + width / 2 < b * (2 * width) + 2 * width,
    ;
    assert(b * (2 * width) <= a * width && a * width + width <= b * (2 * width) + 2 * width) by (
        nonlinear_arith)
        requires
            width > 1,
            2 * b <= a < 2 * b + 2,
    ;
}

/// Maps have the scales from 0 to 4, and a scale is rounded to the one of them that is
/// nearest to it.
pub proof fn law_scales_are_rounded_to_the_nearest(scale: int, other: int)
    requires
        0 <= other <= 4,
    ensures
        0 <= clamped_scale(scale) <= 4,
        other <= scale ==> other <= clamped_scale(scale) <= scale,
        other >= scale ==> other >= clamped_scale(scale) >= scale,
        valid_scale(scale) <==> 0 <= scale <= 4,
{
}

/// A map of scale 0 is 128 blocks wide, and a map of the next scale is twice as wide.
pub proof fn law_each_scale_is_twice_as_wide(scale: int)
    requires
        0 <= scale,
    ensures
        map_width(0) == 128,
        map_width(scale + 1) == 2 * map_width(scale),
{
    lemma2_to64();
    lemma_pow2_unfold((scale + 1) as nat);
    assert(map_width(scale + 1) == 2 * map_width(scale)) by (nonlinear_arith)
        requires
            map_width(scale + 1) == 128 * pow2((scale + 1) as nat),
            map_width(scale) == 128 * pow2(scale as nat),
            pow2((scale + 1) as nat) == 2 * pow2(scale as nat),
    ;
}

/// The centre of the area of a position lies half a width after the start of the area.
/// The areas start at the multiples of their width, 64 blocks before them in world
/// coordinates, and the position lies within its area.
pub proof fn law_centers_lie_amid_their_area(grid: int, scale: int)
    requires
        0 <= scale <= 4,
    ensures
        ({
            let width = (128 * pow2(scale as nat)) as int;
            let start = area_center(grid, scale) - width / 2;
            &&& (start + 64) % width == 0
            &&& start <= grid - 64 < start + width
        }),
{
    lemma_area_bounds(grid, scale);
    law_fresh_map_is_on_grid(grid, scale);
}

/// A map covers as many blocks before its centre as from its centre on, half its width
/// each, and lies on the grid where it starts 64 blocks before a multiple of its width.
pub proof fn law_maps_cover_half_their_width_each_way(center: int, scale: int, grid: int)
    requires
        0 <= scale <= 4,
    ensures
        ({
            let width = (128 * pow2(scale as nat)) as int;
            &&& covers(center, scale, grid) <==> center - width / 2 <= grid - 64 < center + width
                / 2
            &&& on_grid(center, scale) <==> (center - width / 2 + 64) % width == 0
        }),
{
    lemma_widths();
}

/// The positions within the world are those whose grid coordinate has 32 bits.
pub proof fn law_the_world_has_32_bit_coordinates(grid: int)
    ensures
        within_world(grid) <==> -0x8000_0000 <= grid < 0x8000_0000,
{
}

/// Maps have 128 pixels along each edge, a colour for each pixel, and no scale above 4.
pub proof fn law_sizes()
    ensures
        MAP_SIZE == 128,
        MAP_COLOR_COUNT == 128 * 128,
        MAX_SCALE == 4,
        GRID_OFFSET == 64,
{
}

} // verus!
