//! What the operations on one map do, stated over their arguments and results.
//!
//! Each law takes what a call was given and what it returned, and says how the two relate.

use vstd::arithmetic::power2::{lemma2_to64, pow2};
use vstd::prelude::*;

use crate::grid::{
    clamp_scale, edge_length, fresh_center_coordinate, law_centers_lie_amid_their_area,
};
use crate::ids::{Identifier, World};
use crate::item::{
    law_fresh_maps_show_the_area_of_their_origin,
    law_maps_near_the_end_of_the_world_cannot_be_scaled,
    law_scaling_keeps_dimension_and_tracking, MapItemSavedData, NewMapData,
};

verus! {

/// Scales from 0 to 4 are kept, lower ones become 0 and higher ones become 4.
pub proof fn law_clamp_scale(scale: i8, result: i8)
    requires
        call_ensures(clamp_scale, (scale,), result),
    ensures
        0 <= scale <= 4 ==> result == scale,
        scale < 0 ==> result == 0,
        scale > 4 ==> result == 4,
{
}

/// The edge has 128 blocks at scale 0, and twice as many at each next scale.
pub proof fn law_edge_length(scale: i8, result: i32, next: i32)
    requires
        0 <= scale <= 4,
        call_ensures(edge_length, (scale,), result),
    ensures
        scale == 0 ==> result == 128,
        scale < 4 && call_ensures(edge_length, ((scale + 1) as i8,), next) ==> next == 2 * result,
{
    lemma2_to64();
}

/// The centre lies half an edge after the start of the area, which lies 64 blocks before a
/// multiple of the edge, and the position lies in the area.
pub proof fn law_fresh_center_coordinate(grid: i64, scale: i8, edge: i32, result: i32)
    requires
        0 <= scale <= 4,
        call_ensures(edge_length, (scale,), edge),
        call_ensures(fresh_center_coordinate, (grid, scale), result),
    ensures
        (result + 64 - edge / 2) % edge as int == 0,
        result - edge / 2 <= grid - 64 < result + edge / 2,
{
    lemma2_to64();
    law_centers_lie_amid_their_area(grid as int, scale as int);
}

/// The two coordinates of a centre are found each on its own, X first.
pub proof fn law_fresh_center(
    grid_x: i64,
    grid_z: i64,
    scale: i8,
    result: (i32, i32),
    x: i32,
    z: i32,
)
    requires
        call_ensures(MapItemSavedData::fresh_center, (grid_x, grid_z, scale), result),
        call_ensures(fresh_center_coordinate, (grid_x, scale), x),
        call_ensures(fresh_center_coordinate, (grid_z, scale), z),
    ensures
        result == (x, z),
{
}

/// A description lies within the world where both its grid coordinates have 32 bits.
pub proof fn law_blank_within_world(
    world: World,
    grid_x: i64,
    grid_z: i64,
    scale: i8,
    tracking_position: bool,
    unlimited_tracking: bool,
    new: NewMapData,
    result: bool,
)
    requires
        call_ensures(
            NewMapData::blank,
            (&world, grid_x, grid_z, scale, tracking_position, unlimited_tracking),
            new,
        ),
        call_ensures(NewMapData::within_world, (&new,), result),
    ensures
        result == (-0x8000_0000 <= grid_x < 0x8000_0000 && -0x8000_0000 <= grid_z < 0x8000_0000),
{
}

/// A map created from a description shows the described world with the described tracking,
/// at the scale nearest to the described one. All its colours are 0 and it is not locked.
/// Along both axes it starts 64 blocks before a multiple of its width and holds its origin.
pub proof fn law_blank_create_fresh(
    world: World,
    grid_x: i64,
    grid_z: i64,
    scale: i8,
    tracking_position: bool,
    unlimited_tracking: bool,
    new: NewMapData,
    map: MapItemSavedData,
)
    requires
        call_ensures(
            NewMapData::blank,
            (&world, grid_x, grid_z, scale, tracking_position, unlimited_tracking),
            new,
        ),
        call_ensures(MapItemSavedData::create_fresh, (new,), map),
    ensures
        map@.dimension == world.key@,
        map@.tracking_position == tracking_position,
        map@.unlimited_tracking == unlimited_tracking,
        0 <= scale <= 4 ==> map@.scale == scale,
        scale < 0 ==> map@.scale == 0,
        scale > 4 ==> map@.scale == 4,
        map@.colors.len() == 128 * 128,
        forall|i: int| 0 <= i < 128 * 128 ==> #[trigger] map@.colors[i] == 0,
        !map@.locked,
        ({
            let width = (128 * pow2(map@.scale as nat)) as int;
            let start_x = map@.center_x - width / 2;
            let start_z = map@.center_z - width / 2;
            &&& (start_x + 64) % width == 0
            &&& (start_z + 64) % width == 0
            &&& start_x <= grid_x - 64 < start_x + width
            &&& start_z <= grid_z - 64 < start_z + width
        }),
{
    law_fresh_maps_show_the_area_of_their_origin(new@);
}

/// Every part of a map can be read.
pub proof fn law_reads(
    map: MapItemSavedData,
    center_x: i32,
    center_z: i32,
    dimension: &Identifier,
    tracking_position: bool,
    unlimited_tracking: bool,
    scale: i8,
    colors: &[u8],
    locked: bool,
)
    requires
        call_ensures(MapItemSavedData::center_x, (&map,), center_x),
        call_ensures(MapItemSavedData::center_z, (&map,), center_z),
        call_ensures(MapItemSavedData::dimension, (&map,), dimension),
        call_ensures(MapItemSavedData::tracking_position, (&map,), tracking_position),
        call_ensures(MapItemSavedData::unlimited_tracking, (&map,), unlimited_tracking),
        call_ensures(MapItemSavedData::scale, (&map,), scale),
        call_ensures(MapItemSavedData::colors, (&map,), colors),
        call_ensures(MapItemSavedData::is_locked, (&map,), locked),
    ensures
        center_x == map@.center_x,
        center_z == map@.center_z,
        dimension@ == map@.dimension,
        tracking_position == map@.tracking_position,
        unlimited_tracking == map@.unlimited_tracking,
        scale == map@.scale,
        colors@ == map@.colors,
        locked == map@.locked,
        0 <= scale <= 4,
        colors@.len() == 128 * 128,
{
}

/// A colour is taken for the 128 times 128 pixels and for no others. It is put at its row
/// times 128 plus its column, and the answer is whether another colour stood there. All
/// other colours, and everything but the colours, stay as they are.
pub proof fn law_update_color(
    map: &mut MapItemSavedData,
    x: usize,
    y: usize,
    color: u8,
    result: Option<bool>,
)
    requires
        map@.colors.len() == 128 * 128,
        call_ensures(MapItemSavedData::update_color, (map, x, y, color), result),
    ensures
        result is Some <==> x < 128 && y < 128,
        result is Some ==> {
            let place = y * 128 + x;
            &&& result->0 <==> old(map)@.colors[place] != color
            &&& final(map)@.colors[place] == color
        },
        final(map)@.colors.len() == 128 * 128,
        forall|i: int|
            #![trigger final(map)@.colors[i]]
            0 <= i < 128 * 128 && (result is None || i != y * 128 + x) ==> final(map)@.colors[i]
                == old(map)@.colors[i],
        final(map)@.center_x == old(map)@.center_x,
        final(map)@.center_z == old(map)@.center_z,
        final(map)@.dimension == old(map)@.dimension,
        final(map)@.tracking_position == old(map)@.tracking_position,
        final(map)@.unlimited_tracking == old(map)@.unlimited_tracking,
        final(map)@.scale == old(map)@.scale,
        final(map)@.locked == old(map)@.locked,
{
}

/// Colouring a pixel twice in the same colour changes nothing the second time.
pub proof fn law_update_color_twice(
    map: &mut MapItemSavedData,
    again: &mut MapItemSavedData,
    x: usize,
    y: usize,
    color: u8,
    first: Option<bool>,
    second: Option<bool>,
)
    requires
        map@.colors.len() == 128 * 128,
        call_ensures(MapItemSavedData::update_color, (map, x, y, color), first),
        *again == *final(map),
        call_ensures(MapItemSavedData::update_color, (again, x, y, color), second),
    ensures
        first is Some ==> second == Some(false),
        first is None ==> second is None,
        final(again)@ == final(map)@,
{
    assert(final(again)@ =~= final(map)@);
}

/// A copy holds what the map holds.
pub proof fn law_clone(map: MapItemSavedData, copy: MapItemSavedData)
    requires
        call_ensures(MapItemSavedData::clone, (&map,), copy),
    ensures
        copy@ == map@,
{
}

/// A locked copy is locked, and has the centre, the dimension, the tracking, the scale and
/// the colours of the map.
pub proof fn law_locked(map: MapItemSavedData, copy: MapItemSavedData)
    requires
        call_ensures(MapItemSavedData::locked, (&map,), copy),
    ensures
        copy@.locked,
        copy@.center_x == map@.center_x,
        copy@.center_z == map@.center_z,
        copy@.dimension == map@.dimension,
        copy@.tracking_position == map@.tracking_position,
        copy@.unlimited_tracking == map@.unlimited_tracking,
        copy@.scale == map@.scale,
        copy@.colors == map@.colors,
{
}

/// A map can be scaled where both coordinates of its centre are at most 2147483583.
pub proof fn law_can_be_scaled(map: MapItemSavedData, x: i32, z: i32, result: bool)
    requires
        call_ensures(MapItemSavedData::center_x, (&map,), x),
        call_ensures(MapItemSavedData::center_z, (&map,), z),
        call_ensures(MapItemSavedData::can_be_scaled, (&map,), result),
    ensures
        result <==> x <= 2147483583 && z <= 2147483583,
{
    law_maps_near_the_end_of_the_world_cannot_be_scaled(map@);
}

/// The scaled map has the dimension and the tracking of the map. It is one scale up, or of
/// scale 4 where the map is. All its colours are 0 and it is not locked. Along both axes it
/// starts 64 blocks before a multiple of its width and holds the centre of the map.
pub proof fn law_scaled(map: MapItemSavedData, scaled: MapItemSavedData)
    requires
        map@.valid(),
        call_ensures(MapItemSavedData::scaled, (&map,), scaled),
    ensures
        scaled@.dimension == map@.dimension,
        scaled@.tracking_position == map@.tracking_position,
        scaled@.unlimited_tracking == map@.unlimited_tracking,
        map@.scale < 4 ==> scaled@.scale == map@.scale + 1,
        map@.scale == 4 ==> scaled@.scale == 4,
        scaled@.colors.len() == 128 * 128,
        forall|i: int| 0 <= i < 128 * 128 ==> #[trigger] scaled@.colors[i] == 0,
        !scaled@.locked,
        ({
            let width = (128 * pow2(scaled@.scale as nat)) as int;
            let start_x = scaled@.center_x - width / 2;
            let start_z = scaled@.center_z - width / 2;
            &&& (start_x + 64) % width == 0
            &&& (start_z + 64) % width == 0
            &&& start_x <= map@.center_x < start_x + width
            &&& start_z <= map@.center_z < start_z + width
        }),
{
    law_scaling_keeps_dimension_and_tracking(map@);
}

} // verus!
