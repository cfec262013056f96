//! One filled map: where it lies, what it shows and whether it is locked.

use vstd::arithmetic::power2::pow2;
use vstd::prelude::*;

use crate::grid::{
    clamp_scale, fresh_center_coordinate, GRID_OFFSET, MAP_COLOR_COUNT, MAP_SIZE, MAX_SCALE,
};
use crate::ids::{Identifier, World};

verus! {

/// What a filled map holds.
#[verifier::ext_equal]
pub struct MapItemModel {
    pub center_x: int,
    pub center_z: int,
    pub dimension: Seq<char>,
    pub tracking_position: bool,
    pub unlimited_tracking: bool,
    pub scale: int,
    pub colors: Seq<u8>,
    pub locked: bool,
}

impl MapItemModel {
    /// Whether the scale is one that maps have and there is a colour for each pixel.
    pub open spec fn valid(self) -> bool {
        &&& crate::grid::valid_scale(self.scale)
        &&& self.colors.len() == MAP_COLOR_COUNT
    }

    /// The same map with its scale rounded to one that maps have.
    pub open spec fn with_clamped_scale(self) -> Self {
        MapItemModel { scale: crate::grid::clamped_scale(self.scale), ..self }
    }

    /// The same map with one pixel coloured.
    pub open spec fn with_color(self, x: int, y: int, color: u8) -> Self {
        MapItemModel { colors: self.colors.update(pixel_index(x, y), color), ..self }
    }

    /// The same map, locked.
    pub open spec fn as_locked(self) -> Self {
        MapItemModel { locked: true, ..self }
    }

    /// What a fresh map one scale up, created at the centre of this one, is made from.
    pub open spec fn zoomed_out(self) -> NewMapModel {
        NewMapModel {
            grid_x: self.center_x + GRID_OFFSET,
            grid_z: self.center_z + GRID_OFFSET,
            scale: self.scale + 1,
            tracking_position: self.tracking_position,
            unlimited_tracking: self.unlimited_tracking,
            dimension: self.dimension,
        }
    }
}

/// One saved map with its number.
#[verifier::ext_equal]
pub struct MapRecordModel {
    pub id: i32,
    pub map: MapItemModel,
}

/// What a fresh map is made from.
#[verifier::ext_equal]
pub struct NewMapModel {
    pub grid_x: int,
    pub grid_z: int,
    pub scale: int,
    pub tracking_position: bool,
    pub unlimited_tracking: bool,
    pub dimension: Seq<char>,
}

impl NewMapModel {
    /// Whether the map's area lies within the 32-bit world coordinates.
    pub open spec fn within_world(self) -> bool {
        &&& crate::grid::within_world(self.grid_x)
        &&& crate::grid::within_world(self.grid_z)
    }

    /// The fresh map: centred in the area that holds the origin, blank and unlocked.
    pub open spec fn fresh(self) -> MapItemModel {
        let scale = crate::grid::clamped_scale(self.scale);
        MapItemModel {
            center_x: crate::grid::area_center(self.grid_x, scale),
            center_z: crate::grid::area_center(self.grid_z, scale),
            dimension: self.dimension,
            tracking_position: self.tracking_position,
            unlimited_tracking: self.unlimited_tracking,
            scale,
            colors: Seq::new(MAP_COLOR_COUNT as nat, |i: int| 0u8),
            locked: false,
        }
    }
}

/// Whether the map is centred on the grid of its scale.
pub open spec fn on_grid(map: MapItemModel) -> bool {
    &&& crate::grid::on_grid(map.center_x, map.scale)
    &&& crate::grid::on_grid(map.center_z, map.scale)
}

/// Whether the map covers the given grid coordinates.
pub open spec fn covers(map: MapItemModel, grid_x: int, grid_z: int) -> bool {
    &&& crate::grid::covers(map.center_x, map.scale, grid_x)
    &&& crate::grid::covers(map.center_z, map.scale, grid_z)
}

/// Whether `(x, y)` is a pixel of a map.
pub open spec fn is_pixel(x: int, y: int) -> bool {
    0 <= x < MAP_SIZE && 0 <= y < MAP_SIZE
}

/// Where the colour of the pixel `(x, y)` stands in row-major order.
pub open spec fn pixel_index(x: int, y: int) -> int {
    y * MAP_SIZE + x
}

/// Data required to allocate one fresh filled map.
#[derive(Debug)]
pub struct NewMapData {
    grid_x: i64,
    grid_z: i64,
    scale: i8,
    tracking_position: bool,
    unlimited_tracking: bool,
    dimension: Identifier,
}

impl View for NewMapData {
    type V = NewMapModel;

    closed spec fn view(&self) -> NewMapModel {
        NewMapModel {
            grid_x: self.grid_x as int,
            grid_z: self.grid_z as int,
            scale: self.scale as int,
            tracking_position: self.tracking_position,
            unlimited_tracking: self.unlimited_tracking,
            dimension: self.dimension@,
        }
    }
}

impl NewMapData {
    /// Describes a blank map of `world`. The origin is given in grid coordinates: the
    /// world coordinate plus 64, rounded down.
    pub fn blank(
        world: &World,
        grid_x: i64,
        grid_z: i64,
        scale: i8,
        tracking_position: bool,
        unlimited_tracking: bool,
    ) -> (result: Self)
        ensures
            result@ == (NewMapModel {
                grid_x: grid_x as int,
                grid_z: grid_z as int,
                scale: scale as int,
                tracking_position,
                unlimited_tracking,
                dimension: world.key@,
            }),
    {
        NewMapData {
            grid_x,
            grid_z,
            scale,
            tracking_position,
            unlimited_tracking,
            dimension: world.key.clone(),
        }
    }

    /// Returns whether the map's area lies within the 32-bit world coordinates.
    #[must_use]
    pub fn within_world(&self) -> (result: bool)
        ensures
            result == self@.within_world(),
    {
        let min: i64 = i32::MIN as i64;
        let max: i64 = i32::MAX as i64;
        min <= self.grid_x && self.grid_x <= max && min <= self.grid_z && self.grid_z <= max
    }
}

/// One saved map with its number.
#[derive(Debug)]
pub struct PersistentMapItemSavedData {
    pub id: i32,
    pub center_x: i32,
    pub center_z: i32,
    pub dimension: Identifier,
    pub tracking_position: bool,
    pub unlimited_tracking: bool,
    pub scale: i8,
    pub colors: Vec<u8>,
    pub locked: bool,
}

impl View for PersistentMapItemSavedData {
    type V = MapRecordModel;

    open spec fn view(&self) -> MapRecordModel {
        MapRecordModel {
            id: self.id,
            map: MapItemModel {
                center_x: self.center_x as int,
                center_z: self.center_z as int,
                dimension: self.dimension@,
                tracking_position: self.tracking_position,
                unlimited_tracking: self.unlimited_tracking,
                scale: self.scale as int,
                colors: self.colors@,
                locked: self.locked,
            },
        }
    }
}

/// Persistent data backing one filled map.
#[derive(Debug, PartialEq, Eq)]
pub struct MapItemSavedData {
    /// Map centre X in world coordinates.
    center_x: i32,
    /// Map centre Z in world coordinates.
    center_z: i32,
    /// Key of the loaded world that the map shows.
    dimension: Identifier,
    /// Whether player positions are tracked on the map.
    tracking_position: bool,
    /// Whether positions beyond the normal off-map range remain tracked.
    unlimited_tracking: bool,
    /// Map scale in `0..=4`.
    scale: i8,
    /// Packed map colours in row-major 128x128 order.
    colors: Vec<u8>,
    /// Whether terrain updates and further scaling are disabled.
    locked: bool,
}

impl View for MapItemSavedData {
    type V = MapItemModel;

    closed spec fn view(&self) -> MapItemModel {
        MapItemModel {
            center_x: self.center_x as int,
            center_z: self.center_z as int,
            dimension: self.dimension@,
            tracking_position: self.tracking_position,
            unlimited_tracking: self.unlimited_tracking,
            scale: self.scale as int,
            colors: self.colors@,
            locked: self.locked,
        }
    }
}

impl Clone for MapItemSavedData {
    fn clone(&self) -> (result: Self)
        ensures
            result@ == self@,
    {
        proof {
            use_type_invariant(self);
        }
        let colors = self.colors.clone();
        assert(colors@ =~= self.colors@);
        MapItemSavedData {
            center_x: self.center_x,
            center_z: self.center_z,
            dimension: self.dimension.clone(),
            tracking_position: self.tracking_position,
            unlimited_tracking: self.unlimited_tracking,
            scale: self.scale,
            colors,
            locked: self.locked,
        }
    }
}

impl MapItemSavedData {
    #[verifier::type_invariant]
    pub open spec fn inv(self) -> bool {
        self@.valid()
    }

    /// Restores a map from its record, rounding the scale to one that maps have.
    pub(crate) fn from_record(record: PersistentMapItemSavedData) -> (result: Self)
        requires
            record@.map.colors.len() == MAP_COLOR_COUNT,
        ensures
            result@ == record@.map.with_clamped_scale(),
            result@.valid(),
    {
        MapItemSavedData {
            center_x: record.center_x,
            center_z: record.center_z,
            dimension: record.dimension,
            tracking_position: record.tracking_position,
            unlimited_tracking: record.unlimited_tracking,
            scale: clamp_scale(record.scale),
            colors: record.colors,
            locked: record.locked,
        }
    }

    /// Makes the record of the map under the number `id`.
    pub(crate) fn to_record(&self, id: i32) -> (result: PersistentMapItemSavedData)
        ensures
            result@ == (MapRecordModel { id, map: self@ }),
    {
        let colors = self.colors.clone();
        assert(colors@ =~= self.colors@);
        PersistentMapItemSavedData {
            id,
            center_x: self.center_x,
            center_z: self.center_z,
            dimension: self.dimension.clone(),
            tracking_position: self.tracking_position,
            unlimited_tracking: self.unlimited_tracking,
            scale: self.scale,
            colors,
            locked: self.locked,
        }
    }

    /// The centre of the area that holds the given grid coordinates.
    pub fn fresh_center(grid_x: i64, grid_z: i64, scale: i8) -> (result: (i32, i32))
        requires
            crate::grid::valid_scale(scale as int),
            crate::grid::within_world(grid_x as int),
            crate::grid::within_world(grid_z as int),
        ensures
            result.0 == crate::grid::area_center(grid_x as int, scale as int),
            result.1 == crate::grid::area_center(grid_z as int, scale as int),
    {
        (fresh_center_coordinate(grid_x, scale), fresh_center_coordinate(grid_z, scale))
    }

    /// Makes a fresh map: blank, unlocked and centred in the area that holds its origin.
    pub fn create_fresh(map: NewMapData) -> (result: Self)
        requires
            map@.within_world(),
        ensures
            result@ == map@.fresh(),
            result@.valid(),
    {
        let scale: i8 = clamp_scale(map.scale);
        let (center_x, center_z): (i32, i32) = Self::fresh_center(map.grid_x, map.grid_z, scale);
        let colors: Vec<u8> = vec![0; MAP_COLOR_COUNT];
        assert(colors@ =~= map@.fresh().colors);
        MapItemSavedData {
            center_x,
            center_z,
            dimension: map.dimension,
            tracking_position: map.tracking_position,
            unlimited_tracking: map.unlimited_tracking,
            scale,
            colors,
            locked: false,
        }
    }

    /// Returns the map centre X in world coordinates.
    #[must_use]
    pub fn center_x(&self) -> (result: i32)
        ensures
            result == self@.center_x,
    {
        self.center_x
    }

    /// Returns the map centre Z in world coordinates.
    #[must_use]
    pub fn center_z(&self) -> (result: i32)
        ensures
            result == self@.center_z,
    {
        self.center_z
    }

    /// Returns the key of the loaded world that the map shows.
    #[must_use]
    pub fn dimension(&self) -> (result: &Identifier)
        ensures
            result@ == self@.dimension,
    {
        &self.dimension
    }

    /// Returns whether player positions are tracked.
    #[must_use]
    pub fn tracking_position(&self) -> (result: bool)
        ensures
            result == self@.tracking_position,
    {
        self.tracking_position
    }

    /// Returns whether positions beyond the normal off-map range remain tracked.
    #[must_use]
    pub fn unlimited_tracking(&self) -> (result: bool)
        ensures
            result == self@.unlimited_tracking,
    {
        self.unlimited_tracking
    }

    /// Returns the map scale.
    #[must_use]
    pub fn scale(&self) -> (result: i8)
        ensures
            result == self@.scale,
            self@.valid(),
    {
        proof {
            use_type_invariant(self);
        }
        self.scale
    }

    /// Returns the packed map colours in row-major 128x128 order.
    #[must_use]
    pub fn colors(&self) -> (result: &[u8])
        ensures
            result@ == self@.colors,
            self@.valid(),
    {
        proof {
            use_type_invariant(self);
        }
        self.colors.as_slice()
    }

    /// Returns whether terrain updates and further scaling are disabled.
    #[must_use]
    pub fn is_locked(&self) -> (result: bool)
        ensures
            result == self@.locked,
    {
        self.locked
    }

    /// Updates one map colour, returning whether it changed or `None` for invalid
    /// coordinates.
    pub fn update_color(&mut self, x: usize, y: usize, color: u8) -> (result: Option<bool>)
        ensures
            match result {
                None => !is_pixel(x as int, y as int) && final(self)@ == old(self)@,
                Some(changed) => {
                    &&& is_pixel(x as int, y as int)
                    &&& changed == (old(self)@.colors[pixel_index(x as int, y as int)] != color)
                    &&& final(self)@ == old(self)@.with_color(x as int, y as int, color)
                },
            },
            final(self)@.valid(),
    {
        proof {
            use_type_invariant(&*self);
        }
        let width: usize = MAP_SIZE as usize;
        assert(y * width == y * 128) by (nonlinear_arith)
            requires
                width == 128,
        ;
        let index: usize = match y.checked_mul(width) {
            None => return None,
            Some(row) => match row.checked_add(x) {
                None => return None,
                Some(index) => index,
            },
        };
        if index >= self.colors.len() || x >= width {
            return None;
        }
        if self.colors[index] == color {
            assert(self@.colors =~= self@.with_color(x as int, y as int, color).colors);
            return Some(false);
        }
        self.colors[index] = color;
        Some(true)
    }

    /// Returns a locked copy of the map.
    #[must_use]
    pub fn locked(&self) -> (result: Self)
        ensures
            result@ == self@.as_locked(),
            result@.valid(),
    {
        let mut result = self.clone();
        proof {
            use_type_invariant(self);
        }
        result.locked = true;
        result
    }

    /// Returns whether the map one scale up lies within the 32-bit world coordinates.
    #[must_use]
    pub fn can_be_scaled(&self) -> (result: bool)
        ensures
            result == self@.zoomed_out().within_world(),
    {
        self.center_x <= i32::MAX - GRID_OFFSET && self.center_z <= i32::MAX - GRID_OFFSET
    }

    /// Returns a fresh map one scale up, or of the same scale where that is the
    /// largest, created at the centre of this map.
    #[must_use]
    pub fn scaled(&self) -> (result: Self)
        requires
            self@.zoomed_out().within_world(),
        ensures
            result@ == self@.zoomed_out().fresh(),
            result@.valid(),
    {
        proof {
            use_type_invariant(self);
        }
        let scale: i8 = if self.scale < MAX_SCALE {
            self.scale + 1
        } else {
            MAX_SCALE
        };
        Self::create_fresh(
            NewMapData {
                grid_x: self.center_x as i64 + GRID_OFFSET as i64,
                grid_z: self.center_z as i64 + GRID_OFFSET as i64,
                scale,
                tracking_position: self.tracking_position,
                unlimited_tracking: self.unlimited_tracking,
                dimension: self.dimension.clone(),
            },
        )
    }
}

/// Each pixel has a place of its own among the colours of a map.
pub proof fn law_pixels_have_their_own_place(x: int, y: int, other_x: int, other_y: int)
    requires
        is_pixel(x, y),
        is_pixel(other_x, other_y),
    ensures
        0 <= pixel_index(x, y) < MAP_COLOR_COUNT,
        pixel_index(x, y) == pixel_index(other_x, other_y) <==> x == other_x && y == other_y,
{
}

/// A colour that was set is the one that is read, every other pixel keeps its colour,
/// and setting the same colour again changes nothing.
pub proof fn law_colors_read_back(map: MapItemModel, x: int, y: int, color: u8)
    requires
        map.valid(),
        is_pixel(x, y),
    ensures
        map.with_color(x, y, color).valid(),
        map.with_color(x, y, color).colors[pixel_index(x, y)] == color,
        forall|other_x: int, other_y: int|
            is_pixel(other_x, other_y) && (other_x != x || other_y != y) ==> map.with_color(
                x,
                y,
                color,
            ).colors[#[trigger] pixel_index(other_x, other_y)] == map.colors[pixel_index(
                other_x,
                other_y,
            )],
        map.with_color(x, y, color).with_color(x, y, color) == map.with_color(x, y, color),
{
    let once = map.with_color(x, y, color);
    assert(once.with_color(x, y, color) =~= once);
}

/// A fresh map is valid, lies on the grid of its scale and covers its origin.
pub proof fn law_fresh_maps(map: NewMapModel)
    ensures
        map.fresh().valid(),
        on_grid(map.fresh()),
        covers(map.fresh(), map.grid_x, map.grid_z),
{
    let scale = crate::grid::clamped_scale(map.scale);
    crate::grid::law_fresh_map_is_on_grid(map.grid_x, scale);
    crate::grid::law_fresh_map_is_on_grid(map.grid_z, scale);
    crate::grid::law_fresh_map_covers_its_origin(map.grid_x, scale);
    crate::grid::law_fresh_map_covers_its_origin(map.grid_z, scale);
}

/// Scaling a map that lies on the grid gives a map that covers at least as much, and
/// that lies on the grid again.
pub proof fn law_scaling_covers_the_map(map: MapItemModel, grid_x: int, grid_z: int)
    requires
        map.valid(),
        on_grid(map),
        covers(map, grid_x, grid_z),
    ensures
        covers(map.zoomed_out().fresh(), grid_x, grid_z),
        on_grid(map.zoomed_out().fresh()),
{
    law_fresh_maps(map.zoomed_out());
    if map.scale < MAX_SCALE {
        crate::grid::law_next_scale_covers(map.center_x, map.scale, grid_x);
        crate::grid::law_next_scale_covers(map.center_z, map.scale, grid_z);
    } else {
        law_largest_scale_is_final(map);
    }
}

/// Scaling a map of the largest scale that lies on the grid gives a blank, unlocked map
/// of the same area and scale.
pub proof fn law_largest_scale_is_final(map: MapItemModel)
    requires
        map.scale == MAX_SCALE,
        on_grid(map),
    ensures
        map.zoomed_out().fresh() == (MapItemModel {
            colors: map.zoomed_out().fresh().colors,
            locked: false,
            ..map
        }),
{
    crate::grid::law_center_is_stable(map.center_x, map.scale);
    crate::grid::law_center_is_stable(map.center_z, map.scale);
}

/// A map is valid where its scale is one of 0 to 4 and it has 128 times 128 colours.
pub proof fn law_valid_maps(map: MapItemModel)
    ensures
        map.valid() <==> 0 <= map.scale <= 4 && map.colors.len() == 128 * 128,
{
}

/// A fresh map has the dimension and the tracking that it was described with, the scale
/// nearest to the one described, 128 times 128 colours that are all 0, and no lock.
pub proof fn law_fresh_maps_are_as_described(map: NewMapModel)
    ensures
        map.fresh().dimension == map.dimension,
        map.fresh().tracking_position == map.tracking_position,
        map.fresh().unlimited_tracking == map.unlimited_tracking,
        0 <= map.fresh().scale <= 4,
        0 <= map.scale <= 4 ==> map.fresh().scale == map.scale,
        map.scale < 0 ==> map.fresh().scale == 0,
        map.scale > 4 ==> map.fresh().scale == 4,
        map.fresh().colors.len() == 128 * 128,
        forall|i: int| 0 <= i < 128 * 128 ==> #[trigger] map.fresh().colors[i] == 0,
        !map.fresh().locked,
{
}

/// A fresh map shows the area that its origin lies in: along both axes the map starts 64
/// blocks before a multiple of its width, its centre lies half a width after that start,
/// and the origin lies between the start and the end.
pub proof fn law_fresh_maps_show_the_area_of_their_origin(map: NewMapModel)
    ensures
        ({
            let width = (128 * pow2(map.fresh().scale as nat)) as int;
            let start_x = map.fresh().center_x - width / 2;
            let start_z = map.fresh().center_z - width / 2;
            &&& (start_x + 64) % width == 0
            &&& (start_z + 64) % width == 0
            &&& start_x <= map.grid_x - 64 < start_x + width
            &&& start_z <= map.grid_z - 64 < start_z + width
        }),
{
    let scale = map.fresh().scale;
    crate::grid::law_centers_lie_amid_their_area(map.grid_x, scale);
    crate::grid::law_centers_lie_amid_their_area(map.grid_z, scale);
}

/// Scaling keeps the dimension and the tracking of the map. The scaled map is one scale
/// up, or of the largest scale where the map is, it is blank and not locked, and it shows
/// the area that the centre of the map lies in.
pub proof fn law_scaling_keeps_dimension_and_tracking(map: MapItemModel)
    requires
        map.valid(),
    ensures
        ({
            let scaled = map.zoomed_out().fresh();
            let width = (128 * pow2(scaled.scale as nat)) as int;
            let start_x = scaled.center_x - width / 2;
            let start_z = scaled.center_z - width / 2;
            &&& scaled.dimension == map.dimension
            &&& scaled.tracking_position == map.tracking_position
            &&& scaled.unlimited_tracking == map.unlimited_tracking
            &&& map.scale < 4 ==> scaled.scale == map.scale + 1
            &&& map.scale == 4 ==> scaled.scale == 4
            &&& scaled.colors.len() == 128 * 128
            &&& forall|i: int| 0 <= i < 128 * 128 ==> #[trigger] scaled.colors[i] == 0
            &&& !scaled.locked
            &&& (start_x + 64) % width == 0
            &&& (start_z + 64) % width == 0
            &&& start_x <= map.center_x < start_x + width
            &&& start_z <= map.center_z < start_z + width
        }),
{
    law_fresh_maps_show_the_area_of_their_origin(map.zoomed_out());
}

/// The map one scale up lies within the world where the centre of the map is at most
/// 2147483583 along both axes, for every centre of 32 bits.
pub proof fn law_maps_near_the_end_of_the_world_cannot_be_scaled(map: MapItemModel)
    requires
        -0x8000_0000 <= map.center_x < 0x8000_0000,
        -0x8000_0000 <= map.center_z < 0x8000_0000,
    ensures
        map.zoomed_out().within_world() <==> map.center_x <= 2147483583 && map.center_z
            <= 2147483583,
{
}

/// A locked copy is locked and is like the map in everything else, whether or not the
/// map was locked.
pub proof fn law_locking_changes_the_lock_only(map: MapItemModel)
    ensures
        map.as_locked().locked,
        map.as_locked().center_x == map.center_x,
        map.as_locked().center_z == map.center_z,
        map.as_locked().dimension == map.dimension,
        map.as_locked().tracking_position == map.tracking_position,
        map.as_locked().unlimited_tracking == map.unlimited_tracking,
        map.as_locked().scale == map.scale,
        map.as_locked().colors == map.colors,
{
}

/// Rounding the scale leaves everything else as it is, and leaves the scales from 0 to 4.
pub proof fn law_rounding_changes_the_scale_only(map: MapItemModel)
    ensures
        map.with_clamped_scale().center_x == map.center_x,
        map.with_clamped_scale().center_z == map.center_z,
        map.with_clamped_scale().dimension == map.dimension,
        map.with_clamped_scale().tracking_position == map.tracking_position,
        map.with_clamped_scale().unlimited_tracking == map.unlimited_tracking,
        map.with_clamped_scale().colors == map.colors,
        map.with_clamped_scale().locked == map.locked,
        0 <= map.scale <= 4 ==> map.with_clamped_scale().scale == map.scale,
        map.scale < 0 ==> map.with_clamped_scale().scale == 0,
        map.scale > 4 ==> map.with_clamped_scale().scale == 4,
{
}

/// Colours stand in row-major order: the first is that of the pixel (0, 0), the pixel to
/// the right of a pixel follows it, and the pixel below it comes 128 places later.
pub proof fn law_pixels_stand_in_row_major_order(x: int, y: int)
    ensures
        pixel_index(0, 0) == 0,
        pixel_index(x + 1, y) == pixel_index(x, y) + 1,
        pixel_index(x, y + 1) == pixel_index(x, y) + 128,
        pixel_index(x, y) == y * 128 + x,
        is_pixel(x, y) <==> 0 <= x < 128 && 0 <= y < 128,
{
}

/// Colouring a pixel sets the colour at its place, row times 128 plus column. All other
/// places, and everything but the colours, stay as they are.
pub proof fn law_coloring_sets_one_place(map: MapItemModel, x: int, y: int, color: u8, i: int)
    requires
        map.colors.len() == 128 * 128,
        0 <= x < 128,
        0 <= y < 128,
        0 <= i < 128 * 128,
    ensures
        ({
            let colored = map.with_color(x, y, color);
            &&& colored.colors.len() == 128 * 128
            &&& colored.colors[i] == if i == y * 128 + x { color } else { map.colors[i] }
            &&& colored.center_x == map.center_x
            &&& colored.center_z == map.center_z
            &&& colored.dimension == map.dimension
            &&& colored.tracking_position == map.tracking_position
            &&& colored.unlimited_tracking == map.unlimited_tracking
            &&& colored.scale == map.scale
            &&& colored.locked == map.locked
        }),
{
}

/// A record holds what its fields say.
pub proof fn law_records_are_their_fields(record: PersistentMapItemSavedData)
    ensures
        record@.id == record.id,
        record@.map.center_x == record.center_x,
        record@.map.center_z == record.center_z,
        record@.map.dimension == record.dimension@,
        record@.map.tracking_position == record.tracking_position,
        record@.map.unlimited_tracking == record.unlimited_tracking,
        record@.map.scale == record.scale,
        record@.map.colors == record.colors@,
        record@.map.locked == record.locked,
{
}

} // verus!
