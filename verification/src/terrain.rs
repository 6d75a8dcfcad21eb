//! Terrain units: what one column of ground looks like and how it slopes.

use vstd::prelude::*;
use crate::colors::{PAIR_GREEN, PAIR_WHITE};

verus! {

/// One drawn character of a terrain unit.
#[derive(Copy, Clone, Debug, PartialEq, Eq, Structural)]
pub struct TerrainTile {
    pub tile_char: u32,
    pub color_pair_id: i16,
}

/// The slope of a terrain unit.
#[derive(Copy, Clone, Debug, PartialEq, Eq, Structural)]
pub enum TerrainType {
    Flat,
    Up,
    Down,
}

/// One column of ground.
#[derive(Copy, Clone, Debug, PartialEq, Eq)]
pub struct TerrainUnit {
    /// The three characters drawn for this unit, top row first.
    pub tiles: [TerrainTile; 3],
    pub unit_type: TerrainType,
    /// Row of the top tile before the terrain's settled offset is applied:
    /// the cumulative height, one less than the unit before for a climb,
    /// one more for a descent.
    pub initial_y: i32,
    pub obstacle: bool,
}

/// What the game's rules see of a terrain unit: its slope, its height and
/// whether an obstacle stands on it. The glyphs are left out.
pub struct UnitView {
    pub unit_type: TerrainType,
    pub height: int,
    pub obstacle: bool,
}

impl View for TerrainUnit {
    type V = UnitView;

    open spec fn view(&self) -> UnitView {
        UnitView {
            unit_type: self.unit_type,
            height: self.initial_y as int,
            obstacle: self.obstacle,
        }
    }
}

/// The views of a run of units, in order.
pub open spec fn unit_views(units: Seq<TerrainUnit>) -> Seq<UnitView> {
    Seq::new(units.len(), |i: int| units[i]@)
}

/// The tile with the given character and colour.
pub open spec fn tile(c: char, color_id: i16) -> TerrainTile {
    TerrainTile { tile_char: c as u32, color_pair_id: color_id }
}

/// The character that shows a slope.
pub open spec fn surface_char(t: TerrainType) -> char {
    match t {
        TerrainType::Flat => '_',
        TerrainType::Up => '/',
        TerrainType::Down => '\\',
    }
}

/// The tiles of a generated unit: a green surface character over two white
/// dots.
pub open spec fn ground_tiles(t: TerrainType) -> Seq<TerrainTile> {
    seq![tile(surface_char(t), PAIR_GREEN), tile('.', PAIR_WHITE), tile('.', PAIR_WHITE)]
}

/// The tiles of the unit that marks where generated terrain begins.
pub open spec fn marker_tiles() -> Seq<TerrainTile> {
    seq![tile('_', PAIR_GREEN), tile('#', PAIR_WHITE), tile('#', PAIR_WHITE)]
}

impl TerrainTile {
    pub fn new(c: char, color_id: i16) -> (t: TerrainTile)
        ensures
            t == tile(c, color_id),
    {
        TerrainTile { tile_char: c as u32, color_pair_id: color_id }
    }
}

impl TerrainType {
    /// The signed height change a unit of this slope owes the player:
    /// one up, one down, or none.
    pub open spec fn slope(self) -> int {
        match self {
            TerrainType::Flat => 0,
            TerrainType::Up => 1,
            TerrainType::Down => -1,
        }
    }

    pub fn delta(self) -> (d: i32)
        ensures
            d == self.slope(),
    {
        match self {
            TerrainType::Flat => 0,
            TerrainType::Up => 1,
            TerrainType::Down => -1,
        }
    }

    /// Two slopes are opposite when one climbs and the other descends.
    pub open spec fn opposes(self, other: TerrainType) -> bool {
        self.slope() + other.slope() == 0 && self.slope() != 0
    }
}

impl TerrainUnit {
    /// The unit wears the tiles that generated ground of its slope wears.
    pub open spec fn has_ground_tiles(self) -> bool {
        self.tiles@ == ground_tiles(self.unit_type)
    }

    pub fn new_flat(iy: i32, obstacle: bool) -> (unit: TerrainUnit)
        ensures
            unit@ == (UnitView { unit_type: TerrainType::Flat, height: iy as int, obstacle }),
            unit.has_ground_tiles(),
    {
        let unit = TerrainUnit {
            tiles: [
                TerrainTile::new('_', PAIR_GREEN),
                TerrainTile::new('.', PAIR_WHITE),
                TerrainTile::new('.', PAIR_WHITE),
            ],
            unit_type: TerrainType::Flat,
            initial_y: iy,
            obstacle: obstacle,
        };
        assert(unit.tiles@ =~= ground_tiles(TerrainType::Flat));
        unit
    }

    pub fn new_up(iy: i32) -> (unit: TerrainUnit)
        ensures
            unit@ == (UnitView { unit_type: TerrainType::Up, height: iy as int, obstacle: false }),
            unit.has_ground_tiles(),
    {
        let unit = TerrainUnit {
            tiles: [
                TerrainTile::new('/', PAIR_GREEN),
                TerrainTile::new('.', PAIR_WHITE),
                TerrainTile::new('.', PAIR_WHITE),
            ],
            unit_type: TerrainType::Up,
            initial_y: iy,
            obstacle: false,
        };
        assert(unit.tiles@ =~= ground_tiles(TerrainType::Up));
        unit
    }

    pub fn new_down(iy: i32) -> (unit: TerrainUnit)
        ensures
            unit@ == (UnitView { unit_type: TerrainType::Down, height: iy as int, obstacle: false }),
            unit.has_ground_tiles(),
    {
        let unit = TerrainUnit {
            tiles: [
                TerrainTile::new('\\', PAIR_GREEN),
                TerrainTile::new('.', PAIR_WHITE),
                TerrainTile::new('.', PAIR_WHITE),
            ],
            unit_type: TerrainType::Down,
            initial_y: iy,
            obstacle: false,
        };
        assert(unit.tiles@ =~= ground_tiles(TerrainType::Down));
        unit
    }

    /// The flat, obstacle-free unit that marks where generated terrain
    /// begins.
    pub fn new_marker(iy: i32) -> (unit: TerrainUnit)
        ensures
            unit@ == (UnitView { unit_type: TerrainType::Flat, height: iy as int, obstacle: false }),
            unit.tiles@ == marker_tiles(),
    {
        let unit = TerrainUnit {
            tiles: [
                TerrainTile::new('_', PAIR_GREEN),
                TerrainTile::new('#', PAIR_WHITE),
                TerrainTile::new('#', PAIR_WHITE),
            ],
            unit_type: TerrainType::Flat,
            initial_y: iy,
            obstacle: false,
        };
        assert(unit.tiles@ =~= marker_tiles());
        unit
    }
}

} // verus!
