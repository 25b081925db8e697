//! The map: its header, its tiles and where they stand in the world.

use crate::map::header::{parse_map_header, chars_of, spec_parse_map_header};
use crate::map::tile::{
    collide, ctotile, spec_collide, spec_ctotile, spec_tile_kind, SpriteIndex,
};
use crate::transform::{Transform, Vec2, UNITS_PER_PIXEL};
use vstd::prelude::*;

pub mod header;
pub mod tile;

verus! {

/// The side of a tile's sprite, in pixels, before the map's scale is applied.
pub const TILE_PIXEL_SIZE: usize = 16;

/// Why a map could not be loaded. Each of them ends the load: no part of the
/// map is kept.
#[derive(Clone, Copy, Debug, PartialEq, Eq, Structural)]
pub enum BadMapDescriptor {
    /// There is no map text to read.
    MapFileUnavailable,
    /// The header ends before its third field.
    MissingHeaderField,
    /// A field of the header is no number that the descriptor can hold.
    InvalidHeaderValue,
}

/// The dimensions that a map's header gives: so many tiles wide and high, each
/// tile drawn `tile_scale` times the size of its sprite.
#[derive(Clone, Copy, Debug, PartialEq, Eq, Structural)]
pub struct MapDescriptor {
    pub width: usize,
    pub height: usize,
    pub tile_scale: usize,
}

impl MapDescriptor {
    /// Whether all three dimensions are positive, as those of a map that
    /// shows anything are. A header may give a zero: its map is loaded, and
    /// at scale zero all of it lies on the origin, without area.
    pub open spec fn is_valid(self) -> bool {
        self.width > 0 && self.height > 0 && self.tile_scale > 0
    }
}

/// A tile of a loaded map: one for each character of its rows.
#[derive(Clone, Copy, Debug, PartialEq, Eq)]
pub struct Tile {
    /// The kind of the tile, which is also the sprite that draws it.
    pub sprite: SpriteIndex,
    /// Where the tile stands.
    pub transform: Transform,
    /// Whether the tile stops movement.
    pub collider: bool,
    /// The character that placed the tile, where it is no glyph: plain ground
    /// took its place, which is worth a warning and no more.
    pub unrecognized: Option<char>,
}

/// The side of a tile of a map drawn at `tile_scale`, in world units.
pub open spec fn spec_tile_size(tile_scale: usize) -> int {
    TILE_PIXEL_SIZE * UNITS_PER_PIXEL * tile_scale
}

/// The abscissa of the centre of the tiles in column `x`: the columns are
/// centred on the origin, so column `x` stands `x - width / 2 + 1 / 2` tiles
/// to its right.
pub open spec fn spec_tile_x(x: usize, map_descriptor: MapDescriptor) -> int {
    spec_tile_size(map_descriptor.tile_scale) * (2 * x - map_descriptor.width + 1) / 2
}

/// The ordinate of the centre of the tiles in row `y`: row 0 is the topmost,
/// so row `y` stands `height / 2 - y - 1 / 2` tiles above the origin.
pub open spec fn spec_tile_y(y: usize, map_descriptor: MapDescriptor) -> int {
    spec_tile_size(map_descriptor.tile_scale) * (map_descriptor.height - 2 * y - 1) / 2
}

/// Whether the centre of the grid cell `(x, y)` lies within the reach of the
/// world's 128-bit coordinates. With the scales and sizes of maps that are
/// drawn it always does; it does not once the scale times the cell's distance
/// from the origin, counted in tiles, is too large a number.
pub open spec fn spec_tile_fits(x: usize, y: usize, map_descriptor: MapDescriptor) -> bool {
    &&& i128::MIN <= spec_tile_x(x, map_descriptor) <= i128::MAX
    &&& i128::MIN <= spec_tile_y(y, map_descriptor) <= i128::MAX
}

/// The placement of the grid cell `(x, y)` in layer `z`, where its centre
/// lies within the reach of the coordinates.
pub open spec fn spec_from_tile(
    x: usize,
    y: usize,
    z: usize,
    map_descriptor: MapDescriptor,
) -> Transform {
    Transform {
        translation: Vec2 {
            x: spec_tile_x(x, map_descriptor) as i128,
            y: spec_tile_y(y, map_descriptor) as i128,
        },
        depth: z,
        scale: map_descriptor.tile_scale,
    }
}

/// The centre of a cell lies a whole number of world units from the origin:
/// half as many as the halves of a tile between them make.
pub proof fn lemma_tile_centre(x: usize, y: usize, map_descriptor: MapDescriptor)
    ensures
        2 * spec_tile_x(x, map_descriptor) == spec_tile_size(map_descriptor.tile_scale) * (2 * x
            - map_descriptor.width + 1),
        2 * spec_tile_y(y, map_descriptor) == spec_tile_size(map_descriptor.tile_scale) * (
        map_descriptor.height - 2 * y - 1),
        spec_tile_size(map_descriptor.tile_scale) == 16_000_000 * map_descriptor.tile_scale,
{
    let half: int = 8_000_000 * map_descriptor.tile_scale;
    let kx: int = 2 * x - map_descriptor.width + 1;
    let ky: int = map_descriptor.height - 2 * y - 1;
    let size = spec_tile_size(map_descriptor.tile_scale);
    let scale: int = map_descriptor.tile_scale as int;
    assert(size == 16_000_000 * scale) by (nonlinear_arith)
        requires
            size == TILE_PIXEL_SIZE * UNITS_PER_PIXEL * scale,
            TILE_PIXEL_SIZE == 16,
            UNITS_PER_PIXEL == 1_000_000,
    ;
    assert(size * kx == 2 * (half * kx)) by (nonlinear_arith)
        requires
            size == 2 * half,
    ;
    assert(size * ky == 2 * (half * ky)) by (nonlinear_arith)
        requires
            size == 2 * half,
    ;
}

/// A cell between two cells that lie within the reach of the coordinates
/// lies within it as well.
pub proof fn lemma_tile_fits_between(
    low: (usize, usize),
    cell: (usize, usize),
    high: (usize, usize),
    map_descriptor: MapDescriptor,
)
    requires
        low.0 <= cell.0 <= high.0,
        low.1 <= cell.1 <= high.1,
        spec_tile_fits(low.0, low.1, map_descriptor),
        spec_tile_fits(high.0, high.1, map_descriptor),
    ensures
        spec_tile_fits(cell.0, cell.1, map_descriptor),
{
    let size = spec_tile_size(map_descriptor.tile_scale);
    let w: int = map_descriptor.width as int;
    let h: int = map_descriptor.height as int;
    lemma_tile_centre(low.0, low.1, map_descriptor);
    lemma_tile_centre(cell.0, cell.1, map_descriptor);
    lemma_tile_centre(high.0, high.1, map_descriptor);
    assert(size * (2 * low.0 - w + 1) <= size * (2 * cell.0 - w + 1) <= size * (2 * high.0 - w
        + 1)) by (nonlinear_arith)
        requires
            size >= 0,
            low.0 <= cell.0 <= high.0,
    ;
    assert(size * (h - 2 * high.1 - 1) <= size * (h - 2 * cell.1 - 1) <= size * (h - 2 * low.1
        - 1)) by (nonlinear_arith)
        requires
            size >= 0,
            low.1 <= cell.1 <= high.1,
    ;
}

/// Half the side of a scaled tile, and how many such halves the cell
/// `(x, y)` stands right of the origin and above it.
fn half_tile_steps(x: usize, y: usize, map_descriptor: &MapDescriptor) -> (steps: (i128, i128, i128))
    ensures
        steps.0 * steps.1 == spec_tile_x(x, *map_descriptor),
        steps.0 * steps.2 == spec_tile_y(y, *map_descriptor),
{
    let pixel: i128 = (TILE_PIXEL_SIZE as i128 / 2) * (UNITS_PER_PIXEL as i128);
    assert(pixel * map_descriptor.tile_scale == 8_000_000 * map_descriptor.tile_scale)
        by (nonlinear_arith)
        requires
            pixel == 8_000_000,
    ;
    let half: i128 = pixel * (map_descriptor.tile_scale as i128);
    let columns: i128 = 2 * (x as i128) - (map_descriptor.width as i128) + 1;
    let rows: i128 = (map_descriptor.height as i128) - 2 * (y as i128) - 1;
    proof {
        lemma_tile_centre(x, y, *map_descriptor);
        let size = spec_tile_size(map_descriptor.tile_scale);
        assert(size * columns == 2 * (half * columns)) by (nonlinear_arith)
            requires
                size == 2 * half,
        ;
        assert(size * rows == 2 * (half * rows)) by (nonlinear_arith)
            requires
                size == 2 * half,
        ;
    }
    (half, columns, rows)
}

/// Whether the centre of the grid cell `(x, y)` lies within the reach of the
/// world's coordinates, so that the cell can be placed.
pub fn tile_fits(x: usize, y: usize, map_descriptor: &MapDescriptor) -> (fits: bool)
    ensures
        fits == spec_tile_fits(x, y, *map_descriptor),
{
    let (half, columns, rows) = half_tile_steps(x, y, map_descriptor);
    half.checked_mul(columns).is_some() && half.checked_mul(rows).is_some()
}

impl Transform {
    /// Places the grid cell `(x, y)` of a map in the world, in layer `z`.
    ///
    /// The map is centred on the world's origin and its row 0 is the topmost,
    /// so the cell's centre is `tile_size * (x - width / 2 + 1 / 2)` to the
    /// right of the origin and `tile_size * (height / 2 - y - 1 / 2)` above
    /// it, where `tile_size` is the side of a scaled tile. Cells outside the
    /// map's width and height are placed by the same rule.
    ///
    /// The centre has to lie within the reach of the coordinates, which
    /// `tile_fits` tells.
    pub fn from_tile(x: usize, y: usize, z: usize, map_descriptor: &MapDescriptor) -> (transform:
        Transform)
        requires
            spec_tile_fits(x, y, *map_descriptor),
        ensures
            transform == spec_from_tile(x, y, z, *map_descriptor),
            transform.translation.x == spec_tile_x(x, *map_descriptor),
            transform.translation.y == spec_tile_y(y, *map_descriptor),
            transform.depth == z,
            transform.scale == map_descriptor.tile_scale,
    {
        let (half, columns, rows) = half_tile_steps(x, y, map_descriptor);
        Transform {
            translation: Vec2 { x: half * columns, y: half * rows },
            depth: z,
            scale: map_descriptor.tile_scale,
        }
    }

    /// Places the grid cell `(x, y)` of a map in the world, in layer `z`, if its
    /// centre lies within the reach of the coordinates, and says `None` if it
    /// does not. The placement depends on nothing but the cell, the layer and
    /// the descriptor, which is left as it is.
    pub fn try_from_tile(
        x: usize,
        y: usize,
        z: usize,
        map_descriptor: &MapDescriptor,
    ) -> (placed: Option<Transform>)
        ensures
            placed == if spec_tile_fits(x, y, *map_descriptor) {
                Some(spec_from_tile(x, y, z, *map_descriptor))
            } else {
                None
            },
    {
        if tile_fits(x, y, map_descriptor) {
            Some(Transform::from_tile(x, y, z, map_descriptor))
        } else {
            None
        }
    }
}

/// Two cells of one map with a positive scale never share a centre: not as
/// points of the plane, and so not as placements either, where both lie
/// within the reach of the coordinates.
pub proof fn lemma_from_tile_is_injective(
    x1: usize,
    y1: usize,
    x2: usize,
    y2: usize,
    z1: usize,
    z2: usize,
    map_descriptor: MapDescriptor,
)
    requires
        map_descriptor.tile_scale > 0,
        x1 != x2 || y1 != y2,
    ensures
        spec_tile_x(x1, map_descriptor) != spec_tile_x(x2, map_descriptor) || spec_tile_y(
            y1,
            map_descriptor,
        ) != spec_tile_y(y2, map_descriptor),
        spec_tile_fits(x1, y1, map_descriptor) && spec_tile_fits(x2, y2, map_descriptor)
            ==> spec_from_tile(x1, y1, z1, map_descriptor).translation != spec_from_tile(
            x2,
            y2,
            z2,
            map_descriptor,
        ).translation,
{
    let size = spec_tile_size(map_descriptor.tile_scale);
    lemma_tile_centre(x1, y1, map_descriptor);
    lemma_tile_centre(x2, y2, map_descriptor);
    if x1 != x2 {
        let k1: int = 2 * x1 - map_descriptor.width + 1;
        let k2: int = 2 * x2 - map_descriptor.width + 1;
        assert(size * k1 != size * k2) by (nonlinear_arith)
            requires
                size > 0,
                k1 != k2,
        ;
    } else {
        let k1: int = map_descriptor.height - 2 * y1 - 1;
        let k2: int = map_descriptor.height - 2 * y2 - 1;
        assert(size * k1 != size * k2) by (nonlinear_arith)
            requires
                size > 0,
                k1 != k2,
        ;
    }
}

/// The tile that the character `c` places in the grid cell `(x, y)`: it
/// stands in layer 0, is of the kind that the glyph stands for, and has a
/// collider where that kind stops movement. A character that is no glyph
/// places plain ground, and the tile remembers it.
pub open spec fn spec_tile(x: usize, y: usize, c: char, map_descriptor: MapDescriptor) -> Tile {
    Tile {
        sprite: spec_tile_kind(c),
        transform: spec_from_tile(x, y, 0, map_descriptor),
        collider: spec_collide(c),
        unrecognized: if spec_ctotile(c) is None {
            Some(c)
        } else {
            None
        },
    }
}

/// The tiles of the grid row `y`, from left to right: one for each character.
pub open spec fn spec_row_tiles(row: Seq<char>, y: usize, map_descriptor: MapDescriptor) -> Seq<
    Tile,
> {
    Seq::new(row.len(), |x: int| spec_tile(x as usize, y, row[x], map_descriptor))
}

/// The tiles of a grid, row after row from the topmost down.
pub open spec fn spec_grid_tiles(rows: Seq<Seq<char>>, map_descriptor: MapDescriptor) -> Seq<Tile>
    decreases rows.len(),
{
    if rows.len() == 0 {
        Seq::empty()
    } else {
        spec_grid_tiles(rows.drop_last(), map_descriptor) + spec_row_tiles(
            rows.last(),
            (rows.len() - 1) as usize,
            map_descriptor,
        )
    }
}

/// The lines of a map text as rows of characters.
pub open spec fn spec_lines(map_file: Seq<String>) -> Seq<Seq<char>> {
    map_file.map_values(|line: String| line@)
}

/// What a map text holds: the descriptor that its first line gives, and the
/// tiles of the grid that the lines after it draw. A text without a first
/// line lacks every field of the header.
pub open spec fn spec_parse_map_descriptor(lines: Seq<Seq<char>>) -> Result<
    (MapDescriptor, Seq<Tile>),
    BadMapDescriptor,
> {
    if lines.len() == 0 {
        Err(BadMapDescriptor::MissingHeaderField)
    } else {
        match spec_parse_map_header(lines[0]) {
            Err(e) => Err(e),
            Ok(map_descriptor) => Ok(
                (map_descriptor, spec_grid_tiles(lines.skip(1), map_descriptor)),
            ),
        }
    }
}

/// Whether the cell in column `x` of row `y` lies within the reach of the
/// coordinates.
pub open spec fn spec_cell_fits(x: int, y: int, map_descriptor: MapDescriptor) -> bool {
    spec_tile_fits(x as usize, y as usize, map_descriptor)
}

/// Whether every cell of a grid lies within the reach of the coordinates.
pub open spec fn spec_grid_fits(rows: Seq<Seq<char>>, map_descriptor: MapDescriptor) -> bool {
    forall|x: int, y: int|
        0 <= y < rows.len() && 0 <= x < rows[y].len() ==> #[trigger] spec_cell_fits(
            x,
            y,
            map_descriptor,
        )
}

/// Whether a map text can be placed in the world: every cell of its grid lies
/// within the reach of the coordinates. A text with a faulty header places
/// nothing, and so can be.
pub open spec fn spec_map_fits(lines: Seq<Seq<char>>) -> bool {
    match spec_parse_map_descriptor(lines) {
        Ok((map_descriptor, _)) => spec_grid_fits(lines.skip(1), map_descriptor),
        Err(_) => true,
    }
}

/// Whether a map text can be placed in the world: every cell of its grid lies
/// within the reach of the coordinates. It is what `parse_map_descriptor`
/// and `setup_map` ask of their text.
pub fn map_fits(map_file: &Vec<String>) -> (fits: bool)
    ensures
        fits == spec_map_fits(spec_lines(map_file@)),
{
    let ghost lines = spec_lines(map_file@);
    if map_file.len() == 0 {
        return true;
    }
    let mut map_descriptor = MapDescriptor { width: 0, height: 0, tile_scale: 0 };
    match parse_map_header(map_file[0].as_str(), &mut map_descriptor) {
        Err(_) => {
            return true;
        },
        Ok(()) => {},
    }
    let ghost rows = lines.skip(1);
    let mut y: usize = 1;
    while y < map_file.len()
        invariant
            1 <= y <= map_file.len(),
            lines == spec_lines(map_file@),
            rows == lines.skip(1),
            spec_parse_map_header(lines[0]) == Ok::<MapDescriptor, BadMapDescriptor>(
                map_descriptor,
            ),
            forall|x: int, row: int|
                0 <= row < y - 1 && 0 <= x < rows[row].len() ==> #[trigger] spec_cell_fits(
                    x,
                    row,
                    map_descriptor,
                ),
        decreases map_file.len() - y,
    {
        let len = map_file[y].as_str().unicode_len();
        assert(rows[y - 1] == map_file@[y as int]@);
        if len > 0 {
            if !tile_fits(0, y - 1, &map_descriptor) {
                assert(!spec_cell_fits(0, y - 1, map_descriptor));
                return false;
            }
            if !tile_fits(len - 1, y - 1, &map_descriptor) {
                assert(!spec_cell_fits(len - 1, y - 1, map_descriptor));
                return false;
            }
            assert forall|x: int| 0 <= x < len implies #[trigger] spec_cell_fits(
                x,
                y - 1,
                map_descriptor,
            ) by {
                lemma_tile_fits_between(
                    (0, (y - 1) as usize),
                    (x as usize, (y - 1) as usize),
                    ((len - 1) as usize, (y - 1) as usize),
                    map_descriptor,
                );
            }
        }
        y += 1;
    }
    true
}

/// Reads a map text, given line by line: the header into `map_descriptor`,
/// and a tile for each character of the lines after it, appended to `tiles`.
///
/// Line `y` of the text, counted from the header as line 0, is the grid row
/// `y - 1`. The rows may be of any length, whatever width the header gives. A
/// character that is no glyph does not end the load: it places plain ground,
/// and its tile says so. A faulty header ends the load with its error before
/// anything is written: neither tiles nor descriptor change.
///
/// Every cell has to lie within the reach of the coordinates, which
/// `map_fits` tells.
pub fn parse_map_descriptor(
    map_file: &Vec<String>,
    tiles: &mut Vec<Tile>,
    map_descriptor: &mut MapDescriptor,
) -> (result: Result<(), BadMapDescriptor>)
    requires
        spec_map_fits(spec_lines(map_file@)),
    ensures
        match spec_parse_map_descriptor(spec_lines(map_file@)) {
            Ok((parsed, grid)) => {
                &&& result == Ok::<(), BadMapDescriptor>(())
                &&& *final(map_descriptor) == parsed
                &&& final(tiles)@ == old(tiles)@ + grid
            },
            Err(e) => {
                &&& result == Err::<(), BadMapDescriptor>(e)
                &&& *final(map_descriptor) == *old(map_descriptor)
                &&& final(tiles)@ == old(tiles)@
            },
        },
{
    let ghost lines = spec_lines(map_file@);
    let ghost before = tiles@;
    if map_file.len() == 0 {
        return Err(BadMapDescriptor::MissingHeaderField);
    }
    match parse_map_header(map_file[0].as_str(), map_descriptor) {
        Err(e) => {
            return Err(e);
        },
        Ok(()) => {},
    }
    let ghost rows = lines.skip(1);
    let mut y: usize = 1;
    while y < map_file.len()
        invariant
            1 <= y <= map_file.len(),
            lines == spec_lines(map_file@),
            rows == lines.skip(1),
            spec_grid_fits(rows, *map_descriptor),
            tiles@ == before + spec_grid_tiles(rows.take(y - 1), *map_descriptor),
        decreases map_file.len() - y,
    {
        let row = chars_of(map_file[y].as_str());
        let ghost before_row = tiles@;
        assert forall|column: int| 0 <= column < row.len() implies #[trigger] spec_cell_fits(
            column,
            y - 1,
            *map_descriptor,
        ) by {
            assert(rows[y - 1] == row@);
        }
        let ghost row_tiles = spec_row_tiles(row@, (y - 1) as usize, *map_descriptor);
        let mut x: usize = 0;
        while x < row.len()
            invariant
                1 <= y < map_file.len(),
                x <= row.len(),
                forall|column: int|
                    0 <= column < row.len() ==> #[trigger] spec_cell_fits(
                        column,
                        y - 1,
                        *map_descriptor,
                    ),
                row_tiles == spec_row_tiles(row@, (y - 1) as usize, *map_descriptor),
                tiles@ == before_row + row_tiles.take(x as int),
            decreases row.len() - x,
        {
            let c = row[x];
            assert(spec_cell_fits(x as int, y - 1, *map_descriptor));
            let (sprite, unrecognized) = match ctotile(c) {
                Some(kind) => (kind, None),
                None => (SpriteIndex::default(), Some(c)),
            };
            let tile = Tile {
                sprite,
                transform: Transform::from_tile(x, y - 1, 0, map_descriptor),
                collider: collide(c),
                unrecognized,
            };
            tiles.push(tile);
            x += 1;
        }
        proof {
            let read = rows.take(y as int);
            assert(read.drop_last() == rows.take(y - 1));
        }
        y += 1;
    }
    assert(rows.take(y - 1) == rows);
    Ok(())
}

/// What loading a map gives: what its text holds, or `MapFileUnavailable`
/// where there is no text.
pub open spec fn spec_setup_map(map_file: Option<&Vec<String>>) -> Result<
    (MapDescriptor, Seq<Tile>),
    BadMapDescriptor,
> {
    match map_file {
        None => Err(BadMapDescriptor::MapFileUnavailable),
        Some(lines) => spec_parse_map_descriptor(spec_lines(lines@)),
    }
}

/// Loads the map from its text, where there is one: `None` stands for a map
/// file that could not be opened, and ends the load like a faulty header
/// does, with nothing written.
///
/// Every cell of the text has to lie within the reach of the coordinates,
/// which `map_fits` tells.
pub fn setup_map(
    map_file: Option<&Vec<String>>,
    tiles: &mut Vec<Tile>,
    map_descriptor: &mut MapDescriptor,
) -> (result: Result<(), BadMapDescriptor>)
    requires
        map_file matches Some(lines) ==> spec_map_fits(spec_lines(lines@)),
    ensures
        match spec_setup_map(map_file) {
            Ok((parsed, grid)) => {
                &&& result == Ok::<(), BadMapDescriptor>(())
                &&& *final(map_descriptor) == parsed
                &&& final(tiles)@ == old(tiles)@ + grid
            },
            Err(e) => {
                &&& result == Err::<(), BadMapDescriptor>(e)
                &&& *final(map_descriptor) == *old(map_descriptor)
                &&& final(tiles)@ == old(tiles)@
            },
        },
{
    match map_file {
        None => Err(BadMapDescriptor::MapFileUnavailable),
        Some(lines) => parse_map_descriptor(lines, tiles, map_descriptor),
    }
}

/// Whether the rows of a grid and their characters can be counted in `usize`,
/// as those of every text in memory can.
pub open spec fn spec_grid_is_countable(rows: Seq<Seq<char>>) -> bool {
    &&& rows.len() <= usize::MAX
    &&& forall|y: int| 0 <= y < rows.len() ==> (#[trigger] rows[y]).len() <= usize::MAX
}

/// Every tile of a grid is the tile of a character of one of its rows: the
/// result names the column and the row.
pub proof fn lemma_grid_tile_cell(rows: Seq<Seq<char>>, map_descriptor: MapDescriptor, i: int) -> (cell:
    (int, int))
    requires
        0 <= i < spec_grid_tiles(rows, map_descriptor).len(),
    ensures
        0 <= cell.1 < rows.len(),
        0 <= cell.0 < rows[cell.1].len(),
        spec_grid_tiles(rows, map_descriptor)[i] == spec_tile(
            cell.0 as usize,
            cell.1 as usize,
            rows[cell.1][cell.0],
            map_descriptor,
        ),
    decreases rows.len(),
{
    let above = spec_grid_tiles(rows.drop_last(), map_descriptor);
    if i < above.len() {
        lemma_grid_tile_cell(rows.drop_last(), map_descriptor, i)
    } else {
        (i - above.len(), rows.len() - 1)
    }
}

/// No two tiles of a loaded map stand in the same place, whatever glyphs
/// placed them.
pub proof fn lemma_grid_tiles_stand_apart(
    rows: Seq<Seq<char>>,
    map_descriptor: MapDescriptor,
    i: int,
    j: int,
)
    requires
        map_descriptor.tile_scale > 0,
        spec_grid_is_countable(rows),
        spec_grid_fits(rows, map_descriptor),
        0 <= i < j < spec_grid_tiles(rows, map_descriptor).len(),
    ensures
        spec_grid_tiles(rows, map_descriptor)[i].transform.translation != spec_grid_tiles(
            rows,
            map_descriptor,
        )[j].transform.translation,
    decreases rows.len(),
{
    let above = spec_grid_tiles(rows.drop_last(), map_descriptor);
    let y = (rows.len() - 1) as usize;
    assert forall|x: int, row: int|
        0 <= row < rows.drop_last().len() && 0 <= x < rows.drop_last()[row].len()
            implies #[trigger] spec_cell_fits(x, row, map_descriptor) by {
        assert(rows.drop_last()[row] == rows[row]);
    }
    if j < above.len() {
        assert forall|k: int| 0 <= k < rows.drop_last().len() implies (
        #[trigger] rows.drop_last()[k]).len() <= usize::MAX by {}
        lemma_grid_tiles_stand_apart(rows.drop_last(), map_descriptor, i, j);
    } else if i < above.len() {
        let cell = lemma_grid_tile_cell(rows.drop_last(), map_descriptor, i);
        let x = (j - above.len()) as usize;
        assert(spec_cell_fits(cell.0, cell.1, map_descriptor));
        assert(spec_cell_fits(j - above.len(), rows.len() - 1, map_descriptor));
        lemma_from_tile_is_injective(
            cell.0 as usize,
            cell.1 as usize,
            x,
            y,
            0,
            0,
            map_descriptor,
        );
    } else {
        assert(spec_cell_fits(i - above.len(), rows.len() - 1, map_descriptor));
        assert(spec_cell_fits(j - above.len(), rows.len() - 1, map_descriptor));
        lemma_from_tile_is_injective(
            (i - above.len()) as usize,
            y,
            (j - above.len()) as usize,
            y,
            0,
            0,
            map_descriptor,
        );
    }
}

} // verus!
