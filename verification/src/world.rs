//! The world of a map: its tiles and its player, built together or not at
//! all.

use crate::map::{
    setup_map, spec_lines, spec_map_fits, spec_setup_map, BadMapDescriptor, MapDescriptor, Tile,
};
use crate::player::{setup_player, spec_setup_player, PlayerBundle};
use vstd::prelude::*;

verus! {

/// What a loaded map puts into the world.
#[derive(Debug, PartialEq, Eq)]
pub struct World {
    /// The dimensions that the header gave.
    pub map_descriptor: MapDescriptor,
    /// The tiles of the grid, row after row.
    pub tiles: Vec<Tile>,
    /// The player, in its starting cell.
    pub player: PlayerBundle,
}

/// Builds the world of a map from its text: the tiles of its grid and the
/// player. `None` stands for a map file that could not be opened.
///
/// The world is never built in part. A text that is missing or whose header
/// is faulty gives the error and nothing else: no tile, and no player either.
///
/// Every cell of the text has to lie within the reach of the coordinates,
/// which `map_fits` tells. The player's starting cell always does.
pub fn setup_world(map_file: Option<&Vec<String>>) -> (result: Result<World, BadMapDescriptor>)
    requires
        map_file matches Some(lines) ==> spec_map_fits(spec_lines(lines@)),
    ensures
        match spec_setup_map(map_file) {
            Ok((map_descriptor, grid)) => {
                &&& result matches Ok(world)
                &&& world.map_descriptor == map_descriptor
                &&& world.tiles@ == grid
                &&& world.player == spec_setup_player(map_descriptor)
            },
            Err(e) => result == Err::<World, BadMapDescriptor>(e),
        },
{
    let mut tiles: Vec<Tile> = Vec::new();
    let mut map_descriptor = MapDescriptor { width: 0, height: 0, tile_scale: 0 };
    match setup_map(map_file, &mut tiles, &mut map_descriptor) {
        Err(e) => Err(e),
        Ok(()) => {
            let player = setup_player(&map_descriptor);
            Ok(World { map_descriptor, tiles, player })
        },
    }
}

} // verus!
