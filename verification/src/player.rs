//! The player: where it starts and how the keys move it.

use crate::map::{
    lemma_tile_centre, spec_from_tile, spec_tile_fits, spec_tile_size, MapDescriptor,
};
use crate::transform::{Transform, Vec2};
use vstd::prelude::*;

verus! {

/// The number of the player's sprite in the tile sheet.
pub const PLAYER_INDEX: usize = 84;

/// The speed of the player along an axis, in pixels per second.
pub const PLAYER_SPEED: i128 = 200;

/// The layer that the player is drawn in, above the tiles.
pub const PLAYER_LAYER: usize = 1;

/// The motion of the player: the direction last read from the keys, each
/// coordinate -1, 0 or 1, and the velocity that it gives, in pixels per
/// second.
#[derive(Clone, Copy, Debug, PartialEq, Eq, Structural)]
pub struct Player {
    pub direction: Vec2,
    pub velocity: Vec2,
}

impl Default for Player {
    /// A player at rest.
    fn default() -> (player: Self)
        ensures
            player == (Player { direction: Vec2 { x: 0, y: 0 }, velocity: Vec2 { x: 0, y: 0 } }),
    {
        Player { direction: Vec2 { x: 0, y: 0 }, velocity: Vec2 { x: 0, y: 0 } }
    }
}

/// Which of the four keys that move the player are held down.
#[derive(Clone, Copy, Debug, PartialEq, Eq, Structural)]
pub struct KeyboardInput {
    pub left: bool,
    pub right: bool,
    pub down: bool,
    pub up: bool,
}

/// The direction that the keys ask for. Each axis is read on its own, so two
/// keys give a diagonal of the same speed along both. Of two opposing keys
/// held at once the later read wins: right over left, up over down.
pub open spec fn spec_direction(keyboard_input: KeyboardInput) -> Vec2 {
    Vec2 {
        x: if keyboard_input.right {
            1
        } else if keyboard_input.left {
            -1i128
        } else {
            0
        },
        y: if keyboard_input.up {
            1
        } else if keyboard_input.down {
            -1i128
        } else {
            0
        },
    }
}

/// The velocity of a player heading in `direction`, in pixels per second.
pub open spec fn spec_velocity(direction: Vec2) -> Vec2 {
    Vec2 {
        x: (direction.x * PLAYER_SPEED) as i128,
        y: (direction.y * PLAYER_SPEED) as i128,
    }
}

/// Along each axis the direction is a step of -1, 0 or 1 and the velocity is
/// the player's speed that way, or nothing: a diagonal is not slowed down.
pub proof fn lemma_direction_is_a_step(keyboard_input: KeyboardInput)
    ensures
        -1 <= spec_direction(keyboard_input).x <= 1,
        -1 <= spec_direction(keyboard_input).y <= 1,
        spec_velocity(spec_direction(keyboard_input)).x == spec_direction(keyboard_input).x
            * PLAYER_SPEED,
        spec_velocity(spec_direction(keyboard_input)).y == spec_direction(keyboard_input).y
            * PLAYER_SPEED,
{
}

/// The cell of the grid that the player starts in: two rows below the middle
/// of the map.
pub open spec fn spec_player_start(map_descriptor: MapDescriptor) -> (usize, usize) {
    ((map_descriptor.width / 2) as usize, (map_descriptor.height / 2 + 2) as usize)
}

/// The player as it enters the world.
#[derive(Clone, Copy, Debug, PartialEq, Eq, Structural)]
pub struct PlayerBundle {
    /// The number of the sprite that draws it.
    pub sprite: usize,
    /// Where it stands.
    pub transform: Transform,
    /// Its motion.
    pub player: Player,
    /// Whether it takes part in collisions.
    pub collider: bool,
}

/// The player of a map as it enters the world: at rest, in its starting
/// cell, in the layer above the tiles, and with a collider, whatever tile it
/// stands on.
pub open spec fn spec_setup_player(map_descriptor: MapDescriptor) -> PlayerBundle {
    PlayerBundle {
        sprite: PLAYER_INDEX,
        transform: spec_from_tile(
            spec_player_start(map_descriptor).0,
            spec_player_start(map_descriptor).1,
            PLAYER_LAYER,
            map_descriptor,
        ),
        player: Player { direction: Vec2 { x: 0, y: 0 }, velocity: Vec2 { x: 0, y: 0 } },
        collider: true,
    }
}

/// The player's starting cell lies within the reach of the coordinates,
/// whatever the map: it is never more than three tiles from the origin.
pub proof fn lemma_player_start_fits(map_descriptor: MapDescriptor)
    ensures
        spec_tile_fits(
            spec_player_start(map_descriptor).0,
            spec_player_start(map_descriptor).1,
            map_descriptor,
        ),
{
    let x = spec_player_start(map_descriptor).0;
    let y = spec_player_start(map_descriptor).1;
    let size = spec_tile_size(map_descriptor.tile_scale);
    let columns: int = 2 * x - map_descriptor.width + 1;
    let rows: int = map_descriptor.height - 2 * y - 1;
    lemma_tile_centre(x, y, map_descriptor);
    assert(0 <= size * columns <= size && -5 * size <= size * rows <= 0) by (nonlinear_arith)
        requires
            size >= 0,
            0 <= columns <= 1,
            -5 <= rows <= -4,
    ;
}

/// Makes the player of a loaded map: at rest, in its starting cell, in the
/// layer above the tiles, and with a collider. A map that was not loaded has
/// no player: the world is built of both or of neither.
pub(crate) fn setup_player(map_descriptor: &MapDescriptor) -> (spawned: PlayerBundle)
    ensures
        spawned == spec_setup_player(*map_descriptor),
{
    proof {
        lemma_player_start_fits(*map_descriptor);
    }
    PlayerBundle {
        sprite: PLAYER_INDEX,
        transform: Transform::from_tile(
            map_descriptor.width / 2,
            map_descriptor.height / 2 + 2,
            PLAYER_LAYER,
            map_descriptor,
        ),
        player: Player::default(),
        collider: true,
    }
}

/// Moves the player by one tick of `dt` microseconds.
///
/// The direction is read from the keys, the velocity is the direction at the
/// player's speed, and the player advances by the velocity times the
/// elapsed time. Nothing stops it: whether a collider is in the way is for
/// the caller to ask and to act on.
///
/// The place reached has to lie within the range of the coordinates.
pub fn move_player_system(
    keyboard_input: &KeyboardInput,
    dt: u64,
    player: &mut Player,
    transform: &mut Transform,
)
    requires
        i128::MIN <= old(transform).translation.x + spec_velocity(
            spec_direction(*keyboard_input),
        ).x * dt <= i128::MAX,
        i128::MIN <= old(transform).translation.y + spec_velocity(
            spec_direction(*keyboard_input),
        ).y * dt <= i128::MAX,
    ensures
        final(player).direction == spec_direction(*keyboard_input),
        final(player).velocity == spec_velocity(spec_direction(*keyboard_input)),
        final(transform).translation.x == old(transform).translation.x + final(player).velocity.x
            * dt,
        final(transform).translation.y == old(transform).translation.y + final(player).velocity.y
            * dt,
        final(transform).depth == old(transform).depth,
        final(transform).scale == old(transform).scale,
{
    player.direction.x = 0;
    player.direction.y = 0;
    if keyboard_input.left {
        player.direction.x = -1;
    }
    if keyboard_input.right {
        player.direction.x = 1;
    }
    if keyboard_input.down {
        player.direction.y = -1;
    }
    if keyboard_input.up {
        player.direction.y = 1;
    }
    player.velocity.x = player.direction.x * PLAYER_SPEED;
    player.velocity.y = player.direction.y * PLAYER_SPEED;
    let elapsed: i128 = dt as i128;
    assert(-200 * elapsed <= player.velocity.x * elapsed <= 200 * elapsed) by (nonlinear_arith)
        requires
            -200 <= player.velocity.x <= 200,
            elapsed >= 0,
    ;
    assert(-200 * elapsed <= player.velocity.y * elapsed <= 200 * elapsed) by (nonlinear_arith)
        requires
            -200 <= player.velocity.y <= 200,
            elapsed >= 0,
    ;
    transform.translation.x = transform.translation.x + player.velocity.x * elapsed;
    transform.translation.y = transform.translation.y + player.velocity.y * elapsed;
}

} // verus!
