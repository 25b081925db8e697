//! Collision geometry: axis-aligned rectangles, the two tests on them, and the
//! queries that pick the rectangles to outline when the debug overlay is on.

use crate::map::{
    lemma_tile_centre, spec_from_tile, spec_tile_fits, spec_tile_size, MapDescriptor,
    TILE_PIXEL_SIZE,
};
use crate::transform::{Transform, Vec2, UNITS_PER_PIXEL};
use crate::DebugMode;
use vstd::prelude::*;

verus! {

/// An axis-aligned rectangle, given by its centre and its extent along both
/// axes, in world units. Its edges lie half an extent from the centre, which
/// need not be a whole number of units: the contracts speak of twice the
/// edges.
///
/// A rectangle takes part in collisions only if both extents are positive.
#[derive(Clone, Copy, Debug, PartialEq, Eq, Structural)]
pub struct Rectangle {
    pub pos: Vec2,
    pub width: u128,
    pub height: u128,
}

impl Rectangle {
    /// Whether the rectangle has no area.
    pub open spec fn is_degenerate(self) -> bool {
        self.width == 0 || self.height == 0
    }

    /// Twice the abscissa of the left edge.
    pub open spec fn twice_left(self) -> int {
        2 * self.pos.x - self.width
    }

    /// Twice the abscissa of the right edge.
    pub open spec fn twice_right(self) -> int {
        2 * self.pos.x + self.width
    }

    /// Twice the ordinate of the bottom edge.
    pub open spec fn twice_bottom(self) -> int {
        2 * self.pos.y - self.height
    }

    /// Twice the ordinate of the top edge.
    pub open spec fn twice_top(self) -> int {
        2 * self.pos.y + self.height
    }

    /// The collision box of an entity: centred where the entity stands, and a
    /// scaled tile wide and high.
    pub open spec fn spec_from_transform(transform: Transform) -> Rectangle {
        Rectangle {
            pos: transform.translation,
            width: (transform.scale * TILE_PIXEL_SIZE * UNITS_PER_PIXEL) as u128,
            height: (transform.scale * TILE_PIXEL_SIZE * UNITS_PER_PIXEL) as u128,
        }
    }

    /// The collision box of an entity: centred where the entity stands, and a
    /// scaled tile wide and high.
    pub fn from_transform(transform: &Transform) -> (rect: Rectangle)
        ensures
            rect == Rectangle::spec_from_transform(*transform),
            rect.pos == transform.translation,
            rect.width == transform.scale * TILE_PIXEL_SIZE * UNITS_PER_PIXEL,
            rect.height == rect.width,
    {
        assert(TILE_PIXEL_SIZE * UNITS_PER_PIXEL == 16_000_000) by (nonlinear_arith)
            requires
                TILE_PIXEL_SIZE == 16,
                UNITS_PER_PIXEL == 1_000_000,
        ;
        let pixel: u128 = (TILE_PIXEL_SIZE as u128) * (UNITS_PER_PIXEL as u128);
        assert(transform.scale * TILE_PIXEL_SIZE * UNITS_PER_PIXEL == transform.scale * pixel
            && transform.scale * pixel <= 0xffff_ffff_ffff_ffff * 16_000_000) by (nonlinear_arith)
            requires
                pixel == 16_000_000,
                TILE_PIXEL_SIZE == 16,
                UNITS_PER_PIXEL == 1_000_000,
                0 <= transform.scale <= 0xffff_ffff_ffff_ffff,
        ;
        let side: u128 = transform.scale as u128 * pixel;
        Rectangle { pos: transform.translation, width: side, height: side }
    }
}

/// Whether two rectangles overlap: both have an area, and on each axis the
/// one begins before the other ends. Rectangles that only touch do not
/// overlap.
pub open spec fn spec_rect_vs_rect(r1: Rectangle, r2: Rectangle) -> bool {
    &&& !r1.is_degenerate()
    &&& !r2.is_degenerate()
    &&& r1.twice_left() < r2.twice_right()
    &&& r1.twice_right() > r2.twice_left()
    &&& r1.twice_bottom() < r2.twice_top()
    &&& r1.twice_top() > r2.twice_bottom()
}

/// Whether a point lies in a rectangle. The left and the bottom edge belong to
/// the rectangle, the right and the top edge do not, so that a point on the
/// edge between two tiles lies in one of them only.
pub open spec fn spec_point_vs_rect(point: Vec2, rect: Rectangle) -> bool {
    &&& 2 * point.x >= rect.twice_left()
    &&& 2 * point.y >= rect.twice_bottom()
    &&& 2 * point.x < rect.twice_right()
    &&& 2 * point.y < rect.twice_top()
}

/// The way from `b` up to `a`, which a `u128` always holds.
fn gap(a: i128, b: i128) -> (gap: u128)
    requires
        b <= a,
    ensures
        gap == a - b,
{
    if b >= 0 || a < 0 {
        (a - b) as u128
    } else {
        a as u128 + (-(b + 1)) as u128 + 1
    }
}

/// Whether twice the way from `b` to `a` is less than two extents together,
/// for any two coordinates and any two extents.
fn twice_gap_is_below(a: i128, b: i128, first: u128, second: u128) -> (below: bool)
    ensures
        below == (2 * (a - b) < first + second),
{
    if a < b {
        true
    } else {
        let halves: u128 = first / 2 + second / 2;
        let odd: u128 = first % 2 + second % 2;
        if odd > 0 {
            gap(a, b) <= halves
        } else {
            gap(a, b) < halves
        }
    }
}

/// Whether two rectangles overlap. Touching edges do not count, and a
/// rectangle without area overlaps nothing.
pub fn rect_vs_rect(r1: &Rectangle, r2: &Rectangle) -> (overlap: bool)
    ensures
        overlap == spec_rect_vs_rect(*r1, *r2),
{
    if r1.width == 0 || r1.height == 0 || r2.width == 0 || r2.height == 0 {
        return false;
    }
    twice_gap_is_below(r1.pos.x, r2.pos.x, r1.width, r2.width) && twice_gap_is_below(
        r2.pos.x,
        r1.pos.x,
        r1.width,
        r2.width,
    ) && twice_gap_is_below(r1.pos.y, r2.pos.y, r1.height, r2.height) && twice_gap_is_below(
        r2.pos.y,
        r1.pos.y,
        r1.height,
        r2.height,
    )
}

/// Whether `point` lies in `rect`, the left and bottom edges counted in and
/// the right and top edges counted out. A rectangle without area holds no
/// point.
pub fn point_vs_rect(point: &Vec2, rect: &Rectangle) -> (inside: bool)
    ensures
        inside == spec_point_vs_rect(*point, *rect),
{
    twice_gap_is_below(rect.pos.x, point.x, rect.width, 1) && twice_gap_is_below(
        rect.pos.y,
        point.y,
        rect.height,
        1,
    ) && twice_gap_is_below(point.x, rect.pos.x, rect.width, 0) && twice_gap_is_below(
        point.y,
        rect.pos.y,
        rect.height,
        0,
    )
}

/// Whether two rectangles overlap does not depend on which is asked first.
pub proof fn lemma_rect_vs_rect_is_symmetric(r1: Rectangle, r2: Rectangle)
    ensures
        spec_rect_vs_rect(r1, r2) == spec_rect_vs_rect(r2, r1),
{
}

/// A rectangle overlaps itself, unless its width or its height is zero.
pub proof fn lemma_rect_vs_rect_itself(rect: Rectangle)
    ensures
        spec_rect_vs_rect(rect, rect) == !rect.is_degenerate(),
{
}

/// A rectangle without area overlaps no rectangle and holds no point.
pub proof fn lemma_degenerate_rect_is_inert(rect: Rectangle, other: Rectangle, point: Vec2)
    requires
        rect.is_degenerate(),
    ensures
        !spec_rect_vs_rect(rect, other),
        !spec_rect_vs_rect(other, rect),
        !spec_point_vs_rect(point, rect),
{
}

/// Of the edges of a rectangle with an area, the lower left corner lies in
/// it, while no point of its right edge or of its top edge does: so not the
/// upper right corner.
pub proof fn lemma_point_vs_rect_edges(rect: Rectangle, point: Vec2)
    ensures
        2 * point.x == rect.twice_left() && 2 * point.y == rect.twice_bottom() ==> spec_point_vs_rect(
            point,
            rect,
        ) == !rect.is_degenerate(),
        2 * point.x == rect.twice_right() || 2 * point.y == rect.twice_top() ==> !spec_point_vs_rect(
            point,
            rect,
        ),
{
}

/// The collision box of the grid cell `(x, y)` of a map, where the cell lies
/// within the reach of the coordinates.
pub open spec fn spec_tile_box(x: usize, y: usize, map_descriptor: MapDescriptor) -> Rectangle {
    Rectangle::spec_from_transform(spec_from_tile(x, y, 0, map_descriptor))
}

/// The collision box of a cell is the cell: a tile wide and high, with its
/// left edge `x - width / 2` tiles right of the origin and its top edge
/// `height / 2 - y` tiles above it.
pub proof fn lemma_tile_box_edges(x: usize, y: usize, map_descriptor: MapDescriptor)
    requires
        spec_tile_fits(x, y, map_descriptor),
    ensures
        spec_tile_box(x, y, map_descriptor).width == spec_tile_size(map_descriptor.tile_scale),
        spec_tile_box(x, y, map_descriptor).height == spec_tile_size(map_descriptor.tile_scale),
        spec_tile_box(x, y, map_descriptor).twice_left() == spec_tile_size(map_descriptor.tile_scale)
            * (2 * x - map_descriptor.width),
        spec_tile_box(x, y, map_descriptor).twice_right() == spec_tile_size(map_descriptor.tile_scale)
            * (2 * x - map_descriptor.width + 2),
        spec_tile_box(x, y, map_descriptor).twice_bottom() == spec_tile_size(map_descriptor.tile_scale)
            * (map_descriptor.height - 2 * y - 2),
        spec_tile_box(x, y, map_descriptor).twice_top() == spec_tile_size(map_descriptor.tile_scale) * (
        map_descriptor.height - 2 * y),
{
    let size = spec_tile_size(map_descriptor.tile_scale);
    let scale: int = map_descriptor.tile_scale as int;
    let w: int = map_descriptor.width as int;
    let h: int = map_descriptor.height as int;
    lemma_tile_centre(x, y, map_descriptor);
    assert(size == scale * TILE_PIXEL_SIZE * UNITS_PER_PIXEL && 0 <= size
        <= 0xffff_ffff_ffff_ffff * 16_000_000) by (nonlinear_arith)
        requires
            size == TILE_PIXEL_SIZE * UNITS_PER_PIXEL * scale,
            TILE_PIXEL_SIZE == 16,
            UNITS_PER_PIXEL == 1_000_000,
            0 <= scale <= 0xffff_ffff_ffff_ffff,
    ;
    assert(size * (2 * x - w + 1) - size == size * (2 * x - w) && size * (2 * x - w + 1) + size
        == size * (2 * x - w + 2)) by (nonlinear_arith);
    assert(size * (h - 2 * y - 1) - size == size * (h - 2 * y - 2) && size * (h - 2 * y - 1)
        + size == size * (h - 2 * y)) by (nonlinear_arith);
}

/// A map is centred on the origin: the left edge of its first column lies as
/// far to the left as the right edge of its last column lies to the right,
/// half the map's width, and the top edge of its first row as far up as the
/// bottom edge of its last row lies down, half the map's height.
pub proof fn lemma_map_is_centred(map_descriptor: MapDescriptor)
    requires
        map_descriptor.is_valid(),
        spec_tile_fits(0, 0, map_descriptor),
        spec_tile_fits(
            (map_descriptor.width - 1) as usize,
            (map_descriptor.height - 1) as usize,
            map_descriptor,
        ),
    ensures
        spec_tile_box(0, 0, map_descriptor).twice_left() == -(spec_tile_size(map_descriptor.tile_scale)
            * map_descriptor.width),
        spec_tile_box(
            (map_descriptor.width - 1) as usize,
            0,
            map_descriptor,
        ).twice_right() == spec_tile_size(map_descriptor.tile_scale) * map_descriptor.width,
        spec_tile_box(0, 0, map_descriptor).twice_top() == spec_tile_size(map_descriptor.tile_scale)
            * map_descriptor.height,
        spec_tile_box(
            0,
            (map_descriptor.height - 1) as usize,
            map_descriptor,
        ).twice_bottom() == -(spec_tile_size(map_descriptor.tile_scale) * map_descriptor.height),
{
    let size = spec_tile_size(map_descriptor.tile_scale);
    let w: int = map_descriptor.width as int;
    let h: int = map_descriptor.height as int;
    lemma_tile_box_edges(0, 0, map_descriptor);
    lemma_tile_box_edges((map_descriptor.width - 1) as usize, 0, map_descriptor);
    lemma_tile_box_edges(0, (map_descriptor.height - 1) as usize, map_descriptor);
    assert(size * (2 * 0 - w) == -(size * w) && size * (2 * (w - 1) - w + 2) == size * w)
        by (nonlinear_arith);
    assert(size * (h - 2 * 0) == size * h && size * (h - 2 * (h - 1) - 2) == -(size * h))
        by (nonlinear_arith);
}

/// The collision boxes of two cells of a map never overlap, and no point
/// lies in both: the boxes tile the plane as the cells tile the grid.
pub proof fn lemma_tile_boxes_stand_apart(
    x1: usize,
    y1: usize,
    x2: usize,
    y2: usize,
    map_descriptor: MapDescriptor,
    point: Vec2,
)
    requires
        x1 != x2 || y1 != y2,
        spec_tile_fits(x1, y1, map_descriptor),
        spec_tile_fits(x2, y2, map_descriptor),
    ensures
        !spec_rect_vs_rect(
            spec_tile_box(x1, y1, map_descriptor),
            spec_tile_box(x2, y2, map_descriptor),
        ),
        !(spec_point_vs_rect(point, spec_tile_box(x1, y1, map_descriptor)) && spec_point_vs_rect(
            point,
            spec_tile_box(x2, y2, map_descriptor),
        )),
{
    let size = spec_tile_size(map_descriptor.tile_scale);
    let w: int = map_descriptor.width as int;
    let h: int = map_descriptor.height as int;
    lemma_tile_box_edges(x1, y1, map_descriptor);
    lemma_tile_box_edges(x2, y2, map_descriptor);
    if x1 < x2 {
        assert(size * (2 * x1 - w + 2) <= size * (2 * x2 - w)) by (nonlinear_arith)
            requires
                size >= 0,
                x1 < x2,
        ;
    } else if x2 < x1 {
        assert(size * (2 * x2 - w + 2) <= size * (2 * x1 - w)) by (nonlinear_arith)
            requires
                size >= 0,
                x2 < x1,
        ;
    } else if y1 < y2 {
        assert(size * (h - 2 * y2) <= size * (h - 2 * y1 - 2)) by (nonlinear_arith)
            requires
                size >= 0,
                y1 < y2,
        ;
    } else {
        assert(size * (h - 2 * y1) <= size * (h - 2 * y2 - 2)) by (nonlinear_arith)
            requires
                size >= 0,
                y2 < y1,
        ;
    }
}

/// The colour of an outline of the debug overlay.
#[derive(Clone, Copy, Debug, PartialEq, Eq, Structural)]
pub enum DebugColor {
    /// A collision box.
    White,
    /// A collision box under the cursor.
    Yellow,
    /// A collision box that the player's box overlaps, and the player's box
    /// then.
    Red,
}

/// An outline for the debug overlay to draw.
#[derive(Clone, Copy, Debug, PartialEq, Eq, Structural)]
pub struct DebugRect {
    pub rect: Rectangle,
    pub color: DebugColor,
}

/// The collision boxes of entities, in their order.
pub open spec fn spec_boxes(colliders: Seq<Transform>) -> Seq<Rectangle> {
    colliders.map_values(|transform: Transform| Rectangle::spec_from_transform(transform))
}

/// Whether the cursor is somewhere and lies in `rect`.
pub open spec fn spec_hovered(cursor: Option<Vec2>, rect: Rectangle) -> bool {
    match cursor {
        Some(point) => spec_point_vs_rect(point, rect),
        None => false,
    }
}

/// The test that holds of the rectangles under the cursor, or of the others.
pub open spec fn spec_hover_test(cursor: Option<Vec2>, under: bool) -> spec_fn(Rectangle) -> bool {
    |rect: Rectangle| spec_hovered(cursor, rect) == under
}

/// The test that holds of the rectangles that overlap `player_hit_box`.
pub open spec fn spec_hit_test(player_hit_box: Rectangle) -> spec_fn(Rectangle) -> bool {
    |rect: Rectangle| spec_rect_vs_rect(player_hit_box, rect)
}

/// The outlines of rectangles, all in one colour.
pub open spec fn spec_outlines(rects: Seq<Rectangle>, color: DebugColor) -> Seq<DebugRect> {
    Seq::new(rects.len(), |i: int| DebugRect { rect: rects[i], color })
}

/// Each of the rectangles `hit`, followed by the player's box, in red.
pub open spec fn spec_red_pairs(hit: Seq<Rectangle>, player_hit_box: Rectangle) -> Seq<DebugRect> {
    Seq::new(
        2 * hit.len(),
        |i: int|
            DebugRect {
                rect: if i % 2 == 0 {
                    hit[i / 2]
                } else {
                    player_hit_box
                },
                color: DebugColor::Red,
            },
    )
}

/// The outlines of the collision boxes: nothing while the overlay is off;
/// else the boxes that the cursor is not in, in white, and after them the
/// boxes that it is in, in yellow, each group in the order of the entities.
pub open spec fn spec_collider_debug_box(
    colliders: Seq<Transform>,
    cursor: Option<Vec2>,
    on: bool,
) -> Seq<DebugRect> {
    if on {
        spec_outlines(
            spec_boxes(colliders).filter(spec_hover_test(cursor, false)),
            DebugColor::White,
        ) + spec_outlines(
            spec_boxes(colliders).filter(spec_hover_test(cursor, true)),
            DebugColor::Yellow,
        )
    } else {
        Seq::empty()
    }
}

/// The outlines of the collisions of the player: nothing while the overlay is
/// off or there is no player; else, for each of the boxes that the player's
/// box overlaps, in the order of the entities, that box and then the player's
/// box, both in red.
pub open spec fn spec_player_debug_box(
    colliders: Seq<Transform>,
    player: Option<Transform>,
    on: bool,
) -> Seq<DebugRect> {
    match player {
        Some(transform) if on => {
            let player_hit_box = Rectangle::spec_from_transform(transform);
            spec_red_pairs(
                spec_boxes(colliders).filter(spec_hit_test(player_hit_box)),
                player_hit_box,
            )
        },
        _ => Seq::empty(),
    }
}

/// Picks the outlines of the collision boxes of `colliders` for the debug
/// overlay, with the boxes under the cursor set apart: they come last, in
/// yellow, after the others in white. `cursor` is `None` where the cursor is
/// nowhere in the window. While the overlay is off nothing is outlined.
pub fn collider_debug_box(
    colliders: &Vec<Transform>,
    cursor: Option<Vec2>,
    debug_mode: &DebugMode,
) -> (shapes: Vec<DebugRect>)
    ensures
        shapes@ == spec_collider_debug_box(colliders@, cursor, debug_mode.on),
{
    let mut shapes: Vec<DebugRect> = Vec::new();
    if !debug_mode.on {
        return shapes;
    }
    let mut hover: Vec<Rectangle> = Vec::new();
    let ghost boxes = spec_boxes(colliders@);
    let mut i: usize = 0;
    while i < colliders.len()
        invariant
            i <= colliders.len(),
            boxes == spec_boxes(colliders@),
            shapes@ == spec_outlines(
                boxes.take(i as int).filter(spec_hover_test(cursor, false)),
                DebugColor::White,
            ),
            hover@ == boxes.take(i as int).filter(spec_hover_test(cursor, true)),
        decreases colliders.len() - i,
    {
        let collide_box = Rectangle::from_transform(&colliders[i]);
        let hovered = match cursor {
            Some(cursor_pos) => point_vs_rect(&cursor_pos, &collide_box),
            None => false,
        };
        proof {
            let seen = boxes.take(i as int);
            assert(boxes.take(i + 1) == seen.push(collide_box));
            seen.lemma_filter_push(collide_box, spec_hover_test(cursor, false));
            seen.lemma_filter_push(collide_box, spec_hover_test(cursor, true));
        }
        if hovered {
            hover.push(collide_box);
        } else {
            shapes.push(DebugRect { rect: collide_box, color: DebugColor::White });
        }
        i += 1;
    }
    assert(boxes.take(i as int) == boxes);
    let ghost whites = shapes@;
    let mut j: usize = 0;
    while j < hover.len()
        invariant
            j <= hover.len(),
            shapes@ == whites + spec_outlines(hover@.take(j as int), DebugColor::Yellow),
        decreases hover.len() - j,
    {
        shapes.push(DebugRect { rect: hover[j], color: DebugColor::Yellow });
        j += 1;
    }
    shapes
}

/// Picks the outlines of the player's collisions for the debug overlay: each
/// box of `colliders`, the other entities with a collider, that the player's
/// box overlaps, followed by the player's box, all in red. `player` is `None`
/// unless there is exactly one player. While the overlay is off nothing is
/// outlined.
pub fn player_debug_box(
    colliders: &Vec<Transform>,
    player: Option<&Transform>,
    debug_mode: &DebugMode,
) -> (shapes: Vec<DebugRect>)
    ensures
        shapes@ == spec_player_debug_box(
            colliders@,
            match player {
                Some(transform) => Some(*transform),
                None => None,
            },
            debug_mode.on,
        ),
{
    let mut shapes: Vec<DebugRect> = Vec::new();
    if !debug_mode.on {
        return shapes;
    }
    let player_hit_box = match player {
        Some(transform) => Rectangle::from_transform(transform),
        None => {
            return shapes;
        },
    };
    let ghost boxes = spec_boxes(colliders@);
    let mut i: usize = 0;
    while i < colliders.len()
        invariant
            i <= colliders.len(),
            boxes == spec_boxes(colliders@),
            shapes@ == spec_red_pairs(
                boxes.take(i as int).filter(spec_hit_test(player_hit_box)),
                player_hit_box,
            ),
        decreases colliders.len() - i,
    {
        let collide_box = Rectangle::from_transform(&colliders[i]);
        proof {
            let seen = boxes.take(i as int);
            assert(boxes.take(i + 1) == seen.push(collide_box));
            seen.lemma_filter_push(collide_box, spec_hit_test(player_hit_box));
        }
        if rect_vs_rect(&player_hit_box, &collide_box) {
            shapes.push(DebugRect { rect: collide_box, color: DebugColor::Red });
            shapes.push(DebugRect { rect: player_hit_box, color: DebugColor::Red });
        }
        i += 1;
    }
    assert(boxes.take(i as int) == boxes);
    shapes
}

} // verus!
