//! The kinds of tile and the glyphs that stand for them in a map text.

use vstd::prelude::*;

verus! {

/// How many textures the tile sheet holds: every sprite number is below it.
pub const TILE_TEXTURE_COUNT: usize = 131;

/// The kind of a tile, named after the sprite that draws it.
#[derive(Clone, Copy, Debug, PartialEq, Eq, Structural)]
pub enum SpriteIndex {
    Wall,
    WallTop,
    WallLeft,
    WallRight,
    WallInner,
    WallInnerLeft,
    WallInnerRight,
    WallBottom,
    WallInnerCornerTopLeft,
    WallInnerCornerTopRight,
    WallInnerCornerBottomLeft,
    WallInnerCornerBottomRight,
    WallOuterCornerTopLeft,
    WallOuterCornerTopRight,
    WallOuterCornerBottomLeft,
    WallOuterCornerBottomRight,
    Roof,
    Ground,
    GroundShadow,
}

impl SpriteIndex {
    /// The number of the kind's sprite in the tile sheet.
    pub open spec fn spec_index(self) -> usize {
        match self {
            SpriteIndex::Wall => 40,
            SpriteIndex::WallTop => 2,
            SpriteIndex::WallLeft => 13,
            SpriteIndex::WallRight => 15,
            SpriteIndex::WallInner => 58,
            SpriteIndex::WallInnerLeft => 57,
            SpriteIndex::WallInnerRight => 59,
            SpriteIndex::WallBottom => 26,
            SpriteIndex::WallInnerCornerTopLeft => 1,
            SpriteIndex::WallInnerCornerTopRight => 3,
            SpriteIndex::WallInnerCornerBottomLeft => 25,
            SpriteIndex::WallInnerCornerBottomRight => 27,
            SpriteIndex::WallOuterCornerTopLeft => 4,
            SpriteIndex::WallOuterCornerTopRight => 5,
            SpriteIndex::WallOuterCornerBottomLeft => 16,
            SpriteIndex::WallOuterCornerBottomRight => 17,
            SpriteIndex::Roof => 0,
            SpriteIndex::Ground => 48,
            SpriteIndex::GroundShadow => 50,
        }
    }

    /// Whether a tile of this kind stops movement: the walls do, while roof,
    /// ground and shadowed ground do not.
    pub open spec fn spec_blocks_movement(self) -> bool {
        !(self == SpriteIndex::Roof || self == SpriteIndex::Ground || self
            == SpriteIndex::GroundShadow)
    }

    /// The glyph that stands for the kind in a map text.
    pub open spec fn glyph(self) -> char {
        match self {
            SpriteIndex::Wall => '─',
            SpriteIndex::WallTop => '▲',
            SpriteIndex::WallLeft => '│',
            SpriteIndex::WallRight => '┃',
            SpriteIndex::WallInner => '║',
            SpriteIndex::WallInnerLeft => '├',
            SpriteIndex::WallInnerRight => '┤',
            SpriteIndex::WallBottom => '▼',
            SpriteIndex::WallInnerCornerTopLeft => '┌',
            SpriteIndex::WallInnerCornerTopRight => '┐',
            SpriteIndex::WallInnerCornerBottomLeft => '└',
            SpriteIndex::WallInnerCornerBottomRight => '┘',
            SpriteIndex::WallOuterCornerTopLeft => '┍',
            SpriteIndex::WallOuterCornerTopRight => '┑',
            SpriteIndex::WallOuterCornerBottomLeft => '┕',
            SpriteIndex::WallOuterCornerBottomRight => '┙',
            SpriteIndex::Roof => '█',
            SpriteIndex::Ground => ' ',
            SpriteIndex::GroundShadow => '░',
        }
    }

    /// The number of the kind's sprite in the tile sheet.
    pub fn index(self) -> (i: usize)
        ensures
            i == self.spec_index(),
            i < TILE_TEXTURE_COUNT,
    {
        match self {
            SpriteIndex::Wall => 40,
            SpriteIndex::WallTop => 2,
            SpriteIndex::WallLeft => 13,
            SpriteIndex::WallRight => 15,
            SpriteIndex::WallInner => 58,
            SpriteIndex::WallInnerLeft => 57,
            SpriteIndex::WallInnerRight => 59,
            SpriteIndex::WallBottom => 26,
            SpriteIndex::WallInnerCornerTopLeft => 1,
            SpriteIndex::WallInnerCornerTopRight => 3,
            SpriteIndex::WallInnerCornerBottomLeft => 25,
            SpriteIndex::WallInnerCornerBottomRight => 27,
            SpriteIndex::WallOuterCornerTopLeft => 4,
            SpriteIndex::WallOuterCornerTopRight => 5,
            SpriteIndex::WallOuterCornerBottomLeft => 16,
            SpriteIndex::WallOuterCornerBottomRight => 17,
            SpriteIndex::Roof => 0,
            SpriteIndex::Ground => 48,
            SpriteIndex::GroundShadow => 50,
        }
    }

    /// Whether a tile of this kind stops movement.
    pub fn blocks_movement(self) -> (b: bool)
        ensures
            b == self.spec_blocks_movement(),
    {
        match self {
            SpriteIndex::Roof | SpriteIndex::Ground | SpriteIndex::GroundShadow => false,
            _ => true,
        }
    }
}

impl Default for SpriteIndex {
    /// Plain ground, the kind that takes the place of a glyph nobody knows.
    fn default() -> (kind: Self)
        ensures
            kind == SpriteIndex::Ground,
    {
        SpriteIndex::Ground
    }
}

/// The kind that a glyph stands for, if it stands for one.
pub open spec fn spec_ctotile(c: char) -> Option<SpriteIndex> {
    if c == '─' {
        Some(SpriteIndex::Wall)
    } else if c == '▲' {
        Some(SpriteIndex::WallTop)
    } else if c == '│' {
        Some(SpriteIndex::WallLeft)
    } else if c == '┃' {
        Some(SpriteIndex::WallRight)
    } else if c == '║' {
        Some(SpriteIndex::WallInner)
    } else if c == '├' {
        Some(SpriteIndex::WallInnerLeft)
    } else if c == '┤' {
        Some(SpriteIndex::WallInnerRight)
    } else if c == '▼' {
        Some(SpriteIndex::WallBottom)
    } else if c == '┌' {
        Some(SpriteIndex::WallInnerCornerTopLeft)
    } else if c == '┐' {
        Some(SpriteIndex::WallInnerCornerTopRight)
    } else if c == '└' {
        Some(SpriteIndex::WallInnerCornerBottomLeft)
    } else if c == '┘' {
        Some(SpriteIndex::WallInnerCornerBottomRight)
    } else if c == '┍' {
        Some(SpriteIndex::WallOuterCornerTopLeft)
    } else if c == '┑' {
        Some(SpriteIndex::WallOuterCornerTopRight)
    } else if c == '┕' {
        Some(SpriteIndex::WallOuterCornerBottomLeft)
    } else if c == '┙' {
        Some(SpriteIndex::WallOuterCornerBottomRight)
    } else if c == '█' {
        Some(SpriteIndex::Roof)
    } else if c == ' ' {
        Some(SpriteIndex::Ground)
    } else if c == '░' {
        Some(SpriteIndex::GroundShadow)
    } else {
        None
    }
}

/// The kind of the tile that a glyph places: its own, or plain ground where
/// the glyph stands for none.
pub open spec fn spec_tile_kind(c: char) -> SpriteIndex {
    match spec_ctotile(c) {
        Some(kind) => kind,
        None => SpriteIndex::Ground,
    }
}

/// Whether the tile that a glyph places stops movement.
pub open spec fn spec_collide(c: char) -> bool {
    spec_tile_kind(c).spec_blocks_movement()
}

/// Reads a glyph of a map text: the kind it stands for, or `None` for a
/// character that is no glyph.
pub fn ctotile(c: char) -> (kind: Option<SpriteIndex>)
    ensures
        kind == spec_ctotile(c),
{
    Some(
        match c {
            '─' => SpriteIndex::Wall,
            '▲' => SpriteIndex::WallTop,
            '│' => SpriteIndex::WallLeft,
            '┃' => SpriteIndex::WallRight,
            '║' => SpriteIndex::WallInner,
            '├' => SpriteIndex::WallInnerLeft,
            '┤' => SpriteIndex::WallInnerRight,
            '▼' => SpriteIndex::WallBottom,
            '┌' => SpriteIndex::WallInnerCornerTopLeft,
            '┐' => SpriteIndex::WallInnerCornerTopRight,
            '└' => SpriteIndex::WallInnerCornerBottomLeft,
            '┘' => SpriteIndex::WallInnerCornerBottomRight,
            '┍' => SpriteIndex::WallOuterCornerTopLeft,
            '┑' => SpriteIndex::WallOuterCornerTopRight,
            '┕' => SpriteIndex::WallOuterCornerBottomLeft,
            '┙' => SpriteIndex::WallOuterCornerBottomRight,
            '█' => SpriteIndex::Roof,
            ' ' => SpriteIndex::Ground,
            '░' => SpriteIndex::GroundShadow,
            _ => {
                return None;
            },
        },
    )
}

/// Whether the tile that the glyph `c` places gets a collider. A character
/// that is no glyph places plain ground, which gets none.
pub fn collide(c: char) -> (blocks: bool)
    ensures
        blocks == spec_collide(c),
{
    match ctotile(c) {
        Some(kind) => kind.blocks_movement(),
        None => SpriteIndex::Ground.blocks_movement(),
    }
}

/// A character stands for a kind exactly if it is the glyph of that kind:
/// each of the nineteen glyphs is read as its own kind, and no other
/// character is read as any.
pub proof fn lemma_ctotile_inverts_glyph(c: char, kind: SpriteIndex)
    ensures
        spec_ctotile(c) == Some(kind) <==> kind.glyph() == c,
{
}

/// No two glyphs stand for the same kind.
pub proof fn lemma_ctotile_is_injective(c: char, d: char)
    requires
        spec_ctotile(c) is Some,
        spec_ctotile(c) == spec_ctotile(d),
    ensures
        c == d,
{
}

/// No two kinds share a sprite.
pub proof fn lemma_index_is_injective(a: SpriteIndex, b: SpriteIndex)
    ensures
        a.spec_index() == b.spec_index() ==> a == b,
{
}

/// A character that is no glyph places a tile of plain ground without a
/// collider.
pub proof fn lemma_unknown_glyph_is_ground(c: char)
    requires
        spec_ctotile(c) is None,
    ensures
        spec_tile_kind(c) == SpriteIndex::Ground,
        !spec_collide(c),
{
}

} // verus!
