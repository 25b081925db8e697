use tiny_zombies::map::tile::SpriteIndex;
use tiny_zombies::map::{
    map_fits, parse_map_descriptor, setup_map, tile_fits, BadMapDescriptor, MapDescriptor, Tile,
    TILE_PIXEL_SIZE,
};
use tiny_zombies::transform::{Transform, Vec2, UNITS_PER_PIXEL};

const PIXEL: i128 = 1_000_000;

fn lines(text: &[&str]) -> Vec<String> {
    text.iter().map(|line| line.to_string()).collect()
}

fn blank() -> MapDescriptor {
    MapDescriptor { width: 0, height: 0, tile_scale: 0 }
}

#[test]
fn world_units_and_tile_size() {
    assert_eq!(UNITS_PER_PIXEL, 1_000_000);
    assert_eq!(TILE_PIXEL_SIZE, 16);
}

#[test]
fn from_tile_centres_the_map_on_the_origin() {
    let map_descriptor = MapDescriptor { width: 3, height: 2, tile_scale: 1 };
    let expected = [
        ((0, 0), (-16, 8)),
        ((1, 0), (0, 8)),
        ((2, 0), (16, 8)),
        ((0, 1), (-16, -8)),
        ((1, 1), (0, -8)),
        ((2, 1), (16, -8)),
    ];
    for ((x, y), (px, py)) in expected {
        let transform = Transform::from_tile(x, y, 0, &map_descriptor);
        assert_eq!(transform.translation, Vec2 { x: px * PIXEL, y: py * PIXEL }, "cell ({x}, {y})");
        assert_eq!(transform.depth, 0);
        assert_eq!(transform.scale, 1);
    }
}

#[test]
fn from_tile_follows_the_formula() {
    // tile_size * (x - width / 2 + 1 / 2) and tile_size * (height / 2 - y - 1 / 2)
    let map_descriptor = MapDescriptor { width: 7, height: 4, tile_scale: 3 };
    let transform = Transform::from_tile(5, 3, 2, &map_descriptor);
    assert_eq!(transform.translation.x, 48 * PIXEL * 2);
    assert_eq!(transform.translation.y, -(48 * PIXEL * 3) / 2);
    assert_eq!(transform.depth, 2);
    assert_eq!(transform.scale, 3);
}

#[test]
fn from_tile_flips_the_rows() {
    let map_descriptor = MapDescriptor { width: 4, height: 4, tile_scale: 1 };
    let top = Transform::from_tile(0, 0, 0, &map_descriptor);
    let bottom = Transform::from_tile(0, 3, 0, &map_descriptor);
    assert_eq!(top.translation.y, 24 * PIXEL);
    assert_eq!(bottom.translation.y, -24 * PIXEL);
    assert!(top.translation.y > bottom.translation.y);
}

#[test]
fn from_tile_places_cells_outside_the_map() {
    let map_descriptor = MapDescriptor { width: 2, height: 2, tile_scale: 1 };
    let transform = Transform::from_tile(5, 9, 0, &map_descriptor);
    assert_eq!(transform.translation, Vec2 { x: 72 * PIXEL, y: -136 * PIXEL });
}

#[test]
fn from_tile_reaches_far() {
    let map_descriptor =
        MapDescriptor { width: usize::MAX, height: usize::MAX, tile_scale: u32::MAX as usize };
    assert!(tile_fits(usize::MAX, usize::MAX, &map_descriptor));
    assert!(tile_fits(0, 0, &map_descriptor));
    let half: i128 = 8 * PIXEL * u32::MAX as i128;
    let far = Transform::from_tile(usize::MAX, usize::MAX, usize::MAX, &map_descriptor);
    assert_eq!(far.translation.x, half * (usize::MAX as i128 + 1));
    assert_eq!(far.translation.y, -half * (usize::MAX as i128 + 1));
    assert_eq!(far.depth, usize::MAX);
    let near = Transform::from_tile(0, 0, 0, &map_descriptor);
    assert_eq!(near.translation.x, -half * (usize::MAX as i128 - 1));
    assert_eq!(near.translation.y, half * (usize::MAX as i128 - 1));
}

#[test]
fn from_tile_with_zero_scale_puts_everything_on_the_origin() {
    let map_descriptor = MapDescriptor { width: 3, height: 2, tile_scale: 0 };
    let transform = Transform::from_tile(2, 1, 0, &map_descriptor);
    assert_eq!(transform.translation, Vec2 { x: 0, y: 0 });
    assert_eq!(transform.scale, 0);
}

#[test]
fn distinct_cells_have_distinct_centres() {
    let map_descriptor = MapDescriptor { width: 5, height: 4, tile_scale: 2 };
    let mut centres = Vec::new();
    for y in 0..6 {
        for x in 0..7 {
            centres.push(Transform::from_tile(x, y, 0, &map_descriptor).translation);
        }
    }
    for (i, a) in centres.iter().enumerate() {
        for (j, b) in centres.iter().enumerate() {
            assert_eq!(a == b, i == j);
        }
    }
}

#[test]
fn map_of_three_by_two() {
    let map_file = lines(&["3,2,1", "─ ─", " ▲ "]);
    let mut tiles = Vec::new();
    let mut map_descriptor = blank();
    assert_eq!(parse_map_descriptor(&map_file, &mut tiles, &mut map_descriptor), Ok(()));
    assert_eq!(map_descriptor, MapDescriptor { width: 3, height: 2, tile_scale: 1 });
    assert_eq!(tiles.len(), 6);
    for (i, a) in tiles.iter().enumerate() {
        for (j, b) in tiles.iter().enumerate() {
            assert_eq!(a.transform.translation == b.transform.translation, i == j);
        }
    }
    let colliders: Vec<bool> = tiles.iter().map(|tile| tile.collider).collect();
    assert_eq!(colliders, vec![true, false, true, false, true, false]);
    let sprites: Vec<SpriteIndex> = tiles.iter().map(|tile| tile.sprite).collect();
    assert_eq!(
        sprites,
        vec![
            SpriteIndex::Wall,
            SpriteIndex::Ground,
            SpriteIndex::Wall,
            SpriteIndex::Ground,
            SpriteIndex::WallTop,
            SpriteIndex::Ground,
        ]
    );
    let centres: Vec<(i128, i128)> = tiles
        .iter()
        .map(|tile| (tile.transform.translation.x / PIXEL, tile.transform.translation.y / PIXEL))
        .collect();
    assert_eq!(centres, vec![(-16, 8), (0, 8), (16, 8), (-16, -8), (0, -8), (16, -8)]);
    for tile in &tiles {
        assert_eq!(tile.transform.depth, 0);
        assert_eq!(tile.transform.scale, 1);
        assert_eq!(tile.unrecognized, None);
    }
}

#[test]
fn map_tiles_are_those_of_from_tile() {
    let map_file = lines(&["4,3,2", "┌─┐", "│ █░", "└┘"]);
    let mut tiles = Vec::new();
    let mut map_descriptor = blank();
    assert_eq!(parse_map_descriptor(&map_file, &mut tiles, &mut map_descriptor), Ok(()));
    let cells = [(0, 0), (1, 0), (2, 0), (0, 1), (1, 1), (2, 1), (3, 1), (0, 2), (1, 2)];
    assert_eq!(tiles.len(), cells.len());
    for (tile, (x, y)) in tiles.iter().zip(cells) {
        assert_eq!(tile.transform, Transform::from_tile(x, y, 0, &map_descriptor));
    }
}

#[test]
fn map_rows_need_not_match_the_header() {
    let map_file = lines(&["1,1,1", "─────", "", "▲", "  "]);
    let mut tiles = Vec::new();
    let mut map_descriptor = blank();
    assert_eq!(parse_map_descriptor(&map_file, &mut tiles, &mut map_descriptor), Ok(()));
    assert_eq!(map_descriptor, MapDescriptor { width: 1, height: 1, tile_scale: 1 });
    assert_eq!(tiles.len(), 8);
    assert_eq!(tiles[4].transform, Transform::from_tile(4, 0, 0, &map_descriptor));
    assert_eq!(tiles[5].sprite, SpriteIndex::WallTop);
    assert_eq!(tiles[5].transform, Transform::from_tile(0, 2, 0, &map_descriptor));
    assert_eq!(tiles[7].transform, Transform::from_tile(1, 3, 0, &map_descriptor));
}

#[test]
fn map_with_a_header_only_has_no_tiles() {
    let map_file = lines(&["5,5,1"]);
    let mut tiles = Vec::new();
    let mut map_descriptor = blank();
    assert_eq!(parse_map_descriptor(&map_file, &mut tiles, &mut map_descriptor), Ok(()));
    assert_eq!(map_descriptor, MapDescriptor { width: 5, height: 5, tile_scale: 1 });
    assert!(tiles.is_empty());
}

#[test]
fn unknown_glyph_becomes_ground_and_the_load_goes_on() {
    let map_file = lines(&["3,1,1", "─?─"]);
    let mut tiles = Vec::new();
    let mut map_descriptor = blank();
    assert_eq!(parse_map_descriptor(&map_file, &mut tiles, &mut map_descriptor), Ok(()));
    assert_eq!(tiles.len(), 3);
    assert_eq!(tiles[1].sprite, SpriteIndex::Ground);
    assert!(!tiles[1].collider);
    assert_eq!(tiles[1].unrecognized, Some('?'));
    assert_eq!(tiles[0].unrecognized, None);
    assert_eq!(tiles[2].unrecognized, None);
    assert_eq!(tiles[1].transform, Transform::from_tile(1, 0, 0, &map_descriptor));
    assert_eq!(tiles[2].sprite, SpriteIndex::Wall);
    assert!(tiles[2].collider);
}

#[test]
fn tiles_are_appended_to_those_already_there() {
    let first = Tile {
        sprite: SpriteIndex::Roof,
        transform: Transform { translation: Vec2 { x: 1, y: 2 }, depth: 3, scale: 4 },
        collider: false,
        unrecognized: None,
    };
    let mut tiles = vec![first];
    let mut map_descriptor = blank();
    let map_file = lines(&["2,1,1", "▼▼"]);
    assert_eq!(parse_map_descriptor(&map_file, &mut tiles, &mut map_descriptor), Ok(()));
    assert_eq!(tiles.len(), 3);
    assert_eq!(tiles[0], first);
    assert_eq!(tiles[1].sprite, SpriteIndex::WallBottom);
}

#[test]
fn faulty_header_leaves_no_tile_and_no_descriptor() {
    let cases = [
        (vec!["3,2", "─ ─", " ▲ "], BadMapDescriptor::MissingHeaderField),
        (vec!["3", "─ ─"], BadMapDescriptor::MissingHeaderField),
        (vec!["3,two,1", "─ ─", " ▲ "], BadMapDescriptor::InvalidHeaderValue),
        (vec!["", "─ ─"], BadMapDescriptor::InvalidHeaderValue),
        (vec!["─ ─", "3,2,1"], BadMapDescriptor::InvalidHeaderValue),
        (vec!["3,-2,1", "─ ─"], BadMapDescriptor::InvalidHeaderValue),
    ];
    for (text, error) in cases {
        let map_file = lines(&text);
        let mut tiles = Vec::new();
        let mut map_descriptor = MapDescriptor { width: 9, height: 8, tile_scale: 7 };
        assert_eq!(
            parse_map_descriptor(&map_file, &mut tiles, &mut map_descriptor),
            Err(error),
            "text {text:?}"
        );
        assert!(tiles.is_empty());
        assert_eq!(map_descriptor, MapDescriptor { width: 9, height: 8, tile_scale: 7 });
    }
}

#[test]
fn text_without_a_line_lacks_its_header() {
    let map_file: Vec<String> = Vec::new();
    let mut tiles = Vec::new();
    let mut map_descriptor = blank();
    assert_eq!(
        parse_map_descriptor(&map_file, &mut tiles, &mut map_descriptor),
        Err(BadMapDescriptor::MissingHeaderField)
    );
    assert!(tiles.is_empty());
    assert_eq!(map_descriptor, blank());
}

#[test]
fn setup_map_without_a_file_is_unavailable() {
    let mut tiles = Vec::new();
    let mut map_descriptor = MapDescriptor { width: 9, height: 8, tile_scale: 7 };
    assert_eq!(
        setup_map(None, &mut tiles, &mut map_descriptor),
        Err(BadMapDescriptor::MapFileUnavailable)
    );
    assert!(tiles.is_empty());
    assert_eq!(map_descriptor, MapDescriptor { width: 9, height: 8, tile_scale: 7 });
}

#[test]
fn setup_map_loads_what_the_text_holds() {
    let map_file = lines(&["3,2,1", "─ ─", " ▲ "]);
    let mut tiles = Vec::new();
    let mut map_descriptor = blank();
    assert_eq!(setup_map(Some(&map_file), &mut tiles, &mut map_descriptor), Ok(()));
    let mut expected = Vec::new();
    let mut expected_descriptor = blank();
    assert_eq!(parse_map_descriptor(&map_file, &mut expected, &mut expected_descriptor), Ok(()));
    assert_eq!(tiles, expected);
    assert_eq!(map_descriptor, expected_descriptor);
    assert_eq!(tiles.len(), 6);
}

#[test]
fn setup_map_passes_the_fault_of_the_header_on() {
    let map_file = lines(&["3,2", "─ ─"]);
    let mut tiles = Vec::new();
    let mut map_descriptor = blank();
    assert_eq!(
        setup_map(Some(&map_file), &mut tiles, &mut map_descriptor),
        Err(BadMapDescriptor::MissingHeaderField)
    );
    assert!(tiles.is_empty());
}

#[test]
fn every_character_that_is_no_glyph_is_remembered() {
    let map_file = lines(&["2,2,1", "a─b", "", " ░x"]);
    let mut tiles = Vec::new();
    let mut map_descriptor = blank();
    assert_eq!(parse_map_descriptor(&map_file, &mut tiles, &mut map_descriptor), Ok(()));
    let unrecognized: Vec<Option<char>> = tiles.iter().map(|tile| tile.unrecognized).collect();
    assert_eq!(unrecognized, vec![Some('a'), None, Some('b'), None, None, Some('x')]);
    for tile in &tiles {
        if tile.unrecognized.is_some() {
            assert_eq!(tile.sprite, SpriteIndex::Ground);
            assert!(!tile.collider);
        }
    }
}

#[test]
fn from_tile_takes_a_scale_beyond_32_bits() {
    let tile_scale = usize::MAX;
    let map_descriptor = MapDescriptor { width: 3, height: 2, tile_scale };
    assert!(tile_fits(2, 1, &map_descriptor));
    let transform = Transform::from_tile(2, 1, 0, &map_descriptor);
    assert_eq!(transform.translation.x, 16 * PIXEL * tile_scale as i128);
    assert_eq!(transform.translation.y, -8 * PIXEL * tile_scale as i128);
    assert_eq!(transform.scale, tile_scale);
}

#[test]
fn tile_fits_tells_the_reach_of_the_coordinates() {
    let small = MapDescriptor { width: 10, height: 10, tile_scale: 2 };
    assert!(tile_fits(0, 0, &small));
    assert!(tile_fits(usize::MAX, usize::MAX, &small));
    let large = MapDescriptor { width: usize::MAX, height: 1, tile_scale: usize::MAX };
    // half a tile is 8_000_000 * scale units, and column 0 stands width - 1 halves to the left
    let half = 8 * PIXEL * usize::MAX as i128;
    assert_eq!(half.checked_mul(usize::MAX as i128 - 1), None);
    assert!(!tile_fits(0, 0, &large));
    assert!(tile_fits(usize::MAX / 2, 0, &large));
    let tall = MapDescriptor { width: 1, height: usize::MAX, tile_scale: usize::MAX };
    assert!(!tile_fits(0, 0, &tall));
    assert!(tile_fits(0, usize::MAX / 2, &tall));
    // the last scale at which column 0 of a map so wide is within reach
    let width: usize = usize::MAX / 2;
    let columns = width as i128 - 1;
    let reach = usize::try_from(i128::MAX / (8 * PIXEL * columns)).unwrap();
    assert!(tile_fits(0, 0, &MapDescriptor { width, height: 1, tile_scale: reach }));
    assert!(!tile_fits(0, 0, &MapDescriptor { width, height: 1, tile_scale: reach + 1 }));
    let placed = Transform::from_tile(0, 0, 0, &MapDescriptor { width, height: 1, tile_scale: reach });
    assert_eq!(placed.translation.x, -(8 * PIXEL * reach as i128 * columns));
}

#[test]
fn map_fits_tells_whether_every_cell_is_within_reach() {
    assert!(map_fits(&lines(&["3,2,1", "─ ─", " ▲ "])));
    assert!(map_fits(&lines(&[])));
    assert!(map_fits(&lines(&["3,2", "─ ─"])));
    assert!(map_fits(&lines(&["x", "─ ─"])));
    let largest = format!("{0},{0},{0}", usize::MAX);
    assert!(map_fits(&lines(&[largest.as_str()])));
    assert!(map_fits(&lines(&[largest.as_str(), "", ""])));
    assert!(!map_fits(&lines(&[largest.as_str(), "─"])));
    assert!(!map_fits(&lines(&[largest.as_str(), "", "", " "])));
    assert!(!map_fits(&lines(&[largest.as_str(), "", "  ─", " "])));
    let scaled = format!("1,1,{}", usize::MAX);
    assert!(map_fits(&lines(&[scaled.as_str(), "─ ─", " ▲ "])));
}

#[test]
fn map_with_the_largest_scale_is_loaded() {
    let header = format!("3,2,{}", usize::MAX);
    let map_file = lines(&[header.as_str(), "─ ─", " ▲ "]);
    assert!(map_fits(&map_file));
    let mut tiles = Vec::new();
    let mut map_descriptor = blank();
    assert_eq!(parse_map_descriptor(&map_file, &mut tiles, &mut map_descriptor), Ok(()));
    assert_eq!(map_descriptor, MapDescriptor { width: 3, height: 2, tile_scale: usize::MAX });
    assert_eq!(tiles.len(), 6);
    let tile = 16 * PIXEL * usize::MAX as i128;
    assert_eq!(tiles[0].transform.translation, Vec2 { x: -tile, y: tile / 2 });
    assert_eq!(tiles[5].transform.translation, Vec2 { x: tile, y: -tile / 2 });
    assert_eq!(tiles[5].transform.scale, usize::MAX);
}

#[test]
fn map_with_a_zero_in_its_header_is_loaded() {
    let map_file = lines(&["0,0,1", "─ ─", " ▲ "]);
    assert!(map_fits(&map_file));
    let mut tiles = Vec::new();
    let mut map_descriptor = MapDescriptor { width: 9, height: 8, tile_scale: 7 };
    assert_eq!(parse_map_descriptor(&map_file, &mut tiles, &mut map_descriptor), Ok(()));
    assert_eq!(map_descriptor, MapDescriptor { width: 0, height: 0, tile_scale: 1 });
    assert_eq!(tiles.len(), 6);
    assert_eq!(tiles[0].transform.translation, Vec2 { x: 8 * PIXEL, y: -8 * PIXEL });
    assert_eq!(tiles[5].transform.translation, Vec2 { x: 40 * PIXEL, y: -24 * PIXEL });
}

#[test]
fn map_at_scale_zero_lies_on_the_origin() {
    let map_file = lines(&["3,2,0", "─ ─", " ▲ "]);
    assert!(map_fits(&map_file));
    let mut tiles = Vec::new();
    let mut map_descriptor = blank();
    assert_eq!(parse_map_descriptor(&map_file, &mut tiles, &mut map_descriptor), Ok(()));
    assert_eq!(map_descriptor, MapDescriptor { width: 3, height: 2, tile_scale: 0 });
    assert_eq!(tiles.len(), 6);
    for tile in &tiles {
        assert_eq!(tile.transform.translation, Vec2 { x: 0, y: 0 });
        assert_eq!(tile.transform.scale, 0);
    }
    assert!(tiles[0].collider);
}

#[test]
fn try_from_tile_places_what_is_within_reach() {
    let map_descriptor = MapDescriptor { width: 3, height: 2, tile_scale: 1 };
    assert_eq!(
        Transform::try_from_tile(2, 1, 4, &map_descriptor),
        Some(Transform { translation: Vec2 { x: 16 * PIXEL, y: -8 * PIXEL }, depth: 4, scale: 1 })
    );
    assert_eq!(
        Transform::try_from_tile(2, 1, 4, &map_descriptor),
        Some(Transform::from_tile(2, 1, 4, &map_descriptor))
    );
    assert_eq!(
        Transform::try_from_tile(2, 1, 4, &map_descriptor),
        Transform::try_from_tile(2, 1, 4, &map_descriptor)
    );
    assert_eq!(map_descriptor, MapDescriptor { width: 3, height: 2, tile_scale: 1 });
    let large = MapDescriptor { width: usize::MAX, height: 1, tile_scale: usize::MAX };
    assert_eq!(Transform::try_from_tile(0, 0, 0, &large), None);
    assert_eq!(
        Transform::try_from_tile(usize::MAX / 2, 0, 0, &large),
        Some(Transform { translation: Vec2 { x: 0, y: 0 }, depth: 0, scale: usize::MAX })
    );
}
