use overworld_core::geometry::Position;
use overworld_core::tilemap::create_simple_map;
use overworld_core::tilemap::map_fits;
use overworld_core::tilemap::tile_kind;
use overworld_core::tilemap::EncounterSpawner;
use overworld_core::tilemap::Tile;
use overworld_core::tilemap::TileCollider;
use overworld_core::tilemap::TileKind;
use overworld_core::TILESIZE;

fn source(rows: &[&str]) -> Vec<String> {
    rows.iter().map(|row| row.to_string()).collect()
}

#[test]
fn hash_is_a_wall() {
    assert_eq!(tile_kind('#'), TileKind::Wall);
}

#[test]
fn tilde_is_an_encounter_zone() {
    assert_eq!(tile_kind('~'), TileKind::EncounterZone);
}

#[test]
fn anything_else_is_floor() {
    for glyph in ['.', ' ', 'a', '0', '\t', 'ß', '壁'] {
        assert_eq!(tile_kind(glyph), TileKind::Floor);
    }
}

#[test]
fn tiles_lie_on_the_grid_with_rows_running_down() {
    let map = create_simple_map(&source(&["#.", "~x"]));
    assert_eq!(map.rows.len(), 2);
    assert_eq!(
        map.rows[0],
        vec![
            Tile { glyph: '#', kind: TileKind::Wall, position: Position { x: 0, y: 0 } },
            Tile { glyph: '.', kind: TileKind::Floor, position: Position { x: TILESIZE, y: 0 } },
        ]
    );
    assert_eq!(
        map.rows[1],
        vec![
            Tile {
                glyph: '~',
                kind: TileKind::EncounterZone,
                position: Position { x: 0, y: -TILESIZE },
            },
            Tile {
                glyph: 'x',
                kind: TileKind::Floor,
                position: Position { x: TILESIZE, y: -TILESIZE },
            },
        ]
    );
}

#[test]
fn tile_positions_are_exact() {
    let map = create_simple_map(&source(&["", "", "", "....#"]));
    assert_eq!(map.rows[3][4].position, Position { x: 4_000_000, y: -3_000_000 });
}

#[test]
fn rows_may_differ_in_length() {
    let map = create_simple_map(&source(&["#", "", "#~#"]));
    assert_eq!(map.rows[0].len(), 1);
    assert_eq!(map.rows[1].len(), 0);
    assert_eq!(map.rows[2].len(), 3);
    assert_eq!(map.tiles().len(), 4);
}

#[test]
fn empty_source_gives_an_empty_map() {
    let map = create_simple_map(&Vec::new());
    assert!(map.rows.is_empty());
    assert!(map.tiles().is_empty());
    assert!(map.colliders().is_empty());
    assert!(map.encounters().is_empty());
    assert_eq!(map.kind_at(0, 0), None);
}

#[test]
fn columns_count_characters_not_bytes() {
    let map = create_simple_map(&source(&["ß壁#"]));
    assert_eq!(map.rows[0].len(), 3);
    assert_eq!(map.rows[0][2].kind, TileKind::Wall);
    assert_eq!(map.rows[0][2].position, Position { x: 2 * TILESIZE, y: 0 });
}

#[test]
fn lookup_takes_the_column_as_x_and_the_negated_row_as_y() {
    let map = create_simple_map(&source(&["#.~", ".#"]));
    assert_eq!(map.kind_at(0, 0), Some(TileKind::Wall));
    assert_eq!(map.kind_at(1, 0), Some(TileKind::Floor));
    assert_eq!(map.kind_at(2, 0), Some(TileKind::EncounterZone));
    assert_eq!(map.kind_at(0, -1), Some(TileKind::Floor));
    assert_eq!(map.kind_at(1, -1), Some(TileKind::Wall));
}

#[test]
fn lookup_outside_the_map_finds_nothing() {
    let map = create_simple_map(&source(&["#.~", ".#"]));
    assert_eq!(map.kind_at(3, 0), None);
    assert_eq!(map.kind_at(2, -1), None);
    assert_eq!(map.kind_at(0, -2), None);
    assert_eq!(map.kind_at(0, 1), None);
    assert_eq!(map.kind_at(-1, 0), None);
    assert_eq!(map.kind_at(i64::MAX, i64::MIN), None);
    assert_eq!(map.kind_at(i64::MIN, i64::MAX), None);
}

#[test]
fn tiles_come_row_after_row() {
    let map = create_simple_map(&source(&["ab", "c"]));
    let glyphs: Vec<char> = map.tiles().iter().map(|tile| tile.glyph).collect();
    assert_eq!(glyphs, vec!['a', 'b', 'c']);
}

#[test]
fn colliders_are_the_walls_in_order() {
    let map = create_simple_map(&source(&["#.#", "~#."]));
    assert_eq!(
        map.colliders(),
        vec![
            TileCollider { position: Position { x: 0, y: 0 } },
            TileCollider { position: Position { x: 2 * TILESIZE, y: 0 } },
            TileCollider { position: Position { x: TILESIZE, y: -TILESIZE } },
        ]
    );
}

#[test]
fn encounters_are_the_zones_in_order() {
    let map = create_simple_map(&source(&["~.#", "#~~"]));
    assert_eq!(
        map.encounters(),
        vec![
            EncounterSpawner { position: Position { x: 0, y: 0 } },
            EncounterSpawner { position: Position { x: TILESIZE, y: -TILESIZE } },
            EncounterSpawner { position: Position { x: 2 * TILESIZE, y: -TILESIZE } },
        ]
    );
}

#[test]
fn small_sources_fit() {
    assert!(map_fits(&Vec::new()));
    assert!(map_fits(&source(&["#.~", ""])));
}

#[test]
fn a_row_that_is_too_long_does_not_fit() {
    let row: String = std::iter::repeat('.').take(1_000_001).collect();
    assert!(!map_fits(&vec![row]));
    let row: String = std::iter::repeat('.').take(1_000_000).collect();
    assert!(map_fits(&vec![row]));
}

#[test]
fn too_many_rows_do_not_fit() {
    let rows: Vec<String> = vec![String::new(); 1_000_001];
    assert!(!map_fits(&rows));
}
