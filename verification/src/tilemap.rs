//! The tile grid: what each cell of the map is, and where it lies.
use crate::geometry::Position;
use vstd::prelude::*;

verus! {

/// Most rows that a map source may have, and most characters in a row.
pub const MAPLIMIT: usize = 1_000_000;

/// What a cell of the map is.
#[derive(Clone, Copy, Debug, PartialEq, Eq, Structural)]
pub enum TileKind {
    Floor,
    Wall,
    EncounterZone,
}

/// One cell of the map: the character it was read from, its kind, and the
/// centre of its box.
#[derive(Clone, Copy, Debug, PartialEq, Eq, Structural)]
pub struct Tile {
    pub glyph: char,
    pub kind: TileKind,
    pub position: Position,
}

/// A tile that blocks the player.
#[derive(Clone, Copy, Debug, PartialEq, Eq, Structural)]
pub struct TileCollider {
    pub position: Position,
}

/// A tile on which an encounter can start.
#[derive(Clone, Copy, Debug, PartialEq, Eq, Structural)]
pub struct EncounterSpawner {
    pub position: Position,
}

/// The map: its tiles row by row, from the top row down.
#[derive(Clone, Debug)]
pub struct TileMap {
    pub rows: Vec<Vec<Tile>>,
}

/// The kind that a character of the map source stands for.
pub open spec fn kind_of(glyph: char) -> TileKind {
    if glyph == '#' {
        TileKind::Wall
    } else if glyph == '~' {
        TileKind::EncounterZone
    } else {
        TileKind::Floor
    }
}

/// The tile read from `glyph` in column `column` of row `row`. Columns run
/// along x; rows run down, against y.
pub open spec fn tile_at(glyph: char, column: int, row: int) -> Tile {
    Tile {
        glyph,
        kind: kind_of(glyph),
        position: Position {
            x: (column * crate::TILESIZE) as i64,
            y: (-(row * crate::TILESIZE)) as i64,
        },
    }
}

/// The tiles of one row of the source.
pub open spec fn row_tiles(glyphs: Seq<char>, row: int) -> Seq<Tile> {
    Seq::new(glyphs.len(), |column: int| tile_at(glyphs[column], column, row))
}

/// The tiles of a whole source, row by row.
pub open spec fn map_tiles(source: Seq<Seq<char>>) -> Seq<Seq<Tile>> {
    Seq::new(source.len(), |row: int| row_tiles(source[row], row))
}

/// The characters of a source held in strings, one string per row.
pub open spec fn source_of(rows: Seq<String>) -> Seq<Seq<char>> {
    rows.map_values(|row: String| row@)
}

/// Whether a source is small enough for every tile to have a position.
pub open spec fn fits(source: Seq<Seq<char>>) -> bool {
    &&& source.len() <= MAPLIMIT
    &&& forall|row: int| 0 <= row < source.len() ==> (#[trigger] source[row]).len() <= MAPLIMIT
}

/// The kind of the tile at grid coordinate (`x`, `y`), where `x` is the
/// column and `y` the negated row, if the grid has a tile there.
pub open spec fn kind_in_grid(grid: Seq<Seq<Tile>>, x: int, y: int) -> Option<TileKind> {
    if 0 <= -y < grid.len() && 0 <= x < grid[-y].len() {
        Some(grid[-y][x].kind)
    } else {
        None
    }
}

pub open spec fn is_wall(tile: Tile) -> bool {
    tile.kind == TileKind::Wall
}

pub open spec fn is_encounter_zone(tile: Tile) -> bool {
    tile.kind == TileKind::EncounterZone
}

/// The colliders of the walls among `tiles`, in the order of the tiles.
pub open spec fn colliders_of(tiles: Seq<Tile>) -> Seq<TileCollider> {
    tiles.filter(|tile: Tile| is_wall(tile)).map_values(
        |tile: Tile| TileCollider { position: tile.position },
    )
}

/// The spawners of the encounter zones among `tiles`, in the order of the
/// tiles.
pub open spec fn spawners_of(tiles: Seq<Tile>) -> Seq<EncounterSpawner> {
    tiles.filter(|tile: Tile| is_encounter_zone(tile)).map_values(
        |tile: Tile| EncounterSpawner { position: tile.position },
    )
}

/// Classifies a character of the map source: `#` is a wall, `~` an encounter
/// zone, anything else floor.
pub fn tile_kind(glyph: char) -> (kind: TileKind)
    ensures
        kind == kind_of(glyph),
{
    if glyph == '#' {
        TileKind::Wall
    } else if glyph == '~' {
        TileKind::EncounterZone
    } else {
        TileKind::Floor
    }
}

impl View for TileMap {
    type V = Seq<Seq<Tile>>;

    open spec fn view(&self) -> Seq<Seq<Tile>> {
        self.rows@.map_values(|row: Vec<Tile>| row@)
    }
}

/// Whether a source is small enough for [`create_simple_map`].
pub fn map_fits(rows: &Vec<String>) -> (ok: bool)
    ensures
        ok == fits(source_of(rows@)),
{
    if rows.len() > MAPLIMIT {
        return false;
    }
    let mut y: usize = 0;
    while y < rows.len()
        invariant
            y <= rows.len(),
            rows.len() <= MAPLIMIT,
            forall|j: int| 0 <= j < y ==> (#[trigger] source_of(rows@)[j]).len() <= MAPLIMIT,
        decreases rows.len() - y,
    {
        assert(source_of(rows@)[y as int] == rows@[y as int]@);
        if rows[y].as_str().unicode_len() > MAPLIMIT {
            return false;
        }
        y += 1;
    }
    true
}

/// The tile for `glyph` in column `column` of row `row`.
fn make_tile(glyph: char, column: usize, row: usize) -> (tile: Tile)
    requires
        column <= MAPLIMIT,
        row <= MAPLIMIT,
    ensures
        tile == tile_at(glyph, column as int, row as int),
{
    Tile {
        glyph,
        kind: tile_kind(glyph),
        position: Position {
            x: column as i64 * crate::TILESIZE,
            y: -(row as i64 * crate::TILESIZE),
        },
    }
}

/// The tiles of row `row`, read from `glyphs`.
fn make_row(glyphs: &String, row: usize) -> (line: Vec<Tile>)
    requires
        glyphs@.len() <= MAPLIMIT,
        row < MAPLIMIT,
    ensures
        line@ == row_tiles(glyphs@, row as int),
{
    let mut line: Vec<Tile> = Vec::new();
    let mut column: usize = 0;
    for glyph in it: glyphs.as_str().chars()
        invariant
            glyphs@.len() <= MAPLIMIT,
            row < MAPLIMIT,
            it.seq() == glyphs@,
            column == it.index(),
            line@.len() == column,
            forall|i: int|
                0 <= i < column ==> #[trigger] line@[i] == tile_at(glyphs@[i], i, row as int),
    {
        let tile = make_tile(glyph, column, row);
        line.push(tile);
        column += 1;
    }
    line
}

/// Builds the map from its source, one string per row, the top row first.
pub fn create_simple_map(rows: &Vec<String>) -> (map: TileMap)
    requires
        fits(source_of(rows@)),
    ensures
        map@ == map_tiles(source_of(rows@)),
{
    let mut out: Vec<Vec<Tile>> = Vec::new();
    let mut y: usize = 0;
    while y < rows.len()
        invariant
            y <= rows.len(),
            fits(source_of(rows@)),
            out.len() == y,
            forall|j: int| 0 <= j < y ==> (#[trigger] out@[j])@ == row_tiles(rows@[j]@, j),
        decreases rows.len() - y,
    {
        assert(source_of(rows@)[y as int] == rows@[y as int]@);
        let line: Vec<Tile> = make_row(&rows[y], y);
        out.push(line);
        y += 1;
    }
    TileMap { rows: out }
}

impl TileMap {
    /// Looks up the kind of the tile at a grid coordinate: `x` is the column,
    /// `y` the negated row.
    pub fn kind_at(&self, x: i64, y: i64) -> (kind: Option<TileKind>)
        ensures
            kind == kind_in_grid(self@, x as int, y as int),
    {
        let row: i128 = -(y as i128);
        if row < 0 || row >= self.rows.len() as i128 {
            return None;
        }
        let line: &Vec<Tile> = &self.rows[row as usize];
        if x < 0 || x as i128 >= line.len() as i128 {
            return None;
        }
        Some(line[x as usize].kind)
    }

    /// All tiles in one sequence, row after row.
    pub fn tiles(&self) -> (all: Vec<Tile>)
        ensures
            all@ == self@.flatten(),
    {
        let mut all: Vec<Tile> = Vec::new();
        let mut y: usize = 0;
        while y < self.rows.len()
            invariant
                y <= self.rows.len(),
                all@ == self@.take(y as int).flatten(),
            decreases self.rows.len() - y,
        {
            let line: &Vec<Tile> = &self.rows[y];
            let ghost before: Seq<Tile> = all@;
            let mut x: usize = 0;
            while x < line.len()
                invariant
                    x <= line.len(),
                    all@ == before + line@.take(x as int),
                decreases line.len() - x,
            {
                all.push(line[x]);
                x += 1;
            }
            proof {
                assert(self@.take(y + 1) == self@.take(y as int).push(line@));
                self@.take(y as int).lemma_flatten_push(line@);
            }
            y += 1;
        }
        assert(self@.take(self.rows.len() as int) == self@);
        all
    }

    /// The colliders of all wall tiles, row after row.
    pub fn colliders(&self) -> (walls: Vec<TileCollider>)
        ensures
            walls@ == colliders_of(self@.flatten()),
    {
        let all: Vec<Tile> = self.tiles();
        let mut walls: Vec<TileCollider> = Vec::new();
        let mut i: usize = 0;
        while i < all.len()
            invariant
                i <= all.len(),
                walls@ == colliders_of(all@.take(i as int)),
            decreases all.len() - i,
        {
            proof {
                reveal(Seq::filter);
                assert(all@.take(i + 1).drop_last() == all@.take(i as int));
            }
            if all[i].kind == TileKind::Wall {
                walls.push(TileCollider { position: all[i].position });
            }
            i += 1;
        }
        assert(all@.take(all.len() as int) == all@);
        walls
    }

    /// The spawners of all encounter zones, row after row.
    pub fn encounters(&self) -> (zones: Vec<EncounterSpawner>)
        ensures
            zones@ == spawners_of(self@.flatten()),
    {
        let all: Vec<Tile> = self.tiles();
        let mut zones: Vec<EncounterSpawner> = Vec::new();
        let mut i: usize = 0;
        while i < all.len()
            invariant
                i <= all.len(),
                zones@ == spawners_of(all@.take(i as int)),
            decreases all.len() - i,
        {
            proof {
                reveal(Seq::filter);
                assert(all@.take(i + 1).drop_last() == all@.take(i as int));
            }
            if all[i].kind == TileKind::EncounterZone {
                zones.push(EncounterSpawner { position: all[i].position });
            }
            i += 1;
        }
        assert(all@.take(all.len() as int) == all@);
        zones
    }
}

} // verus!
