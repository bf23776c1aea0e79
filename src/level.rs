//! Levels: brick grids read from text, drawn and checked for completion.

use vstd::prelude::*;
use vstd::std_specs::iter::IteratorSpec;

use crate::command::RenderCommand;
use crate::entity::{Entity, EntityView};
use crate::geometry::{Extent, Tint, Vector2};
use crate::loader::Loader;
use crate::sprite_renderer::SpriteRenderer;
use crate::texture2d::Texture2D;

verus! {

broadcast use vstd::string::group_string_axioms;

/// Texture of every brick but the solid one.
pub const BLOCK_TEXTURE: &'static str = "block";

/// Texture of the solid brick.
pub const SOLID_BLOCK_TEXTURE: &'static str = "block_solid";

/// Why a level could not be loaded.
#[derive(Debug, Clone, Copy, PartialEq, Eq)]
pub enum LevelError {
    /// The text holds this character, which is neither a digit nor white space.
    InvalidTileData(char),
    /// The text holds no tile at all.
    EmptyLevel,
    /// Some row has another number of tiles than the first.
    RaggedRows,
    /// A brick's texture is not in the cache.
    MissingTexture,
}

/// What one character of a level text is.
#[derive(Debug, Clone, Copy, PartialEq, Eq, Structural)]
pub enum TileChar {
    /// `'\n'`: the end of a line.
    LineBreak,
    /// A decimal digit, with its value: one tile.
    Digit(u32),
    /// White space other than a line break: ignored.
    Blank,
    /// Any other character, which is not allowed.
    Invalid(char),
}

/// Whether `c` has the Unicode `White_Space` property.
pub uninterp spec fn white_space(c: char) -> bool;

/// Relies on `char::is_whitespace`, which tells whether `c` has the Unicode
/// `White_Space` property.
#[verifier::external_body]
fn is_whitespace(c: char) -> (r: bool)
    ensures
        r == white_space(c),
{
    c.is_whitespace()
}

/// The class of `c`, where `blank` tells whether it is white space.
pub open spec fn tile_char(c: char, blank: bool) -> TileChar {
    if c == '\n' {
        TileChar::LineBreak
    } else if '0' <= c && c <= '9' {
        TileChar::Digit((c as u32 - '0' as u32) as u32)
    } else if blank {
        TileChar::Blank
    } else {
        TileChar::Invalid(c)
    }
}

/// Classifies `c` for the level reader; `blank` tells whether it is white space.
pub fn classify_tile_char(c: char, blank: bool) -> (r: TileChar)
    ensures
        r == tile_char(c, blank),
{
    if c == '\n' {
        TileChar::LineBreak
    } else if '0' <= c && c <= '9' {
        TileChar::Digit(c as u32 - '0' as u32)
    } else if blank {
        TileChar::Blank
    } else {
        TileChar::Invalid(c)
    }
}

/// Adds a finished line to the rows when it holds a tile: blank lines are no rows.
pub open spec fn close_line(rows: Seq<Seq<u32>>, line: Seq<u32>) -> Seq<Seq<u32>> {
    if line.len() == 0 {
        rows
    } else {
        rows.push(line)
    }
}

/// The classes of the characters of `text`, each classified with its own
/// white-space property.
pub open spec fn classes_of(text: Seq<char>) -> Seq<TileChar> {
    text.map_values(|c: char| tile_char(c, white_space(c)))
}

/// Reads classified characters left to right: the rows finished so far and
/// the tiles of the line still open, or the first character that is neither a
/// digit nor white space.
pub open spec fn scan_classes(classes: Seq<TileChar>) -> Result<(Seq<Seq<u32>>, Seq<u32>), char>
    decreases classes.len(),
{
    if classes.len() == 0 {
        Ok((Seq::empty(), Seq::empty()))
    } else {
        match scan_classes(classes.drop_last()) {
            Err(c) => Err(c),
            Ok((rows, line)) => match classes.last() {
                TileChar::LineBreak => Ok((close_line(rows, line), Seq::empty())),
                TileChar::Digit(d) => Ok((rows, line.push(d))),
                TileChar::Blank => Ok((rows, line)),
                TileChar::Invalid(c) => Err(c),
            },
        }
    }
}

/// A grid with at least one row, all rows as long as the first, which is not empty.
pub open spec fn valid_grid(rows: Seq<Seq<u32>>) -> bool {
    &&& rows.len() > 0
    &&& rows[0].len() > 0
    &&& forall|y: int| 0 <= y < rows.len() ==> (#[trigger] rows[y]).len() == rows[0].len()
}

/// The tile grid of a level text: one row per line that holds a tile, one tile
/// code per digit, white space ignored.
pub open spec fn parse_tiles(text: Seq<char>) -> Result<Seq<Seq<u32>>, LevelError> {
    parse_classes(classes_of(text))
}

/// The tile grid of a classified level text; see [`parse_tiles`].
pub open spec fn parse_classes(classes: Seq<TileChar>) -> Result<Seq<Seq<u32>>, LevelError> {
    match scan_classes(classes) {
        Err(c) => Err(LevelError::InvalidTileData(c)),
        Ok((rows, line)) => {
            let rows = close_line(rows, line);
            if rows.len() == 0 {
                Err(LevelError::EmptyLevel)
            } else if exists|y: int| 0 <= y < rows.len() && (#[trigger] rows[y]).len() != rows[0].len() {
                Err(LevelError::RaggedRows)
            } else {
                Ok(rows)
            }
        },
    }
}

/// The tint of a brick with tile code `code`.
pub open spec fn tile_color(code: u32) -> Tint {
    if code == 1 {
        Tint { red: 80, green: 80, blue: 80 }
    } else if code == 2 {
        Tint { red: 20, green: 60, blue: 100 }
    } else if code == 3 {
        Tint { red: 0, green: 70, blue: 0 }
    } else if code == 4 {
        Tint { red: 80, green: 80, blue: 40 }
    } else if code == 5 {
        Tint { red: 100, green: 50, blue: 0 }
    } else {
        Tint { red: 100, green: 100, blue: 100 }
    }
}

/// The name of the texture of a brick with tile code `code`.
pub open spec fn tile_texture(code: u32) -> &'static str {
    if code == 1 {
        SOLID_BLOCK_TEXTURE
    } else {
        BLOCK_TEXTURE
    }
}

/// The tint of a brick with tile code `tile_no`.
pub fn get_color_from_tile_no(tile_no: u32) -> (r: Tint)
    ensures
        r == tile_color(tile_no),
{
    if tile_no == 1 {
        Tint { red: 80, green: 80, blue: 80 }
    } else if tile_no == 2 {
        Tint { red: 20, green: 60, blue: 100 }
    } else if tile_no == 3 {
        Tint { red: 0, green: 70, blue: 0 }
    } else if tile_no == 4 {
        Tint { red: 80, green: 80, blue: 40 }
    } else if tile_no == 5 {
        Tint { red: 100, green: 50, blue: 0 }
    } else {
        Tint { red: 100, green: 100, blue: 100 }
    }
}

/// The name of the texture of a brick with tile code `tile_no`.
pub fn get_texture_from_tile_no(tile_no: u32) -> (r: &'static str)
    ensures
        r == tile_texture(tile_no),
{
    if tile_no == 1 {
        SOLID_BLOCK_TEXTURE
    } else {
        BLOCK_TEXTURE
    }
}

/// The size of one grid cell when `rows` is stretched over `width` by `height` pixels.
pub open spec fn unit_size(rows: Seq<Seq<u32>>, width: u32, height: u32) -> Extent {
    Extent {
        width: (width as int / rows[0].len() as int) as u32,
        height: (height as int / rows.len() as int) as u32,
    }
}

/// The brick of the tile with code `code` in column `x` and row `y`.
pub open spec fn tile_brick(
    code: u32,
    x: int,
    y: int,
    unit: Extent,
    textures: Map<Seq<char>, Texture2D>,
) -> EntityView {
    EntityView {
        position: Vector2 { x: (x * unit.width) as i64, y: (y * unit.height) as i64 },
        size: unit,
        velocity: Vector2 { x: 0, y: 0 },
        color: tile_color(code),
        rotation: 0,
        sprite: textures[tile_texture(code)@],
        is_solid: code == 1,
        is_destroyed: false,
    }
}

/// The bricks of row `y`, left to right; tile code 0 gives none.
pub open spec fn row_bricks(
    row: Seq<u32>,
    y: int,
    unit: Extent,
    textures: Map<Seq<char>, Texture2D>,
) -> Seq<EntityView>
    decreases row.len(),
{
    if row.len() == 0 {
        Seq::empty()
    } else {
        let before = row_bricks(row.drop_last(), y, unit, textures);
        if row.last() == 0 {
            before
        } else {
            before.push(tile_brick(row.last(), row.len() - 1, y, unit, textures))
        }
    }
}

/// The bricks of a grid in row-major order.
pub open spec fn grid_bricks(
    rows: Seq<Seq<u32>>,
    unit: Extent,
    textures: Map<Seq<char>, Texture2D>,
) -> Seq<EntityView>
    decreases rows.len(),
{
    if rows.len() == 0 {
        Seq::empty()
    } else {
        grid_bricks(rows.drop_last(), unit, textures) + row_bricks(
            rows.last(),
            rows.len() - 1,
            unit,
            textures,
        )
    }
}

/// Some non-zero tile of the grid needs a texture that is not in `textures`.
pub open spec fn texture_missing(rows: Seq<Seq<u32>>, textures: Map<Seq<char>, Texture2D>) -> bool {
    exists|y: int, x: int|
        0 <= y < rows.len() && 0 <= x < rows[y].len() && rows[y][x] != 0
            && !textures.contains_key(#[trigger] tile_texture(rows[y][x])@)
}

/// The bricks of the level text `text` stretched over `width` by `height`
/// pixels, with textures from `textures`, or why there are none.
pub open spec fn level_bricks(
    text: Seq<char>,
    width: u32,
    height: u32,
    textures: Map<Seq<char>, Texture2D>,
) -> Result<Seq<EntityView>, LevelError> {
    match parse_tiles(text) {
        Err(e) => Err(e),
        Ok(rows) => if texture_missing(rows, textures) {
            Err(LevelError::MissingTexture)
        } else {
            Ok(grid_bricks(rows, unit_size(rows, width, height), textures))
        },
    }
}

/// A level is complete when every brick that is not solid is destroyed.
pub open spec fn completed(bricks: Seq<EntityView>) -> bool {
    forall|i: int| 0 <= i < bricks.len() ==> (#[trigger] bricks[i]).is_solid || bricks[i].is_destroyed
}

/// The commands that draw the bricks in order, leaving out destroyed ones.
pub open spec fn level_commands(renderer: SpriteRenderer, bricks: Seq<EntityView>) -> Seq<
    RenderCommand,
>
    decreases bricks.len(),
{
    if bricks.len() == 0 {
        Seq::empty()
    } else {
        let b = bricks.last();
        level_commands(renderer, bricks.drop_last()) + if b.is_destroyed {
            Seq::empty()
        } else {
            renderer.sprite_commands(b.sprite, b.position, b.size, b.rotation, b.color)
        }
    }
}

/// The tile codes of a grid held in vectors.
pub open spec fn grid_view(rows: Seq<Vec<u32>>) -> Seq<Seq<u32>> {
    rows.map_values(|r: Vec<u32>| r@)
}

/// Once the scan meets an invalid character, it fails on every longer text.
proof fn lemma_scan_error_persists(text: Seq<TileChar>, n: int, c: char)
    requires
        0 <= n <= text.len(),
        scan_classes(text.take(n)) == Err::<(Seq<Seq<u32>>, Seq<u32>), char>(c),
    ensures
        scan_classes(text) == Err::<(Seq<Seq<u32>>, Seq<u32>), char>(c),
    decreases text.len() - n,
{
    if n == text.len() {
        assert(text.take(n) =~= text);
    } else {
        assert(text.take(n + 1).drop_last() =~= text.take(n));
        lemma_scan_error_persists(text, n + 1, c);
    }
}

/// The scan only ever finishes rows that hold a tile.
proof fn lemma_scan_rows_nonempty(text: Seq<TileChar>)
    ensures
        scan_classes(text) matches Ok((rows, _)) ==> forall|y: int|
            0 <= y < rows.len() ==> (#[trigger] rows[y]).len() > 0,
    decreases text.len(),
{
    if text.len() > 0 {
        lemma_scan_rows_nonempty(text.drop_last());
    }
}

/// A level text that parses gives a valid grid.
pub proof fn lemma_parsed_grid_valid(text: Seq<char>)
    ensures
        parse_tiles(text) matches Ok(rows) ==> valid_grid(rows),
{
    lemma_scan_rows_nonempty(classes_of(text));
}

/// A cell offset `x * (total / count)` for `x < count` lies within `[0, total]`.
proof fn lemma_cell_offset(x: int, count: int, total: int)
    requires
        0 <= x < count,
        0 <= total,
    ensures
        0 <= total / count <= total,
        0 <= x * (total / count) <= total,
{
    let q = total / count;
    vstd::arithmetic::div_mod::lemma_div_pos_is_pos(total, count);
    vstd::arithmetic::div_mod::lemma_fundamental_div_mod(total, count);
    vstd::arithmetic::div_mod::lemma_mod_pos_bound(total, count);
    vstd::arithmetic::mul::lemma_mul_inequality(x, count, q);
    vstd::arithmetic::mul::lemma_mul_nonnegative(x, q);
    vstd::arithmetic::mul::lemma_mul_is_commutative(count, q);
    vstd::arithmetic::mul::lemma_mul_inequality(1, count, q);
}

/// A stage of a level: its bricks in the row-major order of the grid.
#[derive(Debug)]
pub struct Level {
    bricks: Vec<Entity>,
}

impl View for Level {
    type V = Seq<EntityView>;

    closed spec fn view(&self) -> Seq<EntityView> {
        self.bricks@.map_values(|e: Entity| e@)
    }
}

impl Level {
    /// A level with no bricks.
    pub fn new() -> (r: Level)
        ensures
            r@ == Seq::<EntityView>::empty(),
    {
        let r = Level { bricks: Vec::new() };
        assert(r@ =~= Seq::<EntityView>::empty());
        r
    }

    /// The tile grid of a level text; see [`parse_tiles`].
    pub fn parse_tiles(text: &str) -> (r: Result<Vec<Vec<u32>>, LevelError>)
        ensures
            r matches Ok(rows) ==> parse_tiles(text@) == Ok::<Seq<Seq<u32>>, LevelError>(
                grid_view(rows@),
            ),
            r matches Err(e) ==> parse_tiles(text@) == Err::<Seq<Seq<u32>>, LevelError>(e),
    {
        let mut classes: Vec<TileChar> = Vec::new();
        let ghost chars = text@;
        let mut it = text.chars();
        let ghost mut n: int = 0;
        proof {
            assert(classes_of(chars.take(0)) =~= Seq::<TileChar>::empty());
        }
        loop
            invariant
                chars == text@,
                0 <= n <= chars.len(),
                it.remaining() == chars.skip(n),
                it.obeys_prophetic_iter_laws(),
                classes@ == classes_of(chars.take(n)),
            ensures
                classes@ == classes_of(chars),
            decreases chars.len() - n,
        {
            match it.next() {
                None => {
                    assert(chars.skip(n).len() == 0);
                    assert(chars.take(n) =~= chars);
                    break;
                },
                Some(c) => {
                    proof {
                        assert(c == chars[n]);
                    }
                    let blank = is_whitespace(c);
                    classes.push(classify_tile_char(c, blank));
                    proof {
                        assert(classes_of(chars.take(n + 1)) =~= classes_of(chars.take(n)).push(
                            tile_char(c, white_space(c)),
                        ));
                        n = n + 1;
                    }
                },
            }
        }
        Level::parse_tile_chars(&classes)
    }

    /// The tile grid of a text whose characters are already classified; see
    /// [`parse_classes`].
    pub fn parse_tile_chars(classes: &Vec<TileChar>) -> (r: Result<Vec<Vec<u32>>, LevelError>)
        ensures
            r matches Ok(rows) ==> parse_classes(classes@) == Ok::<Seq<Seq<u32>>, LevelError>(
                grid_view(rows@),
            ),
            r matches Err(e) ==> parse_classes(classes@) == Err::<Seq<Seq<u32>>, LevelError>(e),
    {
        let mut rows: Vec<Vec<u32>> = Vec::new();
        let mut line: Vec<u32> = Vec::new();
        let mut i: usize = 0;
        proof {
            assert(classes@.take(0) =~= Seq::<TileChar>::empty());
            assert(grid_view(rows@) =~= Seq::<Seq<u32>>::empty());
            assert(line@ =~= Seq::<u32>::empty());
        }
        while i < classes.len()
            invariant
                0 <= i <= classes@.len(),
                scan_classes(classes@.take(i as int)) == Ok::<(Seq<Seq<u32>>, Seq<u32>), char>(
                    (grid_view(rows@), line@),
                ),
            decreases classes@.len() - i,
        {
            proof {
                assert(classes@.take(i + 1).drop_last() =~= classes@.take(i as int));
            }
            match classes[i] {
                TileChar::LineBreak => {
                    let ghost before = grid_view(rows@);
                    if line.len() > 0 {
                        let ghost finished = line@;
                        rows.push(line);
                        assert(grid_view(rows@) =~= before.push(finished));
                    }
                    line = Vec::new();
                    assert(line@ =~= Seq::<u32>::empty());
                },
                TileChar::Digit(d) => {
                    line.push(d);
                },
                TileChar::Blank => {},
                TileChar::Invalid(c) => {
                    proof {
                        lemma_scan_error_persists(classes@, i + 1, c);
                    }
                    return Err(LevelError::InvalidTileData(c));
                },
            }
            i = i + 1;
        }
        assert(classes@.take(i as int) =~= classes@);
        let ghost before = grid_view(rows@);
        let ghost open_line = line@;
        if line.len() > 0 {
            let ghost last = line@;
            rows.push(line);
            assert(grid_view(rows@) =~= before.push(last));
        }
        if rows.len() == 0 {
            return Err(LevelError::EmptyLevel);
        }
        let width = rows[0].len();
        let mut y: usize = 1;
        while y < rows.len()
            invariant
                1 <= y <= rows@.len(),
                scan_classes(classes@) == Ok::<(Seq<Seq<u32>>, Seq<u32>), char>((before, open_line)),
                grid_view(rows@) == close_line(before, open_line),
                width == rows@[0]@.len(),
                forall|k: int| 0 <= k < y ==> (#[trigger] rows@[k])@.len() == width,
            decreases rows@.len() - y,
        {
            if rows[y].len() != width {
                assert(grid_view(rows@)[y as int].len() != grid_view(rows@)[0].len());
                return Err(LevelError::RaggedRows);
            }
            y = y + 1;
        }
        Ok(rows)
    }

    /// Replaces the bricks with those of the level text `text`, stretched over
    /// `level_width` by `level_height` pixels: one brick per non-zero tile, each
    /// of the grid's cell size, textured from `loader`. On failure the level is
    /// left empty.
    pub fn load(&mut self, text: &str, level_width: u32, level_height: u32, loader: &Loader) -> (r:
        Result<(), LevelError>)
        requires
            loader.wf(),
        ensures
            match level_bricks(text@, level_width, level_height, loader.textures()) {
                Ok(bricks) => r is Ok && final(self)@ == bricks,
                Err(e) => r == Err::<(), LevelError>(e) && final(self)@ == Seq::<EntityView>::empty(),
            },
    {
        self.bricks.clear();
        proof {
            assert(self@ =~= Seq::<EntityView>::empty());
        }
        let rows = match Level::parse_tiles(text) {
            Ok(rows) => rows,
            Err(e) => {
                return Err(e);
            },
        };
        let ghost grid = grid_view(rows@);
        let ghost textures = loader.textures();
        proof {
            lemma_parsed_grid_valid(text@);
        }
        let row_no = rows.len();
        let col_no = rows[0].len();
        let unit_width = ((level_width as usize) / col_no) as u32;
        let unit_height = ((level_height as usize) / row_no) as u32;
        let unit = Extent::new(unit_width, unit_height);
        let mut bricks: Vec<Entity> = Vec::new();
        let mut y: usize = 0;
        proof {
            assert(grid.take(0) =~= Seq::<Seq<u32>>::empty());
            assert(bricks@.map_values(|e: Entity| e@) =~= Seq::<EntityView>::empty());
        }
        while y < row_no
            invariant
                self@ == Seq::<EntityView>::empty(),
                grid == grid_view(rows@),
                parse_tiles(text@) == Ok::<Seq<Seq<u32>>, LevelError>(grid),
                valid_grid(grid),
                row_no == grid.len(),
                col_no == grid[0].len(),
                unit == unit_size(grid, level_width, level_height),
                unit == (Extent { width: unit_width, height: unit_height }),
                loader.wf(),
                textures == loader.textures(),
                0 <= y <= row_no,
                bricks@.map_values(|e: Entity| e@) == grid_bricks(grid.take(y as int), unit, textures),
                forall|yy: int, xx: int|
                    0 <= yy < y && 0 <= xx < grid[yy].len() && grid[yy][xx] != 0
                        ==> textures.contains_key(#[trigger] tile_texture(grid[yy][xx])@),
            decreases row_no - y,
        {
            let row = &rows[y];
            let mut x: usize = 0;
            proof {
                assert(grid[y as int].take(0) =~= Seq::<u32>::empty());
                assert(grid_bricks(grid.take(y as int), unit, textures) + row_bricks(
                    grid[y as int].take(0),
                    y as int,
                    unit,
                    textures,
                ) =~= grid_bricks(grid.take(y as int), unit, textures));
            }
            while x < row.len()
                invariant
                    self@ == Seq::<EntityView>::empty(),
                    grid == grid_view(rows@),
                    parse_tiles(text@) == Ok::<Seq<Seq<u32>>, LevelError>(grid),
                    valid_grid(grid),
                    row_no == grid.len(),
                    col_no == grid[0].len(),
                    unit == unit_size(grid, level_width, level_height),
                    unit == (Extent { width: unit_width, height: unit_height }),
                    loader.wf(),
                    textures == loader.textures(),
                    0 <= y < row_no,
                    row@ == grid[y as int],
                    0 <= x <= row@.len(),
                    bricks@.map_values(|e: Entity| e@) == grid_bricks(grid.take(y as int), unit, textures)
                        + row_bricks(grid[y as int].take(x as int), y as int, unit, textures),
                    forall|yy: int, xx: int|
                        0 <= yy < y && 0 <= xx < grid[yy].len() && grid[yy][xx] != 0
                            ==> textures.contains_key(#[trigger] tile_texture(grid[yy][xx])@),
                    forall|xx: int|
                        0 <= xx < x && grid[y as int][xx] != 0 ==> textures.contains_key(
                            #[trigger] tile_texture(grid[y as int][xx])@,
                        ),
                decreases row@.len() - x,
            {
                let tile = row[x];
                let ghost before = bricks@.map_values(|e: Entity| e@);
                proof {
                    assert(grid[y as int].take(x + 1).drop_last() =~= grid[y as int].take(x as int));
                }
                if tile != 0 {
                    let texture = match loader.get_texture(get_texture_from_tile_no(tile)) {
                        Ok(t) => t,
                        Err(_) => {
                            assert(!textures.contains_key(tile_texture(grid[y as int][x as int])@));
                            return Err(LevelError::MissingTexture);
                        },
                    };
                    let color = get_color_from_tile_no(tile);
                    proof {
                        lemma_cell_offset(x as int, col_no as int, level_width as int);
                        lemma_cell_offset(y as int, row_no as int, level_height as int);
                        assert(unit_width as int == level_width as int / col_no as int);
                        assert(unit_height as int == level_height as int / row_no as int);
                    }
                    let px = (x as u64) * (unit_width as u64);
                    let py = (y as u64) * (unit_height as u64);
                    let position = Vector2::new(px as i64, py as i64);
                    let mut brick = Entity::new(position, unit, texture, color);
                    brick.set_solid(tile == 1);
                    bricks.push(brick);
                    proof {
                        assert(brick@ == tile_brick(tile, x as int, y as int, unit, textures));
                        assert(bricks@.map_values(|e: Entity| e@) =~= before.push(brick@));
                    }
                }
                x = x + 1;
            }
            proof {
                assert(grid[y as int].take(x as int) =~= grid[y as int]);
                assert(grid.take(y + 1).drop_last() =~= grid.take(y as int));
            }
            y = y + 1;
        }
        proof {
            assert(grid.take(y as int) =~= grid);
        }
        self.bricks = bricks;
        Ok(())
    }

    /// Records the drawing of every brick that is not destroyed, in storage order.
    pub fn draw(&self, renderer: &SpriteRenderer, out: &mut Vec<RenderCommand>)
        ensures
            final(out)@ == old(out)@ + level_commands(*renderer, self@),
    {
        let mut i: usize = 0;
        proof {
            assert(self@.take(0) =~= Seq::<EntityView>::empty());
            assert(old(out)@ + level_commands(*renderer, self@.take(0)) =~= old(out)@);
        }
        while i < self.bricks.len()
            invariant
                0 <= i <= self@.len(),
                self@.len() == self.bricks@.len(),
                out@ == old(out)@ + level_commands(*renderer, self@.take(i as int)),
            decreases self@.len() - i,
        {
            let tile = &self.bricks[i];
            proof {
                assert(self@.take(i + 1).drop_last() =~= self@.take(i as int));
                assert(self@[i as int] == tile@);
            }
            if !tile.is_destroyed() {
                tile.draw(renderer, out);
            }
            proof {
                assert(out@ =~= old(out)@ + level_commands(*renderer, self@.take(i + 1)));
            }
            i = i + 1;
        }
        proof {
            assert(self@.take(i as int) =~= self@);
        }
    }

    /// Whether every brick that is not solid is destroyed.
    pub fn is_completed(&self) -> (r: bool)
        ensures
            r == completed(self@),
    {
        let mut i: usize = 0;
        while i < self.bricks.len()
            invariant
                0 <= i <= self@.len(),
                self@.len() == self.bricks@.len(),
                forall|k: int| 0 <= k < i ==> (#[trigger] self@[k]).is_solid || self@[k].is_destroyed,
            decreases self@.len() - i,
        {
            let tile = &self.bricks[i];
            assert(self@[i as int] == tile@);
            if !tile.is_solid() && !tile.is_destroyed() {
                return false;
            }
            i = i + 1;
        }
        true
    }

    /// Destroys brick `index`, unless it is solid; see [`Entity::destroy`].
    pub fn destroy_brick(&mut self, index: usize)
        requires
            index < old(self)@.len(),
        ensures
            final(self)@ == old(self)@.update(
                index as int,
                EntityView {
                    is_destroyed: old(self)@[index as int].is_destroyed || !old(self)@[index as int].is_solid,
                    ..old(self)@[index as int]
                },
            ),
    {
        let mut brick = self.bricks[index];
        brick.destroy();
        self.bricks.set(index, brick);
        proof {
            assert(self@ =~= old(self)@.update(index as int, brick@));
        }
    }

    /// The bricks, in row-major order of the grid they were read from.
    pub fn bricks(&self) -> (r: &Vec<Entity>)
        ensures
            r@.map_values(|e: Entity| e@) == self@,
    {
        &self.bricks
    }
}

/// The number of non-zero tiles in a row.
pub open spec fn row_nonzero(row: Seq<u32>) -> nat
    decreases row.len(),
{
    if row.len() == 0 {
        0
    } else {
        row_nonzero(row.drop_last()) + if row.last() != 0 {
            1nat
        } else {
            0nat
        }
    }
}

/// The number of non-zero tiles in a grid.
pub open spec fn grid_nonzero(rows: Seq<Seq<u32>>) -> nat
    decreases rows.len(),
{
    if rows.len() == 0 {
        0
    } else {
        grid_nonzero(rows.drop_last()) + row_nonzero(rows.last())
    }
}

/// `b` is the brick of some non-zero tile of row `y`.
pub open spec fn brick_of_row(
    row: Seq<u32>,
    y: int,
    unit: Extent,
    textures: Map<Seq<char>, Texture2D>,
    b: EntityView,
) -> bool {
    exists|x: int|
        0 <= x < row.len() && row[x] != 0 && b == #[trigger] tile_brick(row[x], x, y, unit, textures)
}

/// `b` is the brick of some non-zero tile of the grid.
pub open spec fn brick_of_grid(
    rows: Seq<Seq<u32>>,
    unit: Extent,
    textures: Map<Seq<char>, Texture2D>,
    b: EntityView,
) -> bool {
    exists|y: int, x: int|
        0 <= y < rows.len() && 0 <= x < rows[y].len() && rows[y][x] != 0 && b
            == #[trigger] tile_brick(rows[y][x], x, y, unit, textures)
}

proof fn lemma_row_bricks(row: Seq<u32>, y: int, unit: Extent, textures: Map<Seq<char>, Texture2D>)
    ensures
        row_bricks(row, y, unit, textures).len() == row_nonzero(row),
        forall|i: int|
            0 <= i < row_bricks(row, y, unit, textures).len() ==> brick_of_row(
                row,
                y,
                unit,
                textures,
                #[trigger] row_bricks(row, y, unit, textures)[i],
            ),
    decreases row.len(),
{
    if row.len() > 0 {
        let rest = row.drop_last();
        lemma_row_bricks(rest, y, unit, textures);
        let bricks = row_bricks(row, y, unit, textures);
        assert forall|i: int| 0 <= i < bricks.len() implies brick_of_row(
            row,
            y,
            unit,
            textures,
            #[trigger] bricks[i],
        ) by {
            let before = row_bricks(rest, y, unit, textures);
            if i < before.len() {
                assert(bricks[i] == before[i]);
                assert(brick_of_row(rest, y, unit, textures, before[i]));
                let x = choose|x: int|
                    0 <= x < rest.len() && rest[x] != 0 && before[i] == #[trigger] tile_brick(
                        rest[x],
                        x,
                        y,
                        unit,
                        textures,
                    );
                assert(row[x] == rest[x]);
            } else {
                let x = row.len() - 1;
                assert(bricks[i] == tile_brick(row[x], x, y, unit, textures));
            }
        }
    }
}

proof fn lemma_grid_bricks(rows: Seq<Seq<u32>>, unit: Extent, textures: Map<Seq<char>, Texture2D>)
    ensures
        grid_bricks(rows, unit, textures).len() == grid_nonzero(rows),
        forall|i: int|
            0 <= i < grid_bricks(rows, unit, textures).len() ==> brick_of_grid(
                rows,
                unit,
                textures,
                #[trigger] grid_bricks(rows, unit, textures)[i],
            ),
    decreases rows.len(),
{
    if rows.len() > 0 {
        let rest = rows.drop_last();
        let y = rows.len() - 1;
        lemma_grid_bricks(rest, unit, textures);
        lemma_row_bricks(rows.last(), y, unit, textures);
        let bricks = grid_bricks(rows, unit, textures);
        let before = grid_bricks(rest, unit, textures);
        let last = row_bricks(rows.last(), y, unit, textures);
        assert forall|i: int| 0 <= i < bricks.len() implies brick_of_grid(
            rows,
            unit,
            textures,
            #[trigger] bricks[i],
        ) by {
            if i < before.len() {
                assert(bricks[i] == before[i]);
                assert(brick_of_grid(rest, unit, textures, before[i]));
                let (yy, x) = choose|yy: int, x: int|
                    0 <= yy < rest.len() && 0 <= x < rest[yy].len() && rest[yy][x] != 0 && before[i]
                        == #[trigger] tile_brick(rest[yy][x], x, yy, unit, textures);
                assert(rows[yy] == rest[yy]);
                assert(tile_brick(rows[yy][x], x, yy, unit, textures) == bricks[i]);
            } else {
                let k = i - before.len();
                assert(bricks[i] == last[k]);
                assert(brick_of_row(rows.last(), y, unit, textures, last[k]));
                let x = choose|x: int|
                    0 <= x < rows.last().len() && rows.last()[x] != 0 && last[k]
                        == #[trigger] tile_brick(rows.last()[x], x, y, unit, textures);
                assert(rows[y] == rows.last());
                assert(tile_brick(rows[y][x], x, y, unit, textures) == bricks[i]);
            }
        }
    }
}

/// Every brick of a loaded level is one grid cell in size, the target size
/// divided by the column and row counts, and there is one brick per non-zero
/// tile of the grid.
pub proof fn lemma_brick_sizes_and_count(
    text: Seq<char>,
    width: u32,
    height: u32,
    textures: Map<Seq<char>, Texture2D>,
)
    requires
        level_bricks(text, width, height, textures) is Ok,
    ensures
        parse_tiles(text) is Ok,
        ({
            let rows = parse_tiles(text)->Ok_0;
            let bricks = level_bricks(text, width, height, textures)->Ok_0;
            &&& bricks.len() == grid_nonzero(rows)
            &&& forall|i: int|
                0 <= i < bricks.len() ==> (#[trigger] bricks[i]).size == (Extent {
                    width: (width as int / rows[0].len() as int) as u32,
                    height: (height as int / rows.len() as int) as u32,
                })
        }),
{
    let rows = parse_tiles(text)->Ok_0;
    let unit = unit_size(rows, width, height);
    lemma_grid_bricks(rows, unit, textures);
    let bricks = grid_bricks(rows, unit, textures);
    assert forall|i: int| 0 <= i < bricks.len() implies (#[trigger] bricks[i]).size == unit by {
        assert(brick_of_grid(rows, unit, textures, bricks[i]));
    }
}

/// Each brick of a loaded level is the brick of a non-zero tile: at that
/// tile's cell, with its tint and texture, not destroyed, and solid exactly
/// when the tile code is 1.
pub proof fn lemma_bricks_from_tiles(
    text: Seq<char>,
    width: u32,
    height: u32,
    textures: Map<Seq<char>, Texture2D>,
)
    requires
        level_bricks(text, width, height, textures) is Ok,
    ensures
        parse_tiles(text) is Ok,
        ({
            let rows = parse_tiles(text)->Ok_0;
            let bricks = level_bricks(text, width, height, textures)->Ok_0;
            let unit = unit_size(rows, width, height);
            forall|i: int|
                0 <= i < bricks.len() ==> exists|y: int, x: int|
                    0 <= y < rows.len() && 0 <= x < rows[y].len() && rows[y][x] != 0
                        && #[trigger] bricks[i] == tile_brick(rows[y][x], x, y, unit, textures)
                        && bricks[i].is_solid == (rows[y][x] == 1) && !bricks[i].is_destroyed
        }),
{
    let rows = parse_tiles(text)->Ok_0;
    let unit = unit_size(rows, width, height);
    lemma_grid_bricks(rows, unit, textures);
    let bricks = grid_bricks(rows, unit, textures);
    assert forall|i: int| 0 <= i < bricks.len() implies exists|y: int, x: int|
        0 <= y < rows.len() && 0 <= x < rows[y].len() && rows[y][x] != 0 && #[trigger] bricks[i]
            == tile_brick(rows[y][x], x, y, unit, textures) && bricks[i].is_solid == (rows[y][x]
            == 1) && !bricks[i].is_destroyed by {
        assert(brick_of_grid(rows, unit, textures, bricks[i]));
    }
}

/// A tile with code 0 gets no brick: when a cell is at least one pixel wide
/// and high, no brick of the loaded level stands at that tile's cell.
pub proof fn lemma_zero_tile_has_no_brick(
    text: Seq<char>,
    width: u32,
    height: u32,
    textures: Map<Seq<char>, Texture2D>,
    x: int,
    y: int,
)
    requires
        level_bricks(text, width, height, textures) is Ok,
        parse_tiles(text) is Ok,
        0 <= y < parse_tiles(text)->Ok_0.len(),
        0 <= x < parse_tiles(text)->Ok_0[y].len(),
        parse_tiles(text)->Ok_0[y][x] == 0,
        unit_size(parse_tiles(text)->Ok_0, width, height).width > 0,
        unit_size(parse_tiles(text)->Ok_0, width, height).height > 0,
    ensures
        ({
            let unit = unit_size(parse_tiles(text)->Ok_0, width, height);
            let bricks = level_bricks(text, width, height, textures)->Ok_0;
            forall|i: int|
                0 <= i < bricks.len() ==> (#[trigger] bricks[i]).position != (Vector2 {
                    x: (x * unit.width) as i64,
                    y: (y * unit.height) as i64,
                })
        }),
{
    let rows = parse_tiles(text)->Ok_0;
    let unit = unit_size(rows, width, height);
    let bricks = grid_bricks(rows, unit, textures);
    lemma_parsed_grid_valid(text);
    lemma_grid_bricks(rows, unit, textures);
    let c = rows[0].len() as int;
    let r = rows.len() as int;
    assert(rows[y].len() == c);
    lemma_cell_offset(x, c, width as int);
    lemma_cell_offset(y, r, height as int);
    assert forall|i: int| 0 <= i < bricks.len() implies (#[trigger] bricks[i]).position != (Vector2 {
        x: (x * unit.width) as i64,
        y: (y * unit.height) as i64,
    }) by {
        assert(brick_of_grid(rows, unit, textures, bricks[i]));
        let (yy, xx) = choose|yy: int, xx: int|
            0 <= yy < rows.len() && 0 <= xx < rows[yy].len() && rows[yy][xx] != 0 && bricks[i]
                == #[trigger] tile_brick(rows[yy][xx], xx, yy, unit, textures);
        assert(rows[yy].len() == c);
        lemma_cell_offset(xx, c, width as int);
        lemma_cell_offset(yy, r, height as int);
        if xx < x {
            vstd::arithmetic::mul::lemma_mul_strict_inequality(xx, x, unit.width as int);
        } else if x < xx {
            vstd::arithmetic::mul::lemma_mul_strict_inequality(x, xx, unit.width as int);
        } else if yy < y {
            vstd::arithmetic::mul::lemma_mul_strict_inequality(yy, y, unit.height as int);
        } else if y < yy {
            vstd::arithmetic::mul::lemma_mul_strict_inequality(y, yy, unit.height as int);
        }
    }
}

/// A level without bricks is complete.
pub proof fn lemma_empty_level_completed()
    ensures
        completed(Seq::<EntityView>::empty()),
{
}

/// Right after loading, a level that holds a brick which is not solid is not
/// complete.
pub proof fn lemma_loaded_level_incomplete(
    text: Seq<char>,
    width: u32,
    height: u32,
    textures: Map<Seq<char>, Texture2D>,
    i: int,
)
    requires
        level_bricks(text, width, height, textures) is Ok,
        0 <= i < level_bricks(text, width, height, textures)->Ok_0.len(),
        !level_bricks(text, width, height, textures)->Ok_0[i].is_solid,
    ensures
        !completed(level_bricks(text, width, height, textures)->Ok_0),
{
    lemma_bricks_from_tiles(text, width, height, textures);
    let bricks = level_bricks(text, width, height, textures)->Ok_0;
    assert(!bricks[i].is_destroyed);
}

} // verus!
