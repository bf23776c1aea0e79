use breakout::level::{
    classify_tile_char, get_color_from_tile_no, get_texture_from_tile_no, TileChar, BLOCK_TEXTURE,
    SOLID_BLOCK_TEXTURE,
};
use breakout::{
    Entity, Extent, Level, LevelError, Loader, RenderCommand, SpriteRenderer, Texture, Tint, Vector2,
    VertexAttributeArray,
};
use breakout::{Material, Program};

fn brick_loader() -> Loader {
    let mut loader = Loader::new();
    loader.load_texture("block", Texture::new(11), false).unwrap();
    loader.load_texture("block_solid", Texture::new(12), false).unwrap();
    loader
}

fn loaded(text: &str, width: u32, height: u32) -> Level {
    let loader = brick_loader();
    let mut level = Level::new();
    level.load(text, width, height, &loader).unwrap();
    level
}

#[test]
fn scenario_three_by_three_level() {
    let loader = brick_loader();
    let mut level = Level::new();
    assert_eq!(level.load("1 1 1\n0 2 0\n0 0 0", 90, 60, &loader), Ok(()));
    let bricks = level.bricks();
    assert_eq!(bricks.len(), 4);
    let solid = loader.get_texture("block_solid").unwrap();
    for (i, x) in [0i64, 30, 60].iter().enumerate() {
        let b = &bricks[i];
        assert_eq!(b.position(), Vector2::new(*x, 0));
        assert_eq!(b.size(), Extent::new(30, 20));
        assert!(b.is_solid());
        assert!(!b.is_destroyed());
        assert_eq!(b.color(), Tint { red: 80, green: 80, blue: 80 });
        assert_eq!(b.sprite(), solid);
    }
    let b = &bricks[3];
    assert_eq!(b.position(), Vector2::new(30, 20));
    assert_eq!(b.size(), Extent::new(30, 20));
    assert!(!b.is_solid());
    assert_eq!(b.color(), Tint { red: 20, green: 60, blue: 100 });
    assert_eq!(b.sprite(), loader.get_texture("block").unwrap());

    assert!(!level.is_completed());
    level.destroy_brick(3);
    assert!(level.bricks()[3].is_destroyed());
    assert!(level.is_completed());
}

#[test]
fn brick_sizes_divide_target_evenly() {
    let level = loaded("123\n456\n789\n111", 100, 50);
    assert_eq!(level.bricks().len(), 12);
    for b in level.bricks() {
        assert_eq!(b.size(), Extent::new(33, 12));
    }
    assert_eq!(level.bricks()[11].position(), Vector2::new(66, 36));
}

#[test]
fn brick_count_is_non_zero_tiles() {
    let level = loaded("1020\n0304\n0000", 400, 300);
    assert_eq!(level.bricks().len(), 4);
}

#[test]
fn zero_tiles_give_no_brick() {
    let level = loaded("010\n000\n202", 30, 30);
    let positions: Vec<Vector2> = level.bricks().iter().map(|b| b.position()).collect();
    assert_eq!(positions, vec![Vector2::new(10, 0), Vector2::new(0, 20), Vector2::new(20, 20)]);
}

#[test]
fn only_code_one_is_solid() {
    let level = loaded("1234567891", 100, 10);
    let solid: Vec<bool> = level.bricks().iter().map(|b| b.is_solid()).collect();
    assert_eq!(solid, vec![true, false, false, false, false, false, false, false, false, true]);
}

#[test]
fn empty_level_is_completed() {
    assert!(Level::new().is_completed());
}

#[test]
fn fresh_level_with_breakable_brick_is_not_completed() {
    assert!(!loaded("1 1\n0 3", 20, 20).is_completed());
}

#[test]
fn all_solid_level_is_completed() {
    assert!(loaded("1 1\n1 0", 20, 20).is_completed());
}

#[test]
fn solid_brick_cannot_be_destroyed() {
    let mut level = loaded("12", 20, 10);
    level.destroy_brick(0);
    assert!(!level.bricks()[0].is_destroyed());
    assert!(!level.is_completed());
    level.destroy_brick(1);
    assert!(level.is_completed());
}

#[test]
fn blank_lines_and_carriage_returns_are_ignored() {
    let level = loaded("\n  \n1 2\r\n\n\t3 4\r\n", 20, 20);
    assert_eq!(level.bricks().len(), 4);
    assert_eq!(level.bricks()[2].position(), Vector2::new(0, 10));
}

#[test]
fn invalid_character_is_rejected() {
    let loader = brick_loader();
    let mut level = loaded("11", 20, 10);
    assert_eq!(level.load("1 1\n1 x", 20, 20, &loader), Err(LevelError::InvalidTileData('x')));
    assert_eq!(level.bricks().len(), 0);
}

#[test]
fn empty_text_is_rejected() {
    let loader = brick_loader();
    let mut level = Level::new();
    assert_eq!(level.load("", 20, 20, &loader), Err(LevelError::EmptyLevel));
    assert_eq!(level.load(" \n\n \t", 20, 20, &loader), Err(LevelError::EmptyLevel));
}

#[test]
fn ragged_rows_are_rejected() {
    let loader = brick_loader();
    let mut level = Level::new();
    assert_eq!(level.load("111\n11", 30, 20, &loader), Err(LevelError::RaggedRows));
}

#[test]
fn missing_texture_is_rejected() {
    let mut loader = Loader::new();
    loader.load_texture("block", Texture::new(3), false).unwrap();
    let mut level = Level::new();
    assert_eq!(level.load("22\n00", 20, 20, &loader), Ok(()));
    assert_eq!(level.load("21", 20, 20, &loader), Err(LevelError::MissingTexture));
    assert_eq!(level.bricks().len(), 0);
}

#[test]
fn reload_replaces_bricks() {
    let loader = brick_loader();
    let mut level = loaded("111\n222", 30, 20);
    assert_eq!(level.load("3", 30, 20, &loader), Ok(()));
    assert_eq!(level.bricks().len(), 1);
    assert_eq!(level.bricks()[0].size(), Extent::new(30, 20));
}

#[test]
fn parse_tiles_gives_the_grid() {
    assert_eq!(Level::parse_tiles("1 0\n 2 9 \n"), Ok(vec![vec![1, 0], vec![2, 9]]));
    assert_eq!(Level::parse_tiles("1\u{a0}0"), Ok(vec![vec![1, 0]]));
    assert_eq!(Level::parse_tiles("1-0"), Err(LevelError::InvalidTileData('-')));
}

#[test]
fn tile_characters_are_classified() {
    assert_eq!(classify_tile_char('\n', true), TileChar::LineBreak);
    assert_eq!(classify_tile_char('0', false), TileChar::Digit(0));
    assert_eq!(classify_tile_char('7', false), TileChar::Digit(7));
    assert_eq!(classify_tile_char(' ', true), TileChar::Blank);
    assert_eq!(classify_tile_char('a', false), TileChar::Invalid('a'));
    assert_eq!(classify_tile_char('a', true), TileChar::Blank);
}

#[test]
fn tile_colors_follow_the_table() {
    assert_eq!(get_color_from_tile_no(1), Tint { red: 80, green: 80, blue: 80 });
    assert_eq!(get_color_from_tile_no(2), Tint { red: 20, green: 60, blue: 100 });
    assert_eq!(get_color_from_tile_no(3), Tint { red: 0, green: 70, blue: 0 });
    assert_eq!(get_color_from_tile_no(4), Tint { red: 80, green: 80, blue: 40 });
    assert_eq!(get_color_from_tile_no(5), Tint { red: 100, green: 50, blue: 0 });
    assert_eq!(get_color_from_tile_no(6), Tint::white());
    assert_eq!(get_color_from_tile_no(9), Tint::white());
}

#[test]
fn tile_textures_follow_the_table() {
    assert_eq!(get_texture_from_tile_no(1), SOLID_BLOCK_TEXTURE);
    assert_eq!(get_texture_from_tile_no(1), "block_solid");
    assert_eq!(get_texture_from_tile_no(2), BLOCK_TEXTURE);
    assert_eq!(get_texture_from_tile_no(9), "block");
}

#[test]
fn level_draw_skips_destroyed_bricks() {
    let mut level = loaded("23", 20, 10);
    let renderer = SpriteRenderer::new(Material::new(Program::new(5)), VertexAttributeArray::new(6));
    let mut out = Vec::new();
    level.draw(&renderer, &mut out);
    assert_eq!(out.len(), 14);
    level.destroy_brick(0);
    let mut out = Vec::new();
    level.draw(&renderer, &mut out);
    assert_eq!(out.len(), 7);
    assert_eq!(
        out[1],
        RenderCommand::SetModel {
            program: Program::new(5),
            name: "model",
            position: Vector2::new(10, 0),
            size: Extent::new(10, 10),
            rotation: 0,
        }
    );
}

#[test]
fn new_entity_is_at_rest() {
    let sprite = breakout::Texture2D::for_image(Texture::new(1), true);
    let e = Entity::new(Vector2::new(3, 4), Extent::new(5, 6), sprite, Tint::white());
    assert_eq!(e.velocity(), Vector2::new(0, 0));
    assert_eq!(e.rotation(), 0);
    assert!(!e.is_solid());
    assert!(!e.is_destroyed());
    let mut e = e;
    e.destroy();
    assert!(e.is_destroyed());
}

#[test]
fn entity_draw_records_its_sprite() {
    let sprite = breakout::Texture2D::for_image(Texture::new(21), true);
    let e = Entity::new(Vector2::new(3, 4), Extent::new(5, 6), sprite, Tint { red: 1, green: 1, blue: 1 });
    let renderer = SpriteRenderer::new(Material::new(Program::new(5)), VertexAttributeArray::new(6));
    let mut out = Vec::new();
    e.draw(&renderer, &mut out);
    assert_eq!(out.len(), 7);
    assert_eq!(out[4], RenderCommand::BindTexture(Texture::new(21)));
    let mut bound = Vec::new();
    sprite.bind(&mut bound);
    assert_eq!(bound, vec![RenderCommand::BindTexture(Texture::new(21))]);
}

#[test]
fn classified_characters_give_the_grid() {
    let classes: Vec<TileChar> = "1 1 1\n0 2 0\n0 0 0"
        .chars()
        .map(|c| classify_tile_char(c, c.is_whitespace()))
        .collect();
    assert_eq!(Level::parse_tile_chars(&classes), Ok(vec![vec![1, 1, 1], vec![0, 2, 0], vec![0, 0, 0]]));
    let classes = vec![
        TileChar::Blank,
        TileChar::Digit(3),
        TileChar::LineBreak,
        TileChar::LineBreak,
        TileChar::Digit(0),
        TileChar::Blank,
    ];
    assert_eq!(Level::parse_tile_chars(&classes), Ok(vec![vec![3], vec![0]]));
    let classes = vec![TileChar::Digit(1), TileChar::Invalid('#'), TileChar::Invalid('$')];
    assert_eq!(Level::parse_tile_chars(&classes), Err(LevelError::InvalidTileData('#')));
    assert_eq!(Level::parse_tile_chars(&vec![TileChar::Blank]), Err(LevelError::EmptyLevel));
    let classes = vec![TileChar::Digit(1), TileChar::LineBreak, TileChar::Digit(1), TileChar::Digit(1)];
    assert_eq!(Level::parse_tile_chars(&classes), Err(LevelError::RaggedRows));
}
