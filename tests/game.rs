use breakout::game::{MOVE_LEFT_KEY, MOVE_RIGHT_KEY, PLAYER_WIDTH};
use breakout::{
    Extent, Game, GameError, GameState, LevelError, Loader, Material, Program, RenderCommand,
    ResourceError, SpriteRenderer, Texture, Tint, Vector2, VertexAttributeArray,
};

fn full_loader() -> Loader {
    let mut loader = Loader::new();
    loader.load_material("sprite", Material::new(Program::new(7))).unwrap();
    loader.load_texture("background", Texture::new(1), false).unwrap();
    loader.load_texture("face", Texture::new(2), true).unwrap();
    loader.load_texture("block", Texture::new(3), false).unwrap();
    loader.load_texture("block_solid", Texture::new(4), false).unwrap();
    loader.load_texture("paddle", Texture::new(5), true).unwrap();
    loader
}

fn new_game(width: u32, height: u32) -> (Game, Loader) {
    let loader = full_loader();
    let mut out = Vec::new();
    let sources = vec![String::from("1 1 1\n0 2 0")];
    let game = Game::new(width, height, &loader, VertexAttributeArray::new(8), &sources, &mut out).unwrap();
    (game, loader)
}

/// One frame of a sixtieth of a second.
const FRAME: u32 = 16_667;

#[test]
fn new_game_places_paddle_and_prepares_material() {
    let loader = full_loader();
    let mut out = Vec::new();
    let sources = vec![String::from("1 1 1\n0 2 0")];
    let game = Game::new(800, 600, &loader, VertexAttributeArray::new(8), &sources, &mut out).unwrap();
    assert_eq!(game.state(), GameState::Active);
    assert_eq!(game.width(), 800);
    assert_eq!(game.height(), 600);
    let player = game.player();
    assert_eq!(player.position(), Vector2::new(350, 580));
    assert_eq!(player.size(), Extent::new(100, 20));
    assert_eq!(player.color(), Tint::white());
    assert_eq!(player.sprite(), loader.get_texture("paddle").unwrap());
    assert!(!game.key(MOVE_LEFT_KEY));
    assert!(!game.key(1023));
    let level = game.current_level();
    assert_eq!(level.bricks().len(), 4);
    assert_eq!(level.bricks()[0].size(), Extent::new(266, 150));
    assert!(!game.is_level_completed());
    let p = Program::new(7);
    assert_eq!(
        out,
        vec![
            RenderCommand::UseProgram(p),
            RenderCommand::SetInteger { program: p, name: "image", value: 0 },
            RenderCommand::SetProjection { program: p, name: "projection", width: 800, height: 600 },
        ]
    );
}

#[test]
fn new_game_needs_sprite_material() {
    let mut loader = Loader::new();
    loader.load_texture("paddle", Texture::new(5), true).unwrap();
    let mut out = Vec::new();
    let sources = vec![String::from("0")];
    let r = Game::new(800, 600, &loader, VertexAttributeArray::new(8), &sources, &mut out);
    assert_eq!(r.err(), Some(GameError::Resource(ResourceError::NotFound)));
    assert!(out.is_empty());
}

#[test]
fn new_game_needs_paddle_texture() {
    let mut loader = Loader::new();
    loader.load_material("sprite", Material::new(Program::new(7))).unwrap();
    let mut out = Vec::new();
    let sources = vec![String::from("0")];
    let r = Game::new(800, 600, &loader, VertexAttributeArray::new(8), &sources, &mut out);
    assert_eq!(r.err(), Some(GameError::Resource(ResourceError::NotFound)));
    assert!(out.is_empty());
}

#[test]
fn new_game_needs_a_level() {
    let loader = full_loader();
    let mut out = Vec::new();
    let r = Game::new(800, 600, &loader, VertexAttributeArray::new(8), &Vec::new(), &mut out);
    assert_eq!(r.err(), Some(GameError::NoLevels));
}

#[test]
fn new_game_reports_level_errors() {
    let loader = full_loader();
    let mut out = Vec::new();
    let sources = vec![String::from("11"), String::from("1?")];
    let r = Game::new(800, 600, &loader, VertexAttributeArray::new(8), &sources, &mut out);
    assert_eq!(r.err(), Some(GameError::Level(LevelError::InvalidTileData('?'))));
    assert!(out.is_empty());
}

#[test]
fn load_levels_uses_upper_half_of_window() {
    let loader = full_loader();
    let sources = vec![String::from("1\n1"), String::from("22")];
    let levels = breakout::game::load_levels(&loader, &sources, 800, 600).unwrap();
    assert_eq!(levels.len(), 2);
    assert_eq!(levels[0].bricks()[1].position(), Vector2::new(0, 150));
    assert_eq!(levels[1].bricks()[1].size(), Extent::new(400, 300));
}

#[test]
fn holding_left_stops_at_left_edge() {
    let (mut game, _) = new_game(800, 600);
    game.set_bool(MOVE_LEFT_KEY, true);
    for _ in 0..200 {
        game.process_input(FRAME).unwrap();
        assert!(game.player().position().x >= 0);
    }
    assert_eq!(game.player().position().x, 0);
    game.process_input(FRAME).unwrap();
    assert_eq!(game.player().position().x, 0);
}

#[test]
fn holding_right_stops_at_right_edge() {
    let (mut game, _) = new_game(800, 600);
    game.set_bool(MOVE_RIGHT_KEY, true);
    for _ in 0..200 {
        game.process_input(FRAME).unwrap();
        assert!(game.player().position().x + PLAYER_WIDTH as i64 <= 800);
    }
    assert_eq!(game.player().position().x + game.player().size().width as i64, 800);
    game.process_input(FRAME).unwrap();
    assert_eq!(game.player().position().x, 700);
}

#[test]
fn paddle_moves_by_velocity_times_frame_time() {
    let (mut game, _) = new_game(800, 600);
    game.set_bool(MOVE_RIGHT_KEY, true);
    game.process_input(100_000).unwrap();
    assert_eq!(game.player().position().x, 400);
    game.set_bool(MOVE_RIGHT_KEY, false);
    game.process_input(100_000).unwrap();
    assert_eq!(game.player().position().x, 400);
    game.set_bool(MOVE_LEFT_KEY, true);
    game.process_input(FRAME).unwrap();
    assert_eq!(game.player().position().x, 392);
    assert_eq!(game.player().position().y, 580);
}

#[test]
fn left_wins_when_both_keys_are_held() {
    let (mut game, _) = new_game(800, 600);
    game.set_bool(MOVE_LEFT_KEY, true);
    game.set_bool(MOVE_RIGHT_KEY, true);
    game.process_input(100_000).unwrap();
    assert_eq!(game.player().position().x, 300);
}

#[test]
fn other_states_are_not_supported() {
    let (mut game, loader) = new_game(800, 600);
    game.set_bool(MOVE_LEFT_KEY, true);
    game.set_state(GameState::Menu);
    assert_eq!(game.process_input(100_000), Err(GameError::Unsupported(GameState::Menu)));
    assert_eq!(game.player().position().x, 350);
    let mut out = Vec::new();
    assert_eq!(game.render(&loader, &mut out), Err(GameError::Unsupported(GameState::Menu)));
    assert!(out.is_empty());
    game.set_state(GameState::Win);
    assert_eq!(game.render(&loader, &mut out), Err(GameError::Unsupported(GameState::Win)));
}

#[test]
fn key_table_records_presses() {
    let (mut game, _) = new_game(800, 600);
    game.set_bool(1023, true);
    assert!(game.key(1023));
    game.set_bool(1023, false);
    assert!(!game.key(1023));
}

#[test]
fn render_draws_background_level_then_paddle() {
    let (game, loader) = new_game(800, 600);
    let mut out = Vec::new();
    assert_eq!(game.render(&loader, &mut out), Ok(()));
    // background, four bricks, paddle
    assert_eq!(out.len(), 6 * 7);
    let p = Program::new(7);
    let model = |i: usize| out[i * 7 + 1];
    assert_eq!(
        model(0),
        RenderCommand::SetModel {
            program: p,
            name: "model",
            position: Vector2::new(0, 0),
            size: Extent::new(800, 600),
            rotation: 0,
        }
    );
    assert_eq!(out[4], RenderCommand::BindTexture(Texture::new(1)));
    assert_eq!(out[2], RenderCommand::SetTint { program: p, name: "spriteColor", color: Tint::white() });
    assert_eq!(out[7 + 4], RenderCommand::BindTexture(Texture::new(4)));
    assert_eq!(out[4 * 7 + 4], RenderCommand::BindTexture(Texture::new(3)));
    assert_eq!(
        model(5),
        RenderCommand::SetModel {
            program: p,
            name: "model",
            position: Vector2::new(350, 580),
            size: Extent::new(100, 20),
            rotation: 0,
        }
    );
    assert_eq!(out[5 * 7 + 4], RenderCommand::BindTexture(Texture::new(5)));
}

#[test]
fn render_needs_background_texture() {
    let mut loader = Loader::new();
    loader.load_material("sprite", Material::new(Program::new(7))).unwrap();
    loader.load_texture("paddle", Texture::new(5), true).unwrap();
    let mut out = Vec::new();
    let game = Game::new(800, 600, &loader, VertexAttributeArray::new(8), &vec![String::from("0")], &mut out)
        .unwrap();
    let mut frame = Vec::new();
    assert_eq!(game.render(&loader, &mut frame), Err(GameError::Resource(ResourceError::NotFound)));
    assert!(frame.is_empty());
}

#[test]
fn sprite_draw_records_one_draw_call() {
    let renderer = SpriteRenderer::new(Material::new(Program::new(2)), VertexAttributeArray::new(3));
    let texture = breakout::Texture2D::for_image(Texture::new(4), false);
    let mut out = vec![RenderCommand::ActiveTexture(9)];
    let color = Tint { red: 1, green: 2, blue: 3 };
    renderer.draw(&texture, Vector2::new(-5, 6), Extent::new(7, 8), 45, color, &mut out);
    let p = Program::new(2);
    assert_eq!(
        out,
        vec![
            RenderCommand::ActiveTexture(9),
            RenderCommand::UseProgram(p),
            RenderCommand::SetModel {
                program: p,
                name: "model",
                position: Vector2::new(-5, 6),
                size: Extent::new(7, 8),
                rotation: 45,
            },
            RenderCommand::SetTint { program: p, name: "spriteColor", color },
            RenderCommand::ActiveTexture(0),
            RenderCommand::BindTexture(Texture::new(4)),
            RenderCommand::BindVertexArray(VertexAttributeArray::new(3)),
            RenderCommand::DrawTriangles { first: 0, count: 6 },
        ]
    );
}

#[test]
fn material_records_uniforms() {
    let m = Material::new(Program::new(12));
    let mut out = Vec::new();
    m.use_(&mut out);
    m.set_integer("image", 3, &mut out);
    assert_eq!(
        out,
        vec![
            RenderCommand::UseProgram(Program::new(12)),
            RenderCommand::SetInteger { program: Program::new(12), name: "image", value: 3 },
        ]
    );
}

#[test]
fn narrow_window_keeps_paddle_rule() {
    let (mut game, _) = new_game(60, 100);
    assert_eq!(game.player().position().x, -20);
    game.set_bool(MOVE_RIGHT_KEY, true);
    game.process_input(FRAME).unwrap();
    assert_eq!(game.player().position().x, -40);
}

#[test]
fn short_frames_still_reach_left_edge() {
    let (mut game, _) = new_game(800, 600);
    game.set_bool(MOVE_LEFT_KEY, true);
    for _ in 0..699 {
        game.process_input(1_000).unwrap();
    }
    assert_eq!(game.player().position().x, 1);
    game.process_input(1_000).unwrap();
    assert_eq!(game.player().position().x, 0);
    for _ in 0..100 {
        game.process_input(1_000).unwrap();
        assert_eq!(game.player().position().x, 0);
    }
}

#[test]
fn short_frames_still_reach_right_edge() {
    let (mut game, _) = new_game(800, 600);
    game.set_bool(MOVE_RIGHT_KEY, true);
    for _ in 0..700 {
        game.process_input(1_000).unwrap();
        assert!(game.player().position().x + PLAYER_WIDTH as i64 <= 800);
    }
    assert_eq!(game.player().position().x + PLAYER_WIDTH as i64, 800);
    game.process_input(1_000).unwrap();
    assert_eq!(game.player().position().x, 700);
}

#[test]
fn speed_does_not_depend_on_frame_rate() {
    let (mut game, _) = new_game(2000, 600);
    assert_eq!(game.player().position().x, 950);
    game.set_bool(MOVE_LEFT_KEY, true);
    // one second in 1 ms frames
    for _ in 0..1000 {
        game.process_input(1_000).unwrap();
    }
    assert_eq!(game.player().position().x, 450);
    // a second of 144 Hz frames of 6944 us each: 499.968 pixels
    for _ in 0..144 {
        game.process_input(6_944).unwrap();
    }
    assert_eq!(game.player().position().x, 0);
    game.set_bool(MOVE_LEFT_KEY, false);
    game.set_bool(MOVE_RIGHT_KEY, true);
    for _ in 0..60 {
        game.process_input(FRAME).unwrap();
    }
    // 60 * 16667 us * 500 px/s = 500.01 px
    assert_eq!(game.player().position().x, 500);
}
