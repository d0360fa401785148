use roguelike::atlas::{build_atlas, StripOutcome};
use roguelike::color::Color;
use roguelike::entity::{generate_entities, generate_player, Entity, EntityRoster};
use roguelike::geometry::{PixelOffset, PixelSize, Region, ScreenPoint};
use roguelike::health::Ratio;
use roguelike::map_generator::generate_map;
use roguelike::render::{DrawCommand, HeaderText};
use roguelike::scene::{
    content_offset, Scene, CELL_HEIGHT, CELL_WIDTH, CONTENT_OFFSET_Y, GAME_GLYPHS, HEALTH_BAR_WIDTH,
    MAP_HEIGHT, MAP_WIDTH,
};

const RED: Color = Color { r: 255, g: 0, b: 0, a: 255 };
const PURPLE: Color = Color { r: 255, g: 0, b: 255, a: 255 };
const BLUE: Color = Color { r: 0, g: 0, b: 255, a: 255 };

#[test]
fn starting_entities_are_two_goblins_and_two_potions() {
    assert_eq!(
        generate_entities(),
        vec![
            Entity { position: (9, 6), glyph: 'g', color: RED, hp: 1, max_hp: 1 },
            Entity { position: (2, 4), glyph: 'g', color: RED, hp: 1, max_hp: 1 },
            Entity { position: (7, 5), glyph: '%', color: PURPLE, hp: 0, max_hp: 0 },
            Entity { position: (4, 8), glyph: '%', color: PURPLE, hp: 0, max_hp: 0 },
        ]
    );
}

#[test]
fn starting_player_is_hurt() {
    assert_eq!(
        generate_player(),
        Entity { position: (5, 3), glyph: '@', color: BLUE, hp: 3, max_hp: 5 }
    );
}

#[test]
fn roster_puts_the_player_last() {
    let roster = EntityRoster::new(generate_entities(), generate_player());
    assert_eq!(roster.len(), 5);
    assert_eq!(roster.player_index(), 4);
    assert_eq!(*roster.player(), generate_player());
    assert_eq!(roster.entities()[4], generate_player());
    assert_eq!(roster.entities()[..4], generate_entities()[..]);
}

#[test]
fn roster_of_the_player_alone() {
    let roster = EntityRoster::new(Vec::new(), generate_player());
    assert_eq!(roster.len(), 1);
    assert_eq!(roster.player_index(), 0);
    assert_eq!(*roster.player(), generate_player());
}

#[test]
fn scene_constants() {
    assert_eq!((MAP_WIDTH, MAP_HEIGHT), (20, 15));
    assert_eq!((CELL_WIDTH, CELL_HEIGHT), (24, 24));
    assert_eq!(CONTENT_OFFSET_Y, 120);
    assert_eq!(HEALTH_BAR_WIDTH, 100);
    assert_eq!(GAME_GLYPHS, "#@g.%");
    assert_eq!(content_offset(), PixelOffset { x: 0, y: 120 });
}

#[test]
fn scene_starts_with_map_and_roster() {
    let scene = Scene::new();
    assert_eq!(scene.map_size, (20, 15));
    assert_eq!(scene.cell_size, PixelSize { width: 24, height: 24 });
    assert_eq!(scene.tiles, generate_map(20, 15));
    assert_eq!(scene.roster.len(), 5);
    assert_eq!(scene.roster.player_index(), 4);
    assert_eq!(scene.roster.player().glyph, '@');
}

#[test]
fn scene_frame_has_every_pass() {
    let scene = Scene::new();
    let atlas = build_atlas(GAME_GLYPHS, scene.cell_size, StripOutcome::Rendered).unwrap();
    let frame = scene.frame(&atlas, 800, 600);
    assert_eq!(frame.len(), 1 + 3 + 300 + 5 + 2);
    assert_eq!(frame[0], DrawCommand::Clear { color: Color { r: 255, g: 255, b: 255, a: 255 } });
    for (k, text) in [HeaderText::Title, HeaderText::MononokiCredit, HeaderText::SquareCredit]
        .iter()
        .enumerate()
    {
        match frame[1 + k] {
            DrawCommand::Header { element } => assert_eq!(element.text, *text),
            _ => panic!("no header at {}", 1 + k),
        }
    }
    assert_eq!(
        frame[4],
        DrawCommand::Glyph {
            glyph: '#',
            region: Region { x: 0, y: 0, width: 24, height: 24 },
            at: ScreenPoint { x: 0, y: 120 },
            tint: Color { r: 0, g: 0, b: 0, a: 255 },
        }
    );
    assert_eq!(
        frame[4 + 21],
        DrawCommand::Glyph {
            glyph: '.',
            region: Region { x: 72, y: 0, width: 24, height: 24 },
            at: ScreenPoint { x: 24, y: 144 },
            tint: Color { r: 0, g: 0, b: 0, a: 255 },
        }
    );
    assert_eq!(
        frame[304],
        DrawCommand::Glyph {
            glyph: 'g',
            region: Region { x: 48, y: 0, width: 24, height: 24 },
            at: ScreenPoint { x: 6 * 24, y: 9 * 24 + 120 },
            tint: RED,
        }
    );
    assert_eq!(
        frame[308],
        DrawCommand::Glyph {
            glyph: '@',
            region: Region { x: 24, y: 0, width: 24, height: 24 },
            at: ScreenPoint { x: 3 * 24, y: 5 * 24 + 120 },
            tint: BLUE,
        }
    );
    match (frame[309], frame[310]) {
        (DrawCommand::Bar { bar: empty }, DrawCommand::Bar { bar: filled }) => {
            assert_eq!(empty.origin, ScreenPoint { x: 480, y: 120 });
            assert_eq!(filled.origin, ScreenPoint { x: 480, y: 120 });
            assert_eq!(empty.full_width, 100);
            assert_eq!(empty.height, 24);
            assert_eq!(empty.fill, Ratio { numerator: 1, denominator: 1 });
            assert_eq!(empty.color, Color { r: 255, g: 0, b: 0, a: 128 });
            assert_eq!(filled.fill, Ratio { numerator: 3, denominator: 5 });
            assert_eq!(filled.color, RED);
        },
        _ => panic!("the health bar is not last"),
    }
}

#[test]
fn scene_frame_without_glyphs_keeps_header_and_bar() {
    let scene = Scene::new();
    let atlas = build_atlas("", scene.cell_size, StripOutcome::Rendered).unwrap();
    let frame = scene.frame(&atlas, 800, 600);
    assert_eq!(frame.len(), 1 + 3 + 2);
    assert!(!frame.iter().any(|command| matches!(command, DrawCommand::Glyph { .. })));
}

#[test]
fn scene_frame_is_the_same_every_time() {
    let scene = Scene::new();
    let atlas = build_atlas(GAME_GLYPHS, scene.cell_size, StripOutcome::Rendered).unwrap();
    assert_eq!(scene.frame(&atlas, 800, 600), scene.frame(&atlas, 800, 600));
}
