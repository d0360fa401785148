//! The scene of the game: its map, its entities and the size of its cells,
//! and the frame that shows them.

use crate::atlas::GlyphAtlas;
use crate::entity::generate_entities;
use crate::entity::generate_player;
use crate::entity::starting_entities;
use crate::entity::starting_player;
use crate::entity::EntityRoster;
use crate::geometry::PixelOffset;
use crate::geometry::PixelSize;
use crate::health::compute_health_bar;
use crate::health::health_bar_spec;
use crate::map_generator::generate_map;
use crate::map_generator::map_tiles;
use crate::render::frame_commands;
use crate::render::header_layout;
use crate::render::header_layout_spec;
use crate::render::render_frame;
use crate::render::DrawCommand;
use crate::tile::Tile;
use vstd::prelude::*;

verus! {

/// The width of the map, in cells.
pub const MAP_WIDTH: i32 = 20;

/// The height of the map, in cells.
pub const MAP_HEIGHT: i32 = 15;

/// The width of a cell, in pixels.
pub const CELL_WIDTH: usize = 24;

/// The height of a cell, in pixels.
pub const CELL_HEIGHT: usize = 24;

/// How far the map is pushed down to leave room for the title, in pixels.
pub const CONTENT_OFFSET_Y: usize = 120;

/// The width of a full health bar, in pixels.
pub const HEALTH_BAR_WIDTH: usize = 100;

/// The alphabet of the atlas: every glyph the scene draws.
pub const GAME_GLYPHS: &'static str = "#@g.%";

/// Everything a frame shows but the atlas.
pub struct Scene {
    /// The size of the map in cells, width first.
    pub map_size: (usize, usize),
    /// The background tiles, in the order in which they are drawn.
    pub tiles: Vec<Tile>,
    /// The entities, the player among them.
    pub roster: EntityRoster,
    /// The size of a cell on screen and in the atlas.
    pub cell_size: PixelSize,
}

/// The shift that makes room for the title above the map.
pub open spec fn content_offset_spec() -> PixelOffset {
    PixelOffset { x: 0, y: CONTENT_OFFSET_Y }
}

/// The shift that makes room for the title above the map.
#[verifier::when_used_as_spec(content_offset_spec)]
pub fn content_offset() -> (offset: PixelOffset)
    ensures
        offset == content_offset_spec(),
{
    PixelOffset { x: 0, y: CONTENT_OFFSET_Y }
}

impl Scene {
    /// The scene as the game starts: the walled map, the starting entities
    /// and, last in the roster, the player.
    pub fn new() -> (scene: Scene)
        ensures
            scene.map_size == (MAP_WIDTH as usize, MAP_HEIGHT as usize),
            scene.tiles@ == map_tiles(MAP_WIDTH as int, MAP_HEIGHT as int),
            scene.roster@ == starting_entities().push(starting_player()),
            scene.roster.spec_player_index() == starting_entities().len(),
            scene.cell_size == (PixelSize { width: CELL_WIDTH, height: CELL_HEIGHT }),
    {
        let tiles = generate_map(MAP_WIDTH, MAP_HEIGHT);
        let roster = EntityRoster::new(generate_entities(), generate_player());
        Scene {
            map_size: (MAP_WIDTH as usize, MAP_HEIGHT as usize),
            tiles,
            roster,
            cell_size: PixelSize { width: CELL_WIDTH, height: CELL_HEIGHT },
        }
    }

    /// The frame of the scene on a surface `screen_width` by `screen_height`
    /// pixels.
    pub open spec fn spec_frame(
        self,
        atlas: Map<char, crate::geometry::Region>,
        screen_width: int,
        screen_height: int,
    ) -> Seq<DrawCommand> {
        frame_commands(
            self.tiles@,
            self.roster@,
            atlas,
            self.cell_size,
            content_offset(),
            header_layout_spec(screen_width, screen_height),
            health_bar_spec(
                self.roster@[self.roster.spec_player_index()],
                HEALTH_BAR_WIDTH,
                self.map_size.0,
                self.cell_size,
                content_offset(),
            ).spec_elements(),
        )
    }

    /// Composes the frame of the scene on a surface `screen_width` by
    /// `screen_height` pixels: the header, the map below it, the entities on
    /// the map, and right of the map the health bar of the player.
    pub fn frame(&self, atlas: &GlyphAtlas, screen_width: i32, screen_height: i32) -> (frame: Vec<
        DrawCommand,
    >)
        ensures
            frame@ == self.spec_frame(atlas@, screen_width as int, screen_height as int),
    {
        let headers = header_layout(screen_width, screen_height);
        let bar = compute_health_bar(
            self.roster.player(),
            HEALTH_BAR_WIDTH,
            self.map_size.0,
            self.cell_size,
            content_offset(),
        );
        let ui_elements = bar.elements();
        render_frame(
            &self.tiles,
            self.roster.entities(),
            atlas,
            self.cell_size,
            content_offset(),
            &headers,
            &ui_elements,
        )
    }
}

} // verus!
