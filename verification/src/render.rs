//! Frame composition: from a scene to the ordered list of draw commands.
//!
//! A frame is drawn in five passes, and later passes paint over earlier ones:
//! the surface is cleared, then come the header texts, the tiles in map
//! order, the entities in roster order, and the overlay last. So an entity
//! always shows above the tile it stands on, and the overlay above both.
//!
//! A tile or an entity whose glyph the atlas does not hold is left out, and
//! everything after it is drawn as if it had not been there.

use crate::atlas::GlyphAtlas;
use crate::color::Color;
use crate::entity::Entity;
use crate::geometry::grid_to_screen;
use crate::geometry::grid_to_screen_spec;
use crate::geometry::lemma_scaled_fits;
use crate::geometry::PixelOffset;
use crate::geometry::PixelSize;
use crate::geometry::Region;
use crate::geometry::ScreenPoint;
use crate::health::UiBar;
use crate::tile::Tile;
use vstd::prelude::*;

verus! {

/// The texts that stand above and below the map.
#[derive(Clone, Copy, Debug, PartialEq, Eq, Structural)]
pub enum HeaderText {
    /// The name of the game.
    Title,
    /// The credit for the font of the texts.
    MononokiCredit,
    /// The credit for the font of the glyphs.
    SquareCredit,
}

/// Where a header text goes. The front end knows how large the rendered text
/// is, and works out the rectangle from that.
#[derive(Clone, Copy, Debug, PartialEq, Eq, Structural)]
pub enum Placement {
    /// The middle of the text lies on this pixel.
    Centered { x: i64, y: i64 },
    /// The top left corner of the text lies on this pixel.
    TopLeft { x: i64, y: i64 },
}

/// One header text and its place.
#[derive(Clone, Copy, Debug, PartialEq, Eq, Structural)]
pub struct HeaderElement {
    pub text: HeaderText,
    pub placement: Placement,
}

/// One operation on the display surface.
#[derive(Clone, Copy, Debug, PartialEq, Eq, Structural)]
pub enum DrawCommand {
    /// Fill the whole surface with `color`.
    Clear { color: Color },
    /// Draw a header text.
    Header { element: HeaderElement },
    /// Draw `region` of the strip texture with its top left corner on `at`,
    /// in its own size, tinted with `tint`.
    Glyph { glyph: char, region: Region, at: ScreenPoint, tint: Color },
    /// Fill a rectangle of the overlay.
    Bar { bar: UiBar },
}

/// The vertical middle of the title, in pixels from the top.
pub const TITLE_CENTER_Y: i64 = 40;

/// The left edge of the font credits, in pixels.
pub const CREDIT_LEFT: i64 = 2;

/// How far above the bottom edge the first font credit starts, in pixels.
pub const MONONOKI_CREDIT_RISE: i64 = 60;

/// How far above the bottom edge the second font credit starts, in pixels.
pub const SQUARE_CREDIT_RISE: i64 = 30;

/// Half of `length`, rounded toward zero.
pub open spec fn half(length: int) -> int {
    if length >= 0 {
        length / 2
    } else {
        -((-length) / 2)
    }
}

/// The header of a surface `screen_width` by `screen_height` pixels: the
/// title centred near the top, and the two font credits at the left edge
/// near the bottom.
pub open spec fn header_layout_spec(screen_width: int, screen_height: int) -> Seq<HeaderElement> {
    seq![
        HeaderElement {
            text: HeaderText::Title,
            placement: Placement::Centered { x: half(screen_width) as i64, y: TITLE_CENTER_Y },
        },
        HeaderElement {
            text: HeaderText::MononokiCredit,
            placement: Placement::TopLeft {
                x: CREDIT_LEFT,
                y: (screen_height - MONONOKI_CREDIT_RISE) as i64,
            },
        },
        HeaderElement {
            text: HeaderText::SquareCredit,
            placement: Placement::TopLeft {
                x: CREDIT_LEFT,
                y: (screen_height - SQUARE_CREDIT_RISE) as i64,
            },
        },
    ]
}

/// The command that draws something with `glyph` at grid `position`, or
/// `None` where the atlas has no entry for the glyph.
pub open spec fn glyph_command(
    position: (usize, usize),
    glyph: char,
    color: Color,
    atlas: Map<char, Region>,
    cell_size: PixelSize,
    content_offset: PixelOffset,
) -> Option<DrawCommand> {
    if atlas.contains_key(glyph) {
        Some(
            DrawCommand::Glyph {
                glyph,
                region: atlas[glyph],
                at: grid_to_screen_spec(position, cell_size, content_offset),
                tint: color,
            },
        )
    } else {
        None
    }
}

/// How a tile is drawn, as a function of the tile.
pub open spec fn tile_drawer(
    atlas: Map<char, Region>,
    cell_size: PixelSize,
    content_offset: PixelOffset,
) -> spec_fn(Tile) -> Option<DrawCommand> {
    |tile: Tile|
        glyph_command(tile.position, tile.glyph, tile.color, atlas, cell_size, content_offset)
}

/// How an entity is drawn, as a function of the entity.
pub open spec fn entity_drawer(
    atlas: Map<char, Region>,
    cell_size: PixelSize,
    content_offset: PixelOffset,
) -> spec_fn(Entity) -> Option<DrawCommand> {
    |entity: Entity|
        glyph_command(
            entity.position,
            entity.glyph,
            entity.color,
            atlas,
            cell_size,
            content_offset,
        )
}

/// The tile pass: a command for each tile whose glyph the atlas holds, in
/// map order.
pub open spec fn tile_commands(
    tiles: Seq<Tile>,
    atlas: Map<char, Region>,
    cell_size: PixelSize,
    content_offset: PixelOffset,
) -> Seq<DrawCommand> {
    tiles.filter_map(tile_drawer(atlas, cell_size, content_offset))
}

/// The entity pass: a command for each entity whose glyph the atlas holds,
/// in roster order.
pub open spec fn entity_commands(
    entities: Seq<Entity>,
    atlas: Map<char, Region>,
    cell_size: PixelSize,
    content_offset: PixelOffset,
) -> Seq<DrawCommand> {
    entities.filter_map(entity_drawer(atlas, cell_size, content_offset))
}

/// The header pass: a command for each header element, in order.
pub open spec fn header_commands(headers: Seq<HeaderElement>) -> Seq<DrawCommand> {
    headers.map_values(|element: HeaderElement| DrawCommand::Header { element })
}

/// The overlay pass: a command for each rectangle, in order.
pub open spec fn overlay_commands(ui_elements: Seq<UiBar>) -> Seq<DrawCommand> {
    ui_elements.map_values(|bar: UiBar| DrawCommand::Bar { bar })
}

/// The whole frame: the clear, then the four passes in their order.
pub open spec fn frame_commands(
    tiles: Seq<Tile>,
    entities: Seq<Entity>,
    atlas: Map<char, Region>,
    cell_size: PixelSize,
    content_offset: PixelOffset,
    headers: Seq<HeaderElement>,
    ui_elements: Seq<UiBar>,
) -> Seq<DrawCommand> {
    seq![DrawCommand::Clear { color: Color::white() }] + header_commands(headers) + tile_commands(
        tiles,
        atlas,
        cell_size,
        content_offset,
    ) + entity_commands(entities, atlas, cell_size, content_offset) + overlay_commands(
        ui_elements,
    )
}

/// A pass over two stretches of a sequence, one after the other, is the pass
/// over the first followed by the pass over the second.
pub proof fn lemma_pass_splits<A>(
    first: Seq<A>,
    second: Seq<A>,
    draw: spec_fn(A) -> Option<DrawCommand>,
)
    ensures
        (first + second).filter_map(draw) == first.filter_map(draw) + second.filter_map(draw),
    decreases second.len(),
{
    if second.len() == 0 {
        assert(first + second =~= first);
        assert(first.filter_map(draw) + second.filter_map(draw) =~= first.filter_map(draw));
    } else {
        let whole = first + second;
        assert(whole.drop_last() =~= first + second.drop_last());
        assert(whole.last() == second.last());
        lemma_pass_splits(first, second.drop_last(), draw);
        match draw(second.last()) {
            Some(command) => {
                assert(whole.filter_map(draw) =~= first.filter_map(draw) + second.filter_map(
                    draw,
                ));
            },
            None => {},
        }
    }
}

/// A tile whose glyph the atlas does not hold adds no command to the tile
/// pass, and the tiles before and after it are drawn as without it.
pub proof fn lemma_missing_tile_skipped(
    before: Seq<Tile>,
    tile: Tile,
    after: Seq<Tile>,
    atlas: Map<char, Region>,
    cell_size: PixelSize,
    content_offset: PixelOffset,
)
    requires
        !atlas.contains_key(tile.glyph),
    ensures
        tile_commands(before + seq![tile] + after, atlas, cell_size, content_offset)
            == tile_commands(before, atlas, cell_size, content_offset) + tile_commands(
            after,
            atlas,
            cell_size,
            content_offset,
        ),
{
    let draw = tile_drawer(atlas, cell_size, content_offset);
    let alone = seq![tile];
    assert(alone.drop_last() =~= Seq::<Tile>::empty());
    assert(alone.last() == tile);
    assert(alone.drop_last().filter_map(draw) =~= Seq::<DrawCommand>::empty());
    assert(alone.filter_map(draw) =~= Seq::<DrawCommand>::empty());
    lemma_pass_splits(before, alone, draw);
    lemma_pass_splits(before + alone, after, draw);
    assert(before.filter_map(draw) + alone.filter_map(draw) =~= before.filter_map(draw));
}

/// An entity whose glyph the atlas does not hold adds no command to the
/// entity pass, and the entities before and after it are drawn as without it.
pub proof fn lemma_missing_entity_skipped(
    before: Seq<Entity>,
    entity: Entity,
    after: Seq<Entity>,
    atlas: Map<char, Region>,
    cell_size: PixelSize,
    content_offset: PixelOffset,
)
    requires
        !atlas.contains_key(entity.glyph),
    ensures
        entity_commands(before + seq![entity] + after, atlas, cell_size, content_offset)
            == entity_commands(before, atlas, cell_size, content_offset) + entity_commands(
            after,
            atlas,
            cell_size,
            content_offset,
        ),
{
    let draw = entity_drawer(atlas, cell_size, content_offset);
    let alone = seq![entity];
    assert(alone.drop_last() =~= Seq::<Entity>::empty());
    assert(alone.last() == entity);
    assert(alone.drop_last().filter_map(draw) =~= Seq::<DrawCommand>::empty());
    assert(alone.filter_map(draw) =~= Seq::<DrawCommand>::empty());
    lemma_pass_splits(before, alone, draw);
    lemma_pass_splits(before + alone, after, draw);
    assert(before.filter_map(draw) + alone.filter_map(draw) =~= before.filter_map(draw));
}

/// A tile or an entity whose glyph the atlas holds is drawn from the glyph's
/// region, at `(col * width, row * height)` plus the content offset, in its
/// own colour.
pub proof fn lemma_glyph_placement(
    position: (usize, usize),
    glyph: char,
    color: Color,
    atlas: Map<char, Region>,
    cell_size: PixelSize,
    content_offset: PixelOffset,
)
    requires
        atlas.contains_key(glyph),
    ensures
        glyph_command(position, glyph, color, atlas, cell_size, content_offset) matches Some(
            DrawCommand::Glyph { glyph: drawn, region, at, tint },
        ) && {
            &&& drawn == glyph
            &&& region == atlas[glyph]
            &&& tint == color
            &&& at.x == position.1 * cell_size.width + content_offset.x
            &&& at.y == position.0 * cell_size.height + content_offset.y
        },
{
    lemma_scaled_fits(position.1, cell_size.width, content_offset.x);
    lemma_scaled_fits(position.0, cell_size.height, content_offset.y);
}

/// The layers of a frame, bottom to top: the clear comes first, then every
/// header, then every tile that is drawn, then every entity that is drawn,
/// then every overlay rectangle. So whatever an entity paints lies above all
/// tiles, and the overlay above all entities.
pub proof fn lemma_frame_layers(
    tiles: Seq<Tile>,
    entities: Seq<Entity>,
    atlas: Map<char, Region>,
    cell_size: PixelSize,
    content_offset: PixelOffset,
    headers: Seq<HeaderElement>,
    ui_elements: Seq<UiBar>,
)
    ensures
        ({
            let frame = frame_commands(
                tiles,
                entities,
                atlas,
                cell_size,
                content_offset,
                headers,
                ui_elements,
            );
            let tile_pass = tile_commands(tiles, atlas, cell_size, content_offset);
            let entity_pass = entity_commands(entities, atlas, cell_size, content_offset);
            let h = headers.len() as int;
            let t = tile_pass.len() as int;
            let e = entity_pass.len() as int;
            let u = ui_elements.len() as int;
            &&& frame.len() == 1 + h + t + e + u
            &&& t <= tiles.len()
            &&& e <= entities.len()
            &&& frame[0] == DrawCommand::Clear { color: Color::white() }
            &&& forall|k: int|
                0 <= k < h ==> #[trigger] frame[1 + k] == (DrawCommand::Header {
                    element: headers[k],
                })
            &&& forall|k: int| 0 <= k < t ==> #[trigger] frame[1 + h + k] == tile_pass[k]
            &&& forall|k: int| 0 <= k < e ==> #[trigger] frame[1 + h + t + k] == entity_pass[k]
            &&& forall|k: int|
                0 <= k < u ==> #[trigger] frame[1 + h + t + e + k] == (DrawCommand::Bar {
                    bar: ui_elements[k],
                })
        }),
{
    lemma_pass_bounded(tiles, tile_drawer(atlas, cell_size, content_offset));
    lemma_pass_bounded(entities, entity_drawer(atlas, cell_size, content_offset));
}

/// A pass gives at most one command for each item.
pub proof fn lemma_pass_bounded<A>(items: Seq<A>, draw: spec_fn(A) -> Option<DrawCommand>)
    ensures
        items.filter_map(draw).len() <= items.len(),
    decreases items.len(),
{
    if items.len() > 0 {
        lemma_pass_bounded(items.drop_last(), draw);
    }
}

/// Lays out the header of a surface `screen_width` by `screen_height` pixels.
pub fn header_layout(screen_width: i32, screen_height: i32) -> (headers: Vec<HeaderElement>)
    ensures
        headers@ == header_layout_spec(screen_width as int, screen_height as int),
{
    let width: i64 = screen_width as i64;
    let height: i64 = screen_height as i64;
    let center_x: i64 = if width >= 0 {
        width / 2
    } else {
        -((-width) / 2)
    };
    let mut headers: Vec<HeaderElement> = Vec::new();
    headers.push(
        HeaderElement {
            text: HeaderText::Title,
            placement: Placement::Centered { x: center_x, y: TITLE_CENTER_Y },
        },
    );
    headers.push(
        HeaderElement {
            text: HeaderText::MononokiCredit,
            placement: Placement::TopLeft { x: CREDIT_LEFT, y: height - MONONOKI_CREDIT_RISE },
        },
    );
    headers.push(
        HeaderElement {
            text: HeaderText::SquareCredit,
            placement: Placement::TopLeft { x: CREDIT_LEFT, y: height - SQUARE_CREDIT_RISE },
        },
    );
    assert(headers@ =~= header_layout_spec(screen_width as int, screen_height as int));
    headers
}

impl HeaderText {
    /// The words of the text.
    pub open spec fn spec_words(self) -> Seq<char> {
        match self {
            HeaderText::Title => "Roguelike game in Rust"@,
            HeaderText::MononokiCredit =>
                "Mononoki font by Matthias Tellen, terms: SIL Open Font License 1.1"@,
            HeaderText::SquareCredit => "Square font by Wouter Van Oortmerssen, terms: CC BY 3.0"@,
        }
    }

    /// The words of the text.
    pub fn words(self) -> (words: &'static str)
        ensures
            words@ == self.spec_words(),
    {
        match self {
            HeaderText::Title => "Roguelike game in Rust",
            HeaderText::MononokiCredit =>
                "Mononoki font by Matthias Tellen, terms: SIL Open Font License 1.1",
            HeaderText::SquareCredit => "Square font by Wouter Van Oortmerssen, terms: CC BY 3.0",
        }
    }

    /// The colour the text is rendered in.
    pub open spec fn spec_color(self) -> Color {
        Color::black()
    }

    /// The colour the text is rendered in.
    #[verifier::when_used_as_spec(spec_color)]
    pub fn color(self) -> (color: Color)
        ensures
            color == self.spec_color(),
    {
        Color::black()
    }

    /// The point size the text is rendered at.
    pub open spec fn spec_point_size(self) -> usize {
        match self {
            HeaderText::Title => 72,
            HeaderText::MononokiCredit => 20,
            HeaderText::SquareCredit => 20,
        }
    }

    /// The point size the text is rendered at.
    #[verifier::when_used_as_spec(spec_point_size)]
    pub fn point_size(self) -> (size: usize)
        ensures
            size == self.spec_point_size(),
    {
        match self {
            HeaderText::Title => 72,
            HeaderText::MononokiCredit => 20,
            HeaderText::SquareCredit => 20,
        }
    }
}

/// Draws one glyph: the command for something with `glyph` at grid
/// `position`, or `None` where the atlas has no entry for the glyph.
pub fn draw_glyph(
    position: (usize, usize),
    glyph: char,
    color: Color,
    atlas: &GlyphAtlas,
    cell_size: PixelSize,
    content_offset: PixelOffset,
) -> (command: Option<DrawCommand>)
    ensures
        command == glyph_command(position, glyph, color, atlas@, cell_size, content_offset),
{
    match atlas.lookup(glyph) {
        Some(region) => Some(
            DrawCommand::Glyph {
                glyph,
                region,
                at: grid_to_screen(position, cell_size, content_offset),
                tint: color,
            },
        ),
        None => None,
    }
}

/// Composes one frame.
///
/// The commands come in drawing order: the clear to white; the headers; a
/// glyph for each tile, in map order; a glyph for each entity, in roster
/// order; the overlay rectangles. A tile or an entity at grid `(row, col)` is
/// drawn at `(col * width, row * height)` plus the content offset. One whose
/// glyph the atlas does not hold is skipped, and the rest is drawn all the
/// same.
pub fn render_frame(
    tiles: &Vec<Tile>,
    entities: &Vec<Entity>,
    atlas: &GlyphAtlas,
    cell_size: PixelSize,
    content_offset: PixelOffset,
    headers: &Vec<HeaderElement>,
    ui_elements: &Vec<UiBar>,
) -> (frame: Vec<DrawCommand>)
    ensures
        frame@ == frame_commands(
            tiles@,
            entities@,
            atlas@,
            cell_size,
            content_offset,
            headers@,
            ui_elements@,
        ),
{
    let ghost cleared = seq![DrawCommand::Clear { color: Color::white() }];
    let mut frame: Vec<DrawCommand> = Vec::new();
    frame.push(DrawCommand::Clear { color: Color::white() });
    assert(frame@ =~= cleared + header_commands(headers@.take(0)));

    let mut h: usize = 0;
    while h < headers.len()
        invariant
            h <= headers.len(),
            frame@ == cleared + header_commands(headers@.take(h as int)),
        decreases headers.len() - h,
    {
        frame.push(DrawCommand::Header { element: headers[h] });
        assert(frame@ =~= cleared + header_commands(headers@.take(h + 1)));
        h += 1;
    }
    assert(headers@.take(h as int) =~= headers@);
    let ghost headed = cleared + header_commands(headers@);

    let ghost draw_tile = tile_drawer(atlas@, cell_size, content_offset);
    assert(frame@ =~= headed + tiles@.take(0).filter_map(draw_tile));
    let mut t: usize = 0;
    while t < tiles.len()
        invariant
            t <= tiles.len(),
            draw_tile == tile_drawer(atlas@, cell_size, content_offset),
            frame@ == headed + tiles@.take(t as int).filter_map(draw_tile),
        decreases tiles.len() - t,
    {
        let tile = tiles[t];
        let command = draw_glyph(
            tile.position,
            tile.glyph,
            tile.color,
            atlas,
            cell_size,
            content_offset,
        );
        proof {
            let longer = tiles@.take(t + 1);
            assert(longer.drop_last() =~= tiles@.take(t as int));
            assert(longer.last() == tile);
            assert(draw_tile(tile) == command);
        }
        match command {
            Some(command) => {
                frame.push(command);
                assert(frame@ =~= headed + tiles@.take(t + 1).filter_map(draw_tile));
            },
            None => {},
        }
        t += 1;
    }
    assert(tiles@.take(t as int) =~= tiles@);
    let ghost tiled = headed + tile_commands(tiles@, atlas@, cell_size, content_offset);

    let ghost draw_entity = entity_drawer(atlas@, cell_size, content_offset);
    assert(frame@ =~= tiled + entities@.take(0).filter_map(draw_entity));
    let mut e: usize = 0;
    while e < entities.len()
        invariant
            e <= entities.len(),
            draw_entity == entity_drawer(atlas@, cell_size, content_offset),
            frame@ == tiled + entities@.take(e as int).filter_map(draw_entity),
        decreases entities.len() - e,
    {
        let entity = entities[e];
        let command = draw_glyph(
            entity.position,
            entity.glyph,
            entity.color,
            atlas,
            cell_size,
            content_offset,
        );
        proof {
            let longer = entities@.take(e + 1);
            assert(longer.drop_last() =~= entities@.take(e as int));
            assert(longer.last() == entity);
            assert(draw_entity(entity) == command);
        }
        match command {
            Some(command) => {
                frame.push(command);
                assert(frame@ =~= tiled + entities@.take(e + 1).filter_map(draw_entity));
            },
            None => {},
        }
        e += 1;
    }
    assert(entities@.take(e as int) =~= entities@);
    let ghost peopled = tiled + entity_commands(entities@, atlas@, cell_size, content_offset);

    assert(frame@ =~= peopled + overlay_commands(ui_elements@.take(0)));
    let mut u: usize = 0;
    while u < ui_elements.len()
        invariant
            u <= ui_elements.len(),
            frame@ == peopled + overlay_commands(ui_elements@.take(u as int)),
        decreases ui_elements.len() - u,
    {
        frame.push(DrawCommand::Bar { bar: ui_elements[u] });
        assert(frame@ =~= peopled + overlay_commands(ui_elements@.take(u + 1)));
        u += 1;
    }
    assert(ui_elements@.take(u as int) =~= ui_elements@);
    frame
}

} // verus!
