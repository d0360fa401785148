use roguelike::atlas::{
    build_atlas, glyphs_of, strip_request, AtlasBuildError, GlyphAtlas, StripOutcome,
};
use roguelike::color::Color;
use roguelike::geometry::{PixelSize, Region};

fn cell(width: usize, height: usize) -> PixelSize {
    PixelSize { width, height }
}

#[test]
fn atlas_round_trip() {
    let alphabet = "#@g.%";
    let atlas = build_atlas(alphabet, cell(24, 24), StripOutcome::Rendered).unwrap();
    for (i, glyph) in alphabet.chars().enumerate() {
        let region = atlas.lookup(glyph).unwrap();
        assert_eq!(region, Region { x: (i as u128) * 24, y: 0, width: 24, height: 24 });
    }
    assert_eq!(atlas.lookup('g'), Some(Region { x: 48, y: 0, width: 24, height: 24 }));
    assert_eq!(atlas.lookup('%'), Some(Region { x: 96, y: 0, width: 24, height: 24 }));
}

#[test]
fn atlas_has_exactly_the_alphabet() {
    let alphabet = "#@g.%";
    let atlas = build_atlas(alphabet, cell(24, 24), StripOutcome::Rendered).unwrap();
    let mut entries = 0;
    for code in 0u32..0x3000 {
        if let Some(glyph) = char::from_u32(code) {
            let found = atlas.lookup(glyph).is_some();
            assert_eq!(found, alphabet.contains(glyph));
            if found {
                entries += 1;
            }
        }
    }
    assert_eq!(entries, 5);
}

#[test]
fn atlas_regions_do_not_overlap() {
    let alphabet = "#@g.%";
    let atlas = build_atlas(alphabet, cell(12, 24), StripOutcome::Rendered).unwrap();
    let glyphs: Vec<char> = alphabet.chars().collect();
    for i in 0..glyphs.len() {
        for j in 0..glyphs.len() {
            let a = atlas.lookup(glyphs[i]).unwrap();
            let b = atlas.lookup(glyphs[j]).unwrap();
            assert_eq!(a.overlaps(b), i == j);
        }
    }
}

#[test]
fn atlas_cell_need_not_be_square() {
    let atlas = build_atlas("xyz", cell(7, 13), StripOutcome::Rendered).unwrap();
    assert_eq!(atlas.lookup('x'), Some(Region { x: 0, y: 0, width: 7, height: 13 }));
    assert_eq!(atlas.lookup('y'), Some(Region { x: 7, y: 0, width: 7, height: 13 }));
    assert_eq!(atlas.lookup('z'), Some(Region { x: 14, y: 0, width: 7, height: 13 }));
}

#[test]
fn atlas_is_the_same_every_time() {
    let alphabet = "#@g.%";
    let first = build_atlas(alphabet, cell(24, 24), StripOutcome::Rendered).unwrap();
    let second = build_atlas(alphabet, cell(24, 24), StripOutcome::Rendered).unwrap();
    for glyph in "#@g.%xyz ".chars() {
        assert_eq!(first.lookup(glyph), second.lookup(glyph));
    }
    assert_eq!(
        build_atlas(alphabet, cell(24, 24), StripOutcome::Failed).err(),
        build_atlas(alphabet, cell(24, 24), StripOutcome::Failed).err()
    );
}

#[test]
fn atlas_fails_without_the_strip() {
    let built = build_atlas("#@g.%", cell(24, 24), StripOutcome::Failed);
    assert_eq!(built.err(), Some(AtlasBuildError::StripUnavailable));
    let empty = build_atlas("", cell(24, 24), StripOutcome::Failed);
    assert_eq!(empty.err(), Some(AtlasBuildError::StripUnavailable));
}

#[test]
fn atlas_lookup_of_absent_glyph_is_none() {
    let atlas = build_atlas("#@g.%", cell(24, 24), StripOutcome::Rendered).unwrap();
    assert_eq!(atlas.lookup('x'), None);
    assert_eq!(atlas.lookup(' '), None);
    assert_eq!(atlas.lookup('\u{10FFFF}'), None);
}

#[test]
fn atlas_of_empty_alphabet_is_empty() {
    let atlas = build_atlas("", cell(24, 24), StripOutcome::Rendered).unwrap();
    assert_eq!(atlas.lookup('#'), None);
    assert_eq!(atlas.lookup('\0'), None);
}

#[test]
fn atlas_repeated_glyph_keeps_last_slice() {
    let atlas = build_atlas("aba", cell(10, 24), StripOutcome::Rendered).unwrap();
    assert_eq!(atlas.lookup('a'), Some(Region { x: 20, y: 0, width: 10, height: 24 }));
    assert_eq!(atlas.lookup('b'), Some(Region { x: 10, y: 0, width: 10, height: 24 }));
    assert!(!atlas.lookup('a').unwrap().overlaps(atlas.lookup('b').unwrap()));
}

#[test]
fn atlas_counts_characters_not_bytes() {
    let atlas = build_atlas("é☺z", cell(8, 8), StripOutcome::Rendered).unwrap();
    assert_eq!(atlas.lookup('é'), Some(Region { x: 0, y: 0, width: 8, height: 8 }));
    assert_eq!(atlas.lookup('☺'), Some(Region { x: 8, y: 0, width: 8, height: 8 }));
    assert_eq!(atlas.lookup('z'), Some(Region { x: 16, y: 0, width: 8, height: 8 }));
}

#[test]
fn atlas_of_widest_cells_does_not_wrap() {
    let atlas = build_atlas("abc", cell(usize::MAX, 1), StripOutcome::Rendered).unwrap();
    let c = atlas.lookup('c').unwrap();
    assert_eq!(c.x, 2 * (usize::MAX as u128));
    assert!(!c.overlaps(atlas.lookup('b').unwrap()));
}

#[test]
fn atlas_of_zero_width_cells() {
    let atlas = build_atlas("ab", cell(0, 24), StripOutcome::Rendered).unwrap();
    let a = atlas.lookup('a').unwrap();
    let b = atlas.lookup('b').unwrap();
    assert_eq!(a, Region { x: 0, y: 0, width: 0, height: 24 });
    assert_eq!(b, Region { x: 0, y: 0, width: 0, height: 24 });
    assert!(!a.overlaps(b));
}

#[test]
fn strip_request_asks_for_the_alphabet_in_white() {
    let request = strip_request("#@g.%", cell(24, 32));
    assert_eq!(request.text, "#@g.%");
    assert_eq!(request.point_size, 32);
    assert_eq!(request.color, Color { r: 255, g: 255, b: 255, a: 255 });
}

#[test]
fn glyphs_of_gives_the_characters_in_order() {
    assert_eq!(glyphs_of("#@g.%"), vec!['#', '@', 'g', '.', '%']);
    assert_eq!(glyphs_of(""), Vec::<char>::new());
    assert_eq!(glyphs_of("é☺"), vec!['é', '☺']);
}

#[test]
fn empty_atlas_holds_no_glyph() {
    let atlas = GlyphAtlas::empty();
    for glyph in "#@g.%\0 ".chars() {
        assert_eq!(atlas.lookup(glyph), None);
    }
}

#[test]
fn atlas_error_in_words() {
    assert_eq!(
        AtlasBuildError::StripUnavailable.message(),
        "the font renderer did not produce the glyph strip"
    );
}
