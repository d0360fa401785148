//! The glyph atlas: which slice of the rendered font strip shows which glyph.
//!
//! The alphabet is rendered once, as one horizontal strip whose height is the
//! cell height. The atlas cuts that strip into slices one cell wide: the glyph
//! at ordinal `i` of the alphabet owns the slice that starts `i` cell widths
//! from the left edge. This is right only for a renderer that advances by
//! exactly one cell width per glyph, as a monospace font does at a matching
//! point size; the atlas takes that on trust and never looks at pixels.
//!
//! Rendering is the front end's work. It asks [`strip_request`] what to
//! render, renders it, and hands [`build_atlas`] the outcome.

use crate::color::Color;
use crate::geometry::lemma_scaled_fits;
use crate::geometry::scale_and_shift;
use crate::geometry::PixelSize;
use crate::geometry::Region;
use std::collections::HashMap;
use vstd::prelude::*;
use vstd::std_specs::iter::IteratorSpec;

verus! {

/// What the front end is to render before an atlas can be built.
#[derive(Clone, Debug, PartialEq, Eq)]
pub struct StripRequest {
    /// The text of the strip: the alphabet, in order.
    pub text: String,
    /// The point size to render at: the height of a cell.
    pub point_size: usize,
    /// The colour to render in. White, so that a tint multiplies cleanly.
    pub color: Color,
}

/// How the rendering of the strip ended.
#[derive(Clone, Copy, Debug, PartialEq, Eq, Structural)]
pub enum StripOutcome {
    /// The renderer produced the strip texture.
    Rendered,
    /// The renderer produced nothing, for want of the font or of a texture.
    Failed,
}

/// Why no atlas could be built.
#[derive(Clone, Copy, Debug, PartialEq, Eq, Structural)]
pub enum AtlasBuildError {
    /// The font renderer did not produce the alphabet strip.
    StripUnavailable,
}

/// The slice of the strip that belongs to the glyph at ordinal `index`.
pub open spec fn glyph_region(index: int, cell_size: PixelSize) -> Region {
    Region {
        x: (index * cell_size.width) as u128,
        y: 0,
        width: cell_size.width,
        height: cell_size.height,
    }
}

/// Whether the glyph at ordinal `i` of the alphabet does not occur again
/// after `i`.
pub open spec fn last_occurrence(alphabet: Seq<char>, i: int) -> bool {
    &&& 0 <= i < alphabet.len()
    &&& forall|j: int| i < j < alphabet.len() ==> alphabet[j] != alphabet[i]
}

/// The ordinal of the last occurrence of `glyph` in the alphabet.
pub open spec fn last_ordinal(alphabet: Seq<char>, glyph: char) -> int {
    choose|i: int| #[trigger] last_occurrence(alphabet, i) && alphabet[i] == glyph
}

/// The atlas of an alphabet: every glyph of the alphabet has an entry, and
/// none else; a glyph's entry is the slice at the ordinal of its last
/// occurrence (its only one, where the alphabet's glyphs are distinct).
pub open spec fn atlas_regions(alphabet: Seq<char>, cell_size: PixelSize) -> Map<char, Region> {
    Map::new(
        |glyph: char| alphabet.contains(glyph),
        |glyph: char| glyph_region(last_ordinal(alphabet, glyph), cell_size),
    )
}

/// No two entries of the atlas share a pixel.
pub open spec fn regions_disjoint(regions: Map<char, Region>) -> bool {
    forall|a: char, b: char|
        a != b && #[trigger] regions.contains_key(a) && #[trigger] regions.contains_key(b)
            ==> !regions[a].overlaps(regions[b])
}

/// What [`build_atlas`] returns for an alphabet, a cell size and an outcome:
/// the atlas of the alphabet if the strip was rendered, the error if not.
pub open spec fn atlas_built(
    alphabet: Seq<char>,
    cell_size: PixelSize,
    strip: StripOutcome,
    built: Result<GlyphAtlas, AtlasBuildError>,
) -> bool {
    match built {
        Ok(atlas) => strip == StripOutcome::Rendered && atlas@ == atlas_regions(
            alphabet,
            cell_size,
        ),
        Err(error) => strip == StripOutcome::Failed && error == AtlasBuildError::StripUnavailable,
    }
}

/// Whether `glyph` is a Unicode scalar value, as every `char` at run time is.
spec fn is_scalar(glyph: char) -> bool {
    0 <= glyph as int <= 0x10FFFF
}

/// A map keyed by code point, read as a map keyed by character.
spec fn by_glyph(by_code: Map<u32, Region>) -> Map<char, Region> {
    Map::new(
        |glyph: char| is_scalar(glyph) && by_code.contains_key(glyph as u32),
        |glyph: char| by_code[glyph as u32],
    )
}

/// Storing a region under a glyph's code point stores it under the glyph.
proof fn lemma_by_glyph_insert(by_code: Map<u32, Region>, glyph: char, region: Region)
    requires
        is_scalar(glyph),
    ensures
        by_glyph(by_code.insert(glyph as u32, region)) == by_glyph(by_code).insert(glyph, region),
{
    let left = by_glyph(by_code.insert(glyph as u32, region));
    let right = by_glyph(by_code).insert(glyph, region);
    assert forall|other: char| left.contains_key(other) <==> right.contains_key(other) by {
        assert(is_scalar(other) && other as u32 == glyph as u32 ==> other == glyph);
    }
    assert forall|other: char| left.contains_key(other) implies left[other] == right[other] by {
        assert(is_scalar(other) && other as u32 == glyph as u32 ==> other == glyph);
    }
    assert(left =~= right);
}

/// The code point of `glyph`, the key under which the atlas files it.
fn code_point(glyph: char) -> (code: u32)
    ensures
        code == glyph as u32,
        is_scalar(glyph),
{
    glyph as u32
}

/// The slices at two different ordinals share no pixel.
pub proof fn lemma_slices_disjoint(i: int, j: int, cell_size: PixelSize)
    requires
        0 <= i <= usize::MAX,
        0 <= j <= usize::MAX,
        i != j,
    ensures
        !glyph_region(i, cell_size).overlaps(glyph_region(j, cell_size)),
{
    let w = cell_size.width as int;
    lemma_scaled_fits(i as usize, cell_size.width, 0);
    lemma_scaled_fits(j as usize, cell_size.width, 0);
    if i < j {
        assert(i * w + w <= j * w) by (nonlinear_arith)
            requires
                i + 1 <= j,
                0 <= w,
        ;
    } else {
        assert(j * w + w <= i * w) by (nonlinear_arith)
            requires
                j + 1 <= i,
                0 <= w,
        ;
    }
}

/// A glyph of the alphabet has exactly one last occurrence, and
/// [`last_ordinal`] is its ordinal.
pub proof fn lemma_last_ordinal(alphabet: Seq<char>, glyph: char)
    requires
        alphabet.contains(glyph),
    ensures
        last_occurrence(alphabet, last_ordinal(alphabet, glyph)),
        alphabet[last_ordinal(alphabet, glyph)] == glyph,
        forall|i: int|
            #[trigger] last_occurrence(alphabet, i) && alphabet[i] == glyph ==> i == last_ordinal(
                alphabet,
                glyph,
            ),
{
    alphabet.index_of_last_ensures(glyph);
    let found = alphabet.index_of_last(glyph).unwrap();
    assert(last_occurrence(alphabet, found));
    let chosen = last_ordinal(alphabet, glyph);
    assert forall|i: int| #[trigger]
        last_occurrence(alphabet, i) && alphabet[i] == glyph implies i == chosen by {
        if i < chosen {
            assert(alphabet[chosen] != alphabet[i]);
        } else if chosen < i {
            assert(alphabet[i] != alphabet[chosen]);
        }
    }
}

/// Appending a glyph to the alphabet adds or replaces that glyph's entry, and
/// leaves every other entry as it was.
pub proof fn lemma_atlas_regions_push(alphabet: Seq<char>, glyph: char, cell_size: PixelSize)
    ensures
        atlas_regions(alphabet.push(glyph), cell_size) == atlas_regions(alphabet, cell_size).insert(
            glyph,
            glyph_region(alphabet.len() as int, cell_size),
        ),
{
    let longer = alphabet.push(glyph);
    let left = atlas_regions(longer, cell_size);
    let right = atlas_regions(alphabet, cell_size).insert(
        glyph,
        glyph_region(alphabet.len() as int, cell_size),
    );
    assert forall|other: char| left.contains_key(other) <==> right.contains_key(other) by {
        if alphabet.contains(other) {
            let at = alphabet.index_of(other);
            assert(longer[at] == other);
        }
        if other == glyph {
            assert(longer[alphabet.len() as int] == other);
        }
    }
    assert forall|other: char| left.contains_key(other) implies left[other] == right[other] by {
        lemma_last_ordinal(longer, other);
        let last = last_ordinal(longer, other);
        if other == glyph {
            assert(longer[alphabet.len() as int] == glyph);
            assert(last == alphabet.len());
        } else {
            assert(alphabet[last] == other);
            lemma_last_ordinal(alphabet, other);
            let before = last_ordinal(alphabet, other);
            assert(longer[before] == other);
            assert(last_occurrence(longer, before)) by {
                assert forall|j: int| before < j < longer.len() implies longer[j]
                    != longer[before] by {
                    if j < alphabet.len() {
                        assert(alphabet[j] != alphabet[before]);
                    }
                }
            }
            assert(last == before);
        }
    }
    assert(left =~= right);
}

/// The entry of a glyph is the slice at the ordinal of its last occurrence.
pub proof fn lemma_atlas_region_at(alphabet: Seq<char>, cell_size: PixelSize, i: int)
    requires
        last_occurrence(alphabet, i),
    ensures
        atlas_regions(alphabet, cell_size).contains_key(alphabet[i]),
        atlas_regions(alphabet, cell_size)[alphabet[i]] == glyph_region(i, cell_size),
{
    lemma_last_ordinal(alphabet, alphabet[i]);
}

/// No two entries of an atlas share a pixel, whatever the alphabet.
pub proof fn lemma_atlas_regions_disjoint(alphabet: Seq<char>, cell_size: PixelSize)
    requires
        alphabet.len() <= usize::MAX,
    ensures
        regions_disjoint(atlas_regions(alphabet, cell_size)),
{
    let regions = atlas_regions(alphabet, cell_size);
    assert forall|a: char, b: char|
        a != b && #[trigger] regions.contains_key(a) && #[trigger] regions.contains_key(
            b,
        ) implies !regions[a].overlaps(regions[b]) by {
        lemma_last_ordinal(alphabet, a);
        lemma_last_ordinal(alphabet, b);
        lemma_slices_disjoint(last_ordinal(alphabet, a), last_ordinal(alphabet, b), cell_size);
    }
}

/// The atlas of an alphabet of `n` distinct glyphs has `n` entries, and the
/// entry of the glyph at ordinal `i` is the slice at `i`: it starts at
/// `x = i * width`, `y = 0`, and is one cell in size.
pub proof fn lemma_atlas_of_distinct(alphabet: Seq<char>, cell_size: PixelSize)
    requires
        alphabet.no_duplicates(),
        alphabet.len() <= usize::MAX,
    ensures
        atlas_regions(alphabet, cell_size).dom().finite(),
        atlas_regions(alphabet, cell_size).dom().len() == alphabet.len(),
        forall|i: int|
            0 <= i < alphabet.len() ==> {
                let region = #[trigger] atlas_regions(alphabet, cell_size)[alphabet[i]];
                &&& atlas_regions(alphabet, cell_size).contains_key(alphabet[i])
                &&& region == glyph_region(i, cell_size)
                &&& region.x == i * cell_size.width
                &&& region.y == 0
                &&& region.width == cell_size.width
                &&& region.height == cell_size.height
            },
{
    let regions = atlas_regions(alphabet, cell_size);
    assert(regions.dom() =~= alphabet.to_set());
    alphabet.unique_seq_to_set();
    assert forall|i: int| 0 <= i < alphabet.len() implies {
        let region = #[trigger] regions[alphabet[i]];
        &&& regions.contains_key(alphabet[i])
        &&& region == glyph_region(i, cell_size)
        &&& region.x == i * cell_size.width
    } by {
        assert(last_occurrence(alphabet, i));
        lemma_atlas_region_at(alphabet, cell_size, i);
        lemma_scaled_fits(i as usize, cell_size.width, 0);
    }
}

/// Building twice from the same alphabet, cell size and outcome gives the
/// same result: both succeed with the same glyph-to-region mapping, or both
/// fail.
pub proof fn lemma_build_atlas_deterministic(
    alphabet: Seq<char>,
    cell_size: PixelSize,
    strip: StripOutcome,
    first: Result<GlyphAtlas, AtlasBuildError>,
    second: Result<GlyphAtlas, AtlasBuildError>,
)
    requires
        atlas_built(alphabet, cell_size, strip, first),
        atlas_built(alphabet, cell_size, strip, second),
    ensures
        first is Ok <==> second is Ok,
        first is Ok ==> first->Ok_0@ == second->Ok_0@,
        first is Err ==> first->Err_0 == second->Err_0,
{
}

/// A mapping from glyph to the region of the strip texture that shows it.
/// Built once by [`build_atlas`] and read-only from then on. No two of its
/// regions share a pixel.
pub struct GlyphAtlas {
    regions: HashMap<u32, Region>,
}

impl View for GlyphAtlas {
    type V = Map<char, Region>;

    closed spec fn view(&self) -> Map<char, Region> {
        by_glyph(self.regions@)
    }
}

impl AtlasBuildError {
    /// The words of the error.
    pub open spec fn spec_message(self) -> Seq<char> {
        match self {
            AtlasBuildError::StripUnavailable =>
                "the font renderer did not produce the glyph strip"@,
        }
    }

    /// The error in words, for a log or a dialog.
    pub fn message(self) -> (text: &'static str)
        ensures
            text@ == self.spec_message(),
    {
        match self {
            AtlasBuildError::StripUnavailable => "the font renderer did not produce the glyph strip",
        }
    }
}

impl GlyphAtlas {
    #[verifier::type_invariant]
    spec fn well_formed(self) -> bool {
        regions_disjoint(self@)
    }

    /// The atlas without entries: what a scene is drawn with for as long as
    /// the strip has not been rendered. It skips every glyph.
    pub fn empty() -> (atlas: GlyphAtlas)
        ensures
            atlas@ == Map::<char, Region>::empty(),
    {
        let regions: HashMap<u32, Region> = HashMap::new();
        assert(by_glyph(regions@) =~= Map::<char, Region>::empty());
        GlyphAtlas { regions }
    }

    /// The region of `glyph`, or `None` if the atlas has no entry for it. A
    /// region that is found overlaps the region of no other glyph.
    pub fn lookup(&self, glyph: char) -> (found: Option<Region>)
        ensures
            self@.contains_key(glyph) ==> found == Some(self@[glyph]),
            !self@.contains_key(glyph) ==> found.is_none(),
            regions_disjoint(self@),
    {
        proof {
            use_type_invariant(self);
        }
        let code = code_point(glyph);
        match self.regions.get(&code) {
            Some(region) => Some(*region),
            None => None,
        }
    }
}

/// The characters of `text`, in order.
pub fn glyphs_of(text: &str) -> (glyphs: Vec<char>)
    ensures
        glyphs@ == text@,
{
    let mut glyphs: Vec<char> = Vec::new();
    for glyph in it: text.chars()
        invariant
            it.seq() == text@,
            glyphs@ == it.seq().take(it.index() as int),
    {
        glyphs.push(glyph);
    }
    glyphs
}

/// What to render for the atlas of `alphabet`: the alphabet itself, as one
/// line, in white, at the height of a cell.
pub fn strip_request(alphabet: &str, cell_size: PixelSize) -> (request: StripRequest)
    ensures
        request.text@ == alphabet@,
        request.point_size == cell_size.height,
        request.color == Color::white(),
{
    StripRequest { text: alphabet.to_owned(), point_size: cell_size.height, color: Color::white() }
}

/// Builds the atlas of `alphabet` once the strip has been rendered.
///
/// Fails exactly if the strip was not rendered. Otherwise the glyph at ordinal
/// `i` gets the region at `x = i * width`, `y = 0`, one cell in size; a glyph
/// that occurs more than once keeps the region of its last occurrence.
pub fn build_atlas(alphabet: &str, cell_size: PixelSize, strip: StripOutcome) -> (built: Result<
    GlyphAtlas,
    AtlasBuildError,
>)
    ensures
        atlas_built(alphabet@, cell_size, strip, built),
        built is Ok <==> strip == StripOutcome::Rendered,
        built is Ok ==> regions_disjoint(built->Ok_0@),
        built is Ok ==> forall|glyph: char|
            alphabet@.contains(glyph) <==> #[trigger] built->Ok_0@.contains_key(glyph),
        built is Ok ==> forall|i: int| #[trigger]
            last_occurrence(alphabet@, i) ==> built->Ok_0@[alphabet@[i]] == glyph_region(
                i,
                cell_size,
            ),
        built is Ok && alphabet@.no_duplicates() ==> {
            &&& built->Ok_0@.dom().finite()
            &&& built->Ok_0@.dom().len() == alphabet@.len()
            &&& forall|i: int|
                0 <= i < alphabet@.len() ==> {
                    let region = #[trigger] built->Ok_0@[alphabet@[i]];
                    &&& region.x == i * cell_size.width
                    &&& region.y == 0
                    &&& region.width == cell_size.width
                    &&& region.height == cell_size.height
                }
        },
{
    match strip {
        StripOutcome::Failed => Err(AtlasBuildError::StripUnavailable),
        StripOutcome::Rendered => {
            let glyphs = glyphs_of(alphabet);
            let mut regions: HashMap<u32, Region> = HashMap::new();
            let mut index: usize = 0;
            assert(by_glyph(regions@) =~= atlas_regions(glyphs@.take(0), cell_size));
            while index < glyphs.len()
                invariant
                    index <= glyphs.len(),
                    by_glyph(regions@) == atlas_regions(glyphs@.take(index as int), cell_size),
                decreases glyphs.len() - index,
            {
                let glyph = glyphs[index];
                let region = Region {
                    x: scale_and_shift(index, cell_size.width, 0),
                    y: 0,
                    width: cell_size.width,
                    height: cell_size.height,
                };
                let code = code_point(glyph);
                proof {
                    let before = glyphs@.take(index as int);
                    lemma_atlas_regions_push(before, glyph, cell_size);
                    assert(before.push(glyph) =~= glyphs@.take(index + 1));
                    lemma_by_glyph_insert(regions@, glyph, region);
                }
                regions.insert(code, region);
                index += 1;
            }
            proof {
                assert(glyphs@.take(index as int) =~= alphabet@);
                lemma_atlas_regions_disjoint(alphabet@, cell_size);
                if alphabet@.no_duplicates() {
                    lemma_atlas_of_distinct(alphabet@, cell_size);
                }
                assert forall|i: int| #[trigger] last_occurrence(alphabet@, i) implies atlas_regions(
                    alphabet@,
                    cell_size,
                )[alphabet@[i]] == glyph_region(i, cell_size) by {
                    lemma_atlas_region_at(alphabet@, cell_size, i);
                }
            }
            Ok(GlyphAtlas { regions })
        },
    }
}

} // verus!
