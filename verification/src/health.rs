//! The health bar: how full it is, and where it stands.
//!
//! The bar is two rectangles on one origin: a translucent one of the full
//! width, and over it an opaque one whose width is the full width times
//! `hp / max_hp`, clamped to lie between zero and one. That fraction is kept
//! exact, as a numerator and a denominator: the front end multiplies it out
//! in whatever arithmetic its surface draws in.

use crate::color::Color;
use crate::entity::Entity;
use crate::geometry::scale_and_shift;
use crate::geometry::PixelOffset;
use crate::geometry::PixelSize;
use crate::geometry::ScreenPoint;
use vstd::math::abs;
use vstd::prelude::*;

verus! {

/// The alpha of the translucent rectangle behind the filled part of a bar.
pub const TRANSLUCENT_ALPHA: u8 = 128;

/// A fraction `numerator / denominator`.
#[derive(Clone, Copy, Debug, PartialEq, Eq, Structural)]
pub struct Ratio {
    pub numerator: u32,
    pub denominator: u32,
}

impl Ratio {
    /// Whether the fraction is defined and lies between zero and one.
    pub open spec fn is_proper(self) -> bool {
        self.numerator <= self.denominator && self.denominator >= 1
    }

    pub open spec fn spec_zero() -> Ratio {
        Ratio { numerator: 0, denominator: 1 }
    }

    /// The fraction zero.
    #[verifier::when_used_as_spec(spec_zero)]
    pub fn zero() -> (ratio: Ratio)
        ensures
            ratio == Self::spec_zero(),
    {
        Ratio { numerator: 0, denominator: 1 }
    }

    pub open spec fn spec_one() -> Ratio {
        Ratio { numerator: 1, denominator: 1 }
    }

    /// The fraction one.
    #[verifier::when_used_as_spec(spec_one)]
    pub fn one() -> (ratio: Ratio)
        ensures
            ratio == Self::spec_one(),
    {
        Ratio { numerator: 1, denominator: 1 }
    }
}

/// A filled rectangle of the overlay. It is `height` pixels tall and
/// `full_width * fill` pixels wide, which need not be a whole number.
#[derive(Clone, Copy, Debug, PartialEq, Eq, Structural)]
pub struct UiBar {
    pub origin: ScreenPoint,
    pub full_width: usize,
    pub height: usize,
    pub fill: Ratio,
    pub color: Color,
}

/// The two rectangles of a health bar.
#[derive(Clone, Copy, Debug, PartialEq, Eq, Structural)]
pub struct HealthBar {
    /// The translucent background, of the full width.
    pub empty_rect: UiBar,
    /// The opaque part, as wide as the entity is healthy.
    pub filled_rect: UiBar,
}

/// `hp / max_hp`, clamped to lie between zero and one; zero where `max_hp` is
/// zero. The fraction is not reduced.
pub open spec fn health_ratio_spec(hp: int, max_hp: int) -> Ratio {
    if max_hp == 0 || hp == 0 || (hp < 0) != (max_hp < 0) {
        Ratio::zero()
    } else if abs(hp) >= abs(max_hp) {
        Ratio::one()
    } else {
        Ratio { numerator: abs(hp) as u32, denominator: abs(max_hp) as u32 }
    }
}

/// Where the health bar starts: on the row of the content offset, right of
/// the last column of a map `map_columns` cells wide.
pub open spec fn health_bar_origin(
    map_columns: usize,
    cell_size: PixelSize,
    content_offset: PixelOffset,
) -> ScreenPoint {
    ScreenPoint {
        x: (map_columns * cell_size.width + content_offset.x) as u128,
        y: content_offset.y as u128,
    }
}

/// The health bar of `entity`.
pub open spec fn health_bar_spec(
    entity: Entity,
    full_width_px: usize,
    map_columns: usize,
    cell_size: PixelSize,
    content_offset: PixelOffset,
) -> HealthBar {
    let origin = health_bar_origin(map_columns, cell_size, content_offset);
    HealthBar {
        empty_rect: UiBar {
            origin,
            full_width: full_width_px,
            height: cell_size.height,
            fill: Ratio::one(),
            color: Color::red().with_alpha(TRANSLUCENT_ALPHA),
        },
        filled_rect: UiBar {
            origin,
            full_width: full_width_px,
            height: cell_size.height,
            fill: health_ratio_spec(entity.hp as int, entity.max_hp as int),
            color: Color::red(),
        },
    }
}

/// The health ratio is `hp / max_hp` clamped to the span from zero to one:
/// zero where the quotient is undefined or not positive, one where it is one
/// or more, and the quotient itself in between.
pub proof fn lemma_health_ratio_clamps(hp: int, max_hp: int)
    requires
        i32::MIN <= hp <= i32::MAX,
        i32::MIN <= max_hp <= i32::MAX,
    ensures
        health_ratio_spec(hp, max_hp).is_proper(),
        max_hp == 0 ==> health_ratio_spec(hp, max_hp).numerator == 0,
        max_hp != 0 && hp * max_hp <= 0 ==> health_ratio_spec(hp, max_hp).numerator == 0,
        max_hp != 0 && hp * max_hp >= max_hp * max_hp ==> health_ratio_spec(hp, max_hp).numerator
            == health_ratio_spec(hp, max_hp).denominator,
        max_hp != 0 && 0 < hp * max_hp < max_hp * max_hp ==> health_ratio_spec(
            hp,
            max_hp,
        ).numerator * max_hp == hp * health_ratio_spec(hp, max_hp).denominator,
{
    let ratio = health_ratio_spec(hp, max_hp);
    if max_hp != 0 {
        assert(hp * max_hp <= 0 <==> (hp == 0 || (hp < 0) != (max_hp < 0))) by (nonlinear_arith)
            requires
                max_hp != 0,
        ;
        assert(hp * max_hp >= max_hp * max_hp <==> (hp != 0 && (hp < 0) == (max_hp < 0) && abs(hp)
            >= abs(max_hp))) by (nonlinear_arith)
            requires
                max_hp != 0,
        ;
        if 0 < hp * max_hp < max_hp * max_hp {
            assert(ratio.numerator == abs(hp));
            assert(ratio.denominator == abs(max_hp));
            assert(abs(hp) * max_hp == hp * abs(max_hp)) by (nonlinear_arith)
                requires
                    (hp < 0) == (max_hp < 0),
            ;
        }
    }
}

/// The size of `value` without its sign.
fn magnitude(value: i32) -> (size: u32)
    ensures
        size == abs(value as int),
{
    if value >= 0 {
        value as u32
    } else {
        (-(value as i64)) as u32
    }
}

/// How healthy an entity of `hp` out of `max_hp` is: `hp / max_hp`, clamped
/// to lie between zero and one. An entity whose `max_hp` is zero has no
/// health to show, and its ratio is zero.
pub fn health_ratio(hp: i32, max_hp: i32) -> (ratio: Ratio)
    ensures
        ratio == health_ratio_spec(hp as int, max_hp as int),
        ratio.is_proper(),
{
    if max_hp == 0 || hp == 0 || (hp < 0) != (max_hp < 0) {
        return Ratio::zero();
    }
    let have = magnitude(hp);
    let most = magnitude(max_hp);
    if have >= most {
        Ratio::one()
    } else {
        Ratio { numerator: have, denominator: most }
    }
}

/// Lays out the health bar of `entity` beside a map `map_columns` cells wide.
///
/// Both rectangles start right of the map, on the row of the content offset,
/// and are one cell tall. The empty one is translucent red and of the full
/// width; the filled one is opaque red and filled to the entity's health
/// ratio.
pub fn compute_health_bar(
    entity: &Entity,
    full_width_px: usize,
    map_columns: usize,
    cell_size: PixelSize,
    content_offset: PixelOffset,
) -> (bar: HealthBar)
    ensures
        bar == health_bar_spec(*entity, full_width_px, map_columns, cell_size, content_offset),
        bar.empty_rect.origin == bar.filled_rect.origin,
        bar.empty_rect.origin.x == map_columns * cell_size.width + content_offset.x,
        bar.empty_rect.origin.y == content_offset.y,
        bar.empty_rect.height == cell_size.height,
        bar.filled_rect.height == cell_size.height,
        bar.filled_rect.fill.is_proper(),
{
    let origin = ScreenPoint {
        x: scale_and_shift(map_columns, cell_size.width, content_offset.x),
        y: content_offset.y as u128,
    };
    HealthBar {
        empty_rect: UiBar {
            origin,
            full_width: full_width_px,
            height: cell_size.height,
            fill: Ratio::one(),
            color: Color::red().with_alpha(TRANSLUCENT_ALPHA),
        },
        filled_rect: UiBar {
            origin,
            full_width: full_width_px,
            height: cell_size.height,
            fill: health_ratio(entity.hp, entity.max_hp),
            color: Color::red(),
        },
    }
}

impl HealthBar {
    /// The rectangles in the order in which they are drawn: the empty one,
    /// then the filled one over it.
    pub open spec fn spec_elements(self) -> Seq<UiBar> {
        seq![self.empty_rect, self.filled_rect]
    }

    /// The rectangles in the order in which they are drawn: the empty one,
    /// then the filled one over it.
    pub fn elements(&self) -> (bars: Vec<UiBar>)
        ensures
            bars@ == self.spec_elements(),
    {
        let mut bars: Vec<UiBar> = Vec::new();
        bars.push(self.empty_rect);
        bars.push(self.filled_rect);
        bars
    }
}

} // verus!
