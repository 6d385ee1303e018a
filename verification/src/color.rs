use vstd::prelude::*;
use css_colors::Color;

verus! {

/// Why an aggregate computation can refuse to produce a color.
///
/// `Fault` is the umbrella for a computation the outside color crate refuses
/// outright (it asserts internally); every error is handled at the call site
/// by substituting solid black, so rendering always completes.
#[derive(Clone, Copy, PartialEq, Eq, Structural, Debug)]
pub enum ComputeError {
    EmptyInput,
    AverageOutOfRange,
    AngleOutOfRange,
    PercentageOutOfRange,
    Fault,
}

/// A color in the RGB model: three 8-bit channels.
#[derive(Clone, Copy, PartialEq, Eq, Structural, Debug)]
pub struct Rgb {
    pub r: u8,
    pub g: u8,
    pub b: u8,
}

/// A color in the HSL model: a hue in degrees and two ratios, each stored as
/// the 0-255 scale that the css_colors crate uses for percentages.
#[derive(Clone, Copy, PartialEq, Eq, Structural, Debug)]
pub struct Hsl {
    pub h: u16,
    pub s: u8,
    pub l: u8,
}

impl Hsl {
    /// A hue is a point on the color wheel: a degree below 360.
    pub open spec fn wf(self) -> bool {
        self.h < 360
    }
}

impl Rgb {
    /// Solid black, the fallback substituted when an aggregate cannot be
    /// computed.
    pub fn black() -> (c: Rgb)
        ensures
            c == (Rgb { r: 0, g: 0, b: 0 }),
    {
        Rgb { r: 0, g: 0, b: 0 }
    }
}

/// The color that css_colors' `mix` returns for two colors and a weight:
/// a weighted average of the channels, weight counted toward the first color.
pub uninterp spec fn mix_of(a: Rgb, b: Rgb, w: u8) -> Rgb;

/// The color that css_colors' `HSL::to_rgb` returns for a
/// hue/saturation/lightness triple.
pub uninterp spec fn rgb_of_hsl(c: Hsl) -> Rgb;

/// Relies on css_colors' `Color::mix` (Sass's mix formula): a weighted
/// average of two colors. For two RGB colors the alphas are equal, so the two
/// channel weights are complementary and mixing a color with itself returns
/// that color.
#[verifier::external_body]
pub(crate) fn mix(a: &Rgb, b: &Rgb, w: u8) -> (r: Rgb)
    ensures
        r == mix_of(*a, *b, w),
        *a == *b ==> r == *a,
{
    let x = css_colors::RGB {
        r: css_colors::Ratio::from_u8(a.r),
        g: css_colors::Ratio::from_u8(a.g),
        b: css_colors::Ratio::from_u8(a.b),
    };
    let y = css_colors::RGB {
        r: css_colors::Ratio::from_u8(b.r),
        g: css_colors::Ratio::from_u8(b.g),
        b: css_colors::Ratio::from_u8(b.b),
    };
    let m = x.mix(y, css_colors::Ratio::from_u8(w)).to_rgb();
    Rgb { r: m.r.as_u8(), g: m.g.as_u8(), b: m.b.as_u8() }
}

/// Relies on css_colors' `HSL::to_rgb`: the RGB equivalent of an HSL triple.
/// With zero saturation the crate returns the grey `(l, l, l)` directly.
/// `Angle::new` asserts a hue below 360 degrees, so callers must stay below.
#[verifier::external_body]
pub(crate) fn hsl_to_rgb(c: &Hsl) -> (r: Rgb)
    requires
        c.h < 360,
    ensures
        r == rgb_of_hsl(*c),
        c.s == 0 ==> r == (Rgb { r: c.l, g: c.l, b: c.l }),
{
    let m = css_colors::HSL {
        h: css_colors::Angle::new(c.h),
        s: css_colors::Ratio::from_u8(c.s),
        l: css_colors::Ratio::from_u8(c.l),
    }
    .to_rgb();
    Rgb { r: m.r.as_u8(), g: m.g.as_u8(), b: m.b.as_u8() }
}

/// Relies on rand::random: one uniformly drawn byte. Nothing is promised of
/// the value; every caller must work for every byte that comes back.
#[verifier::external_body]
pub(crate) fn random_u8() -> u8 {
    rand::random::<u8>()
}

/// A color drawn channel by channel from the process-wide random generator.
pub fn random_color() -> Rgb {
    Rgb { r: random_u8(), g: random_u8(), b: random_u8() }
}

} // verus!
