use crate::progression::Progression;
use vstd::prelude::*;

verus! {

/// An 8-bit-per-channel color with transparency.
#[derive(Clone, Copy, Debug, PartialEq, Eq, Structural)]
pub struct Rgba8 {
    pub r: u8,
    pub g: u8,
    pub b: u8,
    pub a: u8,
}

/// Division rounding toward zero, as integer division does in executable code.
pub open spec fn trunc_div(a: int, b: int) -> int {
    let q: int = vstd::math::abs(a) as int / vstd::math::abs(b) as int;
    if (a < 0) == (b < 0) {
        q
    } else {
        -q
    }
}

/// The low eight bits of an integer.
pub open spec fn low_byte(x: int) -> u8 {
    (x % 256) as u8
}

/// One channel of a linear blend: `(factor - in_min) * (end - start) / (in_max - in_min) + start`,
/// with the quotient rounded toward zero and the sum cut to eight bits.
pub open spec fn lerp_channel(factor: int, in_min: int, in_max: int, start: u8, end: u8) -> u8 {
    low_byte(trunc_div((factor - in_min) * (end - start), in_max - in_min) + start)
}

/// The blend of two colors, every channel (transparency included) alike.
pub open spec fn lerp_color(factor: int, in_min: int, in_max: int, start: Rgba8, end: Rgba8) -> Rgba8 {
    Rgba8 {
        r: lerp_channel(factor, in_min, in_max, start.r, end.r),
        g: lerp_channel(factor, in_min, in_max, start.g, end.g),
        b: lerp_channel(factor, in_min, in_max, start.b, end.b),
        a: lerp_channel(factor, in_min, in_max, start.a, end.a),
    }
}

impl Rgba8 {
    pub fn new(r: u8, g: u8, b: u8, a: u8) -> (c: Rgba8)
        ensures
            c == (Rgba8 { r, g, b, a }),
    {
        Rgba8 { r, g, b, a }
    }
}

/// Color operations that animations apply to their colors.
pub trait ManipulatableColor<RgbType>: Sized {
    /// The blend of this color toward `to_color` at the position of `factor`.
    spec fn lerped(&self, to_color: RgbType, factor: Progression) -> RgbType;

    /// This color with the color channels of `c`.
    spec fn recolored(&self, c: RgbType) -> Self;

    /// Blends this color toward `to_color` by the position of `factor` within its total.
    fn lerp_with(&self, to_color: RgbType, factor: Progression) -> (c: RgbType)
        requires
            factor.wf(),
            0 < factor.total <= i32::MAX,
        ensures
            c == self.lerped(to_color, factor),
    ;

    /// Takes the color channels of `c`, keeping this color's transparency.
    fn set_color(&mut self, c: RgbType)
        ensures
            *final(self) == old(self).recolored(c),
    ;
}

impl ManipulatableColor<Rgba8> for Rgba8 {
    open spec fn lerped(&self, to_color: Rgba8, factor: Progression) -> Rgba8 {
        lerp_color(factor.position() as int, 0, factor.total as int, *self, to_color)
    }

    open spec fn recolored(&self, c: Rgba8) -> Rgba8 {
        Rgba8 { r: c.r, g: c.g, b: c.b, a: self.a }
    }

    fn lerp_with(&self, to_color: Rgba8, factor: Progression) -> (c: Rgba8) {
        let pos = factor.get_current();
        assert(pos < factor.total <= i32::MAX);
        let c = color_lerp(pos as i32, 0, factor.total as i32, *self, to_color);
        assert(c == self.lerped(to_color, factor));
        c
    }

    fn set_color(&mut self, c: Rgba8) {
        self.r = c.r;
        self.g = c.g;
        self.b = c.b;
    }
}

fn byte_of(w: i64) -> (r: u8)
    requires
        -0x1_0000_0000_0000 < w < 0x1_0000_0000_0000,
    ensures
        r == low_byte(w as int),
{
    let shifted: u64 = (w + 0x1_0000_0000_0000) as u64;
    proof {
        vstd::arithmetic::div_mod::lemma_mod_multiples_vanish(0x1_0000_0000_00, w as int, 256);
    }
    (shifted % 256) as u8
}

fn blend_channel(factor: i32, in_min: i32, in_max: i32, start: u8, end: u8) -> (r: u8)
    requires
        in_max != in_min,
    ensures
        r == lerp_channel(factor as int, in_min as int, in_max as int, start, end),
{
    let span: i64 = factor as i64 - in_min as i64;
    let diff: i64 = end as i64 - start as i64;
    assert(-0x1_0000_0000 * 255 <= span * diff <= 0x1_0000_0000 * 255) by (nonlinear_arith)
        requires
            -0x1_0000_0000 <= span <= 0x1_0000_0000,
            -255 <= diff <= 255,
    ;
    let num: i64 = span * diff;
    let den: i64 = in_max as i64 - in_min as i64;
    let num_abs: u64 = if num < 0 {
        (-num) as u64
    } else {
        num as u64
    };
    let den_abs: u64 = if den < 0 {
        (-den) as u64
    } else {
        den as u64
    };
    let q_abs: u64 = num_abs / den_abs;
    assert(q_abs <= num_abs) by (nonlinear_arith)
        requires
            q_abs == num_abs / den_abs,
            den_abs >= 1,
    ;
    let q: i64 = if (num < 0) == (den < 0) {
        q_abs as i64
    } else {
        -(q_abs as i64)
    };
    byte_of(q + start as i64)
}

/// Blends `start_color` toward `end_color` as `factor` runs from `in_min` to `in_max`.
pub fn color_lerp(factor: i32, in_min: i32, in_max: i32, start_color: Rgba8, end_color: Rgba8) -> (c:
    Rgba8)
    requires
        in_max != in_min,
    ensures
        c == lerp_color(factor as int, in_min as int, in_max as int, start_color, end_color),
{
    let mut mid_color = Rgba8::new(0, 0, 0, 255);
    mid_color.r = blend_channel(factor, in_min, in_max, start_color.r, end_color.r);
    mid_color.g = blend_channel(factor, in_min, in_max, start_color.g, end_color.g);
    mid_color.b = blend_channel(factor, in_min, in_max, start_color.b, end_color.b);
    mid_color.a = blend_channel(factor, in_min, in_max, start_color.a, end_color.a);
    mid_color
}

proof fn lemma_channel_endpoints(in_min: int, in_max: int, start: u8, end: u8)
    requires
        in_max != in_min,
    ensures
        lerp_channel(in_min, in_min, in_max, start, end) == start,
        lerp_channel(in_max, in_min, in_max, start, end) == end,
{
    let d = in_max - in_min;
    let e = end - start;
    let ad: int = vstd::math::abs(d) as int;
    let ae: int = vstd::math::abs(e) as int;
    assert((in_min - in_min) * e == 0);
    vstd::arithmetic::div_mod::lemma_small_mod(start as nat, 256);
    vstd::arithmetic::div_mod::lemma_small_mod(end as nat, 256);
    assert(vstd::math::abs(d * e) == ad * ae) by (nonlinear_arith)
        requires
            ad == vstd::math::abs(d),
            ae == vstd::math::abs(e),
    ;
    vstd::arithmetic::div_mod::lemma_div_multiples_vanish(ae, ad);
    assert(ad * ae == ae * ad) by (nonlinear_arith);
    assert((d * e < 0) == ((d < 0) != (e < 0)) || e == 0) by (nonlinear_arith)
        requires
            d != 0,
    ;
}

/// A blend at `factor == in_min` gives the start color exactly, and one at
/// `factor == in_max` gives the end color exactly.
pub proof fn lemma_lerp_endpoints(in_min: int, in_max: int, start: Rgba8, end: Rgba8)
    requires
        in_max != in_min,
    ensures
        lerp_color(in_min, in_min, in_max, start, end) == start,
        lerp_color(in_max, in_min, in_max, start, end) == end,
{
    lemma_channel_endpoints(in_min, in_max, start.r, end.r);
    lemma_channel_endpoints(in_min, in_max, start.g, end.g);
    lemma_channel_endpoints(in_min, in_max, start.b, end.b);
    lemma_channel_endpoints(in_min, in_max, start.a, end.a);
}

/// Six colors alternating between half and a quarter of `base`'s channels, fully opaque.
pub fn dark_pattern(base: Rgba8) -> (colors: [Rgba8; 6])
    ensures
        forall|i: int|
            0 <= i < 6 ==> #[trigger] colors@[i] == if i % 2 == 0 {
                Rgba8 { r: (base.r / 2) as u8, g: (base.g / 2) as u8, b: (base.b / 2) as u8, a: 255 }
            } else {
                Rgba8 { r: (base.r / 4) as u8, g: (base.g / 4) as u8, b: (base.b / 4) as u8, a: 255 }
            },
{
    let half = Rgba8 { r: base.r / 2, g: base.g / 2, b: base.b / 2, a: 255 };
    let quarter = Rgba8 { r: base.r / 4, g: base.g / 4, b: base.b / 4, a: 255 };
    [half, quarter, half, quarter, half, quarter]
}

} // verus!
