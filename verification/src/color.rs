//! 8-bit RGB colors and the exact integer arithmetic the renderer composes
//! them with: saturating addition, normalized channel-by-channel
//! multiplication, averaging of a sample set, and square-root gamma
//! correction.

use vstd::prelude::*;

verus! {

/// Largest value an 8-bit color channel can hold.
pub const MAX_COLOR_CHANNEL_VALUE: u8 = 255;

/// One finished pixel color: three 8-bit channels.
#[derive(Clone, Copy, PartialEq, Eq, Structural, Debug)]
pub struct Color {
    pub r: u8,
    pub g: u8,
    pub b: u8,
}

/// The color with every channel at zero: no light at all.
pub open spec fn spec_black() -> Color {
    Color { r: 0, g: 0, b: 0 }
}

/// Channel addition that clips at the channel maximum instead of wrapping.
pub open spec fn saturating_add_channel(a: u8, b: u8) -> u8 {
    if a + b > MAX_COLOR_CHANNEL_VALUE {
        MAX_COLOR_CHANNEL_VALUE
    } else {
        (a + b) as u8
    }
}

/// Channel product, read as if both channels were fractions of the maximum
/// and the result rescaled back to 8 bits: floor(a * b / 255).
pub open spec fn attenuate_channel(a: u8, b: u8) -> u8 {
    ((a * b) / (MAX_COLOR_CHANNEL_VALUE as int)) as u8
}

/// `root` is the integer square root of `c`.
pub open spec fn is_channel_root(c: u8, root: u8) -> bool {
    root * root <= c < (root + 1) * (root + 1)
}

impl Color {
    /// Componentwise saturating sum of two colors.
    pub open spec fn spec_add(self, rhs: Color) -> Color {
        Color {
            r: saturating_add_channel(self.r, rhs.r),
            g: saturating_add_channel(self.g, rhs.g),
            b: saturating_add_channel(self.b, rhs.b),
        }
    }

    /// Componentwise normalized product of two colors.
    pub open spec fn spec_mul(self, rhs: Color) -> Color {
        Color {
            r: attenuate_channel(self.r, rhs.r),
            g: attenuate_channel(self.g, rhs.g),
            b: attenuate_channel(self.b, rhs.b),
        }
    }

    pub fn black() -> (c: Color)
        ensures
            c == spec_black(),
    {
        Color { r: 0, g: 0, b: 0 }
    }

    /// Add two colors channel by channel, saturating at the channel maximum.
    pub fn add(self, rhs: Color) -> (c: Color)
        ensures
            c == self.spec_add(rhs),
    {
        let r: u16 = self.r as u16 + rhs.r as u16;
        let g: u16 = self.g as u16 + rhs.g as u16;
        let b: u16 = self.b as u16 + rhs.b as u16;
        Color {
            r: if r > MAX_COLOR_CHANNEL_VALUE as u16 { MAX_COLOR_CHANNEL_VALUE } else { r as u8 },
            g: if g > MAX_COLOR_CHANNEL_VALUE as u16 { MAX_COLOR_CHANNEL_VALUE } else { g as u8 },
            b: if b > MAX_COLOR_CHANNEL_VALUE as u16 { MAX_COLOR_CHANNEL_VALUE } else { b as u8 },
        }
    }

    /// Multiply two colors channel by channel, treating each channel as a
    /// fraction of the channel maximum.
    pub fn mul(self, rhs: Color) -> (c: Color)
        ensures
            c == self.spec_mul(rhs),
    {
        Color {
            r: attenuate(self.r, rhs.r),
            g: attenuate(self.g, rhs.g),
            b: attenuate(self.b, rhs.b),
        }
    }

    /// Move one channel from linear light toward display space by taking its
    /// integer square root. A zero channel stays zero.
    pub fn channel_gamma_correction(color: u8) -> (root: u8)
        ensures
            is_channel_root(color, root),
    {
        let c: u16 = color as u16;
        let mut root: u16 = 0;
        let mut next_square: u16 = 1;
        while next_square <= c
            invariant
                root <= 15,
                next_square == (root + 1) * (root + 1),
                root * root <= c,
                c == color,
            decreases 16 - root,
        {
            proof {
                assert(root + 1 <= 15) by (nonlinear_arith)
                    requires
                        (root + 1) * (root + 1) <= c,
                        c <= 255,
                ;
                assert((root + 2) * (root + 2) == (root + 1) * (root + 1) + 2 * (root + 1) + 1)
                    by (nonlinear_arith);
            }
            root = root + 1;
            next_square = next_square + 2 * root + 1;
        }
        root as u8
    }

    /// Gamma-correct every channel of this color.
    pub fn gamma_corrected(self) -> (c: Color)
        ensures
            is_channel_root(self.r, c.r),
            is_channel_root(self.g, c.g),
            is_channel_root(self.b, c.b),
    {
        Color {
            r: Color::channel_gamma_correction(self.r),
            g: Color::channel_gamma_correction(self.g),
            b: Color::channel_gamma_correction(self.b),
        }
    }

    /// Componentwise arithmetic mean of a non-empty set of sampled colors,
    /// each channel rounded down.
    pub fn mean_color(colors: Vec<Color>) -> (c: Color)
        requires
            colors@.len() >= 1,
        ensures
            c == spec_mean(colors@),
    {
        let mut r: u128 = 0;
        let mut g: u128 = 0;
        let mut b: u128 = 0;
        let mut i: usize = 0;
        while i < colors.len()
            invariant
                i <= colors@.len(),
                r == sum_r(colors@.take(i as int)),
                g == sum_g(colors@.take(i as int)),
                b == sum_b(colors@.take(i as int)),
                r <= 255 * i,
                g <= 255 * i,
                b <= 255 * i,
            decreases colors@.len() - i,
        {
            proof {
                lemma_channel_sums_bounded(colors@, i as int);
                assert(colors@.take(i + 1).drop_last() =~= colors@.take(i as int));
            }
            let color = colors[i];
            r = r + color.r as u128;
            g = g + color.g as u128;
            b = b + color.b as u128;
            i = i + 1;
        }
        proof {
            assert(colors@.take(colors@.len() as int) =~= colors@);
            lemma_mean_channel_fits(r as int, colors@.len() as int);
            lemma_mean_channel_fits(g as int, colors@.len() as int);
            lemma_mean_channel_fits(b as int, colors@.len() as int);
        }
        let n = colors.len() as u128;
        Color { r: (r / n) as u8, g: (g / n) as u8, b: (b / n) as u8 }
    }
}

/// Sum of the red channels of a sequence of colors.
pub open spec fn sum_r(s: Seq<Color>) -> int
    decreases s.len(),
{
    if s.len() == 0 {
        0
    } else {
        sum_r(s.drop_last()) + s.last().r
    }
}

/// Sum of the green channels of a sequence of colors.
pub open spec fn sum_g(s: Seq<Color>) -> int
    decreases s.len(),
{
    if s.len() == 0 {
        0
    } else {
        sum_g(s.drop_last()) + s.last().g
    }
}

/// Sum of the blue channels of a sequence of colors.
pub open spec fn sum_b(s: Seq<Color>) -> int
    decreases s.len(),
{
    if s.len() == 0 {
        0
    } else {
        sum_b(s.drop_last()) + s.last().b
    }
}

/// The componentwise mean of a non-empty sequence of colors, each channel
/// rounded down.
pub open spec fn spec_mean(s: Seq<Color>) -> Color {
    Color {
        r: (sum_r(s) / s.len() as int) as u8,
        g: (sum_g(s) / s.len() as int) as u8,
        b: (sum_b(s) / s.len() as int) as u8,
    }
}

/// Every channel sum over a prefix stays under 255 per element.
proof fn lemma_channel_sums_bounded(s: Seq<Color>, i: int)
    requires
        0 <= i <= s.len(),
    ensures
        sum_r(s.take(i)) <= 255 * i,
        sum_g(s.take(i)) <= 255 * i,
        sum_b(s.take(i)) <= 255 * i,
    decreases i,
{
    if i > 0 {
        lemma_channel_sums_bounded(s, i - 1);
        assert(s.take(i).drop_last() =~= s.take(i - 1));
    }
}

/// Summing a run of one repeated color multiplies each channel by the run's
/// length.
proof fn lemma_sum_of_identical(s: Seq<Color>, c: Color)
    requires
        forall|i: int| 0 <= i < s.len() ==> s[i] == c,
    ensures
        sum_r(s) == c.r * s.len(),
        sum_g(s) == c.g * s.len(),
        sum_b(s) == c.b * s.len(),
    decreases s.len(),
{
    if s.len() > 0 {
        lemma_sum_of_identical(s.drop_last(), c);
        let n = s.len() as int;
        assert(c.r * (n - 1) + c.r == c.r * n) by (nonlinear_arith);
        assert(c.g * (n - 1) + c.g == c.g * n) by (nonlinear_arith);
        assert(c.b * (n - 1) + c.b == c.b * n) by (nonlinear_arith);
    }
}

/// The mean of any non-empty run of one repeated color is exactly that
/// color: each channel sum is the channel times the length, and dividing by
/// the length gives the channel back.
pub proof fn lemma_mean_of_identical_colors(s: Seq<Color>, c: Color)
    requires
        s.len() >= 1,
        forall|i: int| 0 <= i < s.len() ==> s[i] == c,
    ensures
        spec_mean(s) == c,
{
    lemma_sum_of_identical(s, c);
    let n = s.len() as int;
    assert(c.r * n == n * c.r) by (nonlinear_arith);
    assert(c.g * n == n * c.g) by (nonlinear_arith);
    assert(c.b * n == n * c.b) by (nonlinear_arith);
    vstd::arithmetic::div_mod::lemma_div_multiples_vanish(c.r as int, n);
    vstd::arithmetic::div_mod::lemma_div_multiples_vanish(c.g as int, n);
    vstd::arithmetic::div_mod::lemma_div_multiples_vanish(c.b as int, n);
}

/// A nonnegative sum bounded by 255 per element divides down to a channel.
proof fn lemma_mean_channel_fits(sum: int, n: int)
    requires
        0 < n,
        0 <= sum <= 255 * n,
    ensures
        0 <= sum / n <= 255,
{
    vstd::arithmetic::div_mod::lemma_div_is_ordered(sum, 255 * n, n);
    vstd::arithmetic::div_mod::lemma_div_multiples_vanish(255, n);
    vstd::arithmetic::div_mod::lemma_div_pos_is_pos(sum, n);
}

/// Bounds for one normalized channel product: it fits in 16 bits and the
/// rescaled result fits back in a channel.
proof fn lemma_attenuate_bounds(a: u8, b: u8)
    ensures
        a * b <= 255 * 255,
        (a * b) / 255 <= 255,
{
    assert(a * b <= 255 * 255) by (nonlinear_arith)
        requires
            a <= 255,
            b <= 255,
    ;
    vstd::arithmetic::div_mod::lemma_div_is_ordered(a * b, 255int * 255, 255);
}

fn attenuate(a: u8, b: u8) -> (c: u8)
    ensures
        c == attenuate_channel(a, b),
{
    proof {
        lemma_attenuate_bounds(a, b);
    }
    ((a as u16 * b as u16) / (MAX_COLOR_CHANNEL_VALUE as u16)) as u8
}

} // verus!
