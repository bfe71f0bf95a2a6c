//! The bounce-accumulation state of one traced camera ray.
//!
//! The integrator walks a ray through the scene: at each surface hit it
//! collects the material's attenuation and follows the scattered ray, until
//! the ray either misses everything (and takes the background color) or runs
//! out of bounce budget (and goes black). The geometric work — intersection
//! and scattering — happens outside the library; this module keeps the
//! decision state and composes the final color exactly as the recursion
//! `attenuation * color_of_rest` would.

use vstd::prelude::*;

use crate::color::{spec_black, Color};

verus! {

/// The color a path yields: each collected attenuation multiplies, in bounce
/// order, the color the rest of the path produced, ending in `tail`.
pub open spec fn composed_color(factors: Seq<Color>, tail: Color) -> Color
    decreases factors.len(),
{
    if factors.len() == 0 {
        tail
    } else {
        factors[0].spec_mul(composed_color(factors.subrange(1, factors.len() as int), tail))
    }
}

/// One ray's walk through the scene: the attenuations collected so far, the
/// bounces still allowed, and the background color once the ray has escaped.
pub struct PathTrace {
    factors: Vec<Color>,
    remaining_bounces: u16,
    background: Option<Color>,
}

impl PathTrace {
    /// The attenuations collected so far, in bounce order.
    pub closed spec fn spec_factors(&self) -> Seq<Color> {
        self.factors@
    }

    /// How many more surface hits this ray may take.
    pub closed spec fn spec_remaining(&self) -> u16 {
        self.remaining_bounces
    }

    /// The background color, once the ray has left the scene.
    pub closed spec fn spec_background(&self) -> Option<Color> {
        self.background
    }

    /// A walk ends when the ray escapes into the background or its bounce
    /// budget is spent.
    pub open spec fn is_done(&self) -> bool {
        self.spec_background() is Some || self.spec_remaining() == 0
    }

    /// What the path ends in: the background it escaped to, or black when
    /// the bounce budget absorbed all light.
    pub open spec fn terminal_color(&self) -> Color {
        match self.spec_background() {
            Option::Some(c) => c,
            Option::None => spec_black(),
        }
    }

    /// The color of the whole path.
    pub open spec fn spec_color(&self) -> Color {
        composed_color(self.spec_factors(), self.terminal_color())
    }

    /// Start a walk with a bounce budget and nothing collected.
    pub fn new(max_bounces: u16) -> (trace: PathTrace)
        ensures
            trace.spec_factors() == Seq::<Color>::empty(),
            trace.spec_remaining() == max_bounces,
            trace.spec_background() is None,
    {
        PathTrace { factors: Vec::new(), remaining_bounces: max_bounces, background: None }
    }

    pub fn done(&self) -> (d: bool)
        ensures
            d == self.is_done(),
    {
        self.background.is_some() || self.remaining_bounces == 0
    }

    /// The ray struck a surface: collect the material's attenuation and
    /// spend one bounce.
    pub fn record_hit(&mut self, attenuation: Color)
        requires
            !old(self).is_done(),
        ensures
            final(self).spec_factors() == old(self).spec_factors().push(attenuation),
            final(self).spec_remaining() == old(self).spec_remaining() - 1,
            final(self).spec_background() == old(self).spec_background(),
    {
        self.factors.push(attenuation);
        self.remaining_bounces = self.remaining_bounces - 1;
    }

    /// The ray left the scene: it ends in the background color.
    pub fn record_miss(&mut self, background: Color)
        requires
            !old(self).is_done(),
        ensures
            final(self).spec_factors() == old(self).spec_factors(),
            final(self).spec_remaining() == old(self).spec_remaining(),
            final(self).spec_background() == Option::Some(background),
    {
        self.background = Some(background);
    }

    /// Fold the collected attenuations over the terminal color, innermost
    /// bounce first, exactly as the recursive integrator multiplies them.
    pub fn color(&self) -> (c: Color)
        requires
            self.is_done(),
        ensures
            c == self.spec_color(),
    {
        let mut c = match &self.background {
            Some(background) => *background,
            None => Color::black(),
        };
        let mut i: usize = self.factors.len();
        while i > 0
            invariant
                i <= self.factors@.len(),
                c == composed_color(
                    self.factors@.subrange(i as int, self.factors@.len() as int),
                    self.terminal_color(),
                ),
            decreases i,
        {
            i = i - 1;
            c = self.factors[i].mul(c);
            proof {
                let all = self.factors@;
                let from_i = all.subrange(i as int, all.len() as int);
                assert(from_i.subrange(1, from_i.len() as int) =~= all.subrange(
                    i as int + 1,
                    all.len() as int,
                ));
            }
        }
        proof {
            assert(self.factors@.subrange(0, self.factors@.len() as int) =~= self.factors@);
        }
        c
    }
}

/// A path that ends with its bounce budget spent yields black, whatever
/// attenuations it collected on the way: the terminal black zeroes every
/// channel of the product.
pub proof fn lemma_exhausted_path_is_black(factors: Seq<Color>)
    ensures
        composed_color(factors, spec_black()) == spec_black(),
    decreases factors.len(),
{
    if factors.len() > 0 {
        lemma_exhausted_path_is_black(factors.subrange(1, factors.len() as int));
    }
}

/// A walk whose ray never reached the background — whether it started with
/// no budget at all or spent it bouncing — colors its pixel black, whatever
/// the scene held.
pub proof fn lemma_depth_exhausted_yields_black(trace: PathTrace)
    requires
        trace.is_done(),
        trace.spec_background() is None,
    ensures
        trace.spec_color() == spec_black(),
{
    lemma_exhausted_path_is_black(trace.spec_factors());
}

} // verus!
