//! Resolves colors against the PRNG.
//!
//! Every draw is keyed by `(seed, key)` and therefore deterministic
//! regardless of call order, so no memoization is needed.

use vstd::prelude::*;

use super::color::Rgb8;
use super::data::ColorRef;
use super::hash::{concat_fragments, lemma_concat_single, seed_key_text};
use super::prng::{color_draw_seed, draw_seed, shuffle_zero_of, Prng};

verus! {

/// Resolves colors for one seed.
pub struct Resolver<'a> {
    prng: Prng<'a>,
}

impl<'a> View for Resolver<'a> {
    /// The seed text.
    type V = Seq<char>;

    closed spec fn view(&self) -> Seq<char> {
        self.prng@
    }
}

/// The stop a plain shuffle of `palette` picks for the color `key`.
pub open spec fn shuffled_stop(seed: Seq<char>, key: Seq<char>, palette: Seq<Rgb8>) -> Rgb8 {
    palette[shuffle_zero_of(color_draw_seed(seed, key), palette.len()) as int]
}

impl<'a> Resolver<'a> {
    /// A resolver for `seed`.
    pub fn new(seed: &'a str) -> (r: Self)
        ensures
            r@ == seed@,
    {
        Resolver { prng: Prng::new(seed) }
    }

    /// Resolves `color` to its single shuffled stop. The palette is never
    /// empty, so this is always `Some`.
    pub fn color(&self, color: &ColorRef) -> (r: Option<Rgb8>)
        ensures
            r == Some(shuffled_stop(self@, color.key@, color.palette@)),
    {
        let stops = color.palette.stops();
        let name = color.key.as_str();
        let idx = self.prng.shuffle_zero(&[name, "Color"], stops.len());
        proof {
            let fragments = seq![name, "Color"];
            assert(fragments.drop_last() =~= seq![name]);
            lemma_concat_single(name);
            assert(concat_fragments(fragments) =~= name@ + "Color"@);
            assert(seed_key_text(self@, fragments) =~= self@ + seq![':'] + name@ + "Color"@);
            assert(draw_seed(self@, fragments) == color_draw_seed(self@, name@));
        }
        Some(stops[idx])
    }
}

} // verus!
