//! Avatar generation compatible with DiceBear's key-based PRNG.

pub mod color;
pub mod data;
pub mod hash;
pub mod prng;
pub mod xml;
pub mod number;
pub mod renderer;
pub mod svg;
pub mod resolver;
pub mod definition;
pub mod render;
pub mod variant;

use vstd::prelude::*;

verus! {

/// Animation speed for [`Animation::Fixed`]. The names match the
/// `animation` component variants of the DiceBear styles.
#[derive(Clone, Copy, Debug, PartialEq, Eq, Structural)]
pub enum Speed {
    Fastest,
    Fast,
    Medium,
    Slow,
    Slowest,
}

/// The variant name of a speed as it appears in a style definition.
pub open spec fn speed_name(speed: Speed) -> Seq<char> {
    match speed {
        Speed::Fastest => "fastest"@,
        Speed::Fast => "fast"@,
        Speed::Medium => "medium"@,
        Speed::Slow => "slow"@,
        Speed::Slowest => "slowest"@,
    }
}

impl Speed {
    /// The variant name as it appears in a style definition.
    pub fn as_str(self) -> (s: &'static str)
        ensures
            s@ == speed_name(self),
    {
        match self {
            Speed::Fastest => "fastest",
            Speed::Fast => "fast",
            Speed::Medium => "medium",
            Speed::Slow => "slow",
            Speed::Slowest => "slowest",
        }
    }
}

/// Opt-in avatar animation, mirroring DiceBear's `tags` and
/// `animationVariant` options.
#[derive(Clone, Copy, Debug, PartialEq, Eq, Structural)]
pub enum Animation {
    /// Static avatars (the DiceBear default).
    Off,
    /// `tags: ["animation"]`: animated, speed drawn per seed.
    Random,
    /// `animationVariant: <speed>`: animated at a fixed speed.
    Fixed(Speed),
}

/// Distinct speeds have distinct variant names.
pub proof fn law_speed_names_distinct(a: Speed, b: Speed)
    requires
        a != b,
    ensures
        speed_name(a) != speed_name(b),
{
    reveal_strlit("fastest");
    reveal_strlit("fast");
    reveal_strlit("medium");
    reveal_strlit("slow");
    reveal_strlit("slowest");
    assert("fastest"@.len() != "fast"@.len());
    assert("fastest"@.len() != "medium"@.len());
    assert("fastest"@.len() != "slow"@.len());
    assert("fast"@[0] != "medium"@[0]);
    assert("fast"@[0] != "slow"@[0]);
    assert("fast"@.len() != "slowest"@.len());
    assert("medium"@[0] != "slow"@[0]);
    assert("medium"@[0] != "slowest"@[0]);
    assert("slow"@.len() != "slowest"@.len());
    assert("fastest"@[0] != "slowest"@[0]);
    assert("fastest"@[0] != "medium"@[0]);
}

} // verus!
