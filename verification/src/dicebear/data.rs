//! Shared data model of style definitions: palettes, named colors and
//! attribute values.

use vstd::prelude::*;

use super::color::Rgb8;
use crate::text::{str_eq, str_lt, text_lt};

verus! {

/// Most stops a palette may hold.
pub const PALETTE_MAX_LEN: usize = 16;

/// Most nodes a canvas may hold.
pub const CANVAS_MAX_LEN: usize = 32;

/// Most `not_equal_to` references a color may hold.
pub const MAX_COLOR_REFS: usize = 8;

/// Color palette stops. Non-empty and limited to [`PALETTE_MAX_LEN`]
/// entries, enforced at construction.
pub struct Palette {
    stops: Vec<Rgb8>,
}

impl View for Palette {
    type V = Seq<Rgb8>;

    closed spec fn view(&self) -> Seq<Rgb8> {
        self.stops@
    }
}

impl Palette {
    /// Every palette holds between one and [`PALETTE_MAX_LEN`] stops.
    #[verifier::type_invariant]
    spec fn bounded(self) -> bool {
        1 <= self.stops@.len() <= PALETTE_MAX_LEN
    }

    /// A palette over `stops`. The stops must be non-empty and at most
    /// [`PALETTE_MAX_LEN`].
    pub fn new(stops: Vec<Rgb8>) -> (p: Self)
        requires
            1 <= stops@.len() <= PALETTE_MAX_LEN,
        ensures
            p@ == stops@,
    {
        Palette { stops }
    }

    /// The stops, in definition order.
    pub fn stops(&self) -> (s: &[Rgb8])
        ensures
            s@ == self@,
            1 <= s@.len() <= PALETTE_MAX_LEN,
    {
        proof {
            use_type_invariant(self);
        }
        self.stops.as_slice()
    }
}

/// A named color of a style.
pub struct ColorRef {
    /// The color's name, also the PRNG key of its shuffle.
    pub key: String,
    /// The stops the color is drawn from.
    pub palette: Palette,
    /// Pick the stop of highest contrast against the resolved referenced
    /// color instead of shuffling (DiceBear `contrastTo`).
    pub contrast_to: Option<Box<ColorRef>>,
    /// Drop stops equal to the resolved stop of any referenced color
    /// (DiceBear `notEqualTo`).
    pub not_equal_to: Vec<ColorRef>,
}

/// A color and every color it references hold at most [`MAX_COLOR_REFS`]
/// `not_equal_to` references.
pub open spec fn color_wf(color: ColorRef) -> bool
    decreases color,
{
    &&& color.not_equal_to@.len() <= MAX_COLOR_REFS
    &&& refs_wf(color.not_equal_to@)
    &&& match color.contrast_to {
        Some(reference) => color_wf(*reference),
        None => true,
    }
}

/// Every color of `refs` is well formed.
pub open spec fn refs_wf(refs: Seq<ColorRef>) -> bool
    decreases refs,
{
    if refs.len() == 0 {
        true
    } else {
        refs_wf(refs.drop_last()) && color_wf(refs.last())
    }
}

/// Every color of a well-formed reference list is well formed.
pub proof fn lemma_refs_wf(refs: Seq<ColorRef>)
    requires
        refs_wf(refs),
    ensures
        forall|i: int| 0 <= i < refs.len() ==> color_wf(#[trigger] refs[i]),
    decreases refs.len(),
{
    if refs.len() > 0 {
        lemma_refs_wf(refs.drop_last());
        assert forall|i: int| 0 <= i < refs.len() implies color_wf(#[trigger] refs[i]) by {
            if i < refs.len() - 1 {
                assert(refs[i] == refs.drop_last()[i]);
            }
        }
    }
}

/// The colors a well-formed color references are well formed.
pub proof fn lemma_color_wf_references(color: ColorRef)
    requires
        color_wf(color),
    ensures
        color.not_equal_to@.len() <= MAX_COLOR_REFS,
        forall|i: int| 0 <= i < color.not_equal_to@.len() ==> color_wf(#[trigger] color.not_equal_to@[i]),
        color.contrast_to matches Some(reference) ==> color_wf(*reference),
{
    lemma_refs_wf(color.not_equal_to@);
}

/// Whether `color`, and every color it references, holds at most
/// [`MAX_COLOR_REFS`] `not_equal_to` references: the condition under which
/// it can be resolved.
pub fn color_within_limits(color: &ColorRef) -> (b: bool)
    ensures
        b == color_wf(*color),
    decreases color,
{
    if color.not_equal_to.len() > MAX_COLOR_REFS {
        return false;
    }
    let mut i: usize = 0;
    assert(color.not_equal_to@.take(0) =~= Seq::<ColorRef>::empty());
    while i < color.not_equal_to.len()
        invariant
            i <= color.not_equal_to@.len(),
            refs_wf(color.not_equal_to@.take(i as int)),
        decreases color.not_equal_to@.len() - i,
    {
        let ok = color_within_limits(&color.not_equal_to[i]);
        proof {
            let next = color.not_equal_to@.take(i + 1);
            assert(next.drop_last() =~= color.not_equal_to@.take(i as int));
            assert(next.last() == color.not_equal_to@[i as int]);
        }
        if !ok {
            assert(!refs_wf(color.not_equal_to@)) by {
                if refs_wf(color.not_equal_to@) {
                    lemma_refs_wf(color.not_equal_to@);
                    assert(color_wf(color.not_equal_to@[i as int]));
                }
            }
            return false;
        }
        i = i + 1;
    }
    assert(color.not_equal_to@.take(color.not_equal_to@.len() as int) =~= color.not_equal_to@);
    match &color.contrast_to {
        Some(reference) => color_within_limits(reference),
        None => true,
    }
}

/// An attribute value: literal text, or a named color resolved per seed.
pub enum AttrVal {
    Lit(String),
    Color(ColorRef),
}

/// A node of a style's element tree.
pub enum Node {
    /// An element with attributes (in output order) and children.
    El { name: String, attrs: Vec<(String, AttrVal)>, children: Vec<Node> },
    /// Escaped character data inside the parent element.
    Text { value: String },
    /// A placed component: `component` indexes the style's component
    /// definitions, `source` names the component the definition comes from.
    Component { name: String, source: String, component: usize, attrs: Vec<(String, AttrVal)> },
}

/// The canvas: the top-level nodes of a style. Limited to
/// [`CANVAS_MAX_LEN`] nodes, enforced at construction.
pub struct Canvas {
    nodes: Vec<Node>,
}

impl View for Canvas {
    type V = Seq<Node>;

    closed spec fn view(&self) -> Seq<Node> {
        self.nodes@
    }
}

impl Canvas {
    /// A canvas over `nodes`, at most [`CANVAS_MAX_LEN`] of them.
    pub fn new(nodes: Vec<Node>) -> (c: Self)
        requires
            nodes@.len() <= CANVAS_MAX_LEN,
        ensures
            c@ == nodes@,
    {
        Canvas { nodes }
    }

    /// The nodes, in order.
    pub fn nodes(&self) -> (n: &Vec<Node>)
        ensures
            n@ == self@,
    {
        &self.nodes
    }
}

/// Variant names are in ascending order (each name is not before the one
/// preceding it, comparing code points).
pub open spec fn names_sorted(names: Seq<&str>) -> bool {
    forall|i: int| 1 <= i < names.len() ==> !text_lt(#[trigger] names[i]@, names[i - 1]@)
}

/// Whether variant names are sorted. The resolver's weighted pick walks
/// variants in definition order, so that order must be DiceBear's
/// name-sorted iteration; variant tables are checked with this at
/// construction.
pub fn variant_names_sorted(names: &Vec<&str>) -> (b: bool)
    ensures
        b == names_sorted(names@),
{
    let mut i: usize = 1;
    while i < names.len()
        invariant
            1 <= i,
            forall|k: int| 1 <= k < i && k < names@.len() ==> !text_lt(#[trigger] names@[k]@, names@[k - 1]@),
        decreases names@.len() - i,
    {
        if str_lt(names[i], names[i - 1]) {
            return false;
        }
        i = i + 1;
    }
    true
}

/// The named color `name` of a style's colors: the first with that key.
pub fn find_color<'b>(colors: &'b Vec<ColorRef>, name: &str) -> (r: Option<&'b ColorRef>)
    ensures
        match r {
            Some(c) => exists|i: int|
                0 <= i < colors@.len() && colors@[i] == *c && c.key@ == name@ && forall|j: int|
                    0 <= j < i ==> colors@[j].key@ != name@,
            None => forall|j: int| 0 <= j < colors@.len() ==> colors@[j].key@ != name@,
        },
{
    let mut i: usize = 0;
    while i < colors.len()
        invariant
            i <= colors@.len(),
            forall|j: int| 0 <= j < i ==> colors@[j].key@ != name@,
        decreases colors@.len() - i,
    {
        if str_eq(colors[i].key.as_str(), name) {
            return Some(&colors[i]);
        }
        i = i + 1;
    }
    None
}

} // verus!
