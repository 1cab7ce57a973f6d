//! The two passes of the SVG serializer. `<defs>` must precede the body
//! but is discovered while walking it, so the canvas is walked twice: first
//! writing each visible component's variant body once (deduped by source
//! and variant), then one `<use>` reference per visible component.
//!
//! Which variant a component shows, and the transform of its reference,
//! are drawn by the caller and handed in as a [`Placement`] per canvas
//! node.

use vstd::prelude::*;

use super::color::hex_text;
use super::data::{ColorRef, Node};
use super::hash::{hash_u32, text_hash};
use super::renderer::{def_text, divert_nodes, nodes_text, DefDedup, MAX_DEFS};
use super::resolver::{shuffled_stop, Resolver};
use super::svg::{def_id_text, document, document_text, use_element, use_text};
use super::xml::xml_escape;
use crate::text::hex_digits;
use crate::text::push_str;

verus! {

/// The variant a visible component shows: its name, its elements, and the
/// transform parts of its `<use>` reference, already rendered.
pub struct Placement<'a> {
    pub variant: &'a str,
    pub elements: &'a Vec<Node>,
    pub transforms: Vec<String>,
}

/// The texts of a placement's transform parts.
pub open spec fn transforms_view(p: Placement) -> Seq<Seq<char>> {
    p.transforms@.map_values(|t: String| t@)
}

/// `marked` with the pair appended when there is room for it.
pub open spec fn mark_pair(marked: Seq<(Seq<char>, Seq<char>)>, pair: (Seq<char>, Seq<char>)) -> Seq<
    (Seq<char>, Seq<char>),
> {
    if marked.len() < MAX_DEFS {
        marked.push(pair)
    } else {
        marked
    }
}

/// The component definitions the first pass writes for the first `n` canvas
/// nodes, with the `(source, variant)` pairs and gradient ids marked
/// afterwards: a visible component's variant body is written unless its
/// pair was written before.
pub open spec fn defs_upto(
    seed: Seq<char>,
    hash: u32,
    nodes: Seq<Node>,
    placements: Seq<Option<Placement>>,
    n: int,
) -> (Seq<char>, Seq<(Seq<char>, Seq<char>)>, Seq<Seq<char>>)
    decreases n,
{
    if n <= 0 {
        (Seq::empty(), Seq::empty(), Seq::empty())
    } else {
        let (text, g, grad) = defs_upto(seed, hash, nodes, placements, n - 1);
        match nodes[n - 1] {
            Node::Component { source, .. } => match placements[n - 1] {
                Some(p) => if g.contains((source@, p.variant@)) {
                    (text, g, grad)
                } else {
                    (
                        text + def_text(seed, source@, p.variant@, p.elements@, hash, grad),
                        mark_pair(g, (source@, p.variant@)),
                        divert_nodes(seed, p.elements@, grad).1,
                    )
                },
                None => (text, g, grad),
            },
            _ => (text, g, grad),
        }
    }
}

/// The `<use>` references the second pass writes for the first `n` canvas
/// nodes: one per visible component, in canvas order.
pub open spec fn uses_upto(hash: u32, nodes: Seq<Node>, placements: Seq<Option<Placement>>, n: int) -> Seq<char>
    decreases n,
{
    if n <= 0 {
        Seq::empty()
    } else {
        let prev = uses_upto(hash, nodes, placements, n - 1);
        match nodes[n - 1] {
            Node::Component { source, .. } => match placements[n - 1] {
                Some(p) => prev + use_text(source@, p.variant@, hash, transforms_view(p)),
                None => prev,
            },
            _ => prev,
        }
    }
}

/// The document hash of a style and seed: the suffix of every definition id.
pub open spec fn document_hash(source_name: Seq<char>, seed: Seq<char>) -> u32 {
    text_hash(source_name + seq![':'] + seed)
}

/// The avatar document for `seed`: the `<defs>` of the first pass, the
/// background color, and the references of the second pass.
pub open spec fn avatar_text(
    seed: Seq<char>,
    source_name: Seq<char>,
    width: Seq<char>,
    height: Seq<char>,
    metadata: Seq<char>,
    background: ColorRef,
    nodes: Seq<Node>,
    placements: Seq<Option<Placement>>,
) -> Seq<char> {
    let hash = document_hash(source_name, seed);
    document_text(
        width,
        height,
        metadata,
        hash,
        defs_upto(seed, hash, nodes, placements, nodes.len() as int).0,
        hex_text(shuffled_stop(seed, background.key@, background.palette@)@),
        uses_upto(hash, nodes, placements, nodes.len() as int),
    )
}

/// Renders the avatar for `seed` (see [`avatar_text`]). `placements` holds,
/// for each canvas node, the placement of a visible component and `None`
/// for every other node; the canvas size is given as rendered numbers.
pub fn render_svg<'a>(
    seed: &'a str,
    source_name: &str,
    width: &str,
    height: &str,
    metadata: &str,
    background: &ColorRef,
    canvas: &'a Vec<Node>,
    placements: &'a Vec<Option<Placement<'a>>>,
) -> (s: String)
    requires
        canvas@.len() == placements@.len(),
    ensures
        s@ == avatar_text(seed@, source_name@, width@, height@, metadata@, *background, canvas@, placements@),
{
    let resolver = Resolver::new(seed);
    let hash = hash_u32(source_name, seed);
    let ghost nodes = canvas@;
    let ghost places = placements@;

    let mut defs = String::new();
    let mut dedup: DefDedup<'a> = DefDedup::new();
    let mut i: usize = 0;
    while i < canvas.len()
        invariant
            i <= canvas@.len(),
            nodes == canvas@,
            places == placements@,
            canvas@.len() == placements@.len(),
            resolver@ == seed@,
            hash == document_hash(source_name@, seed@),
            defs@ == defs_upto(seed@, hash, nodes, places, i as int).0,
            dedup.marked_g() == defs_upto(seed@, hash, nodes, places, i as int).1,
            dedup.marked_grad() == defs_upto(seed@, hash, nodes, places, i as int).2,
        decreases canvas@.len() - i,
    {
        let node: &'a Node = &canvas[i];
        let placement: &'a Option<Placement<'a>> = &placements[i];
        match node {
            Node::Component { source, .. } => match placement {
                Some(p) => {
                    let source: &'a str = source.as_str();
                    if !dedup.seen_g(source, p.variant) {
                        dedup.mark_g(source, p.variant);
                        dedup.write_def(&mut defs, &resolver, source, p.variant, p.elements, hash);
                    }
                },
                None => {},
            },
            _ => {},
        }
        i = i + 1;
    }

    let background_text = match resolver.color(background) {
        Some(c) => c.to_hex(),
        None => String::new(),
    };

    let mut uses = String::new();
    let mut j: usize = 0;
    while j < canvas.len()
        invariant
            j <= canvas@.len(),
            nodes == canvas@,
            places == placements@,
            canvas@.len() == placements@.len(),
            uses@ == uses_upto(hash, nodes, places, j as int),
        decreases canvas@.len() - j,
    {
        match &canvas[j] {
            Node::Component { source, .. } => match &placements[j] {
                Some(p) => {
                    let reference = use_element(source.as_str(), p.variant, hash, &p.transforms);
                    push_str(&mut uses, reference.as_str());
                },
                None => {},
            },
            _ => {},
        }
        j = j + 1;
    }

    document(
        width,
        height,
        metadata,
        hash,
        defs.as_str(),
        background_text.as_str(),
        uses.as_str(),
    )
}

/// `text` holds `part` as a contiguous piece.
pub open spec fn holds_piece(text: Seq<char>, part: Seq<char>) -> bool {
    exists|k: int| 0 <= k && k + part.len() <= text.len() && #[trigger] text.subrange(k, k + part.len()) == part
}

/// The opening tag of a component definition: `<g id="{source}-{variant}-{hash:08x}">`.
pub open spec fn def_open_tag(source: Seq<char>, variant: Seq<char>, hash: u32) -> Seq<char> {
    "<g id=\""@ + def_id_text(source, variant, hash) + "\">"@
}

/// Node `i` is a component shown with a placement.
pub open spec fn is_visible(nodes: Seq<Node>, placements: Seq<Option<Placement>>, i: int) -> bool {
    nodes[i] is Component && placements[i] is Some
}

/// The source of component node `i`.
pub open spec fn node_source(nodes: Seq<Node>, i: int) -> Seq<char> {
    match nodes[i] {
        Node::Component { source, .. } => source@,
        _ => Seq::empty(),
    }
}

/// A piece of a text is a piece of any longer text starting with it.
proof fn lemma_piece_extends(text: Seq<char>, more: Seq<char>, part: Seq<char>)
    requires
        holds_piece(text, part),
    ensures
        holds_piece(text + more, part),
{
    let k = choose|k: int| 0 <= k && k + part.len() <= text.len() && #[trigger] text.subrange(k, k + part.len()) == part;
    assert((text + more).subrange(k, k + part.len()) =~= text.subrange(k, k + part.len()));
}

/// A piece of a text is a piece of any longer text ending with it.
proof fn lemma_piece_after(before: Seq<char>, text: Seq<char>, part: Seq<char>)
    requires
        holds_piece(text, part),
    ensures
        holds_piece(before + text, part),
{
    let k = choose|k: int| 0 <= k && k + part.len() <= text.len() && #[trigger] text.subrange(k, k + part.len()) == part;
    let m = before.len() + k;
    assert((before + text).subrange(m, m + part.len()) =~= text.subrange(k, k + part.len()));
}

/// A text holds each of its middle parts.
proof fn lemma_piece_middle(before: Seq<char>, part: Seq<char>, after: Seq<char>)
    ensures
        holds_piece(before + part + after, part),
{
    let t = before + part + after;
    let k = before.len() as int;
    assert(t.subrange(k, k + part.len()) =~= part);
}

/// Every pair marked by the first pass has its definition written, and
/// every visible component among the first `n` nodes has its definition
/// written.
proof fn lemma_defs_written(
    seed: Seq<char>,
    hash: u32,
    nodes: Seq<Node>,
    placements: Seq<Option<Placement>>,
    n: int,
)
    requires
        0 <= n <= nodes.len(),
        placements.len() == nodes.len(),
    ensures
        ({
            let (text, g, grad) = defs_upto(seed, hash, nodes, placements, n);
            &&& forall|k: int| 0 <= k < g.len() ==> holds_piece(text, def_open_tag((#[trigger] g[k]).0, g[k].1, hash))
            &&& forall|i: int|
                0 <= i < n && #[trigger] is_visible(nodes, placements, i) ==> holds_piece(
                    text,
                    def_open_tag(node_source(nodes, i), placements[i]->Some_0.variant@, hash),
                )
        }),
    decreases n,
{
    if n > 0 {
        lemma_defs_written(seed, hash, nodes, placements, n - 1);
        let (text, g, grad) = defs_upto(seed, hash, nodes, placements, n - 1);
        let (text2, g2, grad2) = defs_upto(seed, hash, nodes, placements, n);
        let i = n - 1;
        if is_visible(nodes, placements, i) {
            let source = node_source(nodes, i);
            let p = placements[i]->Some_0;
            let tag = def_open_tag(source, p.variant@, hash);
            if g.contains((source, p.variant@)) {
                assert(text2 == text && g2 == g);
                let k = choose|k: int| 0 <= k < g.len() && g[k] == (source, p.variant@);
                assert(holds_piece(text, def_open_tag(g[k].0, g[k].1, hash)));
            } else {
                let def = def_text(seed, source, p.variant@, p.elements@, hash, grad);
                let head = divert_nodes(seed, p.elements@, grad).0;
                let tail = nodes_text(seed, p.elements@) + "</g>"@;
                assert(def =~= head + tag + tail);
                assert(text2 == text + def);
                lemma_piece_middle(head, tag, tail);
                lemma_piece_after(text, def, tag);
                assert forall|k: int| 0 <= k < g.len() implies holds_piece(text2, def_open_tag((#[trigger] g[k]).0, g[k].1, hash)) by {
                    lemma_piece_extends(text, def, def_open_tag(g[k].0, g[k].1, hash));
                }
                assert forall|j: int| 0 <= j < n - 1 && #[trigger] is_visible(nodes, placements, j) implies holds_piece(
                    text2,
                    def_open_tag(node_source(nodes, j), placements[j]->Some_0.variant@, hash),
                ) by {
                    lemma_piece_extends(text, def, def_open_tag(node_source(nodes, j), placements[j]->Some_0.variant@, hash));
                }
                assert forall|k: int| 0 <= k < g2.len() implies holds_piece(text2, def_open_tag((#[trigger] g2[k]).0, g2[k].1, hash)) by {
                    if k < g.len() {
                        assert(g2[k] == g[k]);
                    } else {
                        assert(g2[k] == (source, p.variant@));
                    }
                }
            }
        } else {
            assert(text2 == text && g2 == g);
        }
    }
}

/// The first pass writes each `(source, variant)` pair once: while the
/// dedup table has room (at most [`MAX_DEFS`] nodes), the pairs it has
/// written after the first `n` nodes are exactly the pairs of the visible
/// components among them, each once.
pub proof fn law_each_definition_written_once(
    seed: Seq<char>,
    hash: u32,
    nodes: Seq<Node>,
    placements: Seq<Option<Placement>>,
    n: int,
)
    requires
        0 <= n <= nodes.len(),
        n <= MAX_DEFS,
        placements.len() == nodes.len(),
    ensures
        ({
            let g = defs_upto(seed, hash, nodes, placements, n).1;
            &&& g.no_duplicates()
            &&& g.len() <= n
            &&& forall|i: int|
                0 <= i < n && #[trigger] is_visible(nodes, placements, i) ==> g.contains(
                    (node_source(nodes, i), placements[i]->Some_0.variant@),
                )
            &&& forall|k: int|
                #![trigger g[k]]
                0 <= k < g.len() ==> exists|i: int|
                    0 <= i < n && #[trigger] is_visible(nodes, placements, i) && (node_source(nodes, i), placements[i]->Some_0.variant@)
                        == g[k]
        }),
    decreases n,
{
    if n > 0 {
        law_each_definition_written_once(seed, hash, nodes, placements, n - 1);
        let g = defs_upto(seed, hash, nodes, placements, n - 1).1;
        let g2 = defs_upto(seed, hash, nodes, placements, n).1;
        let i = n - 1;
        if is_visible(nodes, placements, i) {
            let pair = (node_source(nodes, i), placements[i]->Some_0.variant@);
            if g.contains(pair) {
                assert(g2 == g);
            } else {
                assert(g2 == g.push(pair));
                assert(g2[g.len() as int] == pair);
                assert forall|j: int| 0 <= j < n && #[trigger] is_visible(nodes, placements, j) implies g2.contains(
                    (node_source(nodes, j), placements[j]->Some_0.variant@),
                ) by {
                    if j < n - 1 {
                        let w = choose|w: int| 0 <= w < g.len() && g[w] == (node_source(nodes, j), placements[j]->Some_0.variant@);
                        assert(g2[w] == g[w]);
                    }
                }
                assert forall|k: int| #![trigger g2[k]] 0 <= k < g2.len() implies exists|j: int|
                    0 <= j < n && #[trigger] is_visible(nodes, placements, j) && (node_source(nodes, j), placements[j]->Some_0.variant@)
                        == g2[k] by {
                    if k < g.len() {
                        assert(g2[k] == g[k]);
                    } else {
                        assert(is_visible(nodes, placements, i));
                    }
                }
            }
        } else {
            assert(g2 == g);
        }
    }
}

/// Every visible component among the first `n` nodes has its `<use>`
/// reference in the second pass.
proof fn lemma_uses_written(hash: u32, nodes: Seq<Node>, placements: Seq<Option<Placement>>, n: int)
    requires
        0 <= n <= nodes.len(),
        placements.len() == nodes.len(),
    ensures
        forall|i: int|
            0 <= i < n && #[trigger] is_visible(nodes, placements, i) ==> holds_piece(
                uses_upto(hash, nodes, placements, n),
                use_text(
                    node_source(nodes, i),
                    placements[i]->Some_0.variant@,
                    hash,
                    transforms_view(placements[i]->Some_0),
                ),
            ),
    decreases n,
{
    if n > 0 {
        lemma_uses_written(hash, nodes, placements, n - 1);
        let prev = uses_upto(hash, nodes, placements, n - 1);
        let cur = uses_upto(hash, nodes, placements, n);
        let i = n - 1;
        let added = if is_visible(nodes, placements, i) {
            let p = placements[i]->Some_0;
            use_text(node_source(nodes, i), p.variant@, hash, transforms_view(p))
        } else {
            Seq::empty()
        };
        assert(cur =~= prev + added);
        assert forall|j: int| 0 <= j < n && #[trigger] is_visible(nodes, placements, j) implies holds_piece(
            cur,
            use_text(
                node_source(nodes, j),
                placements[j]->Some_0.variant@,
                hash,
                transforms_view(placements[j]->Some_0),
            ),
        ) by {
            let part = use_text(
                node_source(nodes, j),
                placements[j]->Some_0.variant@,
                hash,
                transforms_view(placements[j]->Some_0),
            );
            if j < n - 1 {
                lemma_piece_extends(prev, added, part);
            } else {
                assert(prev + added =~= prev + part + Seq::<char>::empty());
                lemma_piece_middle(prev, part, Seq::empty());
            }
        }
    }
}

/// Every visible component is drawn: the avatar document holds the
/// definition `<g id="{source}-{variant}-{hash:08x}">` of each visible
/// component's variant, keyed by its own source (so components of
/// different sources showing the same variant name each have their own
/// definition), and a `<use>` reference to it.
pub proof fn law_every_visible_component_is_drawn(
    seed: Seq<char>,
    source_name: Seq<char>,
    width: Seq<char>,
    height: Seq<char>,
    metadata: Seq<char>,
    background: ColorRef,
    nodes: Seq<Node>,
    placements: Seq<Option<Placement>>,
    i: int,
)
    requires
        placements.len() == nodes.len(),
        0 <= i < nodes.len(),
        is_visible(nodes, placements, i),
    ensures
        holds_piece(
            avatar_text(seed, source_name, width, height, metadata, background, nodes, placements),
            def_open_tag(node_source(nodes, i), placements[i]->Some_0.variant@, document_hash(source_name, seed)),
        ),
        holds_piece(
            avatar_text(seed, source_name, width, height, metadata, background, nodes, placements),
            use_text(
                node_source(nodes, i),
                placements[i]->Some_0.variant@,
                document_hash(source_name, seed),
                transforms_view(placements[i]->Some_0),
            ),
        ),
{
    let hash = document_hash(source_name, seed);
    let n = nodes.len() as int;
    let defs = defs_upto(seed, hash, nodes, placements, n).0;
    let uses = uses_upto(hash, nodes, placements, n);
    let bg = hex_text(shuffled_stop(seed, background.key@, background.palette@)@);
    lemma_defs_written(seed, hash, nodes, placements, n);
    lemma_uses_written(hash, nodes, placements, n);
    let doc = document_text(width, height, metadata, hash, defs, bg, uses);
    let before_defs = "<svg xmlns=\"http://www.w3.org/2000/svg\" viewBox=\"0 0 "@ + width + " "@ + height
        + "\" fill=\"none\" shape-rendering=\"auto\" aria-hidden=\"true\">"@
        + "<!-- Generated by DiceBear (https://www.dicebear.com) -->"@ + metadata + "<defs>"@;
    let between = "<clipPath id=\"clip-"@ + hex_digits(hash as nat, 8) + "\"><rect width=\""@
        + width + "\" height=\""@ + height + "\" rx=\"0\" ry=\"0\"/></clipPath></defs>"@
        + "<g clip-path=\"url(#clip-"@ + hex_digits(hash as nat, 8) + ")\"><rect width=\""@
        + width + "\" height=\""@ + height + "\" fill=\""@ + xml_escape(bg) + "\"/>"@;
    let after = "</g></svg>"@;
    assert(doc =~= before_defs + defs + (between + uses + after));
    assert(doc =~= (before_defs + defs + between) + uses + after);
    let tag = def_open_tag(node_source(nodes, i), placements[i]->Some_0.variant@, hash);
    let reference = use_text(
        node_source(nodes, i),
        placements[i]->Some_0.variant@,
        hash,
        transforms_view(placements[i]->Some_0),
    );
    assert(holds_piece(defs, tag));
    lemma_piece_after(before_defs, defs, tag);
    lemma_piece_extends(before_defs + defs, between + uses + after, tag);
    assert(holds_piece(uses, reference));
    lemma_piece_after(before_defs + defs + between, uses, reference);
    lemma_piece_extends(before_defs + defs + between + uses, after, reference);
}

} // verus!
