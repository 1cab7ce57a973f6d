//! Bookkeeping of the SVG serializer: which component bodies and gradient
//! definitions have already been written into the document `<defs>`.

use vstd::prelude::*;

use super::color::hex_text;
use super::data::{AttrVal, Node};
use super::resolver::{shuffled_stop, Resolver};
use super::svg::{def_id_text, push_def_id};
use super::xml::{push_escaped, xml_escape};
use crate::text::{push_char, push_str, str_eq};

verus! {

/// Capacity of each dedup table.
pub const MAX_DEFS: usize = 16;

/// Dedup state for the `<defs>` pass. Each table remembers up to
/// [`MAX_DEFS`] entries in marking order; marking beyond that is ignored.
pub struct DefDedup<'a> {
    seen_g: Vec<(&'a str, &'a str)>,
    seen_grad: Vec<&'a str>,
}

impl<'a> DefDedup<'a> {
    /// The `(source, variant)` pairs marked so far, in marking order.
    pub closed spec fn marked_g(self) -> Seq<(Seq<char>, Seq<char>)> {
        self.seen_g@.map_values(|p: (&str, &str)| (p.0@, p.1@))
    }

    /// The gradient ids marked so far, in marking order.
    pub closed spec fn marked_grad(self) -> Seq<Seq<char>> {
        self.seen_grad@.map_values(|s: &str| s@)
    }

    /// An empty dedup state.
    pub fn new() -> (d: Self)
        ensures
            d.marked_g() == Seq::<(Seq<char>, Seq<char>)>::empty(),
            d.marked_grad() == Seq::<Seq<char>>::empty(),
    {
        let d = DefDedup { seen_g: Vec::new(), seen_grad: Vec::new() };
        assert(d.marked_g() =~= Seq::<(Seq<char>, Seq<char>)>::empty());
        assert(d.marked_grad() =~= Seq::<Seq<char>>::empty());
        d
    }

    /// Whether the pair `(source, variant)` has been marked.
    pub fn seen_g(&self, source: &str, variant: &str) -> (b: bool)
        ensures
            b == self.marked_g().contains((source@, variant@)),
    {
        let ghost marked = self.marked_g();
        let mut i: usize = 0;
        while i < self.seen_g.len()
            invariant
                i <= self.seen_g@.len(),
                marked == self.marked_g(),
                marked.len() == self.seen_g@.len(),
                forall|k: int| 0 <= k < i ==> #[trigger] marked[k] != (source@, variant@),
            decreases self.seen_g@.len() - i,
        {
            let (s, v) = self.seen_g[i];
            assert(marked[i as int] == (s@, v@));
            if str_eq(s, source) && str_eq(v, variant) {
                return true;
            }
            i = i + 1;
        }
        false
    }

    /// Marks `(source, variant)` as written. Ignored once the table is full.
    pub fn mark_g(&mut self, source: &'a str, variant: &'a str)
        ensures
            old(self).marked_g().len() < MAX_DEFS ==> final(self).marked_g() == old(
                self,
            ).marked_g().push((source@, variant@)),
            old(self).marked_g().len() >= MAX_DEFS ==> final(self).marked_g() == old(
                self,
            ).marked_g(),
            final(self).marked_grad() == old(self).marked_grad(),
    {
        if self.seen_g.len() < MAX_DEFS {
            self.seen_g.push((source, variant));
            assert(self.marked_g() =~= old(self).marked_g().push((source@, variant@)));
        }
    }

    /// Whether the gradient `id` has been marked.
    pub fn seen_grad(&self, id: &str) -> (b: bool)
        ensures
            b == self.marked_grad().contains(id@),
    {
        let ghost marked = self.marked_grad();
        let mut i: usize = 0;
        while i < self.seen_grad.len()
            invariant
                i <= self.seen_grad@.len(),
                marked == self.marked_grad(),
                marked.len() == self.seen_grad@.len(),
                forall|k: int| 0 <= k < i ==> #[trigger] marked[k] != id@,
            decreases self.seen_grad@.len() - i,
        {
            let s = self.seen_grad[i];
            assert(marked[i as int] == s@);
            if str_eq(s, id) {
                return true;
            }
            i = i + 1;
        }
        false
    }

    /// Marks the gradient `id` as written. Ignored once the table is full.
    pub fn mark_grad(&mut self, id: &'a str)
        ensures
            old(self).marked_grad().len() < MAX_DEFS ==> final(self).marked_grad() == old(
                self,
            ).marked_grad().push(id@),
            old(self).marked_grad().len() >= MAX_DEFS ==> final(self).marked_grad() == old(
                self,
            ).marked_grad(),
            final(self).marked_g() == old(self).marked_g(),
    {
        if self.seen_grad.len() < MAX_DEFS {
            self.seen_grad.push(id);
            assert(self.marked_grad() =~= old(self).marked_grad().push(id@));
        }
    }
}

/// The text of an attribute value for `seed`: literal text as is, a color
/// as the `#rrggbb` form of its shuffled stop.
pub open spec fn attr_value_text(seed: Seq<char>, value: AttrVal) -> Seq<char> {
    match value {
        AttrVal::Lit(s) => s@,
        AttrVal::Color(c) => hex_text(shuffled_stop(seed, c.key@, c.palette@)@),
    }
}

/// The markup of an attribute list: ` key="value"` per attribute, values
/// escaped.
pub open spec fn attrs_text(seed: Seq<char>, attrs: Seq<(String, AttrVal)>) -> Seq<char>
    decreases attrs.len(),
{
    if attrs.len() == 0 {
        Seq::empty()
    } else {
        attrs_text(seed, attrs.drop_last()) + seq![' '] + attrs.last().0@ + seq!['=', '"']
            + xml_escape(attr_value_text(seed, attrs.last().1)) + seq!['"']
    }
}

/// Whether `name` is the `defs` element, whose content is diverted into the
/// document `<defs>`.
pub open spec fn is_defs(name: Seq<char>) -> bool {
    name == "defs"@
}

/// The markup of a node for `seed`: elements with their attributes and
/// children (self-closing when childless), escaped text; `defs` elements and
/// components write nothing here.
pub open spec fn node_text(seed: Seq<char>, node: Node) -> Seq<char>
    decreases node, 1nat,
{
    match node {
        Node::El { name, attrs, children } => if is_defs(name@) {
            Seq::empty()
        } else if children@.len() == 0 {
            seq!['<'] + name@ + attrs_text(seed, attrs@) + seq!['/', '>']
        } else {
            seq!['<'] + name@ + attrs_text(seed, attrs@) + seq!['>'] + nodes_text(seed, children@)
                + seq!['<', '/'] + name@ + seq!['>']
        },
        Node::Text { value } => xml_escape(value@),
        Node::Component { .. } => Seq::empty(),
    }
}

/// The markup of a node list, in order.
pub open spec fn nodes_text(seed: Seq<char>, nodes: Seq<Node>) -> Seq<char>
    decreases nodes, 0nat,
{
    if nodes.len() == 0 {
        Seq::empty()
    } else {
        nodes_text(seed, nodes.drop_last()) + node_text(seed, nodes.last())
    }
}

/// Appends the markup of `attrs` (see [`attrs_text`]).
pub fn write_attrs(out: &mut String, resolver: &Resolver, attrs: &Vec<(String, AttrVal)>)
    ensures
        final(out)@ == old(out)@ + attrs_text(resolver@, attrs@),
{
    let ghost start = out@;
    let mut i: usize = 0;
    assert(attrs@.take(0) =~= Seq::<(String, AttrVal)>::empty());
    while i < attrs.len()
        invariant
            i <= attrs@.len(),
            out@ == start + attrs_text(resolver@, attrs@.take(i as int)),
        decreases attrs@.len() - i,
    {
        let (key, value) = &attrs[i];
        push_char(out, ' ');
        push_str(out, key.as_str());
        push_char(out, '=');
        push_char(out, '"');
        match value {
            AttrVal::Lit(s) => push_escaped(out, s.as_str()),
            AttrVal::Color(color) => {
                let stop = resolver.color(color);
                let hex = match stop {
                    Some(stop) => stop.to_hex(),
                    None => String::new(),
                };
                push_escaped(out, hex.as_str());
            },
        }
        push_char(out, '"');
        proof {
            let next = attrs@.take(i + 1);
            assert(next.drop_last() =~= attrs@.take(i as int));
            assert(next.last() == attrs@[i as int]);
            assert(out@ =~= start + attrs_text(resolver@, next));
        }
        i = i + 1;
    }
    assert(attrs@.take(attrs@.len() as int) =~= attrs@);
}

/// Appends the markup of `node` (see [`node_text`]).
pub fn write_node(out: &mut String, resolver: &Resolver, node: &Node)
    ensures
        final(out)@ == old(out)@ + node_text(resolver@, *node),
    decreases node, 1nat,
{
    match node {
        Node::El { name, attrs, children } => {
            if str_eq(name.as_str(), "defs") {
                assert(old(out)@ + Seq::<char>::empty() =~= old(out)@);
                return;
            }
            push_char(out, '<');
            push_str(out, name.as_str());
            write_attrs(out, resolver, attrs);
            if children.len() == 0 {
                push_char(out, '/');
                push_char(out, '>');
                assert(out@ =~= old(out)@ + node_text(resolver@, *node));
            } else {
                push_char(out, '>');
                write_nodes(out, resolver, children);
                push_char(out, '<');
                push_char(out, '/');
                push_str(out, name.as_str());
                push_char(out, '>');
                assert(out@ =~= old(out)@ + node_text(resolver@, *node));
            }
        },
        Node::Text { value } => push_escaped(out, value.as_str()),
        Node::Component { .. } => {
            assert(old(out)@ + Seq::<char>::empty() =~= old(out)@);
        },
    }
}

/// Appends the markup of `nodes`, in order (see [`nodes_text`]).
pub fn write_nodes(out: &mut String, resolver: &Resolver, nodes: &Vec<Node>)
    ensures
        final(out)@ == old(out)@ + nodes_text(resolver@, nodes@),
    decreases nodes, 0nat,
{
    let ghost start = out@;
    let mut i: usize = 0;
    assert(nodes@.take(0) =~= Seq::<Node>::empty());
    while i < nodes.len()
        invariant
            i <= nodes@.len(),
            out@ == start + nodes_text(resolver@, nodes@.take(i as int)),
        decreases nodes@.len() - i,
    {
        write_node(out, resolver, &nodes[i]);
        proof {
            let next = nodes@.take(i + 1);
            assert(next.drop_last() =~= nodes@.take(i as int));
            assert(next.last() == nodes@[i as int]);
            assert(out@ =~= start + nodes_text(resolver@, next));
        }
        i = i + 1;
    }
    assert(nodes@.take(nodes@.len() as int) =~= nodes@);
}

/// The first literal `id` attribute of `attrs`, if any.
pub open spec fn literal_id(attrs: Seq<(String, AttrVal)>) -> Option<Seq<char>>
    decreases attrs.len(),
{
    if attrs.len() == 0 {
        None
    } else if attrs[0].0@ == "id"@ && attrs[0].1 is Lit {
        Some(attrs[0].1->Lit_0@)
    } else {
        literal_id(attrs.drop_first())
    }
}

/// The `id` attribute of an element node, if it has a literal one.
pub open spec fn node_id_spec(node: Node) -> Option<Seq<char>> {
    match node {
        Node::El { attrs, .. } => literal_id(attrs@),
        _ => None,
    }
}

/// Returns the `id` attribute of an element node, if it has a literal one.
pub fn node_id(node: &Node) -> (r: Option<&str>)
    ensures
        match r {
            Some(id) => node_id_spec(*node) == Some(id@),
            None => node_id_spec(*node) is None,
        },
{
    match node {
        Node::El { attrs, .. } => {
            let mut i: usize = 0;
            assert(attrs@.skip(0) =~= attrs@);
            while i < attrs.len()
                invariant
                    i <= attrs@.len(),
                    literal_id(attrs@) == literal_id(attrs@.skip(i as int)),
                    node_id_spec(*node) == literal_id(attrs@),
                decreases attrs@.len() - i,
            {
                assert(attrs@.skip(i as int)[0] == attrs@[i as int]);
                let (key, value) = &attrs[i];
                if str_eq(key.as_str(), "id") {
                    if let AttrVal::Lit(s) = value {
                        assert(literal_id(attrs@.skip(i as int)) == Some(s@));
                        let r = s.as_str();
                        assert(r@ == s@);
                        return Some(r);
                    }
                }
                assert(attrs@.skip(i as int).drop_first() =~= attrs@.skip(i + 1));
                i = i + 1;
            }
            None
        },
        _ => None,
    }
}

/// `marked` with `id` appended when there is room for it.
pub open spec fn mark_id(marked: Seq<Seq<char>>, id: Seq<char>) -> Seq<Seq<char>> {
    if marked.len() < MAX_DEFS {
        marked.push(id)
    } else {
        marked
    }
}

/// The children of a `defs` element written into the document `<defs>`,
/// skipping children whose literal id was already written, and the ids
/// marked afterwards.
pub open spec fn defs_children(seed: Seq<char>, children: Seq<Node>, marked: Seq<Seq<char>>) -> (Seq<char>, Seq<Seq<char>>)
    decreases children.len(),
{
    if children.len() == 0 {
        (Seq::empty(), marked)
    } else {
        let (text, m) = defs_children(seed, children.drop_last(), marked);
        let child = children.last();
        match node_id_spec(child) {
            Some(id) => if m.contains(id) {
                (text, m)
            } else {
                (text + node_text(seed, child), mark_id(m, id))
            },
            None => (text + node_text(seed, child), m),
        }
    }
}

/// The content diverted from every `defs` element of `nodes` (at any depth)
/// into the document `<defs>`, in document order, and the ids marked
/// afterwards.
pub open spec fn divert_nodes(seed: Seq<char>, nodes: Seq<Node>, marked: Seq<Seq<char>>) -> (Seq<char>, Seq<Seq<char>>)
    decreases nodes, 0nat,
{
    if nodes.len() == 0 {
        (Seq::empty(), marked)
    } else {
        let (t1, m1) = divert_nodes(seed, nodes.drop_last(), marked);
        let (t2, m2) = divert_node(seed, nodes.last(), m1);
        (t1 + t2, m2)
    }
}

/// The content diverted from one node (see [`divert_nodes`]).
pub open spec fn divert_node(seed: Seq<char>, node: Node, marked: Seq<Seq<char>>) -> (Seq<char>, Seq<Seq<char>>)
    decreases node, 1nat,
{
    match node {
        Node::El { name, children, .. } => if is_defs(name@) {
            defs_children(seed, children@, marked)
        } else {
            divert_nodes(seed, children@, marked)
        },
        _ => (Seq::empty(), marked),
    }
}

impl<'a> DefDedup<'a> {
    /// Writes the children of a `defs` element (see [`defs_children`]).
    fn write_defs_children(&mut self, out: &mut String, resolver: &Resolver, children: &'a Vec<Node>)
        ensures
            final(out)@ == old(out)@ + defs_children(resolver@, children@, old(self).marked_grad()).0,
            final(self).marked_grad() == defs_children(resolver@, children@, old(self).marked_grad()).1,
            final(self).marked_g() == old(self).marked_g(),
    {
        let ghost start = out@;
        let ghost marked0 = self.marked_grad();
        let mut i: usize = 0;
        assert(children@.take(0) =~= Seq::<Node>::empty());
        while i < children.len()
            invariant
                i <= children@.len(),
                out@ == start + defs_children(resolver@, children@.take(i as int), marked0).0,
                self.marked_grad() == defs_children(resolver@, children@.take(i as int), marked0).1,
                self.marked_g() == old(self).marked_g(),
            decreases children@.len() - i,
        {
            let child = &children[i];
            proof {
                let next = children@.take(i + 1);
                assert(next.drop_last() =~= children@.take(i as int));
                assert(next.last() == children@[i as int]);
            }
            let mut skip = false;
            if let Some(id) = node_id(child) {
                if self.seen_grad(id) {
                    skip = true;
                } else {
                    self.mark_grad(id);
                }
            }
            if !skip {
                write_node(out, resolver, child);
            }
            proof {
                let next = children@.take(i + 1);
                assert(out@ =~= start + defs_children(resolver@, next, marked0).0);
            }
            i = i + 1;
        }
        assert(children@.take(children@.len() as int) =~= children@);
    }

    /// Writes every `defs` element's children found in `nodes`, at any
    /// depth, into the document `<defs>`, deduped by id (see
    /// [`divert_nodes`]).
    pub fn divert_defs(&mut self, out: &mut String, resolver: &Resolver, nodes: &'a Vec<Node>)
        ensures
            final(out)@ == old(out)@ + divert_nodes(resolver@, nodes@, old(self).marked_grad()).0,
            final(self).marked_grad() == divert_nodes(resolver@, nodes@, old(self).marked_grad()).1,
            final(self).marked_g() == old(self).marked_g(),
        decreases nodes, 0nat,
    {
        let ghost start = out@;
        let ghost marked0 = self.marked_grad();
        let mut i: usize = 0;
        assert(nodes@.take(0) =~= Seq::<Node>::empty());
        while i < nodes.len()
            invariant
                i <= nodes@.len(),
                out@ == start + divert_nodes(resolver@, nodes@.take(i as int), marked0).0,
                self.marked_grad() == divert_nodes(resolver@, nodes@.take(i as int), marked0).1,
                self.marked_g() == old(self).marked_g(),
            decreases nodes@.len() - i,
        {
            let node = &nodes[i];
            proof {
                let next = nodes@.take(i + 1);
                assert(next.drop_last() =~= nodes@.take(i as int));
                assert(next.last() == nodes@[i as int]);
            }
            self.divert_node(out, resolver, node);
            proof {
                let next = nodes@.take(i + 1);
                assert(out@ =~= start + divert_nodes(resolver@, next, marked0).0);
            }
            i = i + 1;
        }
        assert(nodes@.take(nodes@.len() as int) =~= nodes@);
    }

    /// Writes the content one node diverts (see [`divert_node`]).
    fn divert_node(&mut self, out: &mut String, resolver: &Resolver, node: &'a Node)
        ensures
            final(out)@ == old(out)@ + divert_node(resolver@, *node, old(self).marked_grad()).0,
            final(self).marked_grad() == divert_node(resolver@, *node, old(self).marked_grad()).1,
            final(self).marked_g() == old(self).marked_g(),
        decreases node, 1nat,
    {
        match node {
            Node::El { name, children, .. } => {
                if str_eq(name.as_str(), "defs") {
                    self.write_defs_children(out, resolver, children);
                } else {
                    self.divert_defs(out, resolver, children);
                }
            },
            _ => {
                assert(old(out)@ + Seq::<char>::empty() =~= old(out)@);
            },
        }
    }

    /// Writes a component variant's definition: its embedded `<defs>`
    /// content is diverted into the document `<defs>` (deduped by id), then
    /// the variant body is wrapped in `<g id="{source}-{variant}-{hash:08x}">`.
    pub fn write_def(
        &mut self,
        out: &mut String,
        resolver: &Resolver,
        source: &str,
        variant_name: &str,
        elements: &'a Vec<Node>,
        hash: u32,
    )
        ensures
            final(out)@ == old(out)@ + def_text(resolver@, source@, variant_name@, elements@, hash, old(self).marked_grad()),
            final(self).marked_grad() == divert_nodes(resolver@, elements@, old(self).marked_grad()).1,
            final(self).marked_g() == old(self).marked_g(),
    {
        self.divert_defs(out, resolver, elements);
        push_str(out, "<g id=\"");
        push_def_id(out, source, variant_name, hash);
        push_str(out, "\">");
        write_nodes(out, resolver, elements);
        push_str(out, "</g>");
        assert(final(out)@ =~= old(out)@ + def_text(resolver@, source@, variant_name@, elements@, hash, old(self).marked_grad()));
    }
}

/// A component variant's definition: the diverted `<defs>` content, then
/// the body wrapped in a group carrying the definition id.
pub open spec fn def_text(
    seed: Seq<char>,
    source: Seq<char>,
    variant: Seq<char>,
    elements: Seq<Node>,
    hash: u32,
    marked: Seq<Seq<char>>,
) -> Seq<char> {
    divert_nodes(seed, elements, marked).0 + "<g id=\""@ + def_id_text(source, variant, hash) + "\">"@
        + nodes_text(seed, elements) + "</g>"@
}

/// Once a pair has been marked in a table with room for it, the table
/// reports it as seen, so a component body is written at most once.
pub proof fn law_marked_pair_is_seen(before: DefDedup, after: DefDedup, source: &str, variant: &str)
    requires
        before.marked_g().len() < MAX_DEFS,
        after.marked_g() == before.marked_g().push((source@, variant@)),
    ensures
        after.marked_g().contains((source@, variant@)),
{
    assert(after.marked_g()[before.marked_g().len() as int] == (source@, variant@));
}

} // verus!
