//! SVG markup assembly: the escaped attribute text, `<use>` references to
//! component definitions, and the document frame.
//!
//! Numbers are rendered by the caller (see `number::format_scaled`) and
//! handed in as text.

use vstd::prelude::*;

use super::xml::{push_escaped, xml_escape};
use crate::text::{hex_digits, push_char, push_hex, push_str};

verus! {

/// A string wrapper that escapes the five significant XML characters when
/// rendered.
pub struct Escaped<'a>(pub &'a str);

impl<'a> Escaped<'a> {
    /// The escaped text.
    pub fn to_string(&self) -> (s: String)
        ensures
            s@ == xml_escape(self.0@),
    {
        let mut s = String::new();
        push_escaped(&mut s, self.0);
        assert(Seq::<char>::empty() + xml_escape(self.0@) =~= xml_escape(self.0@));
        s
    }
}

/// The id of a component definition: `{source}-{variant}-{hash:08x}`.
pub open spec fn def_id_text(source: Seq<char>, variant: Seq<char>, hash: u32) -> Seq<char> {
    source + seq!['-'] + variant + seq!['-'] + hex_digits(hash as nat, 8)
}

/// Transform parts joined by single spaces.
pub open spec fn join_spaced(parts: Seq<Seq<char>>) -> Seq<char>
    decreases parts.len(),
{
    if parts.len() == 0 {
        Seq::empty()
    } else if parts.len() == 1 {
        parts[0]
    } else {
        join_spaced(parts.drop_last()) + seq![' '] + parts.last()
    }
}

/// A `<use>` reference to a component definition, with a `transform`
/// attribute holding `transforms` when there are any.
pub open spec fn use_text(
    source: Seq<char>,
    variant: Seq<char>,
    hash: u32,
    transforms: Seq<Seq<char>>,
) -> Seq<char> {
    let transform = if transforms.len() == 0 {
        Seq::empty()
    } else {
        " transform=\""@ + join_spaced(transforms) + "\""@
    };
    "<use"@ + transform + " href=\"#"@ + def_id_text(source, variant, hash) + "\"/>"@
}

/// Appends `{source}-{variant}-{hash:08x}`.
pub fn push_def_id(out: &mut String, source: &str, variant: &str, hash: u32)
    ensures
        final(out)@ == old(out)@ + def_id_text(source@, variant@, hash),
{
    push_str(out, source);
    push_char(out, '-');
    push_str(out, variant);
    push_char(out, '-');
    push_hex(out, hash, 8);
    assert(final(out)@ =~= old(out)@ + def_id_text(source@, variant@, hash));
}

/// The markup `<use transform="..." href="#{source}-{variant}-{hash:08x}"/>`
/// referencing a component definition; the transform attribute is present
/// when `transforms` is non-empty and joins them with spaces.
pub fn use_element(source: &str, variant_name: &str, hash: u32, transforms: &Vec<String>) -> (s: String)
    ensures
        s@ == use_text(source@, variant_name@, hash, transforms@.map_values(|t: String| t@)),
{
    let ghost parts = transforms@.map_values(|t: String| t@);
    let mut s = String::new();
    push_str(&mut s, "<use");
    let ghost after_open = s@;
    if transforms.len() > 0 {
        push_str(&mut s, " transform=\"");
        let ghost start = s@;
        let mut i: usize = 0;
        while i < transforms.len()
            invariant
                i <= transforms@.len(),
                parts == transforms@.map_values(|t: String| t@),
                s@ == start + join_spaced(parts.take(i as int)),
            decreases transforms@.len() - i,
        {
            if i > 0 {
                push_char(&mut s, ' ');
            }
            push_str(&mut s, transforms[i].as_str());
            proof {
                let next = parts.take(i + 1);
                assert(next.drop_last() =~= parts.take(i as int));
                assert(next.last() == transforms@[i as int]@);
                if i == 0 {
                    assert(parts.take(0) =~= Seq::<Seq<char>>::empty());
                    assert(s@ =~= start + join_spaced(next));
                } else {
                    assert(s@ =~= start + join_spaced(next));
                }
            }
            i = i + 1;
        }
        assert(parts.take(transforms@.len() as int) =~= parts);
        push_str(&mut s, "\"");
    }
    push_str(&mut s, " href=\"#");
    push_def_id(&mut s, source, variant_name, hash);
    push_str(&mut s, "\"/>");
    assert(s@ =~= use_text(source@, variant_name@, hash, parts));
    s
}

/// The SVG document: the root element sized by `width` and `height`, the
/// DiceBear comment and `metadata`, the `<defs>` holding `defs` and the
/// clip path, then the clipped body of background rectangle and `uses`.
pub open spec fn document_text(
    width: Seq<char>,
    height: Seq<char>,
    metadata: Seq<char>,
    hash: u32,
    defs: Seq<char>,
    background: Seq<char>,
    uses: Seq<char>,
) -> Seq<char> {
    "<svg xmlns=\"http://www.w3.org/2000/svg\" viewBox=\"0 0 "@ + width + " "@ + height
        + "\" fill=\"none\" shape-rendering=\"auto\" aria-hidden=\"true\">"@
        + "<!-- Generated by DiceBear (https://www.dicebear.com) -->"@ + metadata + "<defs>"@
        + defs + "<clipPath id=\"clip-"@ + hex_digits(hash as nat, 8) + "\"><rect width=\""@
        + width + "\" height=\""@ + height + "\" rx=\"0\" ry=\"0\"/></clipPath></defs>"@
        + "<g clip-path=\"url(#clip-"@ + hex_digits(hash as nat, 8) + ")\"><rect width=\""@
        + width + "\" height=\""@ + height + "\" fill=\""@ + xml_escape(background) + "\"/>"@
        + uses + "</g></svg>"@
}

/// Assembles the SVG document from its rendered parts (see
/// [`document_text`]).
pub fn document(
    width: &str,
    height: &str,
    metadata: &str,
    hash: u32,
    defs: &str,
    background: &str,
    uses: &str,
) -> (s: String)
    ensures
        s@ == document_text(width@, height@, metadata@, hash, defs@, background@, uses@),
{
    let mut s = String::new();
    push_str(&mut s, "<svg xmlns=\"http://www.w3.org/2000/svg\" viewBox=\"0 0 ");
    push_str(&mut s, width);
    push_str(&mut s, " ");
    push_str(&mut s, height);
    push_str(&mut s, "\" fill=\"none\" shape-rendering=\"auto\" aria-hidden=\"true\">");
    push_str(&mut s, "<!-- Generated by DiceBear (https://www.dicebear.com) -->");
    push_str(&mut s, metadata);
    push_str(&mut s, "<defs>");
    push_str(&mut s, defs);
    push_str(&mut s, "<clipPath id=\"clip-");
    push_hex(&mut s, hash, 8);
    push_str(&mut s, "\"><rect width=\"");
    push_str(&mut s, width);
    push_str(&mut s, "\" height=\"");
    push_str(&mut s, height);
    push_str(&mut s, "\" rx=\"0\" ry=\"0\"/></clipPath></defs>");
    push_str(&mut s, "<g clip-path=\"url(#clip-");
    push_hex(&mut s, hash, 8);
    push_str(&mut s, ")\"><rect width=\"");
    push_str(&mut s, width);
    push_str(&mut s, "\" height=\"");
    push_str(&mut s, height);
    push_str(&mut s, "\" fill=\"");
    push_escaped(&mut s, background);
    push_str(&mut s, "\"/>");
    push_str(&mut s, uses);
    push_str(&mut s, "</g></svg>");
    assert(s@ =~= document_text(width@, height@, metadata@, hash, defs@, background@, uses@));
    s
}

} // verus!
