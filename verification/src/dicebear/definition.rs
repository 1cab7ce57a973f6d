//! Metadata records of a style definition: its named colors and the
//! license, creator and source it is published under.

use vstd::prelude::*;

verus! {

/// A named color of a style: its candidate values, as hex strings.
#[derive(Debug, Clone, PartialEq, Eq)]
pub struct ColorDef {
    pub values: Vec<String>,
}

impl Default for ColorDef {
    /// A color with no candidate values.
    fn default() -> (c: Self)
        ensures
            c.values@.len() == 0,
    {
        ColorDef { values: Vec::new() }
    }
}

/// A party named in a style's metadata, with an optional link.
#[derive(Debug, Clone, PartialEq, Eq)]
pub struct MetaParty {
    pub name: Option<String>,
    pub url: Option<String>,
}

impl Default for MetaParty {
    /// A party with neither a name nor a link.
    fn default() -> (p: Self)
        ensures
            p.name is None,
            p.url is None,
    {
        MetaParty { name: None, url: None }
    }
}

/// The license, creator and source of a style.
#[derive(Debug, Clone, PartialEq, Eq)]
pub struct MetaDef {
    pub license: MetaParty,
    pub creator: MetaParty,
    pub source: MetaParty,
}

impl Default for MetaDef {
    /// Metadata with every party unnamed and unlinked.
    fn default() -> (m: Self)
        ensures
            m.license.name is None && m.license.url is None,
            m.creator.name is None && m.creator.url is None,
            m.source.name is None && m.source.url is None,
    {
        MetaDef { license: MetaParty::default(), creator: MetaParty::default(), source: MetaParty::default() }
    }
}

} // verus!
