//! FNV-1a over the UTF-16 code units of a string.
//!
//! DiceBear hashes JavaScript strings, which are sequences of UTF-16 code
//! units, so every character is first encoded to one unit (inside the Basic
//! Multilingual Plane) or to a surrogate pair.

use vstd::prelude::*;

verus! {

/// FNV-1a offset basis.
pub const FNV_OFFSET: u32 = 0x811C_9DC5;

/// FNV-1a prime.
pub const FNV_PRIME: u32 = 0x0100_0193;

/// The UTF-16 code units of one character.
pub open spec fn utf16_of_char(c: char) -> Seq<u16> {
    let v = c as u32;
    if v < 0x10000 {
        seq![v as u16]
    } else {
        seq![(0xD800 + (v - 0x10000) / 1024) as u16, (0xDC00 + (v - 0x10000) % 1024) as u16]
    }
}

/// The UTF-16 encoding of a character sequence.
pub open spec fn utf16(s: Seq<char>) -> Seq<u16>
    decreases s.len(),
{
    if s.len() == 0 {
        Seq::empty()
    } else {
        utf16(s.drop_last()) + utf16_of_char(s.last())
    }
}

/// One FNV-1a round: xor in the unit, multiply by the prime modulo 2^32.
pub open spec fn spec_step(hash: u32, unit: u16) -> u32 {
    (hash ^ (unit as u32)).wrapping_mul(FNV_PRIME)
}

/// FNV-1a folded over `units`, starting from `hash`.
pub open spec fn fnv(hash: u32, units: Seq<u16>) -> u32
    decreases units.len(),
{
    if units.len() == 0 {
        hash
    } else {
        spec_step(fnv(hash, units.drop_last()), units.last())
    }
}

/// The concatenation of the fragments of a key.
pub open spec fn concat_fragments(key: Seq<&str>) -> Seq<char>
    decreases key.len(),
{
    if key.len() == 0 {
        Seq::empty()
    } else {
        concat_fragments(key.drop_last()) + key.last()@
    }
}

/// The string hashed for `seed` and `key`: the seed, a `:` separator and the
/// concatenated key fragments.
pub open spec fn seed_key_text(seed: Seq<char>, key: Seq<&str>) -> Seq<char> {
    seed + seq![':'] + concat_fragments(key)
}

/// The DiceBear hash of a string: FNV-1a over its UTF-16 code units.
pub open spec fn text_hash(text: Seq<char>) -> u32 {
    fnv(FNV_OFFSET, utf16(text))
}

/// The UTF-16 encoding of a concatenation is the concatenation of the
/// encodings.
pub proof fn lemma_utf16_concat(a: Seq<char>, b: Seq<char>)
    ensures
        utf16(a + b) == utf16(a) + utf16(b),
    decreases b.len(),
{
    if b.len() == 0 {
        assert(a + b =~= a);
        assert(utf16(a) + utf16(b) =~= utf16(a));
    } else {
        lemma_utf16_concat(a, b.drop_last());
        assert((a + b).drop_last() =~= a + b.drop_last());
        assert((a + b).last() == b.last());
        assert(utf16(a) + utf16(b) =~= utf16(a) + utf16(b.drop_last()) + utf16_of_char(b.last()));
    }
}

/// Folding over a concatenation folds over the first part, then the second.
pub proof fn lemma_fnv_concat(hash: u32, a: Seq<u16>, b: Seq<u16>)
    ensures
        fnv(hash, a + b) == fnv(fnv(hash, a), b),
    decreases b.len(),
{
    if b.len() == 0 {
        assert(a + b =~= a);
    } else {
        lemma_fnv_concat(hash, a, b.drop_last());
        assert((a + b).drop_last() =~= a + b.drop_last());
        assert((a + b).last() == b.last());
    }
}

/// Hashing fragments one after another is hashing their concatenation.
pub proof fn lemma_fnv_text_concat(hash: u32, a: Seq<char>, b: Seq<char>)
    ensures
        fnv(hash, utf16(a + b)) == fnv(fnv(hash, utf16(a)), utf16(b)),
{
    lemma_utf16_concat(a, b);
    lemma_fnv_concat(hash, utf16(a), utf16(b));
}

/// The encoding of a single character.
proof fn lemma_utf16_single(c: char)
    ensures
        utf16(seq![c]) == utf16_of_char(c),
{
    assert(seq![c].drop_last() =~= Seq::<char>::empty());
    assert(seq![c].last() == c);
    assert(utf16(Seq::<char>::empty()) == Seq::<u16>::empty());
    assert(utf16(seq![c]) == utf16(seq![c].drop_last()) + utf16_of_char(seq![c].last()));
    assert(Seq::<u16>::empty() + utf16_of_char(c) =~= utf16_of_char(c));
}

/// Folding over one unit is one round; over two units, two rounds.
proof fn lemma_fnv_short(hash: u32, a: u16, b: u16)
    ensures
        fnv(hash, seq![a]) == spec_step(hash, a),
        fnv(hash, seq![a, b]) == spec_step(spec_step(hash, a), b),
{
    assert(seq![a].drop_last() =~= Seq::<u16>::empty());
    assert(seq![a, b].drop_last() =~= seq![a]);
    assert(fnv(hash, Seq::<u16>::empty()) == hash);
    assert(fnv(hash, seq![a]) == spec_step(hash, a));
    assert(seq![a, b].last() == b);
    assert(fnv(hash, seq![a, b]) == spec_step(fnv(hash, seq![a, b].drop_last()), b));
}

/// A single-fragment key is that fragment.
pub proof fn lemma_concat_single(s: &str)
    ensures
        concat_fragments(seq![s]) == s@,
{
    assert(seq![s].drop_last() =~= Seq::<&str>::empty());
    assert(concat_fragments(Seq::<&str>::empty()) == Seq::<char>::empty());
    assert(Seq::<char>::empty() + s@ =~= s@);
}

/// One FNV-1a round over a single UTF-16 code unit.
pub fn step(hash: u32, unit: u16) -> (r: u32)
    ensures
        r == spec_step(hash, unit),
{
    (hash ^ (unit as u32)).wrapping_mul(FNV_PRIME)
}

/// Folds FNV-1a over the UTF-16 code units of `c`.
fn step_char(hash: u32, c: char) -> (r: u32)
    ensures
        r == fnv(hash, utf16_of_char(c)),
{
    let v = c as u32;
    if v < 0x10000 {
        proof {
            lemma_fnv_short(hash, v as u16, 0);
        }
        step(hash, v as u16)
    } else {
        let hi = (0xD800 + (v - 0x10000) / 1024) as u16;
        let lo = (0xDC00 + (v - 0x10000) % 1024) as u16;
        proof {
            lemma_fnv_short(hash, hi, lo);
        }
        step(step(hash, hi), lo)
    }
}

/// Folds FNV-1a over the UTF-16 code units of `s`, starting from `hash`.
fn hash_str(hash: u32, s: &str) -> (r: u32)
    ensures
        r == fnv(hash, utf16(s@)),
{
    let mut h = hash;
    for c in it: s.chars()
        invariant
            it.seq() == s@,
            h == fnv(hash, utf16(s@.take(it.index() as int))),
    {
        proof {
            let i = it.index() as int;
            let pre = s@.take(i);
            assert(s@.take(i + 1) =~= pre + seq![c]);
            lemma_utf16_concat(pre, seq![c]);
            lemma_utf16_single(c);
            lemma_fnv_concat(hash, utf16(pre), utf16_of_char(c));
        }
        h = step_char(h, c);
    }
    assert(s@.take(s@.len() as int) =~= s@);
    h
}

/// FNV-1a over the UTF-16 code units of `seed`, a `:` separator, then the
/// concatenated `key` fragments.
pub fn hash_seed_key(seed: &str, key: &[&str]) -> (r: u32)
    ensures
        r == text_hash(seed_key_text(seed@, key@)),
{
    let mut h = hash_str(FNV_OFFSET, seed);
    h = step(h, 0x3A);
    proof {
        lemma_utf16_single(':');
        lemma_fnv_short(fnv(FNV_OFFSET, utf16(seed@)), 0x3A, 0);
        lemma_fnv_text_concat(FNV_OFFSET, seed@, seq![':']);
        assert(key@.take(0) =~= Seq::<&str>::empty());
        assert(seed@ + seq![':'] + concat_fragments(key@.take(0)) =~= seed@ + seq![':']);
    }
    let mut i: usize = 0;
    while i < key.len()
        invariant
            i <= key@.len(),
            h == text_hash(seed@ + seq![':'] + concat_fragments(key@.take(i as int))),
        decreases key@.len() - i,
    {
        let ghost pre = seed@ + seq![':'] + concat_fragments(key@.take(i as int));
        h = hash_str(h, key[i]);
        proof {
            assert(key@.take(i + 1).drop_last() =~= key@.take(i as int));
            assert(key@.take(i + 1).last() == key@[i as int]);
            assert(seed@ + seq![':'] + concat_fragments(key@.take(i + 1))
                =~= pre + key@[i as int]@);
            lemma_fnv_text_concat(FNV_OFFSET, pre, key@[i as int]@);
        }
        i = i + 1;
    }
    assert(key@.take(key@.len() as int) =~= key@);
    h
}

/// FNV-1a hash of `prefix + ":" + s` over UTF-16 code units. Used for the
/// per-seed `<defs>` id suffix.
pub fn hash_u32(prefix: &str, s: &str) -> (r: u32)
    ensures
        r == text_hash(prefix@ + seq![':'] + s@),
{
    let h = hash_str(FNV_OFFSET, prefix);
    let h = step(h, 0x3A);
    let r = hash_str(h, s);
    proof {
        lemma_utf16_single(':');
        lemma_fnv_short(fnv(FNV_OFFSET, utf16(prefix@)), 0x3A, 0);
        lemma_fnv_text_concat(FNV_OFFSET, prefix@, seq![':']);
        lemma_fnv_text_concat(FNV_OFFSET, prefix@ + seq![':'], s@);
    }
    r
}

/// A key is hashed as the concatenation of its fragments: how the text is
/// split into fragments does not change the hash.
pub proof fn law_fragments_concatenate(seed: Seq<char>, a: Seq<&str>, b: Seq<&str>)
    requires
        concat_fragments(a) == concat_fragments(b),
    ensures
        text_hash(seed_key_text(seed, a)) == text_hash(seed_key_text(seed, b)),
{
}

/// `hash_u32(prefix, s)` is the key hash of `prefix` with the single fragment
/// `s`.
pub proof fn law_hash_u32_is_single_fragment_key(prefix: &str, s: &str)
    ensures
        text_hash(prefix@ + seq![':'] + s@) == text_hash(seed_key_text(prefix@, seq![s])),
{
    lemma_concat_single(s);
}

} // verus!
