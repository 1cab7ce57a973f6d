//! DiceBear's key-based PRNG: FNV-1a over UTF-16 code units seeding
//! Mulberry32.
//!
//! Every draw is derived independently from `(seed, key)`, so the call order
//! is irrelevant. A key is several string fragments concatenated.

use vstd::prelude::*;

use super::color::Rgb8;
use super::data::{color_wf, lemma_color_wf_references, ColorRef, PALETTE_MAX_LEN};
use super::hash::{concat_fragments, hash_seed_key, lemma_concat_single, seed_key_text, text_hash};

verus! {

/// Mulberry32's state increment.
pub const MULBERRY_INCREMENT: u32 = 0x6D2B_79F5;

/// The state after one Mulberry32 draw.
pub open spec fn mulberry_advance(state: u32) -> u32 {
    state.wrapping_add(MULBERRY_INCREMENT)
}

/// The output Mulberry32 mixes from an advanced state.
pub open spec fn mulberry_mix(z: u32) -> u32 {
    let t = (z ^ (z >> 15u32)).wrapping_mul(z | 1u32);
    let t = t ^ t.wrapping_add((t ^ (t >> 7u32)).wrapping_mul(t | 0x3Du32));
    t ^ (t >> 14u32)
}

/// `Math.floor(unit * len)` for the unit float `x / 2^32`, computed exactly
/// in integers.
pub open spec fn draw_index(x: u32, len: nat) -> nat {
    (x * len / 0x1_0000_0000) as nat
}

/// Stateful Mulberry32 generator.
pub struct Mulberry32 {
    state: u32,
}

impl View for Mulberry32 {
    type V = u32;

    closed spec fn view(&self) -> u32 {
        self.state
    }
}

impl Mulberry32 {
    /// A generator seeded with `seed`.
    pub fn new(seed: u32) -> (m: Self)
        ensures
            m@ == seed,
    {
        Mulberry32 { state: seed }
    }

    /// Advances the state and returns the next 32-bit output.
    pub fn next(&mut self) -> (r: u32)
        ensures
            final(self)@ == mulberry_advance(old(self)@),
            r == mulberry_mix(final(self)@),
    {
        self.state = self.state.wrapping_add(MULBERRY_INCREMENT);
        let z = self.state;
        let mut t = (z ^ (z >> 15u32)).wrapping_mul(z | 1u32);
        t = t ^ t.wrapping_add((t ^ (t >> 7u32)).wrapping_mul(t | 0x3Du32));
        t ^ (t >> 14u32)
    }
}

/// `Math.floor(x / 2^32 * len)`: scales a 32-bit draw to an index in
/// `0..len`.
pub fn floor_index(x: u32, len: usize) -> (i: usize)
    requires
        1 <= len <= PALETTE_MAX_LEN,
    ensures
        i == draw_index(x, len as nat),
        i < len,
{
    proof {
        assert(x * len < 0x1_0000_0000 * len) by (nonlinear_arith)
            requires
                x < 0x1_0000_0000,
                len >= 1,
        ;
        assert(x * len / 0x1_0000_0000 < len) by (nonlinear_arith)
            requires
                x * len < 0x1_0000_0000 * len,
                len >= 1,
        ;
        assert(0 <= x * len) by (nonlinear_arith)
            requires
                x >= 0,
                len >= 1,
        ;
    }
    ((x as u64 * len as u64) / 0x1_0000_0000u64) as usize
}

/// `0, 1, ..., n - 1`.
pub open spec fn identity_perm(n: nat) -> Seq<usize> {
    Seq::new(n, |i: int| i as usize)
}

/// `s` with the entries at `i` and `j` exchanged.
pub open spec fn swap_at(s: Seq<usize>, i: int, j: int) -> Seq<usize> {
    s.update(i, s[j]).update(j, s[i])
}

/// The Fisher-Yates passes `i, i - 1, ..., 1` over `perm`, drawing from a
/// Mulberry32 generator in state `state`.
pub open spec fn shuffle_from(state: u32, perm: Seq<usize>, i: int) -> Seq<usize>
    decreases i,
{
    if i <= 0 {
        perm
    } else {
        let next = mulberry_advance(state);
        let j = draw_index(mulberry_mix(next), (i + 1) as nat);
        shuffle_from(next, swap_at(perm, i, j as int), i - 1)
    }
}

/// The element landing at position 0 after a Fisher-Yates shuffle of
/// `0, 1, ..., n - 1` seeded with `hash`.
pub open spec fn shuffle_zero_of(hash: u32, n: nat) -> usize {
    shuffle_from(hash, identity_perm(n), n - 1)[0]
}

/// Every entry of `perm` is an index below `n`.
pub open spec fn entries_below(perm: Seq<usize>, n: nat) -> bool {
    forall|k: int| 0 <= k < perm.len() ==> #[trigger] perm[k] < n
}

/// The shuffle keeps the length and only moves entries around, so it keeps
/// every entry below `n`.
pub proof fn lemma_shuffle_entries_below(state: u32, perm: Seq<usize>, i: int, n: nat)
    requires
        perm.len() == n,
        i < n,
        entries_below(perm, n),
    ensures
        shuffle_from(state, perm, i).len() == n,
        entries_below(shuffle_from(state, perm, i), n),
    decreases i,
{
    if i > 0 {
        let next = mulberry_advance(state);
        let x = mulberry_mix(next);
        let j = draw_index(x, (i + 1) as nat);
        assert(j < i + 1) by (nonlinear_arith)
            requires
                j == x * (i + 1) / 0x1_0000_0000,
                0 <= x < 0x1_0000_0000,
                i >= 1,
        ;
        let p = swap_at(perm, i, j as int);
        assert(entries_below(p, n));
        lemma_shuffle_entries_below(next, p, i - 1, n);
    }
}

/// Key-based pseudorandom value generator. Keys are passed as several
/// fragments (e.g. `&[name, "Variant"]`) and concatenated for hashing.
pub struct Prng<'a> {
    seed: &'a str,
}

impl<'a> View for Prng<'a> {
    /// The seed text.
    type V = Seq<char>;

    closed spec fn view(&self) -> Seq<char> {
        self.seed@
    }
}

/// The Mulberry32 seed of the draw for `key` under `seed`.
pub open spec fn draw_seed(seed: Seq<char>, key: Seq<&str>) -> u32 {
    text_hash(seed_key_text(seed, key))
}

impl<'a> Prng<'a> {
    /// A generator for `seed`.
    pub fn new(seed: &'a str) -> (p: Self)
        ensures
            p@ == seed@,
    {
        Prng { seed }
    }

    /// Returns the element that lands at position 0 after a Fisher-Yates
    /// shuffle of `[0, 1, ..., n-1]`, drawn for `key`. `n` must be between 1
    /// and [`PALETTE_MAX_LEN`].
    pub fn shuffle_zero(&self, key: &[&str], n: usize) -> (r: usize)
        requires
            1 <= n <= PALETTE_MAX_LEN,
        ensures
            r == shuffle_zero_of(draw_seed(self@, key@), n as nat),
            r < n,
    {
        let ghost hash = draw_seed(self@, key@);
        let mut rng = Mulberry32::new(hash_seed_key(self.seed, key));
        let mut perm: Vec<usize> = Vec::new();
        let mut k: usize = 0;
        while k < n
            invariant
                k <= n,
                perm@ =~= identity_perm(k as nat),
            decreases n - k,
        {
            perm.push(k);
            k = k + 1;
        }
        let mut i: usize = n - 1;
        while i > 0
            invariant
                i < n,
                n <= PALETTE_MAX_LEN,
                perm@.len() == n,
                shuffle_from(rng@, perm@, i as int) == shuffle_from(hash, identity_perm(n as nat), n - 1),
            decreases i,
        {
            let x = rng.next();
            let j = floor_index(x, i + 1);
            let ghost before = perm@;
            let a = perm[i];
            let b = perm[j];
            perm.set(i, b);
            perm.set(j, a);
            assert(perm@ =~= swap_at(before, i as int, j as int));
            i = i - 1;
        }
        proof {
            lemma_shuffle_entries_below(hash, identity_perm(n as nat), n - 1, n as nat);
        }
        perm[0]
    }
}

/// The contrast of one palette stop against one reference color, as an
/// order-preserving integer key (a higher key is a higher contrast ratio).
pub struct ContrastEntry {
    pub stop: Rgb8,
    pub reference: Rgb8,
    pub key: u64,
}

/// Contrast keys for the stop/reference pairs a style can meet. A pair
/// missing from the table has key 0.
pub struct ContrastTable {
    pub entries: Vec<ContrastEntry>,
}

/// The key of the first entry for `stop` against `reference`, or 0.
pub open spec fn contrast_key(entries: Seq<ContrastEntry>, stop: Rgb8, reference: Rgb8) -> u64
    decreases entries.len(),
{
    if entries.len() == 0 {
        0
    } else if entries[0].stop == stop && entries[0].reference == reference {
        entries[0].key
    } else {
        contrast_key(entries.drop_first(), stop, reference)
    }
}

impl ContrastTable {
    /// The contrast key of `stop` against `reference`.
    pub fn key(&self, stop: Rgb8, reference: Rgb8) -> (k: u64)
        ensures
            k == contrast_key(self.entries@, stop, reference),
    {
        let mut i: usize = 0;
        assert(self.entries@.skip(0) =~= self.entries@);
        while i < self.entries.len()
            invariant
                i <= self.entries@.len(),
                contrast_key(self.entries@, stop, reference) == contrast_key(
                    self.entries@.skip(i as int),
                    stop,
                    reference,
                ),
            decreases self.entries@.len() - i,
        {
            let e = &self.entries[i];
            assert(self.entries@.skip(i as int)[0] == self.entries@[i as int]);
            if e.stop == stop && e.reference == reference {
                return e.key;
            }
            assert(self.entries@.skip(i as int).drop_first() =~= self.entries@.skip(i + 1));
            i = i + 1;
        }
        0
    }
}

/// The stops of `palette` that equal no stop of `excluded`, in order.
pub open spec fn kept_stops(palette: Seq<Rgb8>, excluded: Seq<Rgb8>) -> Seq<Rgb8>
    decreases palette.len(),
{
    if palette.len() == 0 {
        Seq::empty()
    } else {
        let rest = kept_stops(palette.drop_last(), excluded);
        if excluded.contains(palette.last()) {
            rest
        } else {
            rest.push(palette.last())
        }
    }
}

/// The stops a shuffle draws from: the kept stops, or the whole palette when
/// none is kept.
pub open spec fn shuffle_pool(palette: Seq<Rgb8>, excluded: Seq<Rgb8>) -> Seq<Rgb8> {
    if kept_stops(palette, excluded).len() == 0 {
        palette
    } else {
        kept_stops(palette, excluded)
    }
}

/// Stop `i` may be picked by contrast: it is kept, or nothing is kept.
pub open spec fn contrast_candidate(palette: Seq<Rgb8>, excluded: Seq<Rgb8>, i: int) -> bool {
    kept_stops(palette, excluded).len() == 0 || !excluded.contains(palette[i])
}

/// Stop `i` ranks before stop `j`: its contrast key is higher, or the keys
/// tie and it comes first (a stable descending sort).
pub open spec fn ranks_before(keys: Seq<u64>, i: int, j: int) -> bool {
    keys[i] > keys[j] || (keys[i] == keys[j] && i < j)
}

/// Stop `i` is the first candidate of the palette ranked by descending
/// contrast.
pub open spec fn is_top_candidate(palette: Seq<Rgb8>, excluded: Seq<Rgb8>, keys: Seq<u64>, i: int) -> bool {
    &&& 0 <= i < palette.len()
    &&& contrast_candidate(palette, excluded, i)
    &&& forall|j: int|
        0 <= j < palette.len() && j != i && contrast_candidate(palette, excluded, j)
            ==> ranks_before(keys, i, j)
}

/// The contrast keys of the palette stops against `reference`.
pub open spec fn contrast_keys(entries: Seq<ContrastEntry>, palette: Seq<Rgb8>, reference: Rgb8) -> Seq<u64> {
    Seq::new(palette.len(), |i: int| contrast_key(entries, palette[i], reference))
}

/// The Mulberry32 seed of a color's shuffle: the color key plus `Color`.
pub open spec fn color_draw_seed(seed: Seq<char>, key: Seq<char>) -> u32 {
    text_hash(seed + seq![':'] + key + "Color"@)
}

/// The stop picked from `palette` once the `not_equal_to` references have
/// resolved to `excluded` and the `contrast_to` reference (if any) to
/// `reference`: the first surviving stop by descending contrast against
/// `reference` (stable), or else a shuffle of the surviving stops drawn for
/// the color `key`. Stops equal to an excluded stop are dropped, falling back
/// to the whole palette when that would empty it.
pub open spec fn pick_stop(
    seed: Seq<char>,
    key: Seq<char>,
    palette: Seq<Rgb8>,
    excluded: Seq<Rgb8>,
    reference: Option<Rgb8>,
    entries: Seq<ContrastEntry>,
) -> Rgb8 {
    match reference {
        Some(reference) => {
            let keys = contrast_keys(entries, palette, reference);
            palette[choose|i: int| is_top_candidate(palette, excluded, keys, i)]
        },
        None => {
            let pool = shuffle_pool(palette, excluded);
            pool[shuffle_zero_of(color_draw_seed(seed, key), pool.len()) as int]
        },
    }
}

/// The stops the `not_equal_to` references of `color` resolve to.
pub open spec fn excluded_of(seed: Seq<char>, color: ColorRef, entries: Seq<ContrastEntry>) -> Seq<Rgb8>
    decreases color, 0nat,
{
    Seq::new(
        color.not_equal_to@.len(),
        |i: int|
            if 0 <= i < color.not_equal_to@.len() {
                resolve_of(seed, color.not_equal_to@[i], entries)
            } else {
                arbitrary()
            },
    )
}

/// The stop `color` resolves to for `seed`, following DiceBear's
/// `Resolver.resolveColor` for default options (see [`pick_stop`]).
pub open spec fn resolve_of(seed: Seq<char>, color: ColorRef, entries: Seq<ContrastEntry>) -> Rgb8
    decreases color, 1nat,
{
    let reference = match color.contrast_to {
        Some(reference) => Some(resolve_of(seed, *reference, entries)),
        None => None,
    };
    pick_stop(
        seed,
        color.key@,
        color.palette@,
        excluded_of(seed, color, entries),
        reference,
        entries,
    )
}

/// Some stop is kept exactly when some stop equals no excluded stop.
proof fn lemma_kept_stops(palette: Seq<Rgb8>, excluded: Seq<Rgb8>)
    ensures
        kept_stops(palette, excluded).len() <= palette.len(),
        kept_stops(palette, excluded).len() > 0 <==> exists|i: int|
            0 <= i < palette.len() && !excluded.contains(#[trigger] palette[i]),
    decreases palette.len(),
{
    if palette.len() > 0 {
        let init = palette.drop_last();
        lemma_kept_stops(init, excluded);
        if kept_stops(init, excluded).len() > 0 {
            let i = choose|i: int| 0 <= i < init.len() && !excluded.contains(#[trigger] init[i]);
            assert(palette[i] == init[i]);
        }
        if exists|i: int| 0 <= i < palette.len() && !excluded.contains(#[trigger] palette[i]) {
            let i = choose|i: int| 0 <= i < palette.len() && !excluded.contains(#[trigger] palette[i]);
            if i < palette.len() - 1 {
                assert(init[i] == palette[i]);
            }
        }
    }
}

/// At most one stop is the top candidate.
proof fn lemma_top_candidate_unique(palette: Seq<Rgb8>, excluded: Seq<Rgb8>, keys: Seq<u64>, i: int)
    requires
        is_top_candidate(palette, excluded, keys, i),
    ensures
        (choose|k: int| is_top_candidate(palette, excluded, keys, k)) == i,
{
    let k = choose|k: int| is_top_candidate(palette, excluded, keys, k);
    assert(is_top_candidate(palette, excluded, keys, k));
    if k != i {
        assert(ranks_before(keys, i, k));
        assert(ranks_before(keys, k, i));
    }
}

/// Whether `stop` is one of `excluded`.
fn contains_stop(excluded: &Vec<Rgb8>, stop: Rgb8) -> (b: bool)
    ensures
        b == excluded@.contains(stop),
{
    let mut i: usize = 0;
    while i < excluded.len()
        invariant
            i <= excluded@.len(),
            forall|k: int| 0 <= k < i ==> excluded@[k] != stop,
        decreases excluded@.len() - i,
    {
        if excluded[i] == stop {
            assert(excluded@[i as int] == stop);
            return true;
        }
        i = i + 1;
    }
    false
}

/// The stops of `stops` that are not in `excluded`, in order.
fn collect_kept(stops: &[Rgb8], excluded: &Vec<Rgb8>) -> (kept: Vec<Rgb8>)
    ensures
        kept@ == kept_stops(stops@, excluded@),
{
    let mut kept: Vec<Rgb8> = Vec::new();
    let mut i: usize = 0;
    assert(stops@.take(0) =~= Seq::<Rgb8>::empty());
    while i < stops.len()
        invariant
            i <= stops@.len(),
            kept@ == kept_stops(stops@.take(i as int), excluded@),
        decreases stops@.len() - i,
    {
        assert(stops@.take(i + 1).drop_last() =~= stops@.take(i as int));
        assert(stops@.take(i + 1).last() == stops@[i as int]);
        if !contains_stop(excluded, stops[i]) {
            kept.push(stops[i]);
        }
        i = i + 1;
    }
    assert(stops@.take(stops@.len() as int) =~= stops@);
    kept
}

/// The index of the first candidate stop ranked by descending contrast
/// against `reference`.
fn top_candidate(
    stops: &[Rgb8],
    excluded: &Vec<Rgb8>,
    any_kept: bool,
    reference: Rgb8,
    table: &ContrastTable,
) -> (best: usize)
    requires
        1 <= stops@.len(),
        any_kept == (kept_stops(stops@, excluded@).len() > 0),
    ensures
        is_top_candidate(
            stops@,
            excluded@,
            contrast_keys(table.entries@, stops@, reference),
            best as int,
        ),
{
    let ghost ex = excluded@;
    let ghost keys = contrast_keys(table.entries@, stops@, reference);
    proof {
        lemma_kept_stops(stops@, ex);
    }
    let n = stops.len();
    let mut best: usize = n;
    let mut best_key: u64 = 0;
    let mut j: usize = 0;
    while j < n
        invariant
            j <= n,
            n == stops@.len(),
            any_kept == (kept_stops(stops@, ex).len() > 0),
            excluded@ == ex,
            keys == contrast_keys(table.entries@, stops@, reference),
            best == n || best < j,
            best == n ==> forall|k: int| 0 <= k < j ==> !contrast_candidate(stops@, ex, k),
            best < n ==> best_key == keys[best as int],
            best < n ==> contrast_candidate(stops@, ex, best as int),
            best < n ==> forall|k: int|
                0 <= k < j && k != best && contrast_candidate(stops@, ex, k) ==> ranks_before(
                    keys,
                    best as int,
                    k,
                ),
        decreases n - j,
    {
        if !any_kept || !contains_stop(excluded, stops[j]) {
            assert(contrast_candidate(stops@, ex, j as int));
            let k = table.key(stops[j], reference);
            assert(keys[j as int] == k);
            if best == n || k > best_key {
                proof {
                    if best < n {
                        assert forall|m: int|
                            0 <= m < j + 1 && m != j && contrast_candidate(stops@, ex, m) implies ranks_before(
                            keys,
                            j as int,
                            m,
                        ) by {
                            if m != best {
                                assert(ranks_before(keys, best as int, m));
                            }
                        }
                    }
                }
                best = j;
                best_key = k;
            }
        } else {
            assert(!contrast_candidate(stops@, ex, j as int));
        }
        j = j + 1;
    }
    proof {
        if best == n {
            if any_kept {
                let w = choose|w: int| 0 <= w < stops@.len() && !ex.contains(#[trigger] stops@[w]);
                assert(contrast_candidate(stops@, ex, w));
            } else {
                assert(contrast_candidate(stops@, ex, 0));
            }
        }
    }
    best
}

impl<'a> Prng<'a> {
    /// The stop picked from `stops` for the color `key`, given the resolved
    /// `excluded` stops and `reference` color (see [`pick_stop`]).
    fn pick(
        &self,
        key: &str,
        stops: &[Rgb8],
        excluded: &Vec<Rgb8>,
        reference: Option<Rgb8>,
        table: &ContrastTable,
    ) -> (r: Rgb8)
        requires
            1 <= stops@.len() <= PALETTE_MAX_LEN,
        ensures
            r == pick_stop(self@, key@, stops@, excluded@, reference, table.entries@),
    {
        let ghost ex = excluded@;
        let kept = collect_kept(stops, excluded);
        proof {
            lemma_kept_stops(stops@, ex);
        }
        match reference {
            Some(reference) => {
                let best = top_candidate(stops, excluded, kept.len() > 0, reference, table);
                proof {
                    let keys = contrast_keys(table.entries@, stops@, reference);
                    lemma_top_candidate_unique(stops@, ex, keys, best as int);
                }
                stops[best]
            },
            None => {
                let pool: Vec<Rgb8> = if kept.len() == 0 {
                    vstd::slice::slice_to_vec(stops)
                } else {
                    kept
                };
                assert(pool@ == shuffle_pool(stops@, ex));
                let idx = self.shuffle_zero(&[key, "Color"], pool.len());
                proof {
                    let fragments = seq![key, "Color"];
                    assert(fragments.drop_last() =~= seq![key]);
                    lemma_concat_single(key);
                    assert(concat_fragments(fragments) =~= key@ + "Color"@);
                    assert(seed_key_text(self@, fragments) =~= self@ + seq![':'] + key@ + "Color"@);
                }
                pool[idx]
            },
        }
    }

    /// Resolves `color` to its output stop, following DiceBear's
    /// `Resolver.resolveColor` for default options (see [`resolve_of`]).
    /// Contrast ratios come from `table`.
    pub fn resolve(&self, color: &ColorRef, table: &ContrastTable) -> (r: Rgb8)
        requires
            color_wf(*color),
        ensures
            r == resolve_of(self@, *color, table.entries@),
        decreases color,
    {
        let ghost entries = table.entries@;
        proof {
            lemma_color_wf_references(*color);
        }
        let mut excluded: Vec<Rgb8> = Vec::new();
        let mut i: usize = 0;
        while i < color.not_equal_to.len()
            invariant
                i <= color.not_equal_to@.len(),
                forall|k: int|
                    0 <= k < color.not_equal_to@.len() ==> color_wf(
                        #[trigger] color.not_equal_to@[k],
                    ),
                entries == table.entries@,
                excluded@.len() == i,
                forall|k: int|
                    0 <= k < i ==> #[trigger] excluded@[k] == resolve_of(
                        self@,
                        color.not_equal_to@[k],
                        entries,
                    ),
            decreases color.not_equal_to@.len() - i,
        {
            let stop = self.resolve(&color.not_equal_to[i], table);
            excluded.push(stop);
            i = i + 1;
        }
        assert(excluded@ =~= excluded_of(self@, *color, entries));
        let reference = match &color.contrast_to {
            Some(reference) => Some(self.resolve(reference, table)),
            None => None,
        };
        self.pick(color.key.as_str(), color.palette.stops(), &excluded, reference, table)
    }
}

/// The first candidate among the first `n` stops ranked by descending
/// contrast, or -1 when none of them is a candidate.
pub open spec fn best_candidate_upto(palette: Seq<Rgb8>, excluded: Seq<Rgb8>, keys: Seq<u64>, n: int) -> int
    decreases n,
{
    if n <= 0 {
        -1
    } else {
        let b = best_candidate_upto(palette, excluded, keys, n - 1);
        if contrast_candidate(palette, excluded, n - 1) && (b == -1 || keys[n - 1] > keys[b]) {
            n - 1
        } else {
            b
        }
    }
}

/// The running best candidate ranks before every other candidate seen.
proof fn lemma_best_candidate_upto(palette: Seq<Rgb8>, excluded: Seq<Rgb8>, keys: Seq<u64>, n: int)
    requires
        0 <= n <= palette.len(),
    ensures
        ({
            let b = best_candidate_upto(palette, excluded, keys, n);
            &&& -1 <= b < n
            &&& b == -1 ==> forall|j: int| 0 <= j < n ==> !contrast_candidate(palette, excluded, j)
            &&& b >= 0 ==> contrast_candidate(palette, excluded, b)
            &&& b >= 0 ==> forall|j: int|
                0 <= j < n && j != b && contrast_candidate(palette, excluded, j) ==> ranks_before(keys, b, j)
        }),
    decreases n,
{
    if n > 0 {
        lemma_best_candidate_upto(palette, excluded, keys, n - 1);
    }
}

/// A palette with at least one stop has a top candidate.
pub proof fn lemma_top_candidate_exists(palette: Seq<Rgb8>, excluded: Seq<Rgb8>, keys: Seq<u64>)
    requires
        1 <= palette.len(),
    ensures
        exists|i: int| is_top_candidate(palette, excluded, keys, i),
{
    let n = palette.len() as int;
    lemma_best_candidate_upto(palette, excluded, keys, n);
    lemma_kept_stops(palette, excluded);
    let b = best_candidate_upto(palette, excluded, keys, n);
    if b == -1 {
        if kept_stops(palette, excluded).len() > 0 {
            let w = choose|w: int| 0 <= w < palette.len() && !excluded.contains(#[trigger] palette[w]);
            assert(contrast_candidate(palette, excluded, w));
        } else {
            assert(contrast_candidate(palette, excluded, 0));
        }
    }
    assert(is_top_candidate(palette, excluded, keys, b));
}

/// The kept stops are palette stops that equal no excluded stop.
pub proof fn lemma_kept_stops_members(palette: Seq<Rgb8>, excluded: Seq<Rgb8>)
    ensures
        forall|i: int| 0 <= i < kept_stops(palette, excluded).len() ==> palette.contains(
            #[trigger] kept_stops(palette, excluded)[i],
        ) && !excluded.contains(kept_stops(palette, excluded)[i]),
    decreases palette.len(),
{
    if palette.len() > 0 {
        let init = palette.drop_last();
        lemma_kept_stops_members(init, excluded);
        let k = kept_stops(palette, excluded);
        assert forall|i: int| 0 <= i < k.len() implies palette.contains(#[trigger] k[i]) && !excluded.contains(k[i]) by {
            let rest = kept_stops(init, excluded);
            if i < rest.len() {
                assert(k[i] == rest[i]);
                let w = choose|w: int| 0 <= w < init.len() && init[w] == rest[i];
                assert(palette[w] == init[w]);
            } else {
                assert(k[i] == palette.last());
                assert(palette[palette.len() - 1] == palette.last());
            }
        }
    }
}

/// The shuffle of `0..n` keeps position 0 below `n`.
pub proof fn lemma_shuffle_zero_below(hash: u32, n: nat)
    requires
        1 <= n,
    ensures
        shuffle_zero_of(hash, n) < n,
{
    assert(entries_below(identity_perm(n), n));
    lemma_shuffle_entries_below(hash, identity_perm(n), n - 1, n);
}

/// A color resolves to one of its palette stops, and to a stop that equals
/// no `not_equal_to` stop whenever some stop survives that exclusion.
pub proof fn law_resolved_stop_is_a_surviving_palette_stop(
    seed: Seq<char>,
    key: Seq<char>,
    palette: Seq<Rgb8>,
    excluded: Seq<Rgb8>,
    reference: Option<Rgb8>,
    entries: Seq<ContrastEntry>,
)
    requires
        1 <= palette.len(),
    ensures
        palette.contains(pick_stop(seed, key, palette, excluded, reference, entries)),
        kept_stops(palette, excluded).len() > 0 ==> !excluded.contains(
            pick_stop(seed, key, palette, excluded, reference, entries),
        ),
{
    let r = pick_stop(seed, key, palette, excluded, reference, entries);
    lemma_kept_stops(palette, excluded);
    lemma_kept_stops_members(palette, excluded);
    match reference {
        Some(reference) => {
            let keys = contrast_keys(entries, palette, reference);
            lemma_top_candidate_exists(palette, excluded, keys);
            let i = choose|i: int| is_top_candidate(palette, excluded, keys, i);
            assert(r == palette[i]);
        },
        None => {
            let pool = shuffle_pool(palette, excluded);
            lemma_shuffle_zero_below(color_draw_seed(seed, key), pool.len());
            let idx = shuffle_zero_of(color_draw_seed(seed, key), pool.len()) as int;
            assert(r == pool[idx]);
            if kept_stops(palette, excluded).len() > 0 {
                assert(palette.contains(pool[idx]));
            } else {
                assert(palette[idx] == r);
            }
        },
    }
}

/// The resolved stop of a color is one of its palette stops and avoids
/// the stops its `not_equal_to` references resolve to, unless that would
/// leave no stop.
pub proof fn law_resolved_color_is_a_surviving_palette_stop(
    seed: Seq<char>,
    color: ColorRef,
    entries: Seq<ContrastEntry>,
)
    requires
        1 <= color.palette@.len(),
    ensures
        color.palette@.contains(resolve_of(seed, color, entries)),
        kept_stops(color.palette@, excluded_of(seed, color, entries)).len() > 0
            ==> !excluded_of(seed, color, entries).contains(resolve_of(seed, color, entries)),
{
    let reference = match color.contrast_to {
        Some(r) => Some(resolve_of(seed, *r, entries)),
        None => None,
    };
    law_resolved_stop_is_a_surviving_palette_stop(
        seed,
        color.key@,
        color.palette@,
        excluded_of(seed, color, entries),
        reference,
        entries,
    );
}

/// Every draw is derived from the seed and the concatenated key alone, so
/// the order of draws is irrelevant and equal inputs draw equal values.
pub proof fn law_draw_depends_only_on_seed_and_key(
    seed: Seq<char>,
    a: Seq<&str>,
    b: Seq<&str>,
    n: nat,
)
    requires
        concat_fragments(a) == concat_fragments(b),
    ensures
        shuffle_zero_of(draw_seed(seed, a), n) == shuffle_zero_of(draw_seed(seed, b), n),
{
}

/// A color ranked against a `contrast_to` reference picks, among its
/// surviving stops, one of highest contrast against the stop the reference
/// itself resolves to (after the reference's own `not_equal_to`
/// exclusions), the first such stop on ties.
pub proof fn law_contrast_pick_is_highest_against_resolved_reference(
    seed: Seq<char>,
    color: ColorRef,
    entries: Seq<ContrastEntry>,
)
    requires
        1 <= color.palette@.len(),
        color.contrast_to is Some,
    ensures
        ({
            let palette = color.palette@;
            let excluded = excluded_of(seed, color, entries);
            let against = resolve_of(seed, *color.contrast_to->Some_0, entries);
            let picked = resolve_of(seed, color, entries);
            exists|i: int|
                #![trigger palette[i]]
                0 <= i < palette.len() && palette[i] == picked && contrast_candidate(palette, excluded, i)
                    && forall|j: int|
                    0 <= j < palette.len() && contrast_candidate(palette, excluded, j) ==> (
                    contrast_key(entries, palette[i], against) > contrast_key(entries, palette[j], against)
                        || (contrast_key(entries, palette[i], against) == contrast_key(
                        entries,
                        palette[j],
                        against,
                    ) && i <= j))
        }),
{
    let palette = color.palette@;
    let excluded = excluded_of(seed, color, entries);
    let against = resolve_of(seed, *color.contrast_to->Some_0, entries);
    let keys = contrast_keys(entries, palette, against);
    lemma_top_candidate_exists(palette, excluded, keys);
    let i = choose|i: int| is_top_candidate(palette, excluded, keys, i);
    assert(resolve_of(seed, color, entries) == palette[i]);
    assert forall|j: int|
        0 <= j < palette.len() && contrast_candidate(palette, excluded, j) implies (
        contrast_key(entries, palette[i], against) > contrast_key(entries, palette[j], against) || (
        contrast_key(entries, palette[i], against) == contrast_key(entries, palette[j], against) && i
            <= j)) by {
        if j != i {
            assert(ranks_before(keys, i, j));
        }
    }
}

} // verus!
