//! Small string-building primitives shared by the serializers.

use vstd::prelude::*;

verus! {

/// `String::push` of std: appends one character to the end of `s`.
#[verifier::external_body]
pub(crate) fn push_char(s: &mut String, c: char)
    ensures
        final(s)@ == old(s)@.push(c),
{
    s.push(c);
}

/// The lowercase hexadecimal digit for `d`.
pub open spec fn hex_digit(d: int) -> char {
    if d < 10 {
        ((d + 48) as u32) as char
    } else {
        ((d + 87) as u32) as char
    }
}

/// The lowercase hexadecimal digit for a nibble.
pub fn hex_char(d: u32) -> (c: char)
    requires
        d < 16,
    ensures
        c == hex_digit(d as int),
{
    match d {
        0 => '0',
        1 => '1',
        2 => '2',
        3 => '3',
        4 => '4',
        5 => '5',
        6 => '6',
        7 => '7',
        8 => '8',
        9 => '9',
        10 => 'a',
        11 => 'b',
        12 => 'c',
        13 => 'd',
        14 => 'e',
        _ => 'f',
    }
}

/// The `width` lowest hexadecimal digits of `v`, most significant first,
/// zero-padded.
pub open spec fn hex_digits(v: nat, width: nat) -> Seq<char>
    decreases width,
{
    if width == 0 {
        Seq::empty()
    } else {
        hex_digits(v / 16, (width - 1) as nat).push(hex_digit((v % 16) as int))
    }
}

/// Appends the `width` lowest hexadecimal digits of `v` to `out`, zero-padded
/// (`{:0width$x}` for values below `16^width`).
pub fn push_hex(out: &mut String, v: u32, width: u32)
    requires
        width <= 8,
    ensures
        final(out)@ == old(out)@ + hex_digits(v as nat, width as nat),
    decreases width,
{
    if width > 0 {
        push_hex(out, v / 16, width - 1);
        push_char(out, hex_char(v % 16));
        proof {
            let w = width as nat;
            assert(hex_digits(v as nat, w) == hex_digits((v / 16) as nat, (w - 1) as nat).push(
                hex_digit((v % 16) as int),
            ));
        }
    } else {
        assert(old(out)@ + hex_digits(v as nat, 0) =~= old(out)@);
    }
}

/// The decimal digits of `v`, most significant first, without leading zeros
/// (`0` for zero).
pub open spec fn decimal_digits(v: nat) -> Seq<char>
    decreases v,
{
    if v < 10 {
        seq![((v + 48) as u32) as char]
    } else {
        decimal_digits(v / 10).push((((v % 10) + 48) as u32) as char)
    }
}

/// The decimal digit character for `d`.
fn decimal_char(d: u64) -> (c: char)
    requires
        d < 10,
    ensures
        c == ((d + 48) as u32) as char,
{
    match d {
        0 => '0',
        1 => '1',
        2 => '2',
        3 => '3',
        4 => '4',
        5 => '5',
        6 => '6',
        7 => '7',
        8 => '8',
        _ => '9',
    }
}

/// Appends the decimal representation of `v` (`{v}`).
pub fn push_decimal(out: &mut String, v: u64)
    ensures
        final(out)@ == old(out)@ + decimal_digits(v as nat),
    decreases v,
{
    if v < 10 {
        push_char(out, decimal_char(v));
        assert(old(out)@.push(((v + 48) as u32) as char) =~= old(out)@ + decimal_digits(v as nat));
    } else {
        push_decimal(out, v / 10);
        push_char(out, decimal_char(v % 10));
        assert(decimal_digits(v as nat) == decimal_digits((v / 10) as nat).push(
            (((v % 10) + 48) as u32) as char,
        ));
    }
}

/// The decimal text of a signed integer (`{v}`).
pub open spec fn signed_digits(v: int) -> Seq<char> {
    if v < 0 {
        seq!['-'] + decimal_digits((-v) as nat)
    } else {
        decimal_digits(v as nat)
    }
}

/// Appends the decimal representation of `v` (`{v}`).
pub fn push_signed(out: &mut String, v: i64)
    ensures
        final(out)@ == old(out)@ + signed_digits(v as int),
{
    if v < 0 {
        push_char(out, '-');
        let magnitude: u64 = ((-(v + 1)) as u64) + 1;
        push_decimal(out, magnitude);
        assert(final(out)@ =~= old(out)@ + signed_digits(v as int));
    } else {
        push_decimal(out, v as u64);
    }
}

/// The text std's `Debug` formatting gives a string: quoted, with special
/// characters escaped.
pub uninterp spec fn str_debug_text(s: Seq<char>) -> Seq<char>;

/// `format!("{s:?}")` of std: the `Debug` form of a string.
#[verifier::external_body]
pub(crate) fn debug_quoted(s: &str) -> (r: String)
    ensures
        r@ == str_debug_text(s@),
{
    format!("{s:?}")
}

/// Appends `s` to `out`.
pub fn push_str(out: &mut String, s: &str)
    ensures
        final(out)@ == old(out)@ + s@,
{
    out.append(s);
}

/// Whether `a` and `b` hold the same characters.
pub fn str_eq(a: &str, b: &str) -> (r: bool)
    ensures
        r == (a@ == b@),
{
    let n = a.unicode_len();
    if n != b.unicode_len() {
        return false;
    }
    let mut i: usize = 0;
    while i < n
        invariant
            i <= n,
            n == a@.len(),
            n == b@.len(),
            forall|k: int| 0 <= k < i ==> a@[k] == b@[k],
        decreases n - i,
    {
        if a.get_char(i) != b.get_char(i) {
            return false;
        }
        i = i + 1;
    }
    assert(a@ =~= b@);
    true
}

/// `a` comes strictly before `b` in lexicographic order of code points (the
/// order of `str`'s `Ord`).
pub open spec fn text_lt(a: Seq<char>, b: Seq<char>) -> bool
    decreases a.len(),
{
    if a.len() == 0 {
        b.len() > 0
    } else if b.len() == 0 {
        false
    } else if a[0] != b[0] {
        (a[0] as int) < (b[0] as int)
    } else {
        text_lt(a.drop_first(), b.drop_first())
    }
}

/// The order of texts is transitive.
pub proof fn lemma_text_lt_transitive(a: Seq<char>, b: Seq<char>, c: Seq<char>)
    requires
        text_lt(a, b),
        text_lt(b, c),
    ensures
        text_lt(a, c),
    decreases a.len(),
{
    if a.len() > 0 && b.len() > 0 && c.len() > 0 && a[0] == b[0] && b[0] == c[0] {
        lemma_text_lt_transitive(a.drop_first(), b.drop_first(), c.drop_first());
    }
}

/// The order of texts is irreflexive and asymmetric.
pub proof fn lemma_text_lt_asymmetric(a: Seq<char>, b: Seq<char>)
    ensures
        !text_lt(a, a),
        text_lt(a, b) ==> !text_lt(b, a),
    decreases a.len(),
{
    if a.len() > 0 {
        lemma_text_lt_asymmetric(a.drop_first(), a.drop_first());
        if b.len() > 0 && a[0] == b[0] {
            lemma_text_lt_asymmetric(a.drop_first(), b.drop_first());
        }
    }
}

/// Two texts are equal or ordered one way or the other.
pub proof fn lemma_text_lt_total(a: Seq<char>, b: Seq<char>)
    ensures
        a == b || text_lt(a, b) || text_lt(b, a),
    decreases a.len(),
{
    if a.len() > 0 && b.len() > 0 && a[0] == b[0] {
        lemma_text_lt_total(a.drop_first(), b.drop_first());
        if a.drop_first() == b.drop_first() {
            assert(a =~= seq![a[0]] + a.drop_first());
            assert(b =~= seq![b[0]] + b.drop_first());
        }
    } else if a.len() == 0 && b.len() == 0 {
        assert(a =~= b);
    } else if a.len() > 0 && b.len() > 0 {
        assert((a[0] as int) != (b[0] as int));
    }
}

/// Whether `a` comes strictly before `b` in code point order.
pub fn str_lt(a: &str, b: &str) -> (r: bool)
    ensures
        r == text_lt(a@, b@),
{
    assert(a@.skip(0) =~= a@);
    assert(b@.skip(0) =~= b@);
    let na = a.unicode_len();
    let nb = b.unicode_len();
    let mut i: usize = 0;
    while i < na && i < nb
        invariant
            i <= na,
            i <= nb,
            na == a@.len(),
            nb == b@.len(),
            text_lt(a@, b@) == text_lt(a@.skip(i as int), b@.skip(i as int)),
        decreases na - i,
    {
        let ca = a.get_char(i);
        let cb = b.get_char(i);
        assert(a@.skip(i as int)[0] == ca);
        assert(b@.skip(i as int)[0] == cb);
        if ca != cb {
            return (ca as u32) < (cb as u32);
        }
        assert(a@.skip(i as int).drop_first() =~= a@.skip(i + 1));
        assert(b@.skip(i as int).drop_first() =~= b@.skip(i + 1));
        i = i + 1;
    }
    i == na && i < nb
}

} // verus!
