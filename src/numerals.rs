//! ASCII numerals and the address width of a lookup table.
use vstd::prelude::*;
use vstd::string::StringSliceAdditionalSpecFns;

verus! {

pub open spec fn pow2(n: nat) -> nat
    decreases n,
{
    if n == 0 {
        1
    } else {
        2 * pow2((n - 1) as nat)
    }
}

/// Bits needed to give each of `n` glyphs its own address: `ceil(log2(n))`,
/// and zero for `n <= 1`.
pub open spec fn ceil_log2(n: nat) -> nat
    decreases n,
{
    if n <= 1 {
        0
    } else {
        1 + ceil_log2(((n + 1) / 2) as nat)
    }
}

/// Decimal numeral of `n`, without leading zeros.
pub open spec fn decimal(n: nat) -> Seq<u8>
    decreases n,
{
    if n < 10 {
        seq![(48 + n) as u8]
    } else {
        decimal(n / 10).push((48 + n % 10) as u8)
    }
}

/// Decimal numeral of a value that may be negative.
pub open spec fn signed_decimal(i: int) -> Seq<u8> {
    if i < 0 {
        seq![45u8] + decimal((-i) as nat)
    } else {
        decimal(i as nat)
    }
}

/// The lowest `w` binary digits of `i`, most significant first.
pub open spec fn binary_digits(i: nat, w: nat) -> Seq<u8>
    decreases w,
{
    if w == 0 {
        seq![]
    } else {
        binary_digits(i / 2, (w - 1) as nat).push(if i % 2 == 0 { 48u8 } else { 49u8 })
    }
}

/// Binary numeral of `i` padded with zeros to `w` digits, and one digit when
/// `w` is zero (callers only use it for `i < 2^w`).
pub open spec fn binary_literal(i: nat, w: nat) -> Seq<u8> {
    if w == 0 {
        binary_digits(i, 1)
    } else {
        binary_digits(i, w)
    }
}

/// Upper-case hexadecimal digit of `d < 16`.
pub open spec fn hex_digit(d: nat) -> u8 {
    if d < 10 {
        (48 + d) as u8
    } else {
        (55 + d) as u8
    }
}

/// Two upper-case hexadecimal digits of a byte.
pub open spec fn hex_byte(b: u8) -> Seq<u8> {
    seq![hex_digit(b as nat / 16), hex_digit(b as nat % 16)]
}

/// The bytes written as hexadecimal, two digits each, first byte first.
pub open spec fn hex_bytes(s: Seq<u8>) -> Seq<u8>
    decreases s.len(),
{
    if s.len() == 0 {
        seq![]
    } else {
        hex_bytes(s.drop_last()) + hex_byte(s.last())
    }
}

/// An ASCII digit `0`-`9` or an upper-case letter `A`-`F`.
pub open spec fn is_upper_hex(c: u8) -> bool {
    (48 <= c <= 57) || (65 <= c <= 70)
}

/// Bytes in hexadecimal take exactly two digits each, all of them decimal
/// digits or upper-case letters.
pub proof fn lemma_hex_form(s: Seq<u8>)
    ensures
        hex_bytes(s).len() == 2 * s.len(),
        forall|i: int| 0 <= i < hex_bytes(s).len() ==> is_upper_hex(#[trigger] hex_bytes(s)[i]),
    decreases s.len(),
{
    if s.len() > 0 {
        lemma_hex_form(s.drop_last());
    }
}

pub proof fn lemma_pow2_monotonic(a: nat, b: nat)
    requires
        a <= b,
    ensures
        pow2(a) <= pow2(b),
    decreases b,
{
    if a < b {
        lemma_pow2_monotonic(a, (b - 1) as nat);
    }
}

proof fn lemma_ceil_log2_bounds(n: nat)
    ensures
        n <= pow2(ceil_log2(n)),
        n > 1 ==> pow2((ceil_log2(n) - 1) as nat) < n,
    decreases n,
{
    if n > 1 {
        let m = ((n + 1) / 2) as nat;
        lemma_ceil_log2_bounds(m);
        if m > 1 {
            assert(pow2(ceil_log2(m)) == 2 * pow2((ceil_log2(m) - 1) as nat));
        }
    }
}

/// The address width is the least number of bits whose range covers every
/// glyph: `2^w >= n` holds for it, and for no smaller `w`.
pub proof fn lemma_address_width_is_least(n: nat)
    ensures
        n <= pow2(ceil_log2(n)),
        forall|w: nat| n <= #[trigger] pow2(w) ==> ceil_log2(n) <= w,
{
    lemma_ceil_log2_bounds(n);
    assert forall|w: nat| n <= #[trigger] pow2(w) implies ceil_log2(n) <= w by {
        if w < ceil_log2(n) {
            lemma_pow2_monotonic(w, (ceil_log2(n) - 1) as nat);
        }
    }
}

/// Computes `ceil(log2(glyph_count))`, zero for zero or one glyph.
pub fn address_width(glyph_count: usize) -> (w: u32)
    ensures
        w == ceil_log2(glyph_count as nat),
{
    let n = glyph_count as u128;
    let mut w: u32 = 0;
    let mut reach: u128 = 1;
    while reach < n
        invariant
            n == glyph_count as nat,
            n <= u64::MAX,
            reach == pow2(w as nat),
            reach >= 1,
            w <= 64,
            w == 0 || pow2((w - 1) as nat) < n,
        decreases 64 - w,
    {
        proof {
            if w == 64 {
                reveal_with_fuel(pow2, 65);
                assert(pow2(64) == 0x1_0000_0000_0000_0000nat);
            }
        }
        reach = reach * 2;
        w = w + 1;
        assert(pow2(w as nat) == 2 * pow2((w - 1) as nat));
    }
    proof {
        lemma_address_width_is_least(n as nat);
        lemma_ceil_log2_bounds(n as nat);
        if w > 0 && (ceil_log2(n as nat) as int) < w as int {
            lemma_pow2_monotonic(ceil_log2(n as nat), (w - 1) as nat);
        }
    }
    w
}

/// Appends the bytes of `s`.
pub fn push_text(out: &mut Vec<u8>, s: &str)
    ensures
        final(out)@ == old(out)@ + s.spec_bytes(),
{
    let b = s.as_bytes();
    let mut k: usize = 0;
    while k < b.len()
        invariant
            b@ == s.spec_bytes(),
            k <= b@.len(),
            out@ == old(out)@ + b@.take(k as int),
        decreases b@.len() - k,
    {
        out.push(b[k]);
        k = k + 1;
        assert(b@.take(k as int) =~= b@.take(k - 1) .push(b@[k - 1]));
    }
    assert(b@.take(k as int) =~= b@);
}

/// Appends the decimal numeral of `n`.
pub fn push_decimal(out: &mut Vec<u8>, n: u64)
    ensures
        final(out)@ == old(out)@ + decimal(n as nat),
    decreases n,
{
    if n >= 10 {
        push_decimal(out, n / 10);
    }
    out.push(48u8 + (n % 10) as u8);
    assert(out@ =~= old(out)@ + decimal(n as nat));
}

/// Appends the `w`-digit binary numeral of `i`.
pub fn push_binary(out: &mut Vec<u8>, i: u64, w: u32)
    ensures
        final(out)@ == old(out)@ + binary_digits(i as nat, w as nat),
    decreases w,
{
    if w > 0 {
        push_binary(out, i / 2, w - 1);
        out.push(if i % 2 == 0 { 48u8 } else { 49u8 });
        assert(out@ =~= old(out)@ + binary_digits(i as nat, w as nat));
    } else {
        assert(out@ =~= old(out)@ + binary_digits(i as nat, w as nat));
    }
}

pub fn hex_digit_of(d: u8) -> (r: u8)
    requires
        d < 16,
    ensures
        r == hex_digit(d as nat),
{
    if d < 10 {
        48 + d
    } else {
        55 + d
    }
}

} // verus!
