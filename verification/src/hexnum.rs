//! Fixed-width hexadecimal numerals over byte strings.
//!
//! The wire format writes its identifiers as fixed-width lowercase
//! hexadecimal fields.  This module gives the mathematical model of such a
//! field — the digit map, the numeral of a value at a given width, and the
//! value of a numeral — together with executable writers and parsers proved
//! against it.

use vstd::prelude::*;

verus! {

/// A byte is a hexadecimal digit: `0-9`, `a-f` or `A-F`.
pub open spec fn is_hex_digit(b: u8) -> bool {
    (48 <= b && b <= 57) || (97 <= b && b <= 102) || (65 <= b && b <= 70)
}

/// Numeric value of a hexadecimal digit byte (0 for other bytes).
pub open spec fn hex_val(b: u8) -> nat {
    if 48 <= b && b <= 57 {
        (b - 48) as nat
    } else if 97 <= b && b <= 102 {
        (b - 97 + 10) as nat
    } else if 65 <= b && b <= 70 {
        (b - 65 + 10) as nat
    } else {
        0
    }
}

/// Lowercase digit byte for a value below 16.
pub open spec fn hex_digit(n: nat) -> u8 {
    if n < 10 {
        (48 + n) as u8
    } else {
        (87 + n) as u8
    }
}

/// Every byte of `s` is a hexadecimal digit.
pub open spec fn all_hex(s: Seq<u8>) -> bool {
    forall|i: int| 0 <= i < s.len() ==> is_hex_digit(#[trigger] s[i])
}

/// The `w`-digit lowercase numeral of `v`, most significant digit first
/// (only the low `w` digits of `v` appear).
pub open spec fn hex_bytes(v: nat, w: nat) -> Seq<u8>
    decreases w,
{
    if w == 0 {
        Seq::empty()
    } else {
        hex_bytes(v / 16, (w - 1) as nat).push(hex_digit(v % 16))
    }
}

/// The value of a hexadecimal numeral, most significant digit first.
pub open spec fn hex_value_of(s: Seq<u8>) -> nat
    decreases s.len(),
{
    if s.len() == 0 {
        0
    } else {
        hex_value_of(s.drop_last()) * 16 + hex_val(s.last())
    }
}

/// `16^n`.
pub open spec fn pow16(n: nat) -> nat
    decreases n,
{
    if n == 0 {
        1nat
    } else {
        16 * pow16((n - 1) as nat)
    }
}

pub proof fn lemma_pow16_pos(n: nat)
    ensures
        pow16(n) >= 1,
    decreases n,
{
    if n > 0 {
        lemma_pow16_pos((n - 1) as nat);
    }
}

pub proof fn lemma_pow16_monotone(a: nat, b: nat)
    requires
        a <= b,
    ensures
        pow16(a) <= pow16(b),
    decreases b,
{
    if a < b {
        lemma_pow16_monotone(a, (b - 1) as nat);
        lemma_pow16_pos((b - 1) as nat);
    }
}

/// Concrete powers the identifier widths need: two digits for a flag byte,
/// sixteen for a span identifier, thirty-two for a trace identifier.
pub proof fn lemma_pow16_widths()
    ensures
        pow16(2) == 0x100,
        pow16(16) == 0x1_0000_0000_0000_0000,
        pow16(32) == 0x1_0000_0000_0000_0000_0000_0000_0000_0000,
{
    reveal_with_fuel(pow16, 33);
}

/// Hexadecimal numerals are made of digit bytes and have exactly their
/// width.
pub proof fn lemma_hex_bytes_shape(v: nat, w: nat)
    ensures
        hex_bytes(v, w).len() == w,
        all_hex(hex_bytes(v, w)),
    decreases w,
{
    if w > 0 {
        lemma_hex_bytes_shape(v / 16, (w - 1) as nat);
        let prefix = hex_bytes(v / 16, (w - 1) as nat);
        let d = hex_digit(v % 16);
        assert(is_hex_digit(d));
        assert forall|i: int| 0 <= i < hex_bytes(v, w).len() implies is_hex_digit(
            #[trigger] hex_bytes(v, w)[i],
        ) by {
            if i < w - 1 {
                assert(hex_bytes(v, w)[i] == prefix[i]);
            } else {
                assert(hex_bytes(v, w)[i] == d);
            }
        }
    }
}

/// Reading back the `w`-digit numeral of a value below `16^w` returns the
/// value itself.
pub proof fn lemma_hex_roundtrip(v: nat, w: nat)
    requires
        v < pow16(w),
    ensures
        hex_value_of(hex_bytes(v, w)) == v,
    decreases w,
{
    if w == 0 {
        assert(v == 0);
    } else {
        let p = pow16((w - 1) as nat);
        lemma_pow16_pos((w - 1) as nat);
        assert(v / 16 < p) by (nonlinear_arith)
            requires
                v < 16 * p,
                p >= 1,
        ;
        lemma_hex_roundtrip(v / 16, (w - 1) as nat);
        let prefix = hex_bytes(v / 16, (w - 1) as nat);
        let d = hex_digit(v % 16);
        assert(prefix.push(d).drop_last() =~= prefix);
        assert(prefix.push(d).last() == d);
        assert(hex_val(d) == v % 16);
        assert((v / 16) * 16 + v % 16 == v) by (nonlinear_arith);
    }
}

/// The value of a hexadecimal numeral is below `16^len`.
pub proof fn lemma_hex_value_bound(s: Seq<u8>)
    ensures
        hex_value_of(s) < pow16(s.len()),
    decreases s.len(),
{
    if s.len() == 0 {
    } else {
        lemma_hex_value_bound(s.drop_last());
        let p = pow16((s.len() - 1) as nat);
        let hv = hex_value_of(s.drop_last());
        assert(hex_val(s.last()) <= 15);
        assert(hv * 16 + 15 < 16 * p) by (nonlinear_arith)
            requires
                hv < p,
        ;
    }
}

/// Digit bytes for values below 16 (executable form of `hex_digit`).
pub fn hex_digit_byte(n: u8) -> (r: u8)
    requires
        n < 16,
    ensures
        r == hex_digit(n as nat),
{
    if n < 10 {
        48 + n
    } else {
        87 + n
    }
}

/// Executable test for `is_hex_digit`.
pub fn is_hex_digit_byte(b: u8) -> (r: bool)
    ensures
        r == is_hex_digit(b),
{
    (48 <= b && b <= 57) || (97 <= b && b <= 102) || (65 <= b && b <= 70)
}

/// Executable form of `hex_val`.
pub fn hex_val_byte(b: u8) -> (r: u8)
    requires
        is_hex_digit(b),
    ensures
        r as nat == hex_val(b),
        r < 16,
{
    if 48 <= b && b <= 57 {
        b - 48
    } else if 97 <= b && b <= 102 {
        b - 97 + 10
    } else {
        b - 65 + 10
    }
}

/// Appends the `w`-digit lowercase numeral of `v` to `out`.
pub fn push_hex(out: &mut Vec<u8>, v: u128, w: usize)
    ensures
        final(out)@ == old(out)@ + hex_bytes(v as nat, w as nat),
{
    let mut tmp: Vec<u8> = Vec::new();
    let mut x: u128 = v;
    let mut i: usize = 0;
    while i < w
        invariant
            i <= w,
            hex_bytes(v as nat, w as nat) =~= hex_bytes(x as nat, (w - i) as nat) + tmp@,
        decreases w - i,
    {
        let d: u8 = (x % 16) as u8;
        let ghost pre = tmp@;
        tmp.insert(0, hex_digit_byte(d));
        proof {
            let k = (w - i) as nat;
            assert(hex_bytes(x as nat, k) =~= hex_bytes(
                x as nat / 16,
                (k - 1) as nat,
            ).push(hex_digit(x as nat % 16)));
            assert(hex_bytes(x as nat / 16, (k - 1) as nat).push(hex_digit(x as nat % 16))
                + pre =~= hex_bytes(x as nat / 16, (k - 1) as nat) + pre.insert(
                0,
                hex_digit(x as nat % 16),
            ));
        }
        x = x / 16;
        i = i + 1;
    }
    proof {
        assert(hex_bytes(v as nat, w as nat) =~= tmp@);
    }
    out.append(&mut tmp);
}

/// Parses a hexadecimal numeral of at most 32 digits.
pub fn parse_hex(s: &[u8]) -> (r: u128)
    requires
        all_hex(s@),
        s@.len() <= 32,
    ensures
        r as nat == hex_value_of(s@),
{
    let mut acc: u128 = 0;
    let mut i: usize = 0;
    proof {
        lemma_pow16_widths();
    }
    while i < s.len()
        invariant
            i <= s@.len() <= 32,
            all_hex(s@),
            acc as nat == hex_value_of(s@.take(i as int)),
            pow16(32) == 0x1_0000_0000_0000_0000_0000_0000_0000_0000,
        decreases s@.len() - i,
    {
        proof {
            lemma_hex_value_bound(s@.take(i as int));
            lemma_pow16_monotone(i as nat, 31);
            reveal_with_fuel(pow16, 33);
            assert(pow16(31) == 0x1000_0000_0000_0000_0000_0000_0000_0000);
        }
        let d = hex_val_byte(s[i]);
        proof {
            assert(s@.take(i + 1).drop_last() =~= s@.take(i as int));
            assert(s@.take(i + 1).last() == s@[i as int]);
        }
        acc = acc * 16 + d as u128;
        i = i + 1;
    }
    proof {
        assert(s@.take(s@.len() as int) =~= s@);
    }
    acc
}

} // verus!
