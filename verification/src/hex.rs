//! Fixed-width hexadecimal encoding of unsigned values into ASCII bytes,
//! with a strict parser and a proof that parsing inverts encoding.

use vstd::prelude::*;

verus! {

/// Numeric value of an ASCII hex digit byte; 16 when the byte is no hex digit.
pub open spec fn nibble_value(b: u8) -> u8 {
    if 48 <= b && b <= 57 {
        (b - 48) as u8
    } else if 97 <= b && b <= 102 {
        (b - 97 + 10) as u8
    } else if 65 <= b && b <= 70 {
        (b - 65 + 10) as u8
    } else {
        16
    }
}

pub open spec fn is_hex_digit(b: u8) -> bool {
    nibble_value(b) < 16
}

/// Lower-case ASCII hex digit for a value below 16.
pub open spec fn hex_digit(v: u8) -> u8
    recommends
        v < 16,
{
    if v < 10 {
        (48 + v) as u8
    } else {
        (97 + (v - 10)) as u8
    }
}

/// Upper-case ASCII hex digit for a value below 16.
pub open spec fn hex_digit_upper(v: u8) -> u8
    recommends
        v < 16,
{
    if v < 10 {
        (48 + v) as u8
    } else {
        (65 + (v - 10)) as u8
    }
}

pub open spec fn pow16(n: nat) -> nat
    decreases n,
{
    if n == 0 {
        1
    } else {
        16 * pow16((n - 1) as nat)
    }
}

/// `v` written as exactly `n` lower-case hex digits, most significant first.
pub open spec fn spec_hex(v: nat, n: nat) -> Seq<u8>
    decreases n,
{
    if n == 0 {
        Seq::empty()
    } else {
        spec_hex(v / 16, (n - 1) as nat).push(hex_digit((v % 16) as u8))
    }
}

/// Value of the `n` hex digits of `s` starting at `pos`; `None` when a byte
/// there is no hex digit or the region runs past the end of `s`.
pub open spec fn spec_parse_hex(s: Seq<u8>, pos: int, n: nat) -> Option<nat>
    decreases n,
{
    if pos < 0 || pos + n > s.len() {
        None
    } else if n == 0 {
        Some(0)
    } else {
        match spec_parse_hex(s, pos, (n - 1) as nat) {
            None => None,
            Some(hi) => {
                let b = s[pos + n - 1];
                if is_hex_digit(b) {
                    Some((hi * 16 + nibble_value(b)) as nat)
                } else {
                    None
                }
            },
        }
    }
}

pub proof fn lemma_pow16_pos(n: nat)
    ensures
        pow16(n) >= 1,
    decreases n,
{
    if n > 0 {
        lemma_pow16_pos((n - 1) as nat);
    }
}

pub proof fn lemma_pow16_increases(m: nat, n: nat)
    requires
        m <= n,
    ensures
        pow16(m) <= pow16(n),
    decreases n,
{
    if m < n {
        lemma_pow16_increases(m, (n - 1) as nat);
        lemma_pow16_pos((n - 1) as nat);
    }
}

pub proof fn lemma_pow16_32_is_u128_bound()
    ensures
        pow16(32) == 0x1_0000_0000_0000_0000_0000_0000_0000_0000,
        pow16(16) == 0x1_0000_0000_0000_0000,
        pow16(8) == 0x1_0000_0000,
{
    reveal_with_fuel(pow16, 33);
}

pub proof fn lemma_hex_digit_roundtrip(v: u8)
    requires
        v < 16,
    ensures
        is_hex_digit(hex_digit(v)),
        nibble_value(hex_digit(v)) == v,
        is_hex_digit(hex_digit_upper(v)),
        nibble_value(hex_digit_upper(v)) == v,
{
}

/// Parsing `n` hex digits where `spec_hex(v, n)` was written yields `v` back.
pub proof fn lemma_parse_hex_roundtrip(s: Seq<u8>, pos: int, v: nat, n: nat)
    requires
        v < pow16(n),
        0 <= pos,
        pos + n <= s.len(),
        s.subrange(pos, pos + n) == spec_hex(v, n),
    ensures
        spec_parse_hex(s, pos, n) == Some(v),
    decreases n,
{
    if n == 0 {
        assert(v == 0);
    } else {
        let m = (n - 1) as nat;
        let digits = spec_hex(v, n);
        assert(s.subrange(pos, pos + n).len() == n);
        assert(digits == spec_hex(v / 16, m).push(hex_digit((v % 16) as u8)));
        assert(spec_hex(v / 16, m).len() == m) by {
            lemma_spec_hex_len(v / 16, m);
        }
        assert forall|i: int| 0 <= i < m implies #[trigger] s.subrange(pos, pos + m)[i] == spec_hex(
            v / 16,
            m,
        )[i] by {
            assert(s.subrange(pos, pos + n)[i] == digits[i]);
        }
        assert(s.subrange(pos, pos + m) =~= spec_hex(v / 16, m));
        assert(v / 16 < pow16(m)) by {
            lemma_pow16_pos(m);
            assert(v < 16 * pow16(m));
        }
        lemma_parse_hex_roundtrip(s, pos, v / 16, m);
        let b = s[pos + n - 1];
        assert(b == digits[n - 1]) by {
            assert(s.subrange(pos, pos + n)[n - 1] == s[pos + n - 1]);
        }
        assert(b == hex_digit((v % 16) as u8));
        lemma_hex_digit_roundtrip((v % 16) as u8);
        assert((v / 16) * 16 + v % 16 == v) by (nonlinear_arith);
    }
}

pub proof fn lemma_spec_hex_len(v: nat, n: nat)
    ensures
        spec_hex(v, n).len() == n,
    decreases n,
{
    if n > 0 {
        lemma_spec_hex_len(v / 16, (n - 1) as nat);
    }
}

pub proof fn lemma_spec_hex_upper_len(v: nat, n: nat)
    ensures
        spec_hex_upper(v, n).len() == n,
    decreases n,
{
    if n > 0 {
        lemma_spec_hex_upper_len(v / 16, (n - 1) as nat);
    }
}

/// A parsed value is bounded by the width that was read.
pub proof fn lemma_parse_hex_bound(s: Seq<u8>, pos: int, n: nat)
    requires
        spec_parse_hex(s, pos, n) is Some,
    ensures
        spec_parse_hex(s, pos, n)->Some_0 < pow16(n),
    decreases n,
{
    if n > 0 {
        lemma_parse_hex_bound(s, pos, (n - 1) as nat);
        let hi = spec_parse_hex(s, pos, (n - 1) as nat)->Some_0;
        assert(hi <= pow16((n - 1) as nat) - 1);
        assert(hi * 16 + 15 < pow16(n)) by (nonlinear_arith)
            requires
                hi <= pow16((n - 1) as nat) - 1,
                pow16(n) == 16 * pow16((n - 1) as nat),
        ;
    }
}

fn hex_digit_exec(v: u8) -> (r: u8)
    requires
        v < 16,
    ensures
        r == hex_digit(v),
{
    if v < 10 {
        48 + v
    } else {
        97 + (v - 10)
    }
}

fn hex_digit_upper_exec(v: u8) -> (r: u8)
    requires
        v < 16,
    ensures
        r == hex_digit_upper(v),
{
    if v < 10 {
        48 + v
    } else {
        65 + (v - 10)
    }
}

pub fn nibble_value_exec(b: u8) -> (r: u8)
    ensures
        r == nibble_value(b),
{
    if 48 <= b && b <= 57 {
        b - 48
    } else if 97 <= b && b <= 102 {
        b - 97 + 10
    } else if 65 <= b && b <= 70 {
        b - 65 + 10
    } else {
        16
    }
}

/// Appends `v` as exactly `n` lower-case hex digits, most significant first.
pub fn encode_hex(out: &mut Vec<u8>, v: u128, n: usize)
    requires
        n <= 32,
        v < pow16(n as nat),
    ensures
        final(out)@ == old(out)@ + spec_hex(v as nat, n as nat),
    decreases n,
{
    if n == 0 {
        assert(final(out)@ =~= old(out)@ + spec_hex(v as nat, 0));
    } else {
        proof {
            lemma_pow16_pos((n - 1) as nat);
            assert((v as nat) / 16 < pow16((n - 1) as nat)) by (nonlinear_arith)
                requires
                    (v as nat) < 16 * pow16((n - 1) as nat),
                    pow16((n - 1) as nat) >= 1,
            ;
        }
        encode_hex(out, v / 16, n - 1);
        let d = hex_digit_exec((v % 16) as u8);
        out.push(d);
        assert(final(out)@ =~= old(out)@ + spec_hex(v as nat, n as nat));
    }
}

/// Appends `v` as exactly `n` upper-case hex digits (used for tokens).
pub fn encode_hex_upper(out: &mut Vec<u8>, v: u128, n: usize)
    requires
        n <= 32,
        v < pow16(n as nat),
    ensures
        final(out)@ == old(out)@ + spec_hex_upper(v as nat, n as nat),
    decreases n,
{
    if n == 0 {
        assert(final(out)@ =~= old(out)@ + spec_hex_upper(v as nat, 0));
    } else {
        proof {
            lemma_pow16_pos((n - 1) as nat);
            assert((v as nat) / 16 < pow16((n - 1) as nat)) by (nonlinear_arith)
                requires
                    (v as nat) < 16 * pow16((n - 1) as nat),
                    pow16((n - 1) as nat) >= 1,
            ;
        }
        encode_hex_upper(out, v / 16, n - 1);
        let d = hex_digit_upper_exec((v % 16) as u8);
        out.push(d);
        assert(final(out)@ =~= old(out)@ + spec_hex_upper(v as nat, n as nat));
    }
}

/// `v` written as exactly `n` upper-case hex digits, most significant first.
pub open spec fn spec_hex_upper(v: nat, n: nat) -> Seq<u8>
    decreases n,
{
    if n == 0 {
        Seq::empty()
    } else {
        spec_hex_upper(v / 16, (n - 1) as nat).push(hex_digit_upper((v % 16) as u8))
    }
}

/// Reads exactly `n` hex digits of `s` starting at `pos`.
pub fn parse_hex(s: &Vec<u8>, pos: usize, n: usize) -> (r: Option<u128>)
    requires
        n <= 32,
        pos + n <= s@.len(),
    ensures
        match r {
            Some(v) => spec_parse_hex(s@, pos as int, n as nat) == Some(v as nat),
            None => spec_parse_hex(s@, pos as int, n as nat) is None,
        },
{
    proof {
        lemma_pow16_32_is_u128_bound();
    }
    let slen: usize = s.len();
    let mut acc: u128 = 0;
    let mut i: usize = 0;
    while i < n
        invariant
            i <= n,
            n <= 32,
            slen == s@.len(),
            pos + n <= slen,
            spec_parse_hex(s@, pos as int, i as nat) == Some(acc as nat),
            acc < pow16(i as nat),
            pow16(32) == 0x1_0000_0000_0000_0000_0000_0000_0000_0000,
        decreases n - i,
    {
        let b = s[pos + i];
        let nv = nibble_value_exec(b);
        if nv >= 16 {
            assert(spec_parse_hex(s@, pos as int, n as nat) is None) by {
                lemma_parse_hex_prefix_none(s@, pos as int, (i + 1) as nat, n as nat);
            }
            return None;
        }
        proof {
            lemma_pow16_increases((i + 1) as nat, 32);
            assert((acc as nat) * 16 + 15 < pow16((i + 1) as nat)) by (nonlinear_arith)
                requires
                    (acc as nat) < pow16(i as nat),
                    pow16((i + 1) as nat) == 16 * pow16(i as nat),
            ;
        }
        acc = acc * 16 + (nv as u128);
        i = i + 1;
    }
    Some(acc)
}

/// When parsing some leading region already fails, parsing a longer region
/// fails as well.
pub proof fn lemma_parse_hex_prefix_none(s: Seq<u8>, pos: int, m: nat, n: nat)
    requires
        m <= n,
        spec_parse_hex(s, pos, m) is None,
        pos >= 0,
        pos + n <= s.len(),
    ensures
        spec_parse_hex(s, pos, n) is None,
    decreases n,
{
    if n > m {
        lemma_parse_hex_prefix_none(s, pos, m, (n - 1) as nat);
    }
}

} // verus!
