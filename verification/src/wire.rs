//! The wire encoding of protocol envelopes: a stable, versioned ASCII text
//! format. Identifiers are written as 32 fixed hex digits, signed values as
//! a sign byte and 16 fixed hex digits, strings as a byte count followed by
//! two hex digits per UTF-8 byte, sequences as a count followed by the
//! elements. The parser is strict: it accepts exactly the canonical
//! encodings, and parsing inverts encoding.

use vstd::prelude::*;
use vstd::string::StrSliceExecFns;
use vstd::string::StringSliceAdditionalSpecFns;
use vstd::utf8::{decode_utf8, encode_utf8, valid_utf8};

use crate::hex::{
    encode_hex, lemma_parse_hex_bound, lemma_parse_hex_roundtrip, lemma_pow16_32_is_u128_bound,
    lemma_spec_hex_len, parse_hex, pow16, spec_hex, spec_parse_hex,
};
use crate::account::{Account, AccountCreatedResult};
use crate::ledger::{Transaction, TransactionReceipt};
use crate::message::{
    utf8_to_string, ClientMessage, ClientMessagePacket, ServerError, ServerErrorV, ServerMessage,
    ServerMessagePacket, ServerMessagePacketV, ServerMessageV,
};
use crate::PROTOCOL_VERSION;

verus! {

pub const SIGN_PLUS: u8 = 43;

pub const SIGN_MINUS: u8 = 45;

// Spec-level encoders ////////////////////////////////////////////////////

pub open spec fn spec_enc_u128(v: u128) -> Seq<u8> {
    spec_hex(v as nat, 32)
}

pub open spec fn spec_enc_u64(v: u64) -> Seq<u8> {
    spec_hex(v as nat, 16)
}

/// Magnitude of a signed 64-bit value, as a mathematical integer.
pub open spec fn i64_magnitude(v: i64) -> nat {
    if v >= 0 {
        v as nat
    } else {
        (-(v as int)) as nat
    }
}

pub open spec fn spec_enc_i64(v: i64) -> Seq<u8> {
    if v >= 0 {
        seq![SIGN_PLUS] + spec_hex(i64_magnitude(v), 16)
    } else {
        seq![SIGN_MINUS] + spec_hex(i64_magnitude(v), 16)
    }
}

// Spec-level parsers /////////////////////////////////////////////////////

pub open spec fn spec_parse_u128(s: Seq<u8>, pos: int) -> Option<(u128, int)> {
    match spec_parse_hex(s, pos, 32) {
        None => None,
        Some(v) => Some((v as u128, pos + 32)),
    }
}

pub open spec fn spec_parse_u64(s: Seq<u8>, pos: int) -> Option<(u64, int)> {
    match spec_parse_hex(s, pos, 16) {
        None => None,
        Some(v) => Some((v as u64, pos + 16)),
    }
}

pub open spec fn spec_parse_i64(s: Seq<u8>, pos: int) -> Option<(i64, int)> {
    if pos < 0 || pos + 17 > s.len() {
        None
    } else if s[pos] == SIGN_PLUS {
        match spec_parse_hex(s, pos + 1, 16) {
            None => None,
            Some(m) => if m <= i64::MAX as nat {
                Some((m as i64, pos + 17))
            } else {
                None
            },
        }
    } else if s[pos] == SIGN_MINUS {
        match spec_parse_hex(s, pos + 1, 16) {
            None => None,
            Some(m) => if 1 <= m <= 0x8000_0000_0000_0000 as nat {
                Some(((-(m as int)) as i64, pos + 17))
            } else {
                None
            },
        }
    } else {
        None
    }
}

pub proof fn lemma_enc_u128_len(v: u128)
    ensures
        spec_enc_u128(v).len() == 32,
{
    lemma_spec_hex_len(v as nat, 32);
}

pub proof fn lemma_enc_i64_len(v: i64)
    ensures
        spec_enc_i64(v).len() == 17,
{
    lemma_spec_hex_len(i64_magnitude(v), 16);
}

// Splitting a written region into its parts /////////////////////////////

/// A region that reads as a concatenation splits into two regions that read
/// as the parts.
pub proof fn lemma_subrange_of_concat(s: Seq<u8>, pos: int, a: Seq<u8>, b: Seq<u8>)
    requires
        0 <= pos,
        pos + a.len() + b.len() <= s.len(),
        s.subrange(pos, pos + a.len() + b.len()) == a + b,
    ensures
        s.subrange(pos, pos + a.len()) == a,
        s.subrange(pos + a.len(), pos + a.len() + b.len()) == b,
{
    let whole = s.subrange(pos, pos + a.len() + b.len());
    assert forall|i: int| 0 <= i < a.len() implies #[trigger] s.subrange(pos, pos + a.len())[i]
        == a[i] by {
        assert(whole[i] == (a + b)[i]);
    }
    assert(s.subrange(pos, pos + a.len()) =~= a);
    assert forall|i: int| 0 <= i < b.len() implies #[trigger] s.subrange(
        pos + a.len(),
        pos + a.len() + b.len(),
    )[i] == b[i] by {
        assert(whole[a.len() + i] == (a + b)[a.len() + i]);
    }
    assert(s.subrange(pos + a.len(), pos + a.len() + b.len()) =~= b);
}

// Round trips at the atom level //////////////////////////////////////////

pub proof fn lemma_rt_u128(s: Seq<u8>, pos: int, v: u128)
    requires
        0 <= pos,
        pos + 32 <= s.len(),
        s.subrange(pos, pos + 32) == spec_enc_u128(v),
    ensures
        spec_parse_u128(s, pos) == Some((v, pos + 32)),
{
    lemma_pow16_32_is_u128_bound();
    lemma_parse_hex_roundtrip(s, pos, v as nat, 32);
}

pub proof fn lemma_rt_u64(s: Seq<u8>, pos: int, v: u64)
    requires
        0 <= pos,
        pos + 16 <= s.len(),
        s.subrange(pos, pos + 16) == spec_enc_u64(v),
    ensures
        spec_parse_u64(s, pos) == Some((v, pos + 16)),
{
    lemma_pow16_32_is_u128_bound();
    lemma_parse_hex_roundtrip(s, pos, v as nat, 16);
}

pub proof fn lemma_rt_i64(s: Seq<u8>, pos: int, v: i64)
    requires
        0 <= pos,
        pos + 17 <= s.len(),
        s.subrange(pos, pos + 17) == spec_enc_i64(v),
    ensures
        spec_parse_i64(s, pos) == Some((v, pos + 17)),
{
    lemma_pow16_32_is_u128_bound();
    let enc = spec_enc_i64(v);
    let mag = i64_magnitude(v);
    lemma_spec_hex_len(mag, 16);
    assert(s[pos] == enc[0]);
    assert forall|i: int| 0 <= i < 16 implies #[trigger] s.subrange(pos + 1, pos + 17)[i]
        == spec_hex(mag, 16)[i] by {
        assert(s.subrange(pos, pos + 17)[i + 1] == enc[i + 1]);
    }
    assert(s.subrange(pos + 1, pos + 17) =~= spec_hex(mag, 16));
    lemma_parse_hex_roundtrip(s, pos + 1, mag, 16);
}

// Executable encoders ////////////////////////////////////////////////////

pub fn enc_u128(out: &mut Vec<u8>, v: u128)
    ensures
        final(out)@ == old(out)@ + spec_enc_u128(v),
{
    proof {
        lemma_pow16_32_is_u128_bound();
    }
    encode_hex(out, v, 32);
}

pub fn enc_u64(out: &mut Vec<u8>, v: u64)
    ensures
        final(out)@ == old(out)@ + spec_enc_u64(v),
{
    proof {
        lemma_pow16_32_is_u128_bound();
        crate::hex::lemma_pow16_increases(16, 32);
    }
    encode_hex(out, v as u128, 16);
}

pub fn enc_i64(out: &mut Vec<u8>, v: i64)
    ensures
        final(out)@ == old(out)@ + spec_enc_i64(v),
{
    proof {
        lemma_pow16_32_is_u128_bound();
    }
    if v >= 0 {
        out.push(SIGN_PLUS);
        encode_hex(out, v as u128, 16);
    } else {
        out.push(SIGN_MINUS);
        let m: u128 = (-(v as i128)) as u128;
        assert(m as nat == i64_magnitude(v));
        encode_hex(out, m, 16);
    }
    assert(final(out)@ =~= old(out)@ + spec_enc_i64(v));
}

// Executable parsers /////////////////////////////////////////////////////

pub fn parse_u128(s: &Vec<u8>, pos: usize) -> (r: Option<(u128, usize)>)
    ensures
        match spec_parse_u128(s@, pos as int) {
            Some(vp) => r matches Some(x) && x.0 == vp.0 && x.1 == vp.1,
            None => r is None,
        },
{
    if s.len() < 32 || pos > s.len() - 32 {
        return None;
    }
    match parse_hex(s, pos, 32) {
        Some(v) => Some((v, pos + 32)),
        None => None,
    }
}

pub fn parse_u64(s: &Vec<u8>, pos: usize) -> (r: Option<(u64, usize)>)
    ensures
        match spec_parse_u64(s@, pos as int) {
            Some(vp) => r matches Some(x) && x.0 == vp.0 && x.1 == vp.1,
            None => r is None,
        },
{
    if s.len() < 16 || pos > s.len() - 16 {
        return None;
    }
    match parse_hex(s, pos, 16) {
        Some(v) => {
            proof {
                lemma_parse_hex_bound(s@, pos as int, 16);
                lemma_pow16_32_is_u128_bound();
            }
            Some((v as u64, pos + 16))
        },
        None => None,
    }
}

pub fn parse_i64(s: &Vec<u8>, pos: usize) -> (r: Option<(i64, usize)>)
    ensures
        match spec_parse_i64(s@, pos as int) {
            Some(vp) => r matches Some(x) && x.0 == vp.0 && x.1 == vp.1,
            None => r is None,
        },
{
    if s.len() < 17 || pos > s.len() - 17 {
        return None;
    }
    let sign = s[pos];
    if sign != SIGN_PLUS && sign != SIGN_MINUS {
        return None;
    }
    let m = match parse_hex(s, pos + 1, 16) {
        Some(m) => m,
        None => {
            return None;
        },
    };
    proof {
        lemma_parse_hex_bound(s@, pos as int + 1, 16);
        lemma_pow16_32_is_u128_bound();
    }
    if sign == SIGN_PLUS {
        if m <= i64::MAX as u128 {
            Some((m as i64, pos + 17))
        } else {
            None
        }
    } else {
        if 1 <= m && m <= 0x8000_0000_0000_0000u128 {
            let neg: i64 = (-(m as i128)) as i64;
            Some((neg, pos + 17))
        } else {
            None
        }
    }
}

// Strings on the wire: a byte count, then two hex digits per UTF-8 byte ///

pub open spec fn spec_hex_pairs(b: Seq<u8>) -> Seq<u8>
    decreases b.len(),
{
    if b.len() == 0 {
        Seq::empty()
    } else {
        spec_hex(b[0] as nat, 2) + spec_hex_pairs(b.drop_first())
    }
}

pub proof fn lemma_spec_hex_pairs_len(b: Seq<u8>)
    ensures
        spec_hex_pairs(b).len() == 2 * b.len(),
    decreases b.len(),
{
    if b.len() > 0 {
        lemma_spec_hex_len(b[0] as nat, 2);
        lemma_spec_hex_pairs_len(b.drop_first());
    }
}

pub proof fn lemma_spec_hex_pairs_concat(b1: Seq<u8>, b2: Seq<u8>)
    ensures
        spec_hex_pairs(b1 + b2) == spec_hex_pairs(b1) + spec_hex_pairs(b2),
    decreases b1.len(),
{
    if b1.len() == 0 {
        assert(b1 + b2 =~= b2);
        assert(spec_hex_pairs(b1) + spec_hex_pairs(b2) =~= spec_hex_pairs(b2));
    } else {
        assert((b1 + b2).drop_first() =~= b1.drop_first() + b2);
        lemma_spec_hex_pairs_concat(b1.drop_first(), b2);
        assert(spec_hex_pairs(b1 + b2) =~= spec_hex_pairs(b1) + spec_hex_pairs(b2));
    }
}

pub open spec fn spec_enc_str(s: Seq<char>) -> Seq<u8> {
    let bytes = encode_utf8(s);
    spec_hex(bytes.len(), 16) + spec_hex_pairs(bytes)
}

pub open spec fn spec_parse_hex_pairs(s: Seq<u8>, pos: int, count: nat) -> Option<Seq<u8>>
    decreases count,
{
    if pos < 0 || pos + 2 * count > s.len() {
        None
    } else if count == 0 {
        Some(Seq::empty())
    } else {
        match spec_parse_hex(s, pos, 2) {
            None => None,
            Some(b) => match spec_parse_hex_pairs(s, pos + 2, (count - 1) as nat) {
                None => None,
                Some(rest) => Some(seq![b as u8] + rest),
            },
        }
    }
}

pub open spec fn spec_parse_str(s: Seq<u8>, pos: int) -> Option<(Seq<char>, int)> {
    match spec_parse_u64(s, pos) {
        None => None,
        Some((len, p)) => match spec_parse_hex_pairs(s, p, len as nat) {
            None => None,
            Some(bytes) => if valid_utf8(bytes) {
                Some((decode_utf8(bytes), p + 2 * (len as int)))
            } else {
                None
            },
        },
    }
}

pub proof fn lemma_rt_hex_pairs(s: Seq<u8>, pos: int, b: Seq<u8>)
    requires
        0 <= pos,
        pos + 2 * b.len() <= s.len(),
        s.subrange(pos, pos + 2 * b.len()) == spec_hex_pairs(b),
    ensures
        spec_parse_hex_pairs(s, pos, b.len()) == Some(b),
    decreases b.len(),
{
    lemma_pow16_32_is_u128_bound();
    if b.len() == 0 {
        assert(spec_parse_hex_pairs(s, pos, 0) == Some(Seq::<u8>::empty()));
        assert(b =~= Seq::<u8>::empty());
    } else {
        let first = spec_hex(b[0] as nat, 2);
        let rest = spec_hex_pairs(b.drop_first());
        lemma_spec_hex_len(b[0] as nat, 2);
        lemma_spec_hex_pairs_len(b.drop_first());
        lemma_subrange_of_concat(s, pos, first, rest);
        assert(b[0] < pow16(2)) by {
            crate::hex::lemma_pow16_increases(2, 32);
            assert(pow16(2) == 256) by {
                reveal_with_fuel(pow16, 3);
            }
        }
        lemma_parse_hex_roundtrip(s, pos, b[0] as nat, 2);
        lemma_rt_hex_pairs(s, pos + 2, b.drop_first());
        assert(seq![b[0]] + b.drop_first() =~= b);
    }
}

pub proof fn lemma_rt_str(s: Seq<u8>, pos: int, chars: Seq<char>)
    requires
        0 <= pos,
        encode_utf8(chars).len() < pow16(16),
        pos + spec_enc_str(chars).len() <= s.len(),
        s.subrange(pos, pos + spec_enc_str(chars).len() as int) == spec_enc_str(chars),
    ensures
        spec_parse_str(s, pos) == Some((chars, pos + spec_enc_str(chars).len())),
{
    broadcast use vstd::utf8::encode_utf8_valid_utf8;
    broadcast use vstd::utf8::encode_utf8_decode_utf8;

    lemma_pow16_32_is_u128_bound();
    let bytes = encode_utf8(chars);
    let lenenc = spec_hex(bytes.len(), 16);
    let pairs = spec_hex_pairs(bytes);
    lemma_spec_hex_len(bytes.len(), 16);
    lemma_spec_hex_pairs_len(bytes);
    lemma_subrange_of_concat(s, pos, lenenc, pairs);
    let len64: u64 = bytes.len() as u64;
    assert(spec_hex(len64 as nat, 16) == lenenc);
    lemma_parse_hex_roundtrip(s, pos, len64 as nat, 16);
    assert(spec_parse_u64(s, pos) == Some((len64, pos + 16)));
    lemma_rt_hex_pairs(s, pos + 16, bytes);
}

/// Appends the wire form of a string.
pub fn enc_str(out: &mut Vec<u8>, s: &String)
    ensures
        final(out)@ == old(out)@ + spec_enc_str(s@),
{
    let bytes = s.as_str().as_bytes_vec();
    proof {
        lemma_pow16_32_is_u128_bound();
        crate::hex::lemma_pow16_increases(16, 32);
    }
    encode_hex(out, bytes.len() as u128, 16);
    let ghost mid = out@;
    let n = bytes.len();
    let mut i: usize = 0;
    while i < n
        invariant
            i <= n,
            n == bytes@.len(),
            bytes@ == encode_utf8(s@),
            out@ == mid + spec_hex_pairs(bytes@.take(i as int)),
            mid == old(out)@ + spec_hex(bytes@.len(), 16),
        decreases n - i,
    {
        proof {
            assert(pow16(2) == 256) by {
                reveal_with_fuel(pow16, 3);
            }
            lemma_spec_hex_pairs_concat(bytes@.take(i as int), seq![bytes@[i as int]]);
            assert(bytes@.take(i as int) + seq![bytes@[i as int]] =~= bytes@.take(i as int + 1));
            let single = seq![bytes@[i as int]];
            assert(single.drop_first() =~= Seq::<u8>::empty());
            assert(spec_hex_pairs(Seq::<u8>::empty()) =~= Seq::<u8>::empty());
            assert(spec_hex_pairs(single) == spec_hex(single[0] as nat, 2) + spec_hex_pairs(
                single.drop_first(),
            ));
            assert(spec_hex_pairs(single) =~= spec_hex(bytes@[i as int] as nat, 2));
        }
        encode_hex(out, bytes[i] as u128, 2);
        i = i + 1;
    }
    proof {
        assert(bytes@.take(n as int) =~= bytes@);
        assert(final(out)@ =~= old(out)@ + spec_enc_str(s@));
    }
}

/// Reads the wire form of a string.
pub fn parse_str(s: &Vec<u8>, pos: usize) -> (r: Option<(String, usize)>)
    ensures
        match spec_parse_str(s@, pos as int) {
            Some(cp) => r matches Some(sp) && sp.0@ == cp.0 && sp.1 == cp.1,
            None => r is None,
        },
{
    let (len, p) = match parse_u64(s, pos) {
        Some(lp) => lp,
        None => {
            return None;
        },
    };
    proof {
        assert(spec_parse_hex(s@, pos as int, 16) is Some);
    }
    let slen = s.len();
    let remaining = slen - p;
    if len > (remaining / 2) as u64 {
        assert(spec_parse_hex_pairs(s@, p as int, len as nat) is None);
        return None;
    }
    let count = len as usize;
    let mut bytes: Vec<u8> = Vec::new();
    let mut cur: usize = p;
    let mut i: usize = 0;
    while i < count
        invariant
            i <= count,
            cur == p + 2 * i,
            p + 2 * count <= slen,
            slen == s@.len(),
            bytes@.len() == i,
            spec_parse_u64(s@, pos as int) == Some((len, p as int)),
            count == len as usize,
            spec_parse_hex_pairs(s@, p as int, count as nat) == (
            match spec_parse_hex_pairs(s@, cur as int, (count - i) as nat) {
                None => None::<Seq<u8>>,
                Some(rest) => Some(bytes@ + rest),
            }),
        decreases count - i,
    {
        let b = match parse_hex(s, cur, 2) {
            Some(b) => b,
            None => {
                assert(spec_parse_hex_pairs(s@, cur as int, (count - i) as nat) is None);
                return None;
            },
        };
        proof {
            lemma_parse_hex_bound(s@, cur as int, 2);
            assert(pow16(2) == 256) by {
                reveal_with_fuel(pow16, 3);
            }
            let rest0 = spec_parse_hex_pairs(s@, cur as int + 2, (count - i - 1) as nat);
            if rest0 is Some {
                assert(bytes@ + (seq![b as u8] + rest0->Some_0) =~= (bytes@ + seq![b as u8])
                    + rest0->Some_0);
            }
        }
        bytes.push(b as u8);
        cur = cur + 2;
        i = i + 1;
    }
    proof {
        assert(spec_parse_hex_pairs(s@, cur as int, 0) == Some(Seq::<u8>::empty()));
        assert(bytes@ + Seq::<u8>::empty() =~= bytes@);
    }
    match utf8_to_string(bytes) {
        Some(st) => Some((st, cur)),
        None => None,
    }
}

// The request envelope ///////////////////////////////////////////////////

/// Header bytes of a request envelope: "CP".
pub const HDR_CLIENT_0: u8 = 67;

pub const HDR_CLIENT_1: u8 = 80;

/// Variant tags of the request payload.
pub const TAG_CREATE_NEW_ACCOUNT: u8 = 78;

pub const TAG_GET_ACCOUNT: u8 = 97;

pub const TAG_GET_ACCOUNTS: u8 = 76;

pub const TAG_GET_TRANSACTIONS: u8 = 115;

pub const TAG_GET_TRANSACTION: u8 = 116;

pub const TAG_CREATE_TRANSACTION: u8 = 99;

pub open spec fn spec_enc_client_message(m: ClientMessage) -> Seq<u8> {
    match m {
        ClientMessage::CreateNewAccount => seq![TAG_CREATE_NEW_ACCOUNT],
        ClientMessage::GetAccount { account_id } => seq![TAG_GET_ACCOUNT] + spec_enc_u128(
            account_id,
        ),
        ClientMessage::GetAccounts => seq![TAG_GET_ACCOUNTS],
        ClientMessage::GetTransactions { account_id, time_range_start, time_range_end } => seq![
            TAG_GET_TRANSACTIONS,
        ] + spec_enc_u128(account_id) + spec_enc_i64(time_range_start) + spec_enc_i64(
            time_range_end,
        ),
        ClientMessage::GetTransaction { account_id, transaction_id } => seq![TAG_GET_TRANSACTION]
            + spec_enc_u128(account_id) + spec_enc_u128(transaction_id),
        ClientMessage::CreateTransaction { sender_id, receiver_id, amount } => seq![
            TAG_CREATE_TRANSACTION,
        ] + spec_enc_u128(sender_id) + spec_enc_u128(receiver_id) + spec_enc_i64(amount),
    }
}

pub open spec fn spec_enc_client_packet(p: ClientMessagePacket) -> Seq<u8> {
    seq![HDR_CLIENT_0, HDR_CLIENT_1] + spec_enc_i64(p.v as i64) + spec_enc_u128(p.message_id)
        + spec_enc_client_message(p.message)
}

pub open spec fn spec_parse_client_message(s: Seq<u8>, pos: int) -> Option<(ClientMessage, int)> {
    if pos < 0 || pos >= s.len() {
        None
    } else {
        let tag = s[pos];
        if tag == TAG_CREATE_NEW_ACCOUNT {
            Some((ClientMessage::CreateNewAccount, pos + 1))
        } else if tag == TAG_GET_ACCOUNT {
            match spec_parse_u128(s, pos + 1) {
                None => None,
                Some((id, p)) => Some((ClientMessage::GetAccount { account_id: id }, p)),
            }
        } else if tag == TAG_GET_ACCOUNTS {
            Some((ClientMessage::GetAccounts, pos + 1))
        } else if tag == TAG_GET_TRANSACTIONS {
            match spec_parse_u128(s, pos + 1) {
                None => None,
                Some((id, p1)) => match spec_parse_i64(s, p1) {
                    None => None,
                    Some((t0, p2)) => match spec_parse_i64(s, p2) {
                        None => None,
                        Some((t1, p3)) => Some(
                            (
                                ClientMessage::GetTransactions {
                                    account_id: id,
                                    time_range_start: t0,
                                    time_range_end: t1,
                                },
                                p3,
                            ),
                        ),
                    },
                },
            }
        } else if tag == TAG_GET_TRANSACTION {
            match spec_parse_u128(s, pos + 1) {
                None => None,
                Some((id, p1)) => match spec_parse_u128(s, p1) {
                    None => None,
                    Some((tid, p2)) => Some(
                        (ClientMessage::GetTransaction { account_id: id, transaction_id: tid }, p2),
                    ),
                },
            }
        } else if tag == TAG_CREATE_TRANSACTION {
            match spec_parse_u128(s, pos + 1) {
                None => None,
                Some((sid, p1)) => match spec_parse_u128(s, p1) {
                    None => None,
                    Some((rid, p2)) => match spec_parse_i64(s, p2) {
                        None => None,
                        Some((amount, p3)) => Some(
                            (
                                ClientMessage::CreateTransaction {
                                    sender_id: sid,
                                    receiver_id: rid,
                                    amount,
                                },
                                p3,
                            ),
                        ),
                    },
                },
            }
        } else {
            None
        }
    }
}

/// The decoded request envelope: exactly the canonical encoding of one
/// packet at the current protocol version, with nothing following it.
pub open spec fn spec_dec_client_packet(s: Seq<u8>) -> Option<ClientMessagePacket> {
    if s.len() < 2 || s[0] != HDR_CLIENT_0 || s[1] != HDR_CLIENT_1 {
        None
    } else {
        match spec_parse_i64(s, 2) {
            None => None,
            Some((v, p1)) => if v != PROTOCOL_VERSION as i64 {
                None
            } else {
                match spec_parse_u128(s, p1) {
                    None => None,
                    Some((mid, p2)) => match spec_parse_client_message(s, p2) {
                        None => None,
                        Some((m, p3)) => if p3 == s.len() {
                            Some(
                                ClientMessagePacket {
                                    v: PROTOCOL_VERSION,
                                    message_id: mid,
                                    message: m,
                                },
                            )
                        } else {
                            None
                        },
                    },
                }
            },
        }
    }
}

// Round trip of the request envelope /////////////////////////////////////

proof fn lemma_split3(s: Seq<u8>, pos: int, a: Seq<u8>, b: Seq<u8>, c: Seq<u8>)
    requires
        0 <= pos,
        pos + a.len() + b.len() + c.len() <= s.len(),
        s.subrange(pos, pos + a.len() + b.len() + c.len()) == a + b + c,
    ensures
        s.subrange(pos, pos + a.len()) == a,
        s.subrange(pos + a.len(), pos + a.len() + b.len()) == b,
        s.subrange(pos + a.len() + b.len(), pos + a.len() + b.len() + c.len()) == c,
{
    lemma_subrange_of_concat(s, pos, a + b, c);
    lemma_subrange_of_concat(s, pos, a, b);
}

proof fn lemma_split4(s: Seq<u8>, pos: int, a: Seq<u8>, b: Seq<u8>, c: Seq<u8>, d: Seq<u8>)
    requires
        0 <= pos,
        pos + a.len() + b.len() + c.len() + d.len() <= s.len(),
        s.subrange(pos, pos + a.len() + b.len() + c.len() + d.len()) == a + b + c + d,
    ensures
        s.subrange(pos, pos + a.len()) == a,
        s.subrange(pos + a.len(), pos + a.len() + b.len()) == b,
        s.subrange(pos + a.len() + b.len(), pos + a.len() + b.len() + c.len()) == c,
        s.subrange(
            pos + a.len() + b.len() + c.len(),
            pos + a.len() + b.len() + c.len() + d.len(),
        ) == d,
{
    lemma_subrange_of_concat(s, pos, a + b + c, d);
    lemma_split3(s, pos, a, b, c);
}

pub proof fn lemma_rt_client_message(s: Seq<u8>, pos: int, m: ClientMessage)
    requires
        0 <= pos,
        pos + spec_enc_client_message(m).len() <= s.len(),
        s.subrange(pos, pos + spec_enc_client_message(m).len() as int) == spec_enc_client_message(
            m,
        ),
    ensures
        spec_parse_client_message(s, pos) == Some(
            (m, pos + spec_enc_client_message(m).len() as int),
        ),
{
    let enc = spec_enc_client_message(m);
    assert(s[pos] == enc[0]) by {
        assert(s.subrange(pos, pos + enc.len() as int)[0] == enc[0]);
    }
    match m {
        ClientMessage::CreateNewAccount => {},
        ClientMessage::GetAccount { account_id } => {
            lemma_enc_u128_len(account_id);
            lemma_subrange_of_concat(s, pos, seq![TAG_GET_ACCOUNT], spec_enc_u128(account_id));
            lemma_rt_u128(s, pos + 1, account_id);
        },
        ClientMessage::GetAccounts => {},
        ClientMessage::GetTransactions { account_id, time_range_start, time_range_end } => {
            lemma_enc_u128_len(account_id);
            lemma_enc_i64_len(time_range_start);
            lemma_enc_i64_len(time_range_end);
            lemma_split4(
                s,
                pos,
                seq![TAG_GET_TRANSACTIONS],
                spec_enc_u128(account_id),
                spec_enc_i64(time_range_start),
                spec_enc_i64(time_range_end),
            );
            lemma_rt_u128(s, pos + 1, account_id);
            lemma_rt_i64(s, pos + 33, time_range_start);
            lemma_rt_i64(s, pos + 50, time_range_end);
        },
        ClientMessage::GetTransaction { account_id, transaction_id } => {
            lemma_enc_u128_len(account_id);
            lemma_enc_u128_len(transaction_id);
            lemma_split3(
                s,
                pos,
                seq![TAG_GET_TRANSACTION],
                spec_enc_u128(account_id),
                spec_enc_u128(transaction_id),
            );
            lemma_rt_u128(s, pos + 1, account_id);
            lemma_rt_u128(s, pos + 33, transaction_id);
        },
        ClientMessage::CreateTransaction { sender_id, receiver_id, amount } => {
            lemma_enc_u128_len(sender_id);
            lemma_enc_u128_len(receiver_id);
            lemma_enc_i64_len(amount);
            lemma_split4(
                s,
                pos,
                seq![TAG_CREATE_TRANSACTION],
                spec_enc_u128(sender_id),
                spec_enc_u128(receiver_id),
                spec_enc_i64(amount),
            );
            lemma_rt_u128(s, pos + 1, sender_id);
            lemma_rt_u128(s, pos + 33, receiver_id);
            lemma_rt_i64(s, pos + 65, amount);
        },
    }
}

/// Decoding inverts encoding: the canonical bytes of any request envelope at
/// the current protocol version decode to exactly that envelope.
pub proof fn lemma_client_packet_roundtrip(p: ClientMessagePacket)
    requires
        p.v == PROTOCOL_VERSION,
    ensures
        spec_dec_client_packet(spec_enc_client_packet(p)) == Some(p),
{
    let s = spec_enc_client_packet(p);
    let hdr = seq![HDR_CLIENT_0, HDR_CLIENT_1];
    let venc = spec_enc_i64(p.v as i64);
    let menc = spec_enc_u128(p.message_id);
    let payload = spec_enc_client_message(p.message);
    lemma_enc_i64_len(p.v as i64);
    lemma_enc_u128_len(p.message_id);
    assert(s == hdr + venc + menc + payload);
    assert(s.subrange(0, s.len() as int) =~= s);
    lemma_split4(s, 0, hdr, venc, menc, payload);
    assert(s[0] == HDR_CLIENT_0 && s[1] == HDR_CLIENT_1) by {
        assert(s.subrange(0, 2)[0] == hdr[0]);
        assert(s.subrange(0, 2)[1] == hdr[1]);
    }
    lemma_rt_i64(s, 2, p.v as i64);
    lemma_rt_u128(s, 19, p.message_id);
    lemma_rt_client_message(s, 51, p.message);
}

// Executable request codec ///////////////////////////////////////////////

/// Writes the canonical wire bytes of a request envelope.
pub fn encode_client_packet(p: &ClientMessagePacket) -> (r: Vec<u8>)
    ensures
        r@ == spec_enc_client_packet(*p),
{
    let mut out: Vec<u8> = Vec::new();
    out.push(HDR_CLIENT_0);
    out.push(HDR_CLIENT_1);
    enc_i64(&mut out, p.v as i64);
    enc_u128(&mut out, p.message_id);
    match &p.message {
        ClientMessage::CreateNewAccount => {
            out.push(TAG_CREATE_NEW_ACCOUNT);
        },
        ClientMessage::GetAccount { account_id } => {
            out.push(TAG_GET_ACCOUNT);
            enc_u128(&mut out, *account_id);
        },
        ClientMessage::GetAccounts => {
            out.push(TAG_GET_ACCOUNTS);
        },
        ClientMessage::GetTransactions { account_id, time_range_start, time_range_end } => {
            out.push(TAG_GET_TRANSACTIONS);
            enc_u128(&mut out, *account_id);
            enc_i64(&mut out, *time_range_start);
            enc_i64(&mut out, *time_range_end);
        },
        ClientMessage::GetTransaction { account_id, transaction_id } => {
            out.push(TAG_GET_TRANSACTION);
            enc_u128(&mut out, *account_id);
            enc_u128(&mut out, *transaction_id);
        },
        ClientMessage::CreateTransaction { sender_id, receiver_id, amount } => {
            out.push(TAG_CREATE_TRANSACTION);
            enc_u128(&mut out, *sender_id);
            enc_u128(&mut out, *receiver_id);
            enc_i64(&mut out, *amount);
        },
    }
    proof {
        assert(out@ =~= spec_enc_client_packet(*p));
    }
    out
}

fn parse_client_message(s: &Vec<u8>, pos: usize) -> (r: Option<(ClientMessage, usize)>)
    ensures
        match spec_parse_client_message(s@, pos as int) {
            Some(mp) => r matches Some(x) && x.0 == mp.0 && x.1 == mp.1,
            None => r is None,
        },
{
    if pos >= s.len() {
        return None;
    }
    let tag = s[pos];
    if tag == TAG_CREATE_NEW_ACCOUNT {
        Some((ClientMessage::CreateNewAccount, pos + 1))
    } else if tag == TAG_GET_ACCOUNT {
        match parse_u128(s, pos + 1) {
            None => None,
            Some((id, p)) => Some((ClientMessage::GetAccount { account_id: id }, p)),
        }
    } else if tag == TAG_GET_ACCOUNTS {
        Some((ClientMessage::GetAccounts, pos + 1))
    } else if tag == TAG_GET_TRANSACTIONS {
        let (id, p1) = match parse_u128(s, pos + 1) {
            None => {
                return None;
            },
            Some(x) => x,
        };
        let (t0, p2) = match parse_i64(s, p1) {
            None => {
                return None;
            },
            Some(x) => x,
        };
        let (t1, p3) = match parse_i64(s, p2) {
            None => {
                return None;
            },
            Some(x) => x,
        };
        Some(
            (
                ClientMessage::GetTransactions {
                    account_id: id,
                    time_range_start: t0,
                    time_range_end: t1,
                },
                p3,
            ),
        )
    } else if tag == TAG_GET_TRANSACTION {
        let (id, p1) = match parse_u128(s, pos + 1) {
            None => {
                return None;
            },
            Some(x) => x,
        };
        let (tid, p2) = match parse_u128(s, p1) {
            None => {
                return None;
            },
            Some(x) => x,
        };
        Some((ClientMessage::GetTransaction { account_id: id, transaction_id: tid }, p2))
    } else if tag == TAG_CREATE_TRANSACTION {
        let (sid, p1) = match parse_u128(s, pos + 1) {
            None => {
                return None;
            },
            Some(x) => x,
        };
        let (rid, p2) = match parse_u128(s, p1) {
            None => {
                return None;
            },
            Some(x) => x,
        };
        let (amount, p3) = match parse_i64(s, p2) {
            None => {
                return None;
            },
            Some(x) => x,
        };
        Some((ClientMessage::CreateTransaction { sender_id: sid, receiver_id: rid, amount }, p3))
    } else {
        None
    }
}

/// Reads a request envelope from its canonical wire bytes; `None` on any
/// malformed buffer or version mismatch.
pub fn decode_client_packet(s: &Vec<u8>) -> (r: Option<ClientMessagePacket>)
    ensures
        r == spec_dec_client_packet(s@),
{
    if s.len() < 2 {
        return None;
    }
    if s[0] != HDR_CLIENT_0 || s[1] != HDR_CLIENT_1 {
        return None;
    }
    let (v, p1) = match parse_i64(s, 2) {
        None => {
            return None;
        },
        Some(x) => x,
    };
    if v != PROTOCOL_VERSION as i64 {
        return None;
    }
    let (mid, p2) = match parse_u128(s, p1) {
        None => {
            return None;
        },
        Some(x) => x,
    };
    let (m, p3) = match parse_client_message(s, p2) {
        None => {
            return None;
        },
        Some(x) => x,
    };
    if p3 != s.len() {
        return None;
    }
    Some(ClientMessagePacket { v: PROTOCOL_VERSION, message_id: mid, message: m })
}


// The response envelope //////////////////////////////////////////////////

/// Header bytes of a response envelope: "SP".
pub const HDR_SERVER_0: u8 = 83;

pub const HDR_SERVER_1: u8 = 80;

/// Variant tags of the response payload.
pub const TAG_CREATE_NEW_ACCOUNT_RESPONSE: u8 = 65;

pub const TAG_GET_ACCOUNT_RESPONSE: u8 = 71;

pub const TAG_GET_ACCOUNTS_RESPONSE: u8 = 76;

pub const TAG_GET_TRANSACTIONS_RESPONSE: u8 = 84;

pub const TAG_GET_TRANSACTION_RESPONSE: u8 = 103;

pub const TAG_CREATE_TRANSACTION_RESPONSE: u8 = 67;

/// Tags for the two sides of a result.
pub const TAG_RESULT_OK: u8 = 79;

pub const TAG_RESULT_ERR: u8 = 69;

pub open spec fn spec_enc_account(a: Account) -> Seq<u8> {
    spec_enc_u128(a.account_id) + spec_enc_i64(a.created) + spec_enc_i64(a.funds)
}

pub open spec fn spec_enc_acr(x: AccountCreatedResult) -> Seq<u8> {
    spec_enc_u128(x.account_id) + spec_enc_i64(x.timestamp)
}

pub open spec fn spec_enc_tx(t: Transaction) -> Seq<u8> {
    spec_enc_u128(t.transaction_id) + spec_enc_i64(t.timestamp) + spec_enc_u128(
        t.sender_account_id,
    ) + spec_enc_u128(t.receiver_account_id) + spec_enc_i64(t.amount) + spec_enc_i64(t.fee as i64)
}

pub open spec fn spec_enc_receipt(x: TransactionReceipt) -> Seq<u8> {
    spec_enc_u128(x.transaction_id) + spec_enc_i64(x.timestamp) + spec_enc_u128(
        x.sender_account_id,
    ) + spec_enc_u128(x.receiver_account_id) + spec_enc_i64(x.sender_account_funds) + spec_enc_i64(
        x.fee as i64,
    )
}

pub open spec fn spec_enc_server_error(e: ServerErrorV) -> Seq<u8> {
    spec_enc_str(e.error_type) + spec_enc_str(e.error_message)
}

pub open spec fn spec_enc_account_list(l: Seq<Account>) -> Seq<u8>
    decreases l.len(),
{
    if l.len() == 0 {
        Seq::empty()
    } else {
        spec_enc_account(l[0]) + spec_enc_account_list(l.drop_first())
    }
}

pub open spec fn spec_enc_accounts(l: Seq<Account>) -> Seq<u8> {
    spec_hex(l.len(), 16) + spec_enc_account_list(l)
}

pub open spec fn spec_enc_tx_list(l: Seq<Transaction>) -> Seq<u8>
    decreases l.len(),
{
    if l.len() == 0 {
        Seq::empty()
    } else {
        spec_enc_tx(l[0]) + spec_enc_tx_list(l.drop_first())
    }
}

pub open spec fn spec_enc_txs(l: Seq<Transaction>) -> Seq<u8> {
    spec_hex(l.len(), 16) + spec_enc_tx_list(l)
}

pub open spec fn spec_enc_server_message(m: ServerMessageV) -> Seq<u8> {
    match m {
        ServerMessageV::CreateNewAccountResponse(r) => seq![TAG_CREATE_NEW_ACCOUNT_RESPONSE]
            + match r {
            Ok(x) => seq![TAG_RESULT_OK] + spec_enc_acr(x),
            Err(e) => seq![TAG_RESULT_ERR] + spec_enc_server_error(e),
        },
        ServerMessageV::GetAccountResponse(r) => seq![TAG_GET_ACCOUNT_RESPONSE] + match r {
            Ok(x) => seq![TAG_RESULT_OK] + spec_enc_account(x),
            Err(e) => seq![TAG_RESULT_ERR] + spec_enc_server_error(e),
        },
        ServerMessageV::GetAccountsResponse(r) => seq![TAG_GET_ACCOUNTS_RESPONSE] + match r {
            Ok(x) => seq![TAG_RESULT_OK] + spec_enc_accounts(x),
            Err(e) => seq![TAG_RESULT_ERR] + spec_enc_server_error(e),
        },
        ServerMessageV::GetTransactionsResponse(r) => seq![TAG_GET_TRANSACTIONS_RESPONSE]
            + match r {
            Ok(x) => seq![TAG_RESULT_OK] + spec_enc_txs(x),
            Err(e) => seq![TAG_RESULT_ERR] + spec_enc_server_error(e),
        },
        ServerMessageV::GetTransactionResponse(r) => seq![TAG_GET_TRANSACTION_RESPONSE] + match r {
            Ok(x) => seq![TAG_RESULT_OK] + spec_enc_tx(x),
            Err(e) => seq![TAG_RESULT_ERR] + spec_enc_server_error(e),
        },
        ServerMessageV::CreateTransactionResponse(r) => seq![TAG_CREATE_TRANSACTION_RESPONSE]
            + match r {
            Ok(x) => seq![TAG_RESULT_OK] + spec_enc_receipt(x),
            Err(e) => seq![TAG_RESULT_ERR] + spec_enc_server_error(e),
        },
    }
}

pub open spec fn spec_enc_server_packet(p: ServerMessagePacketV) -> Seq<u8> {
    seq![HDR_SERVER_0, HDR_SERVER_1] + spec_enc_i64(p.v as i64) + spec_enc_u128(p.message_id)
        + spec_enc_server_message(p.message)
}

// Spec parsers for the response envelope /////////////////////////////////

pub open spec fn spec_parse_account(s: Seq<u8>, pos: int) -> Option<(Account, int)> {
    match spec_parse_u128(s, pos) {
        None => None,
        Some((id, p1)) => match spec_parse_i64(s, p1) {
            None => None,
            Some((created, p2)) => match spec_parse_i64(s, p2) {
                None => None,
                Some((funds, p3)) => Some((Account { account_id: id, created, funds }, p3)),
            },
        },
    }
}

pub open spec fn spec_parse_acr(s: Seq<u8>, pos: int) -> Option<(AccountCreatedResult, int)> {
    match spec_parse_u128(s, pos) {
        None => None,
        Some((id, p1)) => match spec_parse_i64(s, p1) {
            None => None,
            Some((ts, p2)) => Some((AccountCreatedResult { account_id: id, timestamp: ts }, p2)),
        },
    }
}

pub open spec fn spec_parse_tx(s: Seq<u8>, pos: int) -> Option<(Transaction, int)> {
    match spec_parse_u128(s, pos) {
        None => None,
        Some((tid, p1)) => match spec_parse_i64(s, p1) {
            None => None,
            Some((ts, p2)) => match spec_parse_u128(s, p2) {
                None => None,
                Some((sid, p3)) => match spec_parse_u128(s, p3) {
                    None => None,
                    Some((rid, p4)) => match spec_parse_i64(s, p4) {
                        None => None,
                        Some((amount, p5)) => match spec_parse_i64(s, p5) {
                            None => None,
                            Some((fee, p6)) => if i32::MIN <= fee <= i32::MAX {
                                Some(
                                    (
                                        Transaction {
                                            transaction_id: tid,
                                            timestamp: ts,
                                            sender_account_id: sid,
                                            receiver_account_id: rid,
                                            amount,
                                            fee: fee as i32,
                                        },
                                        p6,
                                    ),
                                )
                            } else {
                                None
                            },
                        },
                    },
                },
            },
        },
    }
}

pub open spec fn spec_parse_receipt(s: Seq<u8>, pos: int) -> Option<(TransactionReceipt, int)> {
    match spec_parse_u128(s, pos) {
        None => None,
        Some((tid, p1)) => match spec_parse_i64(s, p1) {
            None => None,
            Some((ts, p2)) => match spec_parse_u128(s, p2) {
                None => None,
                Some((sid, p3)) => match spec_parse_u128(s, p3) {
                    None => None,
                    Some((rid, p4)) => match spec_parse_i64(s, p4) {
                        None => None,
                        Some((funds, p5)) => match spec_parse_i64(s, p5) {
                            None => None,
                            Some((fee, p6)) => if i32::MIN <= fee <= i32::MAX {
                                Some(
                                    (
                                        TransactionReceipt {
                                            transaction_id: tid,
                                            timestamp: ts,
                                            sender_account_id: sid,
                                            receiver_account_id: rid,
                                            sender_account_funds: funds,
                                            fee: fee as i32,
                                        },
                                        p6,
                                    ),
                                )
                            } else {
                                None
                            },
                        },
                    },
                },
            },
        },
    }
}

pub open spec fn spec_parse_server_error(s: Seq<u8>, pos: int) -> Option<(ServerErrorV, int)> {
    match spec_parse_str(s, pos) {
        None => None,
        Some((et, p1)) => match spec_parse_str(s, p1) {
            None => None,
            Some((em, p2)) => Some((ServerErrorV { error_type: et, error_message: em }, p2)),
        },
    }
}

pub open spec fn spec_parse_account_list(s: Seq<u8>, pos: int, count: nat) -> Option<
    (Seq<Account>, int),
>
    decreases count,
{
    if count == 0 {
        Some((Seq::empty(), pos))
    } else {
        match spec_parse_account(s, pos) {
            None => None,
            Some((a, p1)) => match spec_parse_account_list(s, p1, (count - 1) as nat) {
                None => None,
                Some((rest, p2)) => Some((seq![a] + rest, p2)),
            },
        }
    }
}

pub open spec fn spec_parse_accounts(s: Seq<u8>, pos: int) -> Option<(Seq<Account>, int)> {
    match spec_parse_u64(s, pos) {
        None => None,
        Some((count, p1)) => if count > s.len() {
            None
        } else {
            spec_parse_account_list(s, p1, count as nat)
        },
    }
}

pub open spec fn spec_parse_tx_list(s: Seq<u8>, pos: int, count: nat) -> Option<
    (Seq<Transaction>, int),
>
    decreases count,
{
    if count == 0 {
        Some((Seq::empty(), pos))
    } else {
        match spec_parse_tx(s, pos) {
            None => None,
            Some((t, p1)) => match spec_parse_tx_list(s, p1, (count - 1) as nat) {
                None => None,
                Some((rest, p2)) => Some((seq![t] + rest, p2)),
            },
        }
    }
}

pub open spec fn spec_parse_txs(s: Seq<u8>, pos: int) -> Option<(Seq<Transaction>, int)> {
    match spec_parse_u64(s, pos) {
        None => None,
        Some((count, p1)) => if count > s.len() {
            None
        } else {
            spec_parse_tx_list(s, p1, count as nat)
        },
    }
}

pub open spec fn spec_parse_server_message(s: Seq<u8>, pos: int) -> Option<(ServerMessageV, int)> {
    if pos < 0 || pos + 2 > s.len() {
        None
    } else {
        let tag = s[pos];
        let rtag = s[pos + 1];
        if tag == TAG_CREATE_NEW_ACCOUNT_RESPONSE {
            if rtag == TAG_RESULT_OK {
                match spec_parse_acr(s, pos + 2) {
                    None => None,
                    Some((x, p)) => Some((ServerMessageV::CreateNewAccountResponse(Ok(x)), p)),
                }
            } else if rtag == TAG_RESULT_ERR {
                match spec_parse_server_error(s, pos + 2) {
                    None => None,
                    Some((e, p)) => Some((ServerMessageV::CreateNewAccountResponse(Err(e)), p)),
                }
            } else {
                None
            }
        } else if tag == TAG_GET_ACCOUNT_RESPONSE {
            if rtag == TAG_RESULT_OK {
                match spec_parse_account(s, pos + 2) {
                    None => None,
                    Some((x, p)) => Some((ServerMessageV::GetAccountResponse(Ok(x)), p)),
                }
            } else if rtag == TAG_RESULT_ERR {
                match spec_parse_server_error(s, pos + 2) {
                    None => None,
                    Some((e, p)) => Some((ServerMessageV::GetAccountResponse(Err(e)), p)),
                }
            } else {
                None
            }
        } else if tag == TAG_GET_ACCOUNTS_RESPONSE {
            if rtag == TAG_RESULT_OK {
                match spec_parse_accounts(s, pos + 2) {
                    None => None,
                    Some((x, p)) => Some((ServerMessageV::GetAccountsResponse(Ok(x)), p)),
                }
            } else if rtag == TAG_RESULT_ERR {
                match spec_parse_server_error(s, pos + 2) {
                    None => None,
                    Some((e, p)) => Some((ServerMessageV::GetAccountsResponse(Err(e)), p)),
                }
            } else {
                None
            }
        } else if tag == TAG_GET_TRANSACTIONS_RESPONSE {
            if rtag == TAG_RESULT_OK {
                match spec_parse_txs(s, pos + 2) {
                    None => None,
                    Some((x, p)) => Some((ServerMessageV::GetTransactionsResponse(Ok(x)), p)),
                }
            } else if rtag == TAG_RESULT_ERR {
                match spec_parse_server_error(s, pos + 2) {
                    None => None,
                    Some((e, p)) => Some((ServerMessageV::GetTransactionsResponse(Err(e)), p)),
                }
            } else {
                None
            }
        } else if tag == TAG_GET_TRANSACTION_RESPONSE {
            if rtag == TAG_RESULT_OK {
                match spec_parse_tx(s, pos + 2) {
                    None => None,
                    Some((x, p)) => Some((ServerMessageV::GetTransactionResponse(Ok(x)), p)),
                }
            } else if rtag == TAG_RESULT_ERR {
                match spec_parse_server_error(s, pos + 2) {
                    None => None,
                    Some((e, p)) => Some((ServerMessageV::GetTransactionResponse(Err(e)), p)),
                }
            } else {
                None
            }
        } else if tag == TAG_CREATE_TRANSACTION_RESPONSE {
            if rtag == TAG_RESULT_OK {
                match spec_parse_receipt(s, pos + 2) {
                    None => None,
                    Some((x, p)) => Some((ServerMessageV::CreateTransactionResponse(Ok(x)), p)),
                }
            } else if rtag == TAG_RESULT_ERR {
                match spec_parse_server_error(s, pos + 2) {
                    None => None,
                    Some((e, p)) => Some((ServerMessageV::CreateTransactionResponse(Err(e)), p)),
                }
            } else {
                None
            }
        } else {
            None
        }
    }
}

/// The decoded response envelope: exactly the canonical encoding of one
/// packet at the current protocol version, with nothing following it.
pub open spec fn spec_dec_server_packet(s: Seq<u8>) -> Option<ServerMessagePacketV> {
    if s.len() < 2 || s[0] != HDR_SERVER_0 || s[1] != HDR_SERVER_1 {
        None
    } else {
        match spec_parse_i64(s, 2) {
            None => None,
            Some((v, p1)) => if v != PROTOCOL_VERSION as i64 {
                None
            } else {
                match spec_parse_u128(s, p1) {
                    None => None,
                    Some((mid, p2)) => match spec_parse_server_message(s, p2) {
                        None => None,
                        Some((m, p3)) => if p3 == s.len() {
                            Some(
                                ServerMessagePacketV {
                                    v: PROTOCOL_VERSION,
                                    message_id: mid,
                                    message: m,
                                },
                            )
                        } else {
                            None
                        },
                    },
                }
            },
        }
    }
}


// Executable response codec //////////////////////////////////////////////

pub proof fn lemma_enc_account_list_concat(l1: Seq<Account>, l2: Seq<Account>)
    ensures
        spec_enc_account_list(l1 + l2) == spec_enc_account_list(l1) + spec_enc_account_list(l2),
    decreases l1.len(),
{
    if l1.len() == 0 {
        assert(l1 + l2 =~= l2);
        assert(spec_enc_account_list(l1) + spec_enc_account_list(l2) =~= spec_enc_account_list(
            l2,
        ));
    } else {
        assert((l1 + l2).drop_first() =~= l1.drop_first() + l2);
        lemma_enc_account_list_concat(l1.drop_first(), l2);
        assert(spec_enc_account_list(l1 + l2) =~= spec_enc_account_list(l1)
            + spec_enc_account_list(l2));
    }
}

pub proof fn lemma_enc_tx_list_concat(l1: Seq<Transaction>, l2: Seq<Transaction>)
    ensures
        spec_enc_tx_list(l1 + l2) == spec_enc_tx_list(l1) + spec_enc_tx_list(l2),
    decreases l1.len(),
{
    if l1.len() == 0 {
        assert(l1 + l2 =~= l2);
        assert(spec_enc_tx_list(l1) + spec_enc_tx_list(l2) =~= spec_enc_tx_list(l2));
    } else {
        assert((l1 + l2).drop_first() =~= l1.drop_first() + l2);
        lemma_enc_tx_list_concat(l1.drop_first(), l2);
        assert(spec_enc_tx_list(l1 + l2) =~= spec_enc_tx_list(l1) + spec_enc_tx_list(l2));
    }
}

fn enc_account(out: &mut Vec<u8>, a: &Account)
    ensures
        final(out)@ == old(out)@ + spec_enc_account(*a),
{
    enc_u128(out, a.account_id);
    enc_i64(out, a.created);
    enc_i64(out, a.funds);
    assert(final(out)@ =~= old(out)@ + spec_enc_account(*a));
}

fn enc_acr(out: &mut Vec<u8>, x: &AccountCreatedResult)
    ensures
        final(out)@ == old(out)@ + spec_enc_acr(*x),
{
    enc_u128(out, x.account_id);
    enc_i64(out, x.timestamp);
    assert(final(out)@ =~= old(out)@ + spec_enc_acr(*x));
}

fn enc_tx(out: &mut Vec<u8>, t: &Transaction)
    ensures
        final(out)@ == old(out)@ + spec_enc_tx(*t),
{
    enc_u128(out, t.transaction_id);
    enc_i64(out, t.timestamp);
    enc_u128(out, t.sender_account_id);
    enc_u128(out, t.receiver_account_id);
    enc_i64(out, t.amount);
    enc_i64(out, t.fee as i64);
    assert(final(out)@ =~= old(out)@ + spec_enc_tx(*t));
}

fn enc_receipt(out: &mut Vec<u8>, x: &TransactionReceipt)
    ensures
        final(out)@ == old(out)@ + spec_enc_receipt(*x),
{
    enc_u128(out, x.transaction_id);
    enc_i64(out, x.timestamp);
    enc_u128(out, x.sender_account_id);
    enc_u128(out, x.receiver_account_id);
    enc_i64(out, x.sender_account_funds);
    enc_i64(out, x.fee as i64);
    assert(final(out)@ =~= old(out)@ + spec_enc_receipt(*x));
}

fn enc_server_error(out: &mut Vec<u8>, e: &ServerError)
    ensures
        final(out)@ == old(out)@ + spec_enc_server_error(e@),
{
    enc_str(out, &e.error_type);
    enc_str(out, &e.error_message);
    assert(final(out)@ =~= old(out)@ + spec_enc_server_error(e@));
}

fn enc_accounts(out: &mut Vec<u8>, l: &Vec<Account>)
    ensures
        final(out)@ == old(out)@ + spec_enc_accounts(l@),
{
    proof {
        lemma_pow16_32_is_u128_bound();
        crate::hex::lemma_pow16_increases(16, 32);
    }
    encode_hex(out, l.len() as u128, 16);
    let ghost mid = out@;
    let n = l.len();
    let mut i: usize = 0;
    while i < n
        invariant
            i <= n,
            n == l@.len(),
            out@ == mid + spec_enc_account_list(l@.take(i as int)),
            mid == old(out)@ + spec_hex(l@.len(), 16),
        decreases n - i,
    {
        proof {
            lemma_enc_account_list_concat(l@.take(i as int), seq![l@[i as int]]);
            assert(l@.take(i as int) + seq![l@[i as int]] =~= l@.take(i as int + 1));
            let single = seq![l@[i as int]];
            assert(single.drop_first() =~= Seq::<Account>::empty());
            assert(spec_enc_account_list(Seq::<Account>::empty()) =~= Seq::<u8>::empty());
            assert(spec_enc_account_list(single) == spec_enc_account(single[0])
                + spec_enc_account_list(single.drop_first()));
            assert(spec_enc_account_list(single) =~= spec_enc_account(l@[i as int]));
        }
        let a = l[i];
        enc_account(out, &a);
        i = i + 1;
    }
    proof {
        assert(l@.take(n as int) =~= l@);
        assert(final(out)@ =~= old(out)@ + spec_enc_accounts(l@));
    }
}

fn enc_txs(out: &mut Vec<u8>, l: &Vec<Transaction>)
    ensures
        final(out)@ == old(out)@ + spec_enc_txs(l@),
{
    proof {
        lemma_pow16_32_is_u128_bound();
        crate::hex::lemma_pow16_increases(16, 32);
    }
    encode_hex(out, l.len() as u128, 16);
    let ghost mid = out@;
    let n = l.len();
    let mut i: usize = 0;
    while i < n
        invariant
            i <= n,
            n == l@.len(),
            out@ == mid + spec_enc_tx_list(l@.take(i as int)),
            mid == old(out)@ + spec_hex(l@.len(), 16),
        decreases n - i,
    {
        proof {
            lemma_enc_tx_list_concat(l@.take(i as int), seq![l@[i as int]]);
            assert(l@.take(i as int) + seq![l@[i as int]] =~= l@.take(i as int + 1));
            let single = seq![l@[i as int]];
            assert(single.drop_first() =~= Seq::<Transaction>::empty());
            assert(spec_enc_tx_list(Seq::<Transaction>::empty()) =~= Seq::<u8>::empty());
            assert(spec_enc_tx_list(single) == spec_enc_tx(single[0]) + spec_enc_tx_list(
                single.drop_first(),
            ));
            assert(spec_enc_tx_list(single) =~= spec_enc_tx(l@[i as int]));
        }
        let t = l[i];
        enc_tx(out, &t);
        i = i + 1;
    }
    proof {
        assert(l@.take(n as int) =~= l@);
        assert(final(out)@ =~= old(out)@ + spec_enc_txs(l@));
    }
}

/// Writes the canonical wire bytes of a response envelope.
pub fn encode_server_packet(p: &ServerMessagePacket) -> (r: Vec<u8>)
    ensures
        r@ == spec_enc_server_packet(p@),
{
    let mut out: Vec<u8> = Vec::new();
    out.push(HDR_SERVER_0);
    out.push(HDR_SERVER_1);
    enc_i64(&mut out, p.v as i64);
    enc_u128(&mut out, p.message_id);
    match &p.message {
        ServerMessage::CreateNewAccountResponse(r) => {
            out.push(TAG_CREATE_NEW_ACCOUNT_RESPONSE);
            match r {
                Ok(x) => {
                    out.push(TAG_RESULT_OK);
                    enc_acr(&mut out, x);
                },
                Err(e) => {
                    out.push(TAG_RESULT_ERR);
                    enc_server_error(&mut out, e);
                },
            }
        },
        ServerMessage::GetAccountResponse(r) => {
            out.push(TAG_GET_ACCOUNT_RESPONSE);
            match r {
                Ok(x) => {
                    out.push(TAG_RESULT_OK);
                    enc_account(&mut out, x);
                },
                Err(e) => {
                    out.push(TAG_RESULT_ERR);
                    enc_server_error(&mut out, e);
                },
            }
        },
        ServerMessage::GetAccountsResponse(r) => {
            out.push(TAG_GET_ACCOUNTS_RESPONSE);
            match r {
                Ok(x) => {
                    out.push(TAG_RESULT_OK);
                    enc_accounts(&mut out, x);
                },
                Err(e) => {
                    out.push(TAG_RESULT_ERR);
                    enc_server_error(&mut out, e);
                },
            }
        },
        ServerMessage::GetTransactionsResponse(r) => {
            out.push(TAG_GET_TRANSACTIONS_RESPONSE);
            match r {
                Ok(x) => {
                    out.push(TAG_RESULT_OK);
                    enc_txs(&mut out, x);
                },
                Err(e) => {
                    out.push(TAG_RESULT_ERR);
                    enc_server_error(&mut out, e);
                },
            }
        },
        ServerMessage::GetTransactionResponse(r) => {
            out.push(TAG_GET_TRANSACTION_RESPONSE);
            match r {
                Ok(x) => {
                    out.push(TAG_RESULT_OK);
                    enc_tx(&mut out, x);
                },
                Err(e) => {
                    out.push(TAG_RESULT_ERR);
                    enc_server_error(&mut out, e);
                },
            }
        },
        ServerMessage::CreateTransactionResponse(r) => {
            out.push(TAG_CREATE_TRANSACTION_RESPONSE);
            match r {
                Ok(x) => {
                    out.push(TAG_RESULT_OK);
                    enc_receipt(&mut out, x);
                },
                Err(e) => {
                    out.push(TAG_RESULT_ERR);
                    enc_server_error(&mut out, e);
                },
            }
        },
    }
    proof {
        assert(out@ =~= spec_enc_server_packet(p@));
    }
    out
}

fn parse_account(s: &Vec<u8>, pos: usize) -> (r: Option<(Account, usize)>)
    ensures
        match spec_parse_account(s@, pos as int) {
            Some(xp) => r matches Some(x) && x.0 == xp.0 && x.1 == xp.1,
            None => r is None,
        },
{
    let (id, p1) = match parse_u128(s, pos) {
        None => {
            return None;
        },
        Some(x) => x,
    };
    let (created, p2) = match parse_i64(s, p1) {
        None => {
            return None;
        },
        Some(x) => x,
    };
    let (funds, p3) = match parse_i64(s, p2) {
        None => {
            return None;
        },
        Some(x) => x,
    };
    Some((Account { account_id: id, created, funds }, p3))
}

fn parse_acr(s: &Vec<u8>, pos: usize) -> (r: Option<(AccountCreatedResult, usize)>)
    ensures
        match spec_parse_acr(s@, pos as int) {
            Some(xp) => r matches Some(x) && x.0 == xp.0 && x.1 == xp.1,
            None => r is None,
        },
{
    let (id, p1) = match parse_u128(s, pos) {
        None => {
            return None;
        },
        Some(x) => x,
    };
    let (ts, p2) = match parse_i64(s, p1) {
        None => {
            return None;
        },
        Some(x) => x,
    };
    Some((AccountCreatedResult { account_id: id, timestamp: ts }, p2))
}

fn parse_tx(s: &Vec<u8>, pos: usize) -> (r: Option<(Transaction, usize)>)
    ensures
        match spec_parse_tx(s@, pos as int) {
            Some(xp) => r matches Some(x) && x.0 == xp.0 && x.1 == xp.1,
            None => r is None,
        },
{
    let (tid, p1) = match parse_u128(s, pos) {
        None => {
            return None;
        },
        Some(x) => x,
    };
    let (ts, p2) = match parse_i64(s, p1) {
        None => {
            return None;
        },
        Some(x) => x,
    };
    let (sid, p3) = match parse_u128(s, p2) {
        None => {
            return None;
        },
        Some(x) => x,
    };
    let (rid, p4) = match parse_u128(s, p3) {
        None => {
            return None;
        },
        Some(x) => x,
    };
    let (amount, p5) = match parse_i64(s, p4) {
        None => {
            return None;
        },
        Some(x) => x,
    };
    let (fee, p6) = match parse_i64(s, p5) {
        None => {
            return None;
        },
        Some(x) => x,
    };
    if fee < i32::MIN as i64 || fee > i32::MAX as i64 {
        return None;
    }
    Some(
        (
            Transaction {
                transaction_id: tid,
                timestamp: ts,
                sender_account_id: sid,
                receiver_account_id: rid,
                amount,
                fee: fee as i32,
            },
            p6,
        ),
    )
}

fn parse_receipt(s: &Vec<u8>, pos: usize) -> (r: Option<(TransactionReceipt, usize)>)
    ensures
        match spec_parse_receipt(s@, pos as int) {
            Some(xp) => r matches Some(x) && x.0 == xp.0 && x.1 == xp.1,
            None => r is None,
        },
{
    let (tid, p1) = match parse_u128(s, pos) {
        None => {
            return None;
        },
        Some(x) => x,
    };
    let (ts, p2) = match parse_i64(s, p1) {
        None => {
            return None;
        },
        Some(x) => x,
    };
    let (sid, p3) = match parse_u128(s, p2) {
        None => {
            return None;
        },
        Some(x) => x,
    };
    let (rid, p4) = match parse_u128(s, p3) {
        None => {
            return None;
        },
        Some(x) => x,
    };
    let (funds, p5) = match parse_i64(s, p4) {
        None => {
            return None;
        },
        Some(x) => x,
    };
    let (fee, p6) = match parse_i64(s, p5) {
        None => {
            return None;
        },
        Some(x) => x,
    };
    if fee < i32::MIN as i64 || fee > i32::MAX as i64 {
        return None;
    }
    Some(
        (
            TransactionReceipt {
                transaction_id: tid,
                timestamp: ts,
                sender_account_id: sid,
                receiver_account_id: rid,
                sender_account_funds: funds,
                fee: fee as i32,
            },
            p6,
        ),
    )
}

fn parse_server_error(s: &Vec<u8>, pos: usize) -> (r: Option<(ServerError, usize)>)
    ensures
        match spec_parse_server_error(s@, pos as int) {
            Some(xp) => r matches Some(ep) && ep.0@ == xp.0 && ep.1 == xp.1,
            None => r is None,
        },
{
    let (et, p1) = match parse_str(s, pos) {
        None => {
            return None;
        },
        Some(x) => x,
    };
    let (em, p2) = match parse_str(s, p1) {
        None => {
            return None;
        },
        Some(x) => x,
    };
    Some((ServerError { error_type: et, error_message: em }, p2))
}

fn parse_accounts(s: &Vec<u8>, pos: usize) -> (r: Option<(Vec<Account>, usize)>)
    ensures
        match spec_parse_accounts(s@, pos as int) {
            Some(xp) => r matches Some(vp) && vp.0@ == xp.0 && vp.1 == xp.1,
            None => r is None,
        },
{
    let (count64, p1) = match parse_u64(s, pos) {
        None => {
            return None;
        },
        Some(x) => x,
    };
    let slen = s.len();
    if count64 > slen as u64 {
        return None;
    }
    let count = count64 as usize;
    let mut acc: Vec<Account> = Vec::new();
    let mut cur: usize = p1;
    let mut i: usize = 0;
    while i < count
        invariant
            i <= count,
            acc@.len() == i,
            count as u64 == count64,
            slen == s@.len(),
            spec_parse_u64(s@, pos as int) == Some((count64, p1 as int)),
            count64 <= slen as u64,
            spec_parse_account_list(s@, p1 as int, count as nat) == (
            match spec_parse_account_list(s@, cur as int, (count - i) as nat) {
                None => None::<(Seq<Account>, int)>,
                Some((rest, p)) => Some((acc@ + rest, p)),
            }),
        decreases count - i,
    {
        let (a, p) = match parse_account(s, cur) {
            None => {
                assert(spec_parse_account_list(s@, cur as int, (count - i) as nat) is None);
                return None;
            },
            Some(x) => x,
        };
        proof {
            let rest0 = spec_parse_account_list(s@, p as int, (count - i - 1) as nat);
            if rest0 is Some {
                assert(acc@ + (seq![a] + rest0->Some_0.0) =~= (acc@ + seq![a]) + rest0->Some_0.0);
            }
        }
        acc.push(a);
        cur = p;
        i = i + 1;
    }
    proof {
        assert(spec_parse_account_list(s@, cur as int, 0) == Some(
            (Seq::<Account>::empty(), cur as int),
        ));
        assert(acc@ + Seq::<Account>::empty() =~= acc@);
    }
    Some((acc, cur))
}

fn parse_txs(s: &Vec<u8>, pos: usize) -> (r: Option<(Vec<Transaction>, usize)>)
    ensures
        match spec_parse_txs(s@, pos as int) {
            Some(xp) => r matches Some(vp) && vp.0@ == xp.0 && vp.1 == xp.1,
            None => r is None,
        },
{
    let (count64, p1) = match parse_u64(s, pos) {
        None => {
            return None;
        },
        Some(x) => x,
    };
    let slen = s.len();
    if count64 > slen as u64 {
        return None;
    }
    let count = count64 as usize;
    let mut acc: Vec<Transaction> = Vec::new();
    let mut cur: usize = p1;
    let mut i: usize = 0;
    while i < count
        invariant
            i <= count,
            acc@.len() == i,
            count as u64 == count64,
            slen == s@.len(),
            spec_parse_u64(s@, pos as int) == Some((count64, p1 as int)),
            count64 <= slen as u64,
            spec_parse_tx_list(s@, p1 as int, count as nat) == (
            match spec_parse_tx_list(s@, cur as int, (count - i) as nat) {
                None => None::<(Seq<Transaction>, int)>,
                Some((rest, p)) => Some((acc@ + rest, p)),
            }),
        decreases count - i,
    {
        let (t, p) = match parse_tx(s, cur) {
            None => {
                assert(spec_parse_tx_list(s@, cur as int, (count - i) as nat) is None);
                return None;
            },
            Some(x) => x,
        };
        proof {
            let rest0 = spec_parse_tx_list(s@, p as int, (count - i - 1) as nat);
            if rest0 is Some {
                assert(acc@ + (seq![t] + rest0->Some_0.0) =~= (acc@ + seq![t]) + rest0->Some_0.0);
            }
        }
        acc.push(t);
        cur = p;
        i = i + 1;
    }
    proof {
        assert(spec_parse_tx_list(s@, cur as int, 0) == Some(
            (Seq::<Transaction>::empty(), cur as int),
        ));
        assert(acc@ + Seq::<Transaction>::empty() =~= acc@);
    }
    Some((acc, cur))
}

fn parse_server_message(s: &Vec<u8>, pos: usize) -> (r: Option<(ServerMessage, usize)>)
    ensures
        match spec_parse_server_message(s@, pos as int) {
            Some(mp) => r matches Some(rp) && rp.0@ == mp.0 && rp.1 == mp.1,
            None => r is None,
        },
{
    if s.len() < 2 || pos > s.len() - 2 {
        return None;
    }
    let tag = s[pos];
    let rtag = s[pos + 1];
    if rtag != TAG_RESULT_OK && rtag != TAG_RESULT_ERR {
        return None;
    }
    if tag == TAG_CREATE_NEW_ACCOUNT_RESPONSE {
        if rtag == TAG_RESULT_OK {
            match parse_acr(s, pos + 2) {
                None => None,
                Some((x, p)) => Some((ServerMessage::CreateNewAccountResponse(Ok(x)), p)),
            }
        } else {
            match parse_server_error(s, pos + 2) {
                None => None,
                Some((e, p)) => Some((ServerMessage::CreateNewAccountResponse(Err(e)), p)),
            }
        }
    } else if tag == TAG_GET_ACCOUNT_RESPONSE {
        if rtag == TAG_RESULT_OK {
            match parse_account(s, pos + 2) {
                None => None,
                Some((x, p)) => Some((ServerMessage::GetAccountResponse(Ok(x)), p)),
            }
        } else {
            match parse_server_error(s, pos + 2) {
                None => None,
                Some((e, p)) => Some((ServerMessage::GetAccountResponse(Err(e)), p)),
            }
        }
    } else if tag == TAG_GET_ACCOUNTS_RESPONSE {
        if rtag == TAG_RESULT_OK {
            match parse_accounts(s, pos + 2) {
                None => None,
                Some((x, p)) => Some((ServerMessage::GetAccountsResponse(Ok(x)), p)),
            }
        } else {
            match parse_server_error(s, pos + 2) {
                None => None,
                Some((e, p)) => Some((ServerMessage::GetAccountsResponse(Err(e)), p)),
            }
        }
    } else if tag == TAG_GET_TRANSACTIONS_RESPONSE {
        if rtag == TAG_RESULT_OK {
            match parse_txs(s, pos + 2) {
                None => None,
                Some((x, p)) => Some((ServerMessage::GetTransactionsResponse(Ok(x)), p)),
            }
        } else {
            match parse_server_error(s, pos + 2) {
                None => None,
                Some((e, p)) => Some((ServerMessage::GetTransactionsResponse(Err(e)), p)),
            }
        }
    } else if tag == TAG_GET_TRANSACTION_RESPONSE {
        if rtag == TAG_RESULT_OK {
            match parse_tx(s, pos + 2) {
                None => None,
                Some((x, p)) => Some((ServerMessage::GetTransactionResponse(Ok(x)), p)),
            }
        } else {
            match parse_server_error(s, pos + 2) {
                None => None,
                Some((e, p)) => Some((ServerMessage::GetTransactionResponse(Err(e)), p)),
            }
        }
    } else if tag == TAG_CREATE_TRANSACTION_RESPONSE {
        if rtag == TAG_RESULT_OK {
            match parse_receipt(s, pos + 2) {
                None => None,
                Some((x, p)) => Some((ServerMessage::CreateTransactionResponse(Ok(x)), p)),
            }
        } else {
            match parse_server_error(s, pos + 2) {
                None => None,
                Some((e, p)) => Some((ServerMessage::CreateTransactionResponse(Err(e)), p)),
            }
        }
    } else {
        None
    }
}

/// Reads a response envelope from its canonical wire bytes; `None` on any
/// malformed buffer or version mismatch.
pub fn decode_server_packet(s: &Vec<u8>) -> (r: Option<ServerMessagePacket>)
    ensures
        match spec_dec_server_packet(s@) {
            Some(pv) => r matches Some(p) && p@ == pv,
            None => r is None,
        },
{
    if s.len() < 2 {
        return None;
    }
    if s[0] != HDR_SERVER_0 || s[1] != HDR_SERVER_1 {
        return None;
    }
    let (v, p1) = match parse_i64(s, 2) {
        None => {
            return None;
        },
        Some(x) => x,
    };
    if v != PROTOCOL_VERSION as i64 {
        return None;
    }
    let (mid, p2) = match parse_u128(s, p1) {
        None => {
            return None;
        },
        Some(x) => x,
    };
    let (m, p3) = match parse_server_message(s, p2) {
        None => {
            return None;
        },
        Some(x) => x,
    };
    if p3 != s.len() {
        return None;
    }
    Some(ServerMessagePacket { v: PROTOCOL_VERSION, message_id: mid, message: m })
}


// Envelopes as wire text /////////////////////////////////////////////////

impl ClientMessagePacket {
    /// The canonical wire text of this envelope. The bytes are plain ASCII,
    /// so the text carries them unchanged.
    pub fn to_json(&self) -> (r: Option<String>)
        ensures
            r matches Some(js) && encode_utf8(js@) == spec_enc_client_packet(*self),
    {
        let bytes = encode_client_packet(self);
        proof {
            lemma_enc_client_packet_ascii(*self);
        }
        utf8_to_string(bytes)
    }

    /// Reads a request envelope from wire text; `None` on malformed input or
    /// a version mismatch.
    pub fn from_json(value: &str) -> (r: Option<ClientMessagePacket>)
        ensures
            r == spec_dec_client_packet(encode_utf8(value@)),
    {
        let bytes = value.as_bytes_vec();
        decode_client_packet(&bytes)
    }
}

impl ServerMessagePacket {
    /// The canonical wire text of this envelope.
    pub fn to_json(&self) -> (r: Option<String>)
        ensures
            r matches Some(js) && encode_utf8(js@) == spec_enc_server_packet(self@),
    {
        let bytes = encode_server_packet(self);
        proof {
            lemma_enc_server_packet_ascii(self@);
        }
        utf8_to_string(bytes)
    }

    /// Reads a response envelope from wire text; `None` on malformed input
    /// or a version mismatch.
    pub fn from_json(value: &str) -> (r: Option<ServerMessagePacket>)
        ensures
            match spec_dec_server_packet(encode_utf8(value@)) {
                Some(pv) => r matches Some(p) && p@ == pv,
                None => r is None,
            },
    {
        let bytes = value.as_bytes_vec();
        decode_server_packet(&bytes)
    }
}


// Round trip of the response envelope ////////////////////////////////////

proof fn lemma_split5(s: Seq<u8>, pos: int, a: Seq<u8>, b: Seq<u8>, c: Seq<u8>, d: Seq<u8>, e: Seq<u8>)
    requires
        0 <= pos,
        pos + a.len() + b.len() + c.len() + d.len() + e.len() <= s.len(),
        s.subrange(pos, pos + a.len() + b.len() + c.len() + d.len() + e.len()) == a + b + c + d
            + e,
    ensures
        s.subrange(pos, pos + a.len()) == a,
        s.subrange(pos + a.len(), pos + a.len() + b.len()) == b,
        s.subrange(pos + a.len() + b.len(), pos + a.len() + b.len() + c.len()) == c,
        s.subrange(
            pos + a.len() + b.len() + c.len(),
            pos + a.len() + b.len() + c.len() + d.len(),
        ) == d,
        s.subrange(
            pos + a.len() + b.len() + c.len() + d.len(),
            pos + a.len() + b.len() + c.len() + d.len() + e.len(),
        ) == e,
{
    lemma_subrange_of_concat(s, pos, a + b + c + d, e);
    lemma_split4(s, pos, a, b, c, d);
}

proof fn lemma_split6(
    s: Seq<u8>,
    pos: int,
    a: Seq<u8>,
    b: Seq<u8>,
    c: Seq<u8>,
    d: Seq<u8>,
    e: Seq<u8>,
    f: Seq<u8>,
)
    requires
        0 <= pos,
        pos + a.len() + b.len() + c.len() + d.len() + e.len() + f.len() <= s.len(),
        s.subrange(pos, pos + a.len() + b.len() + c.len() + d.len() + e.len() + f.len()) == a + b
            + c + d + e + f,
    ensures
        s.subrange(pos, pos + a.len()) == a,
        s.subrange(pos + a.len(), pos + a.len() + b.len()) == b,
        s.subrange(pos + a.len() + b.len(), pos + a.len() + b.len() + c.len()) == c,
        s.subrange(
            pos + a.len() + b.len() + c.len(),
            pos + a.len() + b.len() + c.len() + d.len(),
        ) == d,
        s.subrange(
            pos + a.len() + b.len() + c.len() + d.len(),
            pos + a.len() + b.len() + c.len() + d.len() + e.len(),
        ) == e,
        s.subrange(
            pos + a.len() + b.len() + c.len() + d.len() + e.len(),
            pos + a.len() + b.len() + c.len() + d.len() + e.len() + f.len(),
        ) == f,
{
    lemma_subrange_of_concat(s, pos, a + b + c + d + e, f);
    lemma_split5(s, pos, a, b, c, d, e);
}

pub proof fn lemma_enc_account_len(a: Account)
    ensures
        spec_enc_account(a).len() == 66,
{
    lemma_enc_u128_len(a.account_id);
    lemma_enc_i64_len(a.created);
    lemma_enc_i64_len(a.funds);
}

pub proof fn lemma_enc_acr_len(x: AccountCreatedResult)
    ensures
        spec_enc_acr(x).len() == 49,
{
    lemma_enc_u128_len(x.account_id);
    lemma_enc_i64_len(x.timestamp);
}

pub proof fn lemma_enc_tx_len(t: Transaction)
    ensures
        spec_enc_tx(t).len() == 147,
{
    lemma_enc_u128_len(t.transaction_id);
    lemma_enc_i64_len(t.timestamp);
    lemma_enc_u128_len(t.sender_account_id);
    lemma_enc_u128_len(t.receiver_account_id);
    lemma_enc_i64_len(t.amount);
    lemma_enc_i64_len(t.fee as i64);
}

pub proof fn lemma_enc_receipt_len(x: TransactionReceipt)
    ensures
        spec_enc_receipt(x).len() == 147,
{
    lemma_enc_u128_len(x.transaction_id);
    lemma_enc_i64_len(x.timestamp);
    lemma_enc_u128_len(x.sender_account_id);
    lemma_enc_u128_len(x.receiver_account_id);
    lemma_enc_i64_len(x.sender_account_funds);
    lemma_enc_i64_len(x.fee as i64);
}

pub proof fn lemma_enc_str_len(c: Seq<char>)
    ensures
        spec_enc_str(c).len() == 16 + 2 * encode_utf8(c).len(),
{
    lemma_spec_hex_len(encode_utf8(c).len(), 16);
    lemma_spec_hex_pairs_len(encode_utf8(c));
}

pub proof fn lemma_rt_account(s: Seq<u8>, pos: int, a: Account)
    requires
        0 <= pos,
        pos + 66 <= s.len(),
        s.subrange(pos, pos + 66) == spec_enc_account(a),
    ensures
        spec_parse_account(s, pos) == Some((a, pos + 66)),
{
    lemma_enc_u128_len(a.account_id);
    lemma_enc_i64_len(a.created);
    lemma_enc_i64_len(a.funds);
    lemma_split3(s, pos, spec_enc_u128(a.account_id), spec_enc_i64(a.created), spec_enc_i64(a.funds));
    lemma_rt_u128(s, pos, a.account_id);
    lemma_rt_i64(s, pos + 32, a.created);
    lemma_rt_i64(s, pos + 49, a.funds);
}

pub proof fn lemma_rt_acr(s: Seq<u8>, pos: int, x: AccountCreatedResult)
    requires
        0 <= pos,
        pos + 49 <= s.len(),
        s.subrange(pos, pos + 49) == spec_enc_acr(x),
    ensures
        spec_parse_acr(s, pos) == Some((x, pos + 49)),
{
    lemma_enc_u128_len(x.account_id);
    lemma_enc_i64_len(x.timestamp);
    lemma_subrange_of_concat(s, pos, spec_enc_u128(x.account_id), spec_enc_i64(x.timestamp));
    lemma_rt_u128(s, pos, x.account_id);
    lemma_rt_i64(s, pos + 32, x.timestamp);
}

pub proof fn lemma_rt_tx(s: Seq<u8>, pos: int, t: Transaction)
    requires
        0 <= pos,
        pos + 147 <= s.len(),
        s.subrange(pos, pos + 147) == spec_enc_tx(t),
    ensures
        spec_parse_tx(s, pos) == Some((t, pos + 147)),
{
    lemma_enc_u128_len(t.transaction_id);
    lemma_enc_i64_len(t.timestamp);
    lemma_enc_u128_len(t.sender_account_id);
    lemma_enc_u128_len(t.receiver_account_id);
    lemma_enc_i64_len(t.amount);
    lemma_enc_i64_len(t.fee as i64);
    lemma_split6(
        s,
        pos,
        spec_enc_u128(t.transaction_id),
        spec_enc_i64(t.timestamp),
        spec_enc_u128(t.sender_account_id),
        spec_enc_u128(t.receiver_account_id),
        spec_enc_i64(t.amount),
        spec_enc_i64(t.fee as i64),
    );
    lemma_rt_u128(s, pos, t.transaction_id);
    lemma_rt_i64(s, pos + 32, t.timestamp);
    lemma_rt_u128(s, pos + 49, t.sender_account_id);
    lemma_rt_u128(s, pos + 81, t.receiver_account_id);
    lemma_rt_i64(s, pos + 113, t.amount);
    lemma_rt_i64(s, pos + 130, t.fee as i64);
}

pub proof fn lemma_rt_receipt(s: Seq<u8>, pos: int, x: TransactionReceipt)
    requires
        0 <= pos,
        pos + 147 <= s.len(),
        s.subrange(pos, pos + 147) == spec_enc_receipt(x),
    ensures
        spec_parse_receipt(s, pos) == Some((x, pos + 147)),
{
    lemma_enc_u128_len(x.transaction_id);
    lemma_enc_i64_len(x.timestamp);
    lemma_enc_u128_len(x.sender_account_id);
    lemma_enc_u128_len(x.receiver_account_id);
    lemma_enc_i64_len(x.sender_account_funds);
    lemma_enc_i64_len(x.fee as i64);
    lemma_split6(
        s,
        pos,
        spec_enc_u128(x.transaction_id),
        spec_enc_i64(x.timestamp),
        spec_enc_u128(x.sender_account_id),
        spec_enc_u128(x.receiver_account_id),
        spec_enc_i64(x.sender_account_funds),
        spec_enc_i64(x.fee as i64),
    );
    lemma_rt_u128(s, pos, x.transaction_id);
    lemma_rt_i64(s, pos + 32, x.timestamp);
    lemma_rt_u128(s, pos + 49, x.sender_account_id);
    lemma_rt_u128(s, pos + 81, x.receiver_account_id);
    lemma_rt_i64(s, pos + 113, x.sender_account_funds);
    lemma_rt_i64(s, pos + 130, x.fee as i64);
}

/// Well-formedness of a response view for encoding: string and sequence
/// lengths small enough for their 16-digit length fields (every value built
/// by the executable encoder satisfies this).
pub open spec fn server_error_v_wf(e: ServerErrorV) -> bool {
    encode_utf8(e.error_type).len() < pow16(16) && encode_utf8(e.error_message).len() < pow16(16)
}

pub open spec fn server_message_v_wf(m: ServerMessageV) -> bool {
    match m {
        ServerMessageV::CreateNewAccountResponse(r) => match r {
            Ok(_) => true,
            Err(e) => server_error_v_wf(e),
        },
        ServerMessageV::GetAccountResponse(r) => match r {
            Ok(_) => true,
            Err(e) => server_error_v_wf(e),
        },
        ServerMessageV::GetAccountsResponse(r) => match r {
            Ok(l) => l.len() < pow16(16),
            Err(e) => server_error_v_wf(e),
        },
        ServerMessageV::GetTransactionsResponse(r) => match r {
            Ok(l) => l.len() < pow16(16),
            Err(e) => server_error_v_wf(e),
        },
        ServerMessageV::GetTransactionResponse(r) => match r {
            Ok(_) => true,
            Err(e) => server_error_v_wf(e),
        },
        ServerMessageV::CreateTransactionResponse(r) => match r {
            Ok(_) => true,
            Err(e) => server_error_v_wf(e),
        },
    }
}

pub proof fn lemma_rt_server_error(s: Seq<u8>, pos: int, e: ServerErrorV)
    requires
        0 <= pos,
        server_error_v_wf(e),
        pos + spec_enc_server_error(e).len() <= s.len(),
        s.subrange(pos, pos + spec_enc_server_error(e).len() as int) == spec_enc_server_error(e),
    ensures
        spec_parse_server_error(s, pos) == Some((e, pos + spec_enc_server_error(e).len())),
{
    lemma_enc_str_len(e.error_type);
    lemma_enc_str_len(e.error_message);
    lemma_subrange_of_concat(s, pos, spec_enc_str(e.error_type), spec_enc_str(e.error_message));
    lemma_rt_str(s, pos, e.error_type);
    lemma_rt_str(s, pos + spec_enc_str(e.error_type).len(), e.error_message);
}

pub proof fn lemma_enc_account_list_len(l: Seq<Account>)
    ensures
        spec_enc_account_list(l).len() == 66 * l.len(),
    decreases l.len(),
{
    if l.len() > 0 {
        lemma_enc_account_len(l[0]);
        lemma_enc_account_list_len(l.drop_first());
    }
}

pub proof fn lemma_enc_tx_list_len(l: Seq<Transaction>)
    ensures
        spec_enc_tx_list(l).len() == 147 * l.len(),
    decreases l.len(),
{
    if l.len() > 0 {
        lemma_enc_tx_len(l[0]);
        lemma_enc_tx_list_len(l.drop_first());
    }
}

proof fn lemma_rt_account_list(s: Seq<u8>, pos: int, l: Seq<Account>)
    requires
        0 <= pos,
        pos + 66 * l.len() <= s.len(),
        s.subrange(pos, pos + 66 * l.len()) == spec_enc_account_list(l),
    ensures
        spec_parse_account_list(s, pos, l.len()) == Some((l, pos + 66 * l.len())),
    decreases l.len(),
{
    if l.len() == 0 {
        assert(l =~= Seq::<Account>::empty());
    } else {
        lemma_enc_account_len(l[0]);
        lemma_enc_account_list_len(l.drop_first());
        lemma_subrange_of_concat(
            s,
            pos,
            spec_enc_account(l[0]),
            spec_enc_account_list(l.drop_first()),
        );
        lemma_rt_account(s, pos, l[0]);
        lemma_rt_account_list(s, pos + 66, l.drop_first());
        assert(seq![l[0]] + l.drop_first() =~= l);
    }
}

proof fn lemma_rt_tx_list(s: Seq<u8>, pos: int, l: Seq<Transaction>)
    requires
        0 <= pos,
        pos + 147 * l.len() <= s.len(),
        s.subrange(pos, pos + 147 * l.len()) == spec_enc_tx_list(l),
    ensures
        spec_parse_tx_list(s, pos, l.len()) == Some((l, pos + 147 * l.len())),
    decreases l.len(),
{
    if l.len() == 0 {
        assert(l =~= Seq::<Transaction>::empty());
    } else {
        lemma_enc_tx_len(l[0]);
        lemma_enc_tx_list_len(l.drop_first());
        lemma_subrange_of_concat(s, pos, spec_enc_tx(l[0]), spec_enc_tx_list(l.drop_first()));
        lemma_rt_tx(s, pos, l[0]);
        lemma_rt_tx_list(s, pos + 147, l.drop_first());
        assert(seq![l[0]] + l.drop_first() =~= l);
    }
}

pub proof fn lemma_rt_accounts(s: Seq<u8>, pos: int, l: Seq<Account>)
    requires
        0 <= pos,
        l.len() < pow16(16),
        pos + spec_enc_accounts(l).len() <= s.len(),
        s.subrange(pos, pos + spec_enc_accounts(l).len() as int) == spec_enc_accounts(l),
    ensures
        spec_parse_accounts(s, pos) == Some((l, pos + spec_enc_accounts(l).len())),
{
    lemma_pow16_32_is_u128_bound();
    lemma_spec_hex_len(l.len(), 16);
    lemma_enc_account_list_len(l);
    lemma_subrange_of_concat(s, pos, spec_hex(l.len(), 16), spec_enc_account_list(l));
    let count: u64 = l.len() as u64;
    assert(spec_hex(count as nat, 16) == spec_hex(l.len(), 16));
    lemma_parse_hex_roundtrip(s, pos, count as nat, 16);
    assert(spec_parse_u64(s, pos) == Some((count, pos + 16)));
    lemma_rt_account_list(s, pos + 16, l);
}

pub proof fn lemma_rt_txs(s: Seq<u8>, pos: int, l: Seq<Transaction>)
    requires
        0 <= pos,
        l.len() < pow16(16),
        pos + spec_enc_txs(l).len() <= s.len(),
        s.subrange(pos, pos + spec_enc_txs(l).len() as int) == spec_enc_txs(l),
    ensures
        spec_parse_txs(s, pos) == Some((l, pos + spec_enc_txs(l).len())),
{
    lemma_pow16_32_is_u128_bound();
    lemma_spec_hex_len(l.len(), 16);
    lemma_enc_tx_list_len(l);
    lemma_subrange_of_concat(s, pos, spec_hex(l.len(), 16), spec_enc_tx_list(l));
    let count: u64 = l.len() as u64;
    assert(spec_hex(count as nat, 16) == spec_hex(l.len(), 16));
    lemma_parse_hex_roundtrip(s, pos, count as nat, 16);
    assert(spec_parse_u64(s, pos) == Some((count, pos + 16)));
    lemma_rt_tx_list(s, pos + 16, l);
}

proof fn lemma_msg_arm(s: Seq<u8>, pos: int, tag: u8, rtag: u8, payload: Seq<u8>)
    requires
        0 <= pos,
        pos + 2 + payload.len() <= s.len(),
        s.subrange(pos, pos + 2 + payload.len()) == seq![tag] + (seq![rtag] + payload),
    ensures
        s[pos] == tag,
        s[pos + 1] == rtag,
        s.subrange(pos + 2, pos + 2 + payload.len()) == payload,
{
    assert(seq![tag] + (seq![rtag] + payload) =~= seq![tag] + seq![rtag] + payload);
    lemma_split3(s, pos, seq![tag], seq![rtag], payload);
    assert(s.subrange(pos, pos + 1)[0] == tag);
    assert(s.subrange(pos + 1, pos + 2)[0] == rtag);
}

#[verifier::rlimit(100)]
#[verifier::spinoff_prover]
pub proof fn lemma_rt_server_message(s: Seq<u8>, pos: int, m: ServerMessageV)
    requires
        0 <= pos,
        server_message_v_wf(m),
        pos + spec_enc_server_message(m).len() <= s.len(),
        s.subrange(pos, pos + spec_enc_server_message(m).len() as int) == spec_enc_server_message(
            m,
        ),
    ensures
        spec_parse_server_message(s, pos) == Some(
            (m, pos + spec_enc_server_message(m).len() as int),
        ),
{
    let enc = spec_enc_server_message(m);
    assert(s[pos] == enc[0]) by {
        assert(s.subrange(pos, pos + enc.len() as int)[0] == enc[0]);
    }
    assert(s[pos + 1] == enc[1]) by {
        assert(s.subrange(pos, pos + enc.len() as int)[1] == enc[1]);
    }
    match m {
        ServerMessageV::CreateNewAccountResponse(r) => match r {
            Ok(x) => {
                lemma_enc_acr_len(x);
                lemma_msg_arm(s, pos, TAG_CREATE_NEW_ACCOUNT_RESPONSE, TAG_RESULT_OK, spec_enc_acr(x));
                lemma_rt_acr(s, pos + 2, x);
            },
            Err(e) => {
                lemma_msg_arm(s, pos, TAG_CREATE_NEW_ACCOUNT_RESPONSE, TAG_RESULT_ERR, spec_enc_server_error(e));
                lemma_rt_server_error(s, pos + 2, e);
            },
        },
        ServerMessageV::GetAccountResponse(r) => match r {
            Ok(x) => {
                lemma_enc_account_len(x);
                lemma_msg_arm(s, pos, TAG_GET_ACCOUNT_RESPONSE, TAG_RESULT_OK, spec_enc_account(x));
                lemma_rt_account(s, pos + 2, x);
            },
            Err(e) => {
                lemma_msg_arm(s, pos, TAG_GET_ACCOUNT_RESPONSE, TAG_RESULT_ERR, spec_enc_server_error(e));
                lemma_rt_server_error(s, pos + 2, e);
            },
        },
        ServerMessageV::GetAccountsResponse(r) => match r {
            Ok(x) => {
                lemma_msg_arm(s, pos, TAG_GET_ACCOUNTS_RESPONSE, TAG_RESULT_OK, spec_enc_accounts(x));
                lemma_rt_accounts(s, pos + 2, x);
            },
            Err(e) => {
                lemma_msg_arm(s, pos, TAG_GET_ACCOUNTS_RESPONSE, TAG_RESULT_ERR, spec_enc_server_error(e));
                lemma_rt_server_error(s, pos + 2, e);
            },
        },
        ServerMessageV::GetTransactionsResponse(r) => match r {
            Ok(x) => {
                lemma_msg_arm(s, pos, TAG_GET_TRANSACTIONS_RESPONSE, TAG_RESULT_OK, spec_enc_txs(x));
                lemma_rt_txs(s, pos + 2, x);
            },
            Err(e) => {
                lemma_msg_arm(s, pos, TAG_GET_TRANSACTIONS_RESPONSE, TAG_RESULT_ERR, spec_enc_server_error(e));
                lemma_rt_server_error(s, pos + 2, e);
            },
        },
        ServerMessageV::GetTransactionResponse(r) => match r {
            Ok(x) => {
                lemma_enc_tx_len(x);
                lemma_msg_arm(s, pos, TAG_GET_TRANSACTION_RESPONSE, TAG_RESULT_OK, spec_enc_tx(x));
                lemma_rt_tx(s, pos + 2, x);
            },
            Err(e) => {
                lemma_msg_arm(s, pos, TAG_GET_TRANSACTION_RESPONSE, TAG_RESULT_ERR, spec_enc_server_error(e));
                lemma_rt_server_error(s, pos + 2, e);
            },
        },
        ServerMessageV::CreateTransactionResponse(r) => match r {
            Ok(x) => {
                lemma_enc_receipt_len(x);
                lemma_msg_arm(s, pos, TAG_CREATE_TRANSACTION_RESPONSE, TAG_RESULT_OK, spec_enc_receipt(x));
                lemma_rt_receipt(s, pos + 2, x);
            },
            Err(e) => {
                lemma_msg_arm(s, pos, TAG_CREATE_TRANSACTION_RESPONSE, TAG_RESULT_ERR, spec_enc_server_error(e));
                lemma_rt_server_error(s, pos + 2, e);
            },
        },
    }
}

/// Decoding inverts encoding for response envelopes too: the canonical bytes
/// of any well-formed response envelope at the current protocol version
/// decode to exactly that envelope.
pub proof fn lemma_server_packet_roundtrip(p: ServerMessagePacketV)
    requires
        p.v == PROTOCOL_VERSION,
        server_message_v_wf(p.message),
    ensures
        spec_dec_server_packet(spec_enc_server_packet(p)) == Some(p),
{
    let s = spec_enc_server_packet(p);
    let hdr = seq![HDR_SERVER_0, HDR_SERVER_1];
    let venc = spec_enc_i64(p.v as i64);
    let menc = spec_enc_u128(p.message_id);
    let payload = spec_enc_server_message(p.message);
    lemma_enc_i64_len(p.v as i64);
    lemma_enc_u128_len(p.message_id);
    assert(s == hdr + venc + menc + payload);
    assert(s.subrange(0, s.len() as int) =~= s);
    lemma_split4(s, 0, hdr, venc, menc, payload);
    assert(s[0] == HDR_SERVER_0 && s[1] == HDR_SERVER_1) by {
        assert(s.subrange(0, 2)[0] == hdr[0]);
        assert(s.subrange(0, 2)[1] == hdr[1]);
    }
    lemma_rt_i64(s, 2, p.v as i64);
    lemma_rt_u128(s, 19, p.message_id);
    lemma_rt_server_message(s, 51, p.message);
}


// The wire text is plain ASCII ///////////////////////////////////////////

/// Every byte is a one-byte UTF-8 sequence.
pub open spec fn all_ascii(b: Seq<u8>) -> bool {
    forall|i: int| 0 <= i < b.len() ==> #[trigger] b[i] < 0x80
}

/// A sequence of ASCII bytes is valid UTF-8.
pub proof fn lemma_ascii_bytes_valid_utf8(b: Seq<u8>)
    requires
        all_ascii(b),
    ensures
        valid_utf8(b),
{
    assert(b.subrange(0, 0) =~= Seq::<u8>::empty());
    assert(valid_utf8(b.subrange(0, 0)));
    vstd::utf8::partial_valid_utf8_extend_ascii_block(b, 0, b.len() as int);
    assert(b.subrange(0, b.len() as int) =~= b);
}

pub proof fn lemma_all_ascii_concat(a: Seq<u8>, b: Seq<u8>)
    requires
        all_ascii(a),
        all_ascii(b),
    ensures
        all_ascii(a + b),
{
    assert forall|i: int| 0 <= i < (a + b).len() implies #[trigger] (a + b)[i] < 0x80 by {
        if i < a.len() {
            assert((a + b)[i] == a[i]);
        } else {
            assert((a + b)[i] == b[i - a.len()]);
        }
    }
}

pub proof fn lemma_spec_hex_ascii(v: nat, n: nat)
    ensures
        all_ascii(spec_hex(v, n)),
    decreases n,
{
    if n > 0 {
        lemma_spec_hex_ascii(v / 16, (n - 1) as nat);
    }
}

pub proof fn lemma_spec_hex_upper_ascii(v: nat, n: nat)
    ensures
        all_ascii(crate::hex::spec_hex_upper(v, n)),
    decreases n,
{
    if n > 0 {
        lemma_spec_hex_upper_ascii(v / 16, (n - 1) as nat);
    }
}

proof fn lemma_enc_i64_ascii(v: i64)
    ensures
        all_ascii(spec_enc_i64(v)),
{
    lemma_spec_hex_ascii(i64_magnitude(v), 16);
    lemma_all_ascii_concat(seq![SIGN_PLUS], spec_hex(i64_magnitude(v), 16));
    lemma_all_ascii_concat(seq![SIGN_MINUS], spec_hex(i64_magnitude(v), 16));
}

proof fn lemma_spec_hex_pairs_ascii(b: Seq<u8>)
    ensures
        all_ascii(spec_hex_pairs(b)),
    decreases b.len(),
{
    if b.len() > 0 {
        lemma_spec_hex_ascii(b[0] as nat, 2);
        lemma_spec_hex_pairs_ascii(b.drop_first());
        lemma_all_ascii_concat(spec_hex(b[0] as nat, 2), spec_hex_pairs(b.drop_first()));
    }
}

proof fn lemma_enc_str_ascii(c: Seq<char>)
    ensures
        all_ascii(spec_enc_str(c)),
{
    lemma_spec_hex_ascii(encode_utf8(c).len(), 16);
    lemma_spec_hex_pairs_ascii(encode_utf8(c));
    lemma_all_ascii_concat(spec_hex(encode_utf8(c).len(), 16), spec_hex_pairs(encode_utf8(c)));
}

proof fn lemma_enc_client_message_ascii(m: ClientMessage)
    ensures
        all_ascii(spec_enc_client_message(m)),
{
    match m {
        ClientMessage::CreateNewAccount => {},
        ClientMessage::GetAccount { account_id } => {
            lemma_spec_hex_ascii(account_id as nat, 32);
            lemma_all_ascii_concat(seq![TAG_GET_ACCOUNT], spec_enc_u128(account_id));
        },
        ClientMessage::GetAccounts => {},
        ClientMessage::GetTransactions { account_id, time_range_start, time_range_end } => {
            lemma_spec_hex_ascii(account_id as nat, 32);
            lemma_enc_i64_ascii(time_range_start);
            lemma_enc_i64_ascii(time_range_end);
            lemma_all_ascii_concat(seq![TAG_GET_TRANSACTIONS], spec_enc_u128(account_id));
            lemma_all_ascii_concat(
                seq![TAG_GET_TRANSACTIONS] + spec_enc_u128(account_id),
                spec_enc_i64(time_range_start),
            );
            lemma_all_ascii_concat(
                seq![TAG_GET_TRANSACTIONS] + spec_enc_u128(account_id) + spec_enc_i64(
                    time_range_start,
                ),
                spec_enc_i64(time_range_end),
            );
        },
        ClientMessage::GetTransaction { account_id, transaction_id } => {
            lemma_spec_hex_ascii(account_id as nat, 32);
            lemma_spec_hex_ascii(transaction_id as nat, 32);
            lemma_all_ascii_concat(seq![TAG_GET_TRANSACTION], spec_enc_u128(account_id));
            lemma_all_ascii_concat(
                seq![TAG_GET_TRANSACTION] + spec_enc_u128(account_id),
                spec_enc_u128(transaction_id),
            );
        },
        ClientMessage::CreateTransaction { sender_id, receiver_id, amount } => {
            lemma_spec_hex_ascii(sender_id as nat, 32);
            lemma_spec_hex_ascii(receiver_id as nat, 32);
            lemma_enc_i64_ascii(amount);
            lemma_all_ascii_concat(seq![TAG_CREATE_TRANSACTION], spec_enc_u128(sender_id));
            lemma_all_ascii_concat(
                seq![TAG_CREATE_TRANSACTION] + spec_enc_u128(sender_id),
                spec_enc_u128(receiver_id),
            );
            lemma_all_ascii_concat(
                seq![TAG_CREATE_TRANSACTION] + spec_enc_u128(sender_id) + spec_enc_u128(
                    receiver_id,
                ),
                spec_enc_i64(amount),
            );
        },
    }
}

/// The canonical wire bytes of a request envelope are plain ASCII (and so
/// valid UTF-8: encoding to text cannot fail).
pub proof fn lemma_enc_client_packet_ascii(p: ClientMessagePacket)
    ensures
        all_ascii(spec_enc_client_packet(p)),
        valid_utf8(spec_enc_client_packet(p)),
{
    lemma_enc_i64_ascii(p.v as i64);
    lemma_spec_hex_ascii(p.message_id as nat, 32);
    lemma_enc_client_message_ascii(p.message);
    lemma_all_ascii_concat(seq![HDR_CLIENT_0, HDR_CLIENT_1], spec_enc_i64(p.v as i64));
    lemma_all_ascii_concat(
        seq![HDR_CLIENT_0, HDR_CLIENT_1] + spec_enc_i64(p.v as i64),
        spec_enc_u128(p.message_id),
    );
    lemma_all_ascii_concat(
        seq![HDR_CLIENT_0, HDR_CLIENT_1] + spec_enc_i64(p.v as i64) + spec_enc_u128(p.message_id),
        spec_enc_client_message(p.message),
    );
    lemma_ascii_bytes_valid_utf8(spec_enc_client_packet(p));
}

proof fn lemma_enc_account_ascii(a: Account)
    ensures
        all_ascii(spec_enc_account(a)),
{
    lemma_spec_hex_ascii(a.account_id as nat, 32);
    lemma_enc_i64_ascii(a.created);
    lemma_enc_i64_ascii(a.funds);
    lemma_all_ascii_concat(spec_enc_u128(a.account_id), spec_enc_i64(a.created));
    lemma_all_ascii_concat(
        spec_enc_u128(a.account_id) + spec_enc_i64(a.created),
        spec_enc_i64(a.funds),
    );
}

proof fn lemma_enc_tx_ascii(t: Transaction)
    ensures
        all_ascii(spec_enc_tx(t)),
{
    lemma_spec_hex_ascii(t.transaction_id as nat, 32);
    lemma_enc_i64_ascii(t.timestamp);
    lemma_spec_hex_ascii(t.sender_account_id as nat, 32);
    lemma_spec_hex_ascii(t.receiver_account_id as nat, 32);
    lemma_enc_i64_ascii(t.amount);
    lemma_enc_i64_ascii(t.fee as i64);
    lemma_all_ascii_concat(spec_enc_u128(t.transaction_id), spec_enc_i64(t.timestamp));
    lemma_all_ascii_concat(
        spec_enc_u128(t.transaction_id) + spec_enc_i64(t.timestamp),
        spec_enc_u128(t.sender_account_id),
    );
    lemma_all_ascii_concat(
        spec_enc_u128(t.transaction_id) + spec_enc_i64(t.timestamp) + spec_enc_u128(
            t.sender_account_id,
        ),
        spec_enc_u128(t.receiver_account_id),
    );
    lemma_all_ascii_concat(
        spec_enc_u128(t.transaction_id) + spec_enc_i64(t.timestamp) + spec_enc_u128(
            t.sender_account_id,
        ) + spec_enc_u128(t.receiver_account_id),
        spec_enc_i64(t.amount),
    );
    lemma_all_ascii_concat(
        spec_enc_u128(t.transaction_id) + spec_enc_i64(t.timestamp) + spec_enc_u128(
            t.sender_account_id,
        ) + spec_enc_u128(t.receiver_account_id) + spec_enc_i64(t.amount),
        spec_enc_i64(t.fee as i64),
    );
}

proof fn lemma_enc_receipt_ascii(x: TransactionReceipt)
    ensures
        all_ascii(spec_enc_receipt(x)),
{
    lemma_spec_hex_ascii(x.transaction_id as nat, 32);
    lemma_enc_i64_ascii(x.timestamp);
    lemma_spec_hex_ascii(x.sender_account_id as nat, 32);
    lemma_spec_hex_ascii(x.receiver_account_id as nat, 32);
    lemma_enc_i64_ascii(x.sender_account_funds);
    lemma_enc_i64_ascii(x.fee as i64);
    lemma_all_ascii_concat(spec_enc_u128(x.transaction_id), spec_enc_i64(x.timestamp));
    lemma_all_ascii_concat(
        spec_enc_u128(x.transaction_id) + spec_enc_i64(x.timestamp),
        spec_enc_u128(x.sender_account_id),
    );
    lemma_all_ascii_concat(
        spec_enc_u128(x.transaction_id) + spec_enc_i64(x.timestamp) + spec_enc_u128(
            x.sender_account_id,
        ),
        spec_enc_u128(x.receiver_account_id),
    );
    lemma_all_ascii_concat(
        spec_enc_u128(x.transaction_id) + spec_enc_i64(x.timestamp) + spec_enc_u128(
            x.sender_account_id,
        ) + spec_enc_u128(x.receiver_account_id),
        spec_enc_i64(x.sender_account_funds),
    );
    lemma_all_ascii_concat(
        spec_enc_u128(x.transaction_id) + spec_enc_i64(x.timestamp) + spec_enc_u128(
            x.sender_account_id,
        ) + spec_enc_u128(x.receiver_account_id) + spec_enc_i64(x.sender_account_funds),
        spec_enc_i64(x.fee as i64),
    );
}

proof fn lemma_enc_acr_ascii(x: AccountCreatedResult)
    ensures
        all_ascii(spec_enc_acr(x)),
{
    lemma_spec_hex_ascii(x.account_id as nat, 32);
    lemma_enc_i64_ascii(x.timestamp);
    lemma_all_ascii_concat(spec_enc_u128(x.account_id), spec_enc_i64(x.timestamp));
}

proof fn lemma_enc_server_error_ascii(e: ServerErrorV)
    ensures
        all_ascii(spec_enc_server_error(e)),
{
    lemma_enc_str_ascii(e.error_type);
    lemma_enc_str_ascii(e.error_message);
    lemma_all_ascii_concat(spec_enc_str(e.error_type), spec_enc_str(e.error_message));
}

proof fn lemma_enc_account_list_ascii(l: Seq<Account>)
    ensures
        all_ascii(spec_enc_account_list(l)),
    decreases l.len(),
{
    if l.len() > 0 {
        lemma_enc_account_ascii(l[0]);
        lemma_enc_account_list_ascii(l.drop_first());
        lemma_all_ascii_concat(spec_enc_account(l[0]), spec_enc_account_list(l.drop_first()));
    }
}

proof fn lemma_enc_tx_list_ascii(l: Seq<Transaction>)
    ensures
        all_ascii(spec_enc_tx_list(l)),
    decreases l.len(),
{
    if l.len() > 0 {
        lemma_enc_tx_ascii(l[0]);
        lemma_enc_tx_list_ascii(l.drop_first());
        lemma_all_ascii_concat(spec_enc_tx(l[0]), spec_enc_tx_list(l.drop_first()));
    }
}

proof fn lemma_enc_accounts_ascii(l: Seq<Account>)
    ensures
        all_ascii(spec_enc_accounts(l)),
{
    lemma_spec_hex_ascii(l.len(), 16);
    lemma_enc_account_list_ascii(l);
    lemma_all_ascii_concat(spec_hex(l.len(), 16), spec_enc_account_list(l));
}

proof fn lemma_enc_txs_ascii(l: Seq<Transaction>)
    ensures
        all_ascii(spec_enc_txs(l)),
{
    lemma_spec_hex_ascii(l.len(), 16);
    lemma_enc_tx_list_ascii(l);
    lemma_all_ascii_concat(spec_hex(l.len(), 16), spec_enc_tx_list(l));
}

proof fn lemma_enc_server_message_ascii(m: ServerMessageV)
    ensures
        all_ascii(spec_enc_server_message(m)),
{
    match m {
        ServerMessageV::CreateNewAccountResponse(r) => match r {
            Ok(x) => {
                lemma_enc_acr_ascii(x);
                lemma_all_ascii_concat(seq![TAG_RESULT_OK], spec_enc_acr(x));
                lemma_all_ascii_concat(
                    seq![TAG_CREATE_NEW_ACCOUNT_RESPONSE],
                    seq![TAG_RESULT_OK] + spec_enc_acr(x),
                );
            },
            Err(e) => {
                lemma_enc_server_error_ascii(e);
                lemma_all_ascii_concat(seq![TAG_RESULT_ERR], spec_enc_server_error(e));
                lemma_all_ascii_concat(
                    seq![TAG_CREATE_NEW_ACCOUNT_RESPONSE],
                    seq![TAG_RESULT_ERR] + spec_enc_server_error(e),
                );
            },
        },
        ServerMessageV::GetAccountResponse(r) => match r {
            Ok(x) => {
                lemma_enc_account_ascii(x);
                lemma_all_ascii_concat(seq![TAG_RESULT_OK], spec_enc_account(x));
                lemma_all_ascii_concat(
                    seq![TAG_GET_ACCOUNT_RESPONSE],
                    seq![TAG_RESULT_OK] + spec_enc_account(x),
                );
            },
            Err(e) => {
                lemma_enc_server_error_ascii(e);
                lemma_all_ascii_concat(seq![TAG_RESULT_ERR], spec_enc_server_error(e));
                lemma_all_ascii_concat(
                    seq![TAG_GET_ACCOUNT_RESPONSE],
                    seq![TAG_RESULT_ERR] + spec_enc_server_error(e),
                );
            },
        },
        ServerMessageV::GetAccountsResponse(r) => match r {
            Ok(x) => {
                lemma_enc_accounts_ascii(x);
                lemma_all_ascii_concat(seq![TAG_RESULT_OK], spec_enc_accounts(x));
                lemma_all_ascii_concat(
                    seq![TAG_GET_ACCOUNTS_RESPONSE],
                    seq![TAG_RESULT_OK] + spec_enc_accounts(x),
                );
            },
            Err(e) => {
                lemma_enc_server_error_ascii(e);
                lemma_all_ascii_concat(seq![TAG_RESULT_ERR], spec_enc_server_error(e));
                lemma_all_ascii_concat(
                    seq![TAG_GET_ACCOUNTS_RESPONSE],
                    seq![TAG_RESULT_ERR] + spec_enc_server_error(e),
                );
            },
        },
        ServerMessageV::GetTransactionsResponse(r) => match r {
            Ok(x) => {
                lemma_enc_txs_ascii(x);
                lemma_all_ascii_concat(seq![TAG_RESULT_OK], spec_enc_txs(x));
                lemma_all_ascii_concat(
                    seq![TAG_GET_TRANSACTIONS_RESPONSE],
                    seq![TAG_RESULT_OK] + spec_enc_txs(x),
                );
            },
            Err(e) => {
                lemma_enc_server_error_ascii(e);
                lemma_all_ascii_concat(seq![TAG_RESULT_ERR], spec_enc_server_error(e));
                lemma_all_ascii_concat(
                    seq![TAG_GET_TRANSACTIONS_RESPONSE],
                    seq![TAG_RESULT_ERR] + spec_enc_server_error(e),
                );
            },
        },
        ServerMessageV::GetTransactionResponse(r) => match r {
            Ok(x) => {
                lemma_enc_tx_ascii(x);
                lemma_all_ascii_concat(seq![TAG_RESULT_OK], spec_enc_tx(x));
                lemma_all_ascii_concat(
                    seq![TAG_GET_TRANSACTION_RESPONSE],
                    seq![TAG_RESULT_OK] + spec_enc_tx(x),
                );
            },
            Err(e) => {
                lemma_enc_server_error_ascii(e);
                lemma_all_ascii_concat(seq![TAG_RESULT_ERR], spec_enc_server_error(e));
                lemma_all_ascii_concat(
                    seq![TAG_GET_TRANSACTION_RESPONSE],
                    seq![TAG_RESULT_ERR] + spec_enc_server_error(e),
                );
            },
        },
        ServerMessageV::CreateTransactionResponse(r) => match r {
            Ok(x) => {
                lemma_enc_receipt_ascii(x);
                lemma_all_ascii_concat(seq![TAG_RESULT_OK], spec_enc_receipt(x));
                lemma_all_ascii_concat(
                    seq![TAG_CREATE_TRANSACTION_RESPONSE],
                    seq![TAG_RESULT_OK] + spec_enc_receipt(x),
                );
            },
            Err(e) => {
                lemma_enc_server_error_ascii(e);
                lemma_all_ascii_concat(seq![TAG_RESULT_ERR], spec_enc_server_error(e));
                lemma_all_ascii_concat(
                    seq![TAG_CREATE_TRANSACTION_RESPONSE],
                    seq![TAG_RESULT_ERR] + spec_enc_server_error(e),
                );
            },
        },
    }
}

/// The canonical wire bytes of a response envelope are plain ASCII (and so
/// valid UTF-8: encoding to text cannot fail).
pub proof fn lemma_enc_server_packet_ascii(p: ServerMessagePacketV)
    ensures
        all_ascii(spec_enc_server_packet(p)),
        valid_utf8(spec_enc_server_packet(p)),
{
    lemma_enc_i64_ascii(p.v as i64);
    lemma_spec_hex_ascii(p.message_id as nat, 32);
    lemma_enc_server_message_ascii(p.message);
    lemma_all_ascii_concat(seq![HDR_SERVER_0, HDR_SERVER_1], spec_enc_i64(p.v as i64));
    lemma_all_ascii_concat(
        seq![HDR_SERVER_0, HDR_SERVER_1] + spec_enc_i64(p.v as i64),
        spec_enc_u128(p.message_id),
    );
    lemma_all_ascii_concat(
        seq![HDR_SERVER_0, HDR_SERVER_1] + spec_enc_i64(p.v as i64) + spec_enc_u128(p.message_id),
        spec_enc_server_message(p.message),
    );
    lemma_ascii_bytes_valid_utf8(spec_enc_server_packet(p));
}

} // verus!
