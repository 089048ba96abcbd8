//! Bearer tokens: 128 random bytes, carried over the wire as 256 hex digits.
//! Only the token value and its hex form live here; issuing tokens and
//! holding their hashes is the gateway's affair, outside this core.

use vstd::prelude::*;
use vstd::string::StrSliceExecFns;
use vstd::string::StringSliceAdditionalSpecFns;
use vstd::utf8::encode_utf8;

use crate::hex::{
    encode_hex_upper, is_hex_digit, lemma_pow16_32_is_u128_bound, nibble_value, nibble_value_exec,
    pow16, spec_hex_upper,
};
use crate::message::utf8_to_string;
use crate::wire::{all_ascii, lemma_all_ascii_concat, lemma_ascii_bytes_valid_utf8, lemma_spec_hex_upper_ascii};

verus! {

#[verifier::external_type_specification]
#[verifier::external_body]
pub struct ExParseIntError(std::num::ParseIntError);

#[derive(Debug, PartialEq, Eq)]
pub enum AuthError {
    TokenLengthError,
    TokenParseError(std::num::ParseIntError),
}

/// A bearer token: 128 raw bytes.
#[derive(Debug, PartialEq, Eq)]
pub struct Token {
    pub bytes: Vec<u8>,
}

/// Relies on u8::from_str_radix: parsing a non-digit yields the
/// invalid-digit parse error, carried into `TokenParseError` so a caller
/// sees the same error value the standard parser produces.
#[verifier::external_body]
fn invalid_digit_error() -> std::num::ParseIntError {
    u8::from_str_radix("z", 16).unwrap_err()
}

/// Upper-case hex rendering of token bytes, two digits per byte.
pub open spec fn spec_token_hex(b: Seq<u8>) -> Seq<u8>
    decreases b.len(),
{
    if b.len() == 0 {
        Seq::empty()
    } else {
        spec_hex_upper(b[0] as nat, 2) + spec_token_hex(b.drop_first())
    }
}

pub proof fn lemma_spec_token_hex_concat(b1: Seq<u8>, b2: Seq<u8>)
    ensures
        spec_token_hex(b1 + b2) == spec_token_hex(b1) + spec_token_hex(b2),
    decreases b1.len(),
{
    if b1.len() == 0 {
        assert(b1 + b2 =~= b2);
        assert(spec_token_hex(b1) + spec_token_hex(b2) =~= spec_token_hex(b2));
    } else {
        assert((b1 + b2).drop_first() =~= b1.drop_first() + b2);
        lemma_spec_token_hex_concat(b1.drop_first(), b2);
        assert(spec_token_hex(b1 + b2) =~= spec_token_hex(b1) + spec_token_hex(b2));
    }
}

/// What reading a token from hex text returns, over the text's UTF-8 bytes:
/// the decoded byte values when the text is exactly 256 hex digits, the
/// length error when it is not 256 bytes long, and the digit parse error
/// when some byte is no hex digit.
pub open spec fn token_from_hex_post(b: Seq<u8>, r: Result<Token, AuthError>) -> bool {
    match r {
        Ok(t) => {
            &&& b.len() == 256
            &&& forall|i: int| 0 <= i < 256 ==> is_hex_digit(#[trigger] b[i])
            &&& t.bytes@.len() == 128
            &&& forall|i: int|
                0 <= i < 128 ==> #[trigger] t.bytes@[i] == 16 * nibble_value(b[2 * i])
                    + nibble_value(b[2 * i + 1])
        },
        Err(AuthError::TokenLengthError) => b.len() != 256,
        Err(AuthError::TokenParseError(_)) => b.len() == 256 && exists|i: int|
            0 <= i < 256 && !is_hex_digit(#[trigger] b[i]),
    }
}

impl Token {
    /// Reads a token from 256 hex digits (two per byte, either case).
    /// A wrong length is `TokenLengthError`; any non-digit is the parse
    /// error the standard integer parser reports for an invalid digit.
    pub fn from_hex_string(s: String) -> (r: Result<Token, AuthError>)
        ensures
            token_from_hex_post(encode_utf8(s@), r),
    {
        let b = s.as_str().as_bytes_vec();
        if b.len() != 256 {
            return Err(AuthError::TokenLengthError);
        }
        let mut bytes: Vec<u8> = Vec::new();
        let mut i: usize = 0;
        while i < 128
            invariant
                i <= 128,
                bytes@.len() == i,
                b@.len() == 256,
                b@ == encode_utf8(s@),
                forall|j: int| 0 <= j < 2 * i ==> is_hex_digit(#[trigger] b@[j]),
                forall|j: int|
                    0 <= j < i ==> #[trigger] bytes@[j] == 16 * nibble_value(b@[2 * j])
                        + nibble_value(b@[2 * j + 1]),
            decreases 128 - i,
        {
            let hi = nibble_value_exec(b[2 * i]);
            let lo = nibble_value_exec(b[2 * i + 1]);
            if hi >= 16 {
                proof {
                    assert(!is_hex_digit(b@[2 * i]));
                }
                return Err(AuthError::TokenParseError(invalid_digit_error()));
            }
            if lo >= 16 {
                proof {
                    assert(!is_hex_digit(b@[2 * i + 1]));
                }
                return Err(AuthError::TokenParseError(invalid_digit_error()));
            }
            bytes.push(16 * hi + lo);
            i = i + 1;
        }
        proof {
            assert forall|k: int| 0 <= k < 256 implies is_hex_digit(#[trigger] b@[k]) by {
                assert(0 <= k < 2 * 128);
            }
        }
        Ok(Token { bytes })
    }

    /// A fresh token: 128 bytes drawn from the process's random generator.
    /// Nothing is promised of the values; two tokens are distinct only with
    /// overwhelming probability, never by contract.
    pub fn new() -> (r: Token)
        ensures
            r.bytes@.len() == 128,
    {
        let mut bytes: Vec<u8> = Vec::new();
        let mut i: usize = 0;
        while i < 128
            invariant
                i <= 128,
                bytes@.len() == i,
            decreases 128 - i,
        {
            let byte: u8 = rand::random::<u8>();
            bytes.push(byte);
            i = i + 1;
        }
        Token { bytes }
    }

    /// The token as upper-case hex digits, two per byte.
    pub fn to_hex_string(&self) -> (r: Option<String>)
        ensures
            r matches Some(st) && encode_utf8(st@) == spec_token_hex(self.bytes@),
    {
        proof {
            lemma_token_hex_ascii(self.bytes@);
        }
        let mut out: Vec<u8> = Vec::new();
        let n = self.bytes.len();
        let mut i: usize = 0;
        while i < n
            invariant
                i <= n,
                n == self.bytes@.len(),
                out@ == spec_token_hex(self.bytes@.take(i as int)),
            decreases n - i,
        {
            proof {
                lemma_pow16_32_is_u128_bound();
                assert(pow16(2) == 256) by {
                    reveal_with_fuel(pow16, 3);
                }
                crate::hex::lemma_pow16_increases(2, 32);
                lemma_spec_token_hex_concat(self.bytes@.take(i as int), seq![self.bytes@[i as int]]);
                assert(self.bytes@.take(i as int) + seq![self.bytes@[i as int]]
                    =~= self.bytes@.take(i as int + 1));
                let single = seq![self.bytes@[i as int]];
                assert(single.drop_first() =~= Seq::<u8>::empty());
                assert(spec_token_hex(Seq::<u8>::empty()) =~= Seq::<u8>::empty());
                assert(spec_token_hex(single) == spec_hex_upper(single[0] as nat, 2)
                    + spec_token_hex(single.drop_first()));
                assert(spec_token_hex(single) =~= spec_hex_upper(self.bytes@[i as int] as nat, 2));
            }
            encode_hex_upper(&mut out, self.bytes[i] as u128, 2);
            i = i + 1;
        }
        proof {
            assert(self.bytes@.take(n as int) =~= self.bytes@);
        }
        utf8_to_string(out)
    }
}

/// The hex rendering of token bytes consists of hex digits whose pairs read
/// back as exactly the original bytes.
pub proof fn lemma_token_hex_digits(b: Seq<u8>)
    ensures
        spec_token_hex(b).len() == 2 * b.len(),
        forall|i: int|
            0 <= i < 2 * b.len() ==> is_hex_digit(#[trigger] spec_token_hex(b)[i]),
        forall|i: int|
            0 <= i < b.len() ==> 16 * nibble_value(spec_token_hex(b)[2 * i]) + nibble_value(
                spec_token_hex(b)[2 * i + 1],
            ) == b[i],
    decreases b.len(),
{
    if b.len() > 0 {
        let v = b[0] as nat;
        let head = spec_hex_upper(v, 2);
        let rest = spec_token_hex(b.drop_first());
        lemma_token_hex_digits(b.drop_first());
        crate::hex::lemma_spec_hex_upper_len(v, 2);
        reveal_with_fuel(spec_hex_upper, 3);
        assert(spec_hex_upper(v / 256, 0) =~= Seq::<u8>::empty());
        assert(head[0] == crate::hex::hex_digit_upper(((v / 16) % 16) as u8));
        assert(head[1] == crate::hex::hex_digit_upper((v % 16) as u8));
        assert((v / 16) % 16 == v / 16);
        crate::hex::lemma_hex_digit_roundtrip((v / 16) as u8);
        crate::hex::lemma_hex_digit_roundtrip((v % 16) as u8);
        assert forall|i: int| 0 <= i < b.len() implies 16 * nibble_value(
            spec_token_hex(b)[2 * i],
        ) + nibble_value(spec_token_hex(b)[2 * i + 1]) == b[i] by {
            if i == 0 {
                assert(spec_token_hex(b)[0] == head[0]);
                assert(spec_token_hex(b)[1] == head[1]);
            } else {
                assert(spec_token_hex(b)[2 * i] == rest[2 * (i - 1)]);
                assert(spec_token_hex(b)[2 * i + 1] == rest[2 * (i - 1) + 1]);
                assert(b[i] == b.drop_first()[i - 1]);
            }
        }
    }
}

/// The hex rendering of token bytes is plain ASCII, hence valid UTF-8.
pub proof fn lemma_token_hex_ascii(b: Seq<u8>)
    ensures
        all_ascii(spec_token_hex(b)),
        vstd::utf8::valid_utf8(spec_token_hex(b)),
    decreases b.len(),
{
    if b.len() > 0 {
        lemma_spec_hex_upper_ascii(b[0] as nat, 2);
        lemma_token_hex_ascii(b.drop_first());
        lemma_all_ascii_concat(spec_hex_upper(b[0] as nat, 2), spec_token_hex(b.drop_first()));
    }
    lemma_ascii_bytes_valid_utf8(spec_token_hex(b));
}

/// Round trip: reading a token back from its own hex rendering yields a
/// token with exactly the same bytes.
pub proof fn lemma_token_hex_roundtrip(b: Seq<u8>, r: Result<Token, AuthError>)
    requires
        b.len() == 128,
        token_from_hex_post(spec_token_hex(b), r),
    ensures
        r matches Ok(t) && t.bytes@ == b,
{
    lemma_token_hex_digits(b);
    match r {
        Ok(t) => {
            assert(t.bytes@ =~= b);
        },
        Err(AuthError::TokenLengthError) => {
            assert(false);
        },
        Err(AuthError::TokenParseError(_)) => {
            assert(false);
        },
    }
}

/// Relies on rand::random (rand's thread-local generator): a uniformly
/// random value. Nothing can be promised of the result.
pub assume_specification<T>[ rand::random::<T> ]() -> (r: T)
    where
        rand::distr::StandardUniform: rand::distr::Distribution<T>,
;

} // verus!
