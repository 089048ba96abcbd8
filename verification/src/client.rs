//! The computational side of the client call helper: the uniquely named
//! ephemeral address a caller binds, and the correlation check on the reply.
//! The sockets themselves — bind, send, timed receive, teardown — live with
//! the caller, outside this library.

use vstd::prelude::*;
use vstd::string::StrSliceExecFns;
use vstd::string::StringSliceAdditionalSpecFns;
use vstd::utf8::encode_utf8;

use crate::hex::{encode_hex, lemma_parse_hex_roundtrip, lemma_pow16_32_is_u128_bound, spec_hex};
use crate::wire::{all_ascii, lemma_all_ascii_concat, lemma_ascii_bytes_valid_utf8, lemma_spec_hex_ascii};
use crate::message::{utf8_to_string, ClientMessagePacket, ServerMessage, ServerMessagePacket};

verus! {

/// UTF-8 bytes of the ephemeral address for one call: a fixed prefix, the
/// process identity and a clock reading, each as 16 hex digits, separated by
/// a dot.
pub open spec fn spec_client_socket_path(pid: u64, ticks: u64) -> Seq<u8> {
    encode_utf8("/tmp/capycoin-client."@) + spec_hex(pid as nat, 16) + seq![46u8] + spec_hex(
        ticks as nat,
        16,
    )
}

/// Distinct process identities or clock readings give distinct addresses, so
/// concurrent callers and repeated calls from one process cannot collide.
pub proof fn lemma_client_socket_path_unique(pid1: u64, ticks1: u64, pid2: u64, ticks2: u64)
    requires
        pid1 != pid2 || ticks1 != ticks2,
    ensures
        spec_client_socket_path(pid1, ticks1) != spec_client_socket_path(pid2, ticks2),
{
    let prefix = encode_utf8("/tmp/capycoin-client."@);
    let s1 = spec_client_socket_path(pid1, ticks1);
    let s2 = spec_client_socket_path(pid2, ticks2);
    lemma_pow16_32_is_u128_bound();
    crate::hex::lemma_spec_hex_len(pid1 as nat, 16);
    crate::hex::lemma_spec_hex_len(pid2 as nat, 16);
    crate::hex::lemma_spec_hex_len(ticks1 as nat, 16);
    crate::hex::lemma_spec_hex_len(ticks2 as nat, 16);
    if s1 == s2 {
        let p = prefix.len() as int;
        assert(s1.subrange(p, p + 16) =~= spec_hex(pid1 as nat, 16));
        assert(s2.subrange(p, p + 16) =~= spec_hex(pid2 as nat, 16));
        lemma_parse_hex_roundtrip(s1, p, pid1 as nat, 16);
        lemma_parse_hex_roundtrip(s2, p, pid2 as nat, 16);
        assert(pid1 == pid2);
        assert(s1.subrange(p + 17, p + 33) =~= spec_hex(ticks1 as nat, 16));
        assert(s2.subrange(p + 17, p + 33) =~= spec_hex(ticks2 as nat, 16));
        lemma_parse_hex_roundtrip(s1, p + 17, ticks1 as nat, 16);
        lemma_parse_hex_roundtrip(s2, p + 17, ticks2 as nat, 16);
        assert(ticks1 == ticks2);
    }
}

/// The address bytes are plain ASCII, hence valid UTF-8.
proof fn lemma_client_socket_path_ascii(pid: u64, ticks: u64)
    ensures
        all_ascii(spec_client_socket_path(pid, ticks)),
        vstd::utf8::valid_utf8(spec_client_socket_path(pid, ticks)),
{
    let prefix = "/tmp/capycoin-client."@;
    reveal_strlit("/tmp/capycoin-client.");
    assert(vstd::utf8::is_ascii_chars(prefix));
    vstd::utf8::is_ascii_chars_encode_utf8(prefix);
    vstd::utf8::is_ascii_chars_nat_bound(prefix);
    assert(all_ascii(encode_utf8(prefix))) by {
        assert forall|i: int| 0 <= i < encode_utf8(prefix).len() implies #[trigger] encode_utf8(
            prefix,
        )[i] < 0x80 by {
            assert(encode_utf8(prefix)[i] == prefix[i] as u8);
        }
    }
    lemma_spec_hex_ascii(pid as nat, 16);
    lemma_spec_hex_ascii(ticks as nat, 16);
    lemma_all_ascii_concat(encode_utf8(prefix), spec_hex(pid as nat, 16));
    lemma_all_ascii_concat(encode_utf8(prefix) + spec_hex(pid as nat, 16), seq![46u8]);
    lemma_all_ascii_concat(
        encode_utf8(prefix) + spec_hex(pid as nat, 16) + seq![46u8],
        spec_hex(ticks as nat, 16),
    );
    lemma_ascii_bytes_valid_utf8(spec_client_socket_path(pid, ticks));
}

/// The ephemeral address for one call, derived from the process identity and
/// a monotonic clock reading handed in by the caller.
pub fn client_socket_path(pid: u64, ticks: u64) -> (r: Option<String>)
    ensures
        r matches Some(s) && encode_utf8(s@) == spec_client_socket_path(pid, ticks),
{
    let prefix = "/tmp/capycoin-client.";
    let mut out = prefix.as_bytes_vec();
    proof {
        lemma_pow16_32_is_u128_bound();
        crate::hex::lemma_pow16_increases(16, 32);
    }
    encode_hex(&mut out, pid as u128, 16);
    out.push(46);
    encode_hex(&mut out, ticks as u128, 16);
    proof {
        assert(out@ =~= spec_client_socket_path(pid, ticks));
        lemma_client_socket_path_ascii(pid, ticks);
    }
    utf8_to_string(out)
}

/// The correlation check on a decoded reply: only a reply carrying the
/// request's own correlation id is a response; anything else — no reply, or
/// a mismatched id — counts as no response at all.
pub fn correlate(request: &ClientMessagePacket, reply: Option<ServerMessagePacket>) -> (r: Option<
    ServerMessage,
>)
    ensures
        match reply {
            Some(p) => {
                &&& p.message_id == request.message_id ==> (r matches Some(m) && m == p.message)
                &&& p.message_id != request.message_id ==> r is None
            },
            None => r is None,
        },
{
    match reply {
        Some(p) => {
            if p.message_id == request.message_id {
                Some(p.message)
            } else {
                None
            }
        },
        None => None,
    }
}

} // verus!
