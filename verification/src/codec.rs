//! The wire-level probe packet and its fixed binary codec.
//!
//! A probe carries a send timestamp and, on the way back, a response
//! timestamp. On the wire it is the 8-byte little-endian send time, then a
//! one-byte presence tag for the response time (0 absent, 1 present), then,
//! when present, the 8-byte little-endian response time. There is no length
//! prefix: the receiver always knows how many bytes to expect next.

use vstd::bytes::*;
use vstd::prelude::*;
use vstd::slice::*;

verus! {

/// One timing round's packet: the sender's timestamp and, once echoed, the
/// receiver's response timestamp, both in milliseconds of the sending
/// process's reference clock.
#[derive(Clone, Copy, Debug, PartialEq, Eq)]
pub struct TimePacket {
    /// Captured by the sender when the probe is created.
    pub send_time: u64,
    /// Absent on the way to the echo server, stamped by it before echoing.
    pub resp_time: Option<u64>,
}

/// Bytes of a probe without a response time: the send time and the tag.
pub const PROBE_LEN: usize = 9;

/// Bytes of a probe with a response time present.
pub const ECHO_LEN: usize = 17;

/// Decoding failed: the bytes do not hold a whole, well-formed packet.
#[derive(Clone, Copy, Debug, PartialEq, Eq, Structural)]
pub enum ProtocolError {
    /// The byte stream ended before a whole packet was read.
    Truncated,
    /// The presence tag is neither 0 nor 1.
    InvalidTag,
}

/// Relies on `std::time::SystemTime::now` and `duration_since`: the count of
/// milliseconds since the Unix epoch, as a `u64` (zero if the clock stands
/// before the epoch). Both ends only ever subtract two values captured on the
/// same host, so no clock agreement between hosts is needed.
#[verifier::external_body]
fn now_millis() -> u64 {
    match std::time::SystemTime::now().duration_since(std::time::SystemTime::UNIX_EPOCH) {
        Ok(d) => d.as_millis() as u64,
        Err(_) => 0,
    }
}

impl TimePacket {
    /// A fresh probe, stamped with the sender's clock. The response time is
    /// absent: that is the packet's shape on the way to the echo server.
    pub fn new() -> (p: TimePacket)
        ensures
            p.resp_time is None,
    {
        TimePacket { send_time: now_millis(), resp_time: None }
    }
}

/// The encoding of a packet: send time, presence tag, optional response time.
pub open spec fn spec_encode(p: TimePacket) -> Seq<u8> {
    match p.resp_time {
        Option::None => spec_u64_to_le_bytes(p.send_time) + seq![0u8],
        Option::Some(t) => spec_u64_to_le_bytes(p.send_time) + seq![1u8]
            + spec_u64_to_le_bytes(t),
    }
}

/// Whether the bytes begin with one whole well-formed packet.
pub open spec fn wf_prefix(b: Seq<u8>) -> bool {
    b.len() >= PROBE_LEN && (b[8] == 0 || (b[8] == 1 && b.len() >= ECHO_LEN))
}

/// The packet at the front of well-formed bytes.
pub open spec fn spec_decode(b: Seq<u8>) -> TimePacket
    recommends
        wf_prefix(b),
{
    TimePacket {
        send_time: spec_u64_from_le_bytes(b.subrange(0, 8)),
        resp_time: if b[8] == 0 {
            Option::None
        } else {
            Option::Some(spec_u64_from_le_bytes(b.subrange(9, 17)))
        },
    }
}

/// How many bytes of the input one whole packet occupies.
pub open spec fn spec_encoded_len(b: Seq<u8>) -> int
    recommends
        wf_prefix(b),
{
    if b[8] == 0 {
        PROBE_LEN as int
    } else {
        ECHO_LEN as int
    }
}

/// What decoding returns on any input: the packet at the front, a truncation
/// error when the bytes end before the layout is complete, or a tag error.
pub open spec fn spec_decode_result(b: Seq<u8>) -> Result<TimePacket, ProtocolError> {
    if b.len() < PROBE_LEN {
        Result::Err(ProtocolError::Truncated)
    } else if b[8] == 0 || b[8] == 1 {
        if b[8] == 1 && b.len() < ECHO_LEN {
            Result::Err(ProtocolError::Truncated)
        } else {
            Result::Ok(spec_decode(b))
        }
    } else {
        Result::Err(ProtocolError::InvalidTag)
    }
}

/// Encode a packet into its fixed binary layout.
pub fn encode(p: &TimePacket) -> (r: Vec<u8>)
    ensures
        r@ == spec_encode(*p),
        r@.len() == spec_encoded_len(spec_encode(*p)),
{
    proof {
        lemma_auto_spec_u64_to_from_le_bytes();
    }
    let mut out = u64_to_le_bytes(p.send_time);
    match p.resp_time {
        None => {
            out.push(0u8);
            assert(out@ =~= spec_encode(*p));
        },
        Some(t) => {
            out.push(1u8);
            let mut tail = u64_to_le_bytes(t);
            out.append(&mut tail);
            assert(out@ =~= spec_encode(*p));
        },
    }
    out
}

/// Decode the packet at the front of the bytes. Fails, and never panics,
/// on a truncated or malformed input: fewer bytes than the fixed layout
/// requires yield `ProtocolError::Truncated`, a tag other than 0 or 1
/// yields `ProtocolError::InvalidTag`.
pub fn decode(b: &[u8]) -> (r: Result<TimePacket, ProtocolError>)
    ensures
        r == spec_decode_result(b@),
        r is Ok <==> wf_prefix(b@),
{
    if b.len() < PROBE_LEN {
        return Err(ProtocolError::Truncated);
    }
    let send_time = u64_from_le_bytes(slice_subrange(b, 0, 8));
    let tag = *slice_index_get(b, 8);
    if tag == 0 {
        Ok(TimePacket { send_time, resp_time: None })
    } else if tag == 1 {
        if b.len() < ECHO_LEN {
            return Err(ProtocolError::Truncated);
        }
        let resp = u64_from_le_bytes(slice_subrange(b, 9, 17));
        Ok(TimePacket { send_time, resp_time: Some(resp) })
    } else {
        Err(ProtocolError::InvalidTag)
    }
}

/// What one server iteration answers: the echo of the decoded packet with
/// the response time stamped in, or the decoding error.
pub open spec fn spec_server_step(b: Seq<u8>, now_ms: u64) -> Result<Seq<u8>, ProtocolError> {
    match spec_decode_result(b) {
        Result::Ok(p) => Result::Ok(
            spec_encode(TimePacket { send_time: p.send_time, resp_time: Option::Some(now_ms) }),
        ),
        Result::Err(e) => Result::Err(e),
    }
}

/// One iteration of the echo server's loop, on bytes already read from the
/// connection: decode the probe, stamp the response time with the given
/// clock reading, and encode the echo. Any decoding failure is handed back
/// unchanged; it ends that one connection and nothing else.
pub fn server_step(b: &[u8], now_ms: u64) -> (r: Result<Vec<u8>, ProtocolError>)
    ensures
        (match r {
            Result::Ok(v) => spec_server_step(b@, now_ms) == Result::<Seq<u8>, ProtocolError>::Ok(
                v@,
            ),
            Result::Err(e) => spec_server_step(b@, now_ms) == Result::<
                Seq<u8>,
                ProtocolError,
            >::Err(e),
        }),
        r is Ok <==> wf_prefix(b@),
{
    match decode(b) {
        Ok(p) => {
            let echoed = TimePacket { send_time: p.send_time, resp_time: Some(now_ms) };
            Ok(encode(&echoed))
        },
        Err(e) => Err(e),
    }
}

/// A packet round-trips through the codec unchanged: its encoding is
/// well formed, decodes back to the same packet, and occupies exactly
/// the bytes the layout says.
pub proof fn lemma_codec_round_trip(p: TimePacket)
    ensures
        wf_prefix(spec_encode(p)),
        spec_decode(spec_encode(p)) == p,
        spec_decode_result(spec_encode(p)) == Result::<TimePacket, ProtocolError>::Ok(p),
        spec_encode(p).len() == spec_encoded_len(spec_encode(p)),
{
    lemma_auto_spec_u64_to_from_le_bytes();
    let b = spec_encode(p);
    match p.resp_time {
        Option::None => {
            assert(b.subrange(0, 8) =~= spec_u64_to_le_bytes(p.send_time));
            assert(b[8] == 0);
        },
        Option::Some(t) => {
            assert(b.subrange(0, 8) =~= spec_u64_to_le_bytes(p.send_time));
            assert(b[8] == 1);
            assert(b.subrange(9, 17) =~= spec_u64_to_le_bytes(t));
        },
    }
}

} // verus!
