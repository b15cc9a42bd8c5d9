//! Remote-console protocol: fixed-layout packet framing and the session
//! discipline of a single console connection.
//!
//! A packet on the wire is a 4-byte little-endian length (covering request
//! id, packet type, payload and the two trailing zero bytes), then the
//! 4-byte request id, the 4-byte packet type, the payload, and two zero
//! bytes.  Authentication uses packet type 3, command execution type 2; the
//! server signals an authentication failure with request id `-1`.

use vstd::bytes::lemma_auto_spec_u32_to_from_le_bytes;
use vstd::bytes::spec_u32_from_le_bytes;
use vstd::bytes::spec_u32_to_le_bytes;
use vstd::bytes::u32_from_le_bytes;
use vstd::bytes::u32_to_le_bytes;
use vstd::prelude::*;
use vstd::slice::slice_subrange;
use vstd::slice::slice_to_vec;
use vstd::string::StrSliceExecFns;
use vstd::string::StringExecFns;
use vstd::string::StringSliceAdditionalSpecFns;

verus! {

/// Longest payload a packet may carry.
pub const MAX_PAYLOAD: usize = 4096;

/// Packet type of an authentication request.
pub const PACKET_TYPE_AUTH: i32 = 3;

/// Packet type of a command-execution request.
pub const PACKET_TYPE_COMMAND: i32 = 2;

/// Errors of the console client.  All of them are fatal to the connection:
/// the session refuses further requests once one has occurred.
#[derive(Clone, Copy, Debug, PartialEq, Eq, Structural)]
pub enum ConsoleError {
    /// The server answered with the sentinel request id `-1`.
    AuthenticationFailed,
    /// The server answered with a request id that matches no outstanding
    /// request.
    ProtocolMismatch,
    /// The transport failed or returned bytes that are not a packet.
    TransportError,
}

/// One console packet: request id, packet type and payload.
pub struct RconPacket {
    pub req_id: i32,
    pub ptype: i32,
    pub payload: Vec<u8>,
}

/// The payload that a packet built from `s` carries: the bytes of `s`,
/// cut off at the payload cap.
pub open spec fn capped_payload(s: Seq<u8>) -> Seq<u8> {
    if s.len() <= MAX_PAYLOAD {
        s
    } else {
        s.subrange(0, MAX_PAYLOAD as int)
    }
}

/// The wire bytes of a packet: length, request id, type, payload, two
/// trailing zero bytes.  The declared length covers everything after the
/// length field itself.
pub open spec fn spec_packet_bytes(req_id: i32, ptype: i32, payload: Seq<u8>) -> Seq<u8> {
    spec_u32_to_le_bytes((payload.len() + 10) as u32) + spec_u32_to_le_bytes(req_id as u32)
        + spec_u32_to_le_bytes(ptype as u32) + payload + seq![0u8, 0u8]
}

/// Reading a whole packet back from wire bytes: the request id, type and
/// payload, or nothing when the bytes are not one well-formed packet.
pub open spec fn spec_packet_parse(s: Seq<u8>) -> Option<(i32, i32, Seq<u8>)> {
    if s.len() < 14 {
        None
    } else {
        let length = spec_u32_from_le_bytes(s.subrange(0, 4)) as int;
        if length < 10 || length > MAX_PAYLOAD + 10 || s.len() != length + 4 {
            None
        } else if s[s.len() - 2] != 0 || s[s.len() - 1] != 0 {
            None
        } else {
            Some(
                (
                    spec_u32_from_le_bytes(s.subrange(4, 8)) as i32,
                    spec_u32_from_le_bytes(s.subrange(8, 12)) as i32,
                    s.subrange(12, s.len() - 2),
                ),
            )
        }
    }
}

impl RconPacket {
    /// The packet is within the payload cap.
    pub open spec fn wf(self) -> bool {
        self.payload@.len() <= MAX_PAYLOAD
    }

    /// Builds a packet from a command string; payload bytes beyond the cap
    /// are cut off deterministically.
    pub fn new(req_id: i32, ptype: i32, payload: &str) -> (p: Self)
        ensures
            p.wf(),
            p.req_id == req_id,
            p.ptype == ptype,
            p.payload@ == capped_payload(payload.spec_bytes()),
    {
        let mut bytes = payload.as_bytes_vec();
        if bytes.len() > MAX_PAYLOAD {
            bytes.truncate(MAX_PAYLOAD);
        }
        RconPacket { req_id, ptype, payload: bytes }
    }

    /// The payload bytes.
    pub fn payload(&self) -> (r: &Vec<u8>)
        ensures
            r@ == self.payload@,
    {
        &self.payload
    }

    /// The wire bytes of the packet.
    pub fn as_bytes(&self) -> (out: Vec<u8>)
        requires
            self.wf(),
        ensures
            out@ == spec_packet_bytes(self.req_id, self.ptype, self.payload@),
            out@.len() == self.payload@.len() + 14,
    {
        let mut out = u32_to_le_bytes(self.payload.len() as u32 + 10);
        let mut req = u32_to_le_bytes(#[verifier::truncate] (self.req_id as u32));
        let mut ptype = u32_to_le_bytes(#[verifier::truncate] (self.ptype as u32));
        out.append(&mut req);
        out.append(&mut ptype);
        out.extend_from_slice(self.payload.as_slice());
        out.push(0);
        out.push(0);
        proof {
            assert(out@ =~= spec_packet_bytes(self.req_id, self.ptype, self.payload@));
        }
        out
    }

    /// Reads a packet back from wire bytes.
    pub fn parse(bytes: &[u8]) -> (r: Option<Self>)
        ensures
            r is Some <==> spec_packet_parse(bytes@) is Some,
            r matches Some(p) ==> {
                &&& p.wf()
                &&& spec_packet_parse(bytes@) == Some((p.req_id, p.ptype, p.payload@))
            },
    {
        if bytes.len() < 14 {
            return None;
        }
        let length_raw = u32_from_le_bytes(slice_subrange(bytes, 0, 4));
        if length_raw < 10 || length_raw > (MAX_PAYLOAD as u32) + 10 {
            return None;
        }
        let length = length_raw as usize;
        if bytes.len() != length + 4 {
            return None;
        }
        if bytes[bytes.len() - 2] != 0 || bytes[bytes.len() - 1] != 0 {
            return None;
        }
        let req_id = #[verifier::truncate] (u32_from_le_bytes(slice_subrange(bytes, 4, 8)) as i32);
        let ptype = #[verifier::truncate] (u32_from_le_bytes(slice_subrange(bytes, 8, 12)) as i32);
        let payload = slice_to_vec(slice_subrange(bytes, 12, bytes.len() - 2));
        Some(RconPacket { req_id, ptype, payload })
    }
}

/// Law: a packet built over a payload of length `L` declares length
/// `8 + L + 2`, and parsing its wire bytes recovers the request id, type
/// and the exact payload bytes.
pub proof fn lemma_packet_round_trip(req_id: i32, ptype: i32, payload: Seq<u8>)
    requires
        payload.len() <= MAX_PAYLOAD,
    ensures
        spec_packet_bytes(req_id, ptype, payload).len() == payload.len() + 14,
        spec_u32_from_le_bytes(spec_packet_bytes(req_id, ptype, payload).subrange(0, 4)) == 8
            + payload.len() + 2,
        spec_packet_parse(spec_packet_bytes(req_id, ptype, payload)) == Some(
            (req_id, ptype, payload),
        ),
{
    lemma_auto_spec_u32_to_from_le_bytes();
    let s = spec_packet_bytes(req_id, ptype, payload);
    assert(s.subrange(0, 4) =~= spec_u32_to_le_bytes((payload.len() + 10) as u32));
    assert(s.subrange(4, 8) =~= spec_u32_to_le_bytes(req_id as u32));
    assert(s.subrange(8, 12) =~= spec_u32_to_le_bytes(ptype as u32));
    assert(s.subrange(12, s.len() - 2) =~= payload);
    assert(s[s.len() - 2] == 0 && s[s.len() - 1] == 0);
    assert((req_id as u32) as i32 == req_id) by (bit_vector);
    assert((ptype as u32) as i32 == ptype) by (bit_vector);
}

/// State of one console connection: the next request id and, once anything
/// has gone wrong, the fatal condition that every later request repeats.
pub struct ConsoleSession {
    pub next_req_id: i32,
    pub fault: Option<ConsoleError>,
}

impl ConsoleSession {
    /// A fresh session: request ids start at 0, no fault.
    pub fn new() -> (s: Self)
        ensures
            s.next_req_id == 0,
            s.fault is None,
    {
        ConsoleSession { next_req_id: 0, fault: None }
    }

    /// Allocates the request id for the next request, or repeats the fatal
    /// condition of a failed connection.  The counter wraps on overflow;
    /// collisions are acceptable because only one request is in flight.
    pub fn begin_request(&mut self) -> (r: Result<i32, ConsoleError>)
        ensures
            old(self).fault matches Some(e) ==> r == Err::<i32, ConsoleError>(e) && *final(self)
                == *old(self),
            old(self).fault is None ==> {
                &&& r == Ok::<i32, ConsoleError>(old(self).next_req_id)
                &&& final(self).fault is None
                &&& old(self).next_req_id < i32::MAX ==> final(self).next_req_id == old(
                    self,
                ).next_req_id + 1
                &&& old(self).next_req_id == i32::MAX ==> final(self).next_req_id == i32::MIN
            },
    {
        match self.fault {
            Some(e) => Err(e),
            None => {
                let id = self.next_req_id;
                self.next_req_id = id.wrapping_add(1);
                Ok(id)
            },
        }
    }

    /// Classifies the response to the request with id `expected` and, on a
    /// protocol failure, poisons the session.  A response carrying the
    /// sentinel id `-1` is an authentication failure whatever else it
    /// holds; any other id that differs from `expected` is a protocol
    /// mismatch; a matching id hands back the payload.
    pub fn handle_response(&mut self, expected: i32, resp: &RconPacket) -> (r: Result<
        Vec<u8>,
        ConsoleError,
    >)
        ensures
            resp.req_id == -1 ==> r == Err::<Vec<u8>, ConsoleError>(
                ConsoleError::AuthenticationFailed,
            ) && final(self).fault == Some(ConsoleError::AuthenticationFailed),
            resp.req_id != -1 && resp.req_id != expected ==> r == Err::<Vec<u8>, ConsoleError>(
                ConsoleError::ProtocolMismatch,
            ) && final(self).fault == Some(ConsoleError::ProtocolMismatch),
            resp.req_id == expected && expected != -1 ==> {
                &&& r matches Ok(p) && p@ == resp.payload@
                &&& *final(self) == *old(self)
            },
            final(self).next_req_id == old(self).next_req_id,
    {
        if resp.req_id == -1 {
            self.fault = Some(ConsoleError::AuthenticationFailed);
            Err(ConsoleError::AuthenticationFailed)
        } else if resp.req_id != expected {
            self.fault = Some(ConsoleError::ProtocolMismatch);
            Err(ConsoleError::ProtocolMismatch)
        } else {
            let r = copy_bytes(&resp.payload);
            Ok(r)
        }
    }

    /// Records that the transport itself failed; every later request sees
    /// the same condition.
    pub fn record_transport_failure(&mut self)
        ensures
            final(self).fault == Some(ConsoleError::TransportError),
            final(self).next_req_id == old(self).next_req_id,
    {
        self.fault = Some(ConsoleError::TransportError);
    }
}

/// A fresh vector with the same bytes.
fn copy_bytes(v: &Vec<u8>) -> (r: Vec<u8>)
    ensures
        r@ == v@,
{
    let mut out: Vec<u8> = Vec::new();
    let mut i: usize = 0;
    while i < v.len()
        invariant
            0 <= i <= v@.len(),
            out@ =~= v@.subrange(0, i as int),
        decreases v@.len() - i,
    {
        out.push(v[i]);
        i = i + 1;
    }
    proof {
        assert(out@ =~= v@);
    }
    out
}

/// The reply shown for a command execution: the response payload, or a
/// fixed acknowledgement when the server answered with an empty string.
pub fn command_reply(response: &str) -> (r: String)
    ensures
        response@.len() > 0 ==> r@ == response@,
        response@.len() == 0 ==> r@ == "Executed command."@,
{
    if response.is_empty() {
        String::from_str("Executed command.")
    } else {
        response.to_owned()
    }
}

/// The console command that says `message` in chat, quoted.
pub fn say_command(message: &str) -> (r: String)
    ensures
        r@ == "say \""@ + message@ + "\""@,
{
    let r = String::from_str("say \"").concat(message).concat("\"");
    proof {
        assert(r@ =~= "say \""@ + message@ + "\""@);
    }
    r
}

/// The console command that adds to or removes from the whitelist all the
/// named player profiles, separated by single spaces.
pub fn whitelist_command(add: bool, targets: &Vec<String>) -> (r: String)
    ensures
        add ==> r@ == "whitelist add "@ + crate::text::spec_join(targets.deep_view(), " "@),
        !add ==> r@ == "whitelist remove "@ + crate::text::spec_join(targets.deep_view(), " "@),
{
    let joined = crate::text::join_with(targets, " ");
    if add {
        String::from_str("whitelist add ").concat(joined.as_str())
    } else {
        String::from_str("whitelist remove ").concat(joined.as_str())
    }
}

} // verus!
