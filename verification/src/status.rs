//! Status-ping protocol: handshake framing, response framing, and parsing
//! of the status payload into a snapshot.
//!
//! One poll is a short-lived exchange: a handshake (protocol version, the
//! varint-length-prefixed hostname, the port big-endian, a next-state byte),
//! an empty status request (a single zero byte), then a varint-length-
//! prefixed JSON payload.  Every parsed field falls back to an explicit
//! default when absent or malformed; only a payload that is not JSON at all
//! is an error, which ends the owning service.

use crate::text::spec_join;
use crate::varint::varint_encoding;
use crate::varint::varint_parse;
use crate::varint::varint_decode;
use crate::varint::varint_encode;
use vstd::prelude::*;
use vstd::string::StrSliceExecFns;
use vstd::string::StringSliceAdditionalSpecFns;
use vstd::utf8::encode_utf8;

verus! {

/// Protocol version byte sent in the handshake.
pub const PROTOCOL_VERSION: u8 = 47;

/// The comma that separates the data-URL prefix from the base64 body of a
/// favicon.
pub const COMMA: u8 = 44;

/// A decode failure of a required structural element of the status
/// payload; fatal to the poll cycle, and the owning service removes
/// itself.
#[derive(Clone, Copy, Debug, PartialEq, Eq, Structural)]
pub enum StatusError {
    MalformedResponse,
}

/// The handshake packet body for `host` and `port`.
pub open spec fn spec_handshake(host: Seq<char>, port: u16) -> Seq<u8> {
    seq![PROTOCOL_VERSION] + varint_encoding(encode_utf8(host).len() as u32) + encode_utf8(host)
        + seq![(port >> 8) as u8, (port & 0xFF) as u8] + seq![0x01u8]
}

/// Builds the handshake packet body: version byte, varint-length-prefixed
/// hostname, big-endian port, and the next-state byte that selects the
/// status exchange.
pub fn build_handshake(host: &str, port: u16) -> (out: Vec<u8>)
    requires
        host.spec_bytes().len() <= 0x7FFF_FFFF,
    ensures
        out@ == spec_handshake(host@, port),
{
    let host_bytes = host.as_bytes_vec();
    let mut out: Vec<u8> = Vec::new();
    out.push(PROTOCOL_VERSION);
    let mut len_prefix = varint_encode(host_bytes.len() as i32);
    proof {
        assert((host_bytes@.len() as i32) as u32 == host_bytes@.len() as u32);
    }
    out.append(&mut len_prefix);
    let mut body = host_bytes;
    out.append(&mut body);
    proof {
        assert(port >> 8 < 256) by (bit_vector);
        assert(port & 0xFF < 256) by (bit_vector);
    }
    let hi = (port >> 8) as u8;
    let lo = (port & 0xFF) as u8;
    out.push(hi);
    out.push(lo);
    out.push(0x01);
    proof {
        assert(out@ =~= spec_handshake(host@, port));
    }
    out
}

/// The empty status-request packet: a single zero byte.
pub fn status_request() -> (out: Vec<u8>)
    ensures
        out@ == seq![0u8],
{
    let mut out: Vec<u8> = Vec::new();
    out.push(0);
    proof {
        assert(out@ =~= seq![0u8]);
    }
    out
}

/// Reads the varint length prefix of a response from the first bytes
/// received: the payload length it declares and how many prefix bytes it
/// took, or nothing when the prefix is unterminated or declares a negative
/// length.
pub fn response_frame(prefix: &[u8]) -> (r: Option<(usize, usize)>)
    ensures
        r is None <==> (varint_parse(prefix@) is None || varint_parse(prefix@)->Some_0.0 < 0),
        r matches Some(p) ==> {
            &&& varint_parse(prefix@) == Some((p.0 as i32, p.1 as int))
            &&& p.0 <= 0x7FFF_FFFF
        },
{
    match varint_decode(prefix) {
        None => None,
        Some((value, consumed)) => {
            if value < 0 {
                None
            } else {
                Some((value as usize, consumed))
            }
        },
    }
}

/// The plain fields read out of a status payload, before defaulting: each
/// is present only when the payload holds it with the right shape.  A
/// sample entry whose name is not a string is carried as `None`.
#[derive(Debug)]
pub struct StatusDocument {
    pub version: Option<String>,
    pub description: Option<String>,
    pub online: Option<u64>,
    pub max: Option<u64>,
    pub sample: Option<Vec<Option<String>>>,
    pub favicon: Option<String>,
}

/// Mathematical value of a `StatusDocument`.
pub struct DocumentView {
    pub version: Option<Seq<char>>,
    pub description: Option<Seq<char>>,
    pub online: Option<u64>,
    pub max: Option<u64>,
    pub sample: Option<Seq<Option<Seq<char>>>>,
    pub favicon: Option<Seq<char>>,
}

impl View for StatusDocument {
    type V = DocumentView;

    open spec fn view(&self) -> DocumentView {
        DocumentView {
            version: match self.version {
                Some(ref s) => Some(s@),
                None => None,
            },
            description: match self.description {
                Some(ref s) => Some(s@),
                None => None,
            },
            online: self.online,
            max: self.max,
            sample: match self.sample {
                Some(ref v) => Some(v.deep_view()),
                None => None,
            },
            favicon: match self.favicon {
                Some(ref s) => Some(s@),
                None => None,
            },
        }
    }
}

/// One status query's result.
#[derive(Debug)]
pub struct StatusSnapshot {
    pub online: bool,
    pub version: String,
    pub description: String,
    pub player_count: u64,
    pub player_max: u64,
    pub sample: String,
    pub favicon: Option<Vec<u8>>,
}

/// Mathematical value of a `StatusSnapshot`.
pub struct SnapshotView {
    pub online: bool,
    pub version: Seq<char>,
    pub description: Seq<char>,
    pub player_count: u64,
    pub player_max: u64,
    pub sample: Seq<char>,
    pub favicon: Option<Seq<u8>>,
}

impl View for StatusSnapshot {
    type V = SnapshotView;

    open spec fn view(&self) -> SnapshotView {
        SnapshotView {
            online: self.online,
            version: self.version@,
            description: self.description@,
            player_count: self.player_count,
            player_max: self.player_max,
            sample: self.sample@,
            favicon: match self.favicon {
                Some(ref b) => Some(b@),
                None => None,
            },
        }
    }
}

/// Whether the bytes parse as one JSON document; parsing is a function of
/// the bytes alone.
pub uninterp spec fn json_wf(bytes: Seq<u8>) -> bool;

/// The string at `version.name` of the payload, when it is one.
pub uninterp spec fn status_version_of(bytes: Seq<u8>) -> Option<Seq<char>>;

/// The string at `description.text` of the payload, when it is one.
pub uninterp spec fn status_description_of(bytes: Seq<u8>) -> Option<Seq<char>>;

/// The integer at `players.online` of the payload, when it is one.
pub uninterp spec fn status_online_of(bytes: Seq<u8>) -> Option<u64>;

/// The integer at `players.max` of the payload, when it is one.
pub uninterp spec fn status_max_of(bytes: Seq<u8>) -> Option<u64>;

/// The entries of the array at `players.sample`, each the string at its
/// `name` when it is one.
pub uninterp spec fn status_sample_of(bytes: Seq<u8>) -> Option<Seq<Option<Seq<char>>>>;

/// The string at `favicon` of the payload, when it is one.
pub uninterp spec fn status_favicon_of(bytes: Seq<u8>) -> Option<Seq<char>>;

/// The status fields that reading the payload yields, field by field;
/// like the parse itself, each is a function of the bytes alone.
pub open spec fn status_document_of(bytes: Seq<u8>) -> DocumentView {
    DocumentView {
        version: status_version_of(bytes),
        description: status_description_of(bytes),
        online: status_online_of(bytes),
        max: status_max_of(bytes),
        sample: status_sample_of(bytes),
        favicon: status_favicon_of(bytes),
    }
}

/// Relies on serde_json::from_slice: parsing succeeds exactly on
/// well-formed JSON.
#[verifier::external_body]
fn json_check(bytes: &[u8]) -> (r: bool)
    ensures
        r == json_wf(bytes@),
{
    serde_json::from_slice::<serde_json::Value>(bytes).is_ok()
}

/// Relies on serde_json (from_slice; Value::get and as_str): the string
/// at `version.name` of the payload.
#[verifier::external_body]
fn read_version(bytes: &[u8]) -> (r: Option<String>)
    ensures
        r.deep_view() == status_version_of(bytes@),
{
    let v: serde_json::Value = serde_json::from_slice(bytes).ok()?;
    let name = v.get("version")?.get("name")?.as_str()?;
    Some(name.to_owned())
}

/// Relies on serde_json (from_slice; Value::get and as_str): the string
/// at `description.text` of the payload.
#[verifier::external_body]
fn read_description(bytes: &[u8]) -> (r: Option<String>)
    ensures
        r.deep_view() == status_description_of(bytes@),
{
    let v: serde_json::Value = serde_json::from_slice(bytes).ok()?;
    let text = v.get("description")?.get("text")?.as_str()?;
    Some(text.to_owned())
}

/// Relies on serde_json (from_slice; Value::get and as_u64): the integer
/// at `players.online` of the payload.
#[verifier::external_body]
fn read_online(bytes: &[u8]) -> (r: Option<u64>)
    ensures
        r == status_online_of(bytes@),
{
    let v: serde_json::Value = serde_json::from_slice(bytes).ok()?;
    v.get("players")?.get("online")?.as_u64()
}

/// Relies on serde_json (from_slice; Value::get and as_u64): the integer
/// at `players.max` of the payload.
#[verifier::external_body]
fn read_max(bytes: &[u8]) -> (r: Option<u64>)
    ensures
        r == status_max_of(bytes@),
{
    let v: serde_json::Value = serde_json::from_slice(bytes).ok()?;
    v.get("players")?.get("max")?.as_u64()
}

/// Relies on serde_json (from_slice; Value::get, as_array and as_str):
/// the entries of the array at `players.sample`, each its `name` string.
#[verifier::external_body]
fn read_sample(bytes: &[u8]) -> (r: Option<Vec<Option<String>>>)
    ensures
        r.deep_view() == status_sample_of(bytes@),
{
    let v: serde_json::Value = serde_json::from_slice(bytes).ok()?;
    let entries = v.get("players")?.get("sample")?.as_array()?;
    Some(
        entries
            .iter()
            .map(|e| e.get("name").and_then(|n| n.as_str()).map(|s| s.to_owned()))
            .collect(),
    )
}

/// Relies on serde_json (from_slice; Value::get and as_str): the string
/// at `favicon` of the payload.
#[verifier::external_body]
fn read_favicon(bytes: &[u8]) -> (r: Option<String>)
    ensures
        r.deep_view() == status_favicon_of(bytes@),
{
    let v: serde_json::Value = serde_json::from_slice(bytes).ok()?;
    let favicon = v.get("favicon")?.as_str()?;
    Some(favicon.to_owned())
}

/// Reads the status fields out of one payload: the document they form
/// when the payload is well-formed JSON, nothing otherwise.
fn read_status_document(bytes: &[u8]) -> (r: Option<StatusDocument>)
    ensures
        r is Some <==> json_wf(bytes@),
        r matches Some(doc) ==> doc@ == status_document_of(bytes@),
{
    if !json_check(bytes) {
        return None;
    }
    let doc = StatusDocument {
        version: read_version(bytes),
        description: read_description(bytes),
        online: read_online(bytes),
        max: read_max(bytes),
        sample: read_sample(bytes),
        favicon: read_favicon(bytes),
    };
    proof {
        assert(doc@ == status_document_of(bytes@));
    }
    Some(doc)
}

/// What the base64 decoder returns on the given input, when it accepts it;
/// the result depends on the input alone.
pub uninterp spec fn base64_decoding(s: Seq<u8>) -> Option<Seq<u8>>;

/// Relies on base64's standard-alphabet engine: decoding succeeds exactly
/// on well-formed input and its result is a function of the input.
#[verifier::external_body]
fn base64_decode(input: &[u8]) -> (r: Result<Vec<u8>, base64::DecodeError>)
    ensures
        r matches Ok(v) ==> base64_decoding(input@) == Some(v@),
        r is Err ==> base64_decoding(input@) is None,
{
    base64::Engine::decode(&base64::engine::general_purpose::STANDARD, input)
}

#[verifier::external_type_specification]
#[verifier::external_body]
pub struct ExDecodeError(base64::DecodeError);

/// The base64 body of a favicon string: everything after the first comma
/// of its UTF-8 bytes, or nothing when no comma occurs.
pub open spec fn spec_after_comma(b: Seq<u8>) -> Option<Seq<u8>>
    decreases b.len(),
{
    if b.len() == 0 {
        None
    } else if b[0] == COMMA {
        Some(b.skip(1))
    } else {
        spec_after_comma(b.skip(1))
    }
}

/// The favicon bytes of a payload: the base64 body after the data-URL
/// prefix, decoded; nothing when the field is absent, has no comma, or
/// does not decode.
pub open spec fn spec_favicon_of(favicon: Option<Seq<char>>) -> Option<Seq<u8>> {
    match favicon {
        None => None,
        Some(s) => match spec_after_comma(encode_utf8(s)) {
            None => None,
            Some(body) => base64_decoding(body),
        },
    }
}

/// The displayed name of each sample entry: its name when the payload
/// holds one, else the JSON null spelling, as the raw payload shows it.
pub open spec fn spec_sample_names(entries: Seq<Option<Seq<char>>>) -> Seq<Seq<char>> {
    entries.map_values(
        |e: Option<Seq<char>>|
            match e {
                Some(name) => name,
                None => "null"@,
            },
    )
}

/// The snapshot a payload with these fields yields: every absent or
/// malformed field falls back to its default.
pub open spec fn spec_snapshot_of(doc: DocumentView) -> SnapshotView {
    SnapshotView {
        online: true,
        version: match doc.version {
            Some(v) => v,
            None => "Unknown"@,
        },
        description: match doc.description {
            Some(d) => d,
            None => Seq::empty(),
        },
        player_count: match doc.online {
            Some(n) => n,
            None => 0,
        },
        player_max: match doc.max {
            Some(n) => n,
            None => 0,
        },
        sample: match doc.sample {
            Some(entries) => spec_join(spec_sample_names(entries), ", "@),
            None => "Unknown"@,
        },
        favicon: spec_favicon_of(doc.favicon),
    }
}

/// The snapshot reported for a target that cannot be reached: offline,
/// with empty counts and no favicon.
pub open spec fn spec_offline_snapshot() -> SnapshotView {
    SnapshotView {
        online: false,
        version: "Unknown"@,
        description: Seq::empty(),
        player_count: 0,
        player_max: 0,
        sample: "None"@,
        favicon: None,
    }
}

/// The snapshot for an unreachable target.
pub fn offline_snapshot() -> (r: StatusSnapshot)
    ensures
        r@ == spec_offline_snapshot(),
{
    StatusSnapshot {
        online: false,
        version: String::from_str("Unknown"),
        description: String::new(),
        player_count: 0,
        player_max: 0,
        sample: String::from_str("None"),
        favicon: None,
    }
}

/// Everything after the first comma, or nothing when no comma occurs.
fn after_comma(bytes: &Vec<u8>) -> (r: Option<Vec<u8>>)
    ensures
        r is None <==> spec_after_comma(bytes@) is None,
        r matches Some(v) ==> spec_after_comma(bytes@) == Some(v@),
{
    let n = bytes.len();
    let mut i: usize = 0;
    proof {
        assert(bytes@.skip(0) =~= bytes@);
    }
    while i < n
        invariant
            0 <= i <= n == bytes@.len(),
            forall|j: int| 0 <= j < i ==> bytes@[j] != COMMA,
            spec_after_comma(bytes@) == spec_after_comma(bytes@.skip(i as int)),
        decreases n - i,
    {
        proof {
            lemma_after_comma_step(bytes@, i as int);
        }
        if bytes[i] == COMMA {
            let body = vstd::slice::slice_to_vec(
                vstd::slice::slice_subrange(bytes.as_slice(), i + 1, n),
            );
            proof {
                assert(bytes@.subrange(i as int + 1, n as int) =~= bytes@.skip(i as int).skip(1));
            }
            return Some(body);
        }
        i = i + 1;
    }
    proof {
        assert(bytes@.skip(i as int).len() == 0);
        assert(spec_after_comma(bytes@.skip(i as int)) is None);
    }
    None
}

/// One unfolding of the comma search.
proof fn lemma_after_comma_step(b: Seq<u8>, i: int)
    requires
        0 <= i < b.len(),
    ensures
        b[i] == COMMA ==> spec_after_comma(b.skip(i)) == Some(b.skip(i).skip(1)),
        b[i] != COMMA ==> spec_after_comma(b.skip(i)) == spec_after_comma(b.skip(i + 1)),
{
    assert(b.skip(i)[0] == b[i]);
    assert(b.skip(i).skip(1) =~= b.skip(i + 1));
}

/// Applies the defaulting rules to the fields read from a payload.
pub fn snapshot_of_document(doc: StatusDocument) -> (r: StatusSnapshot)
    ensures
        r@ == spec_snapshot_of(doc@),
{
    let favicon = match &doc.favicon {
        None => None,
        Some(s) => {
            let bytes = s.as_str().as_bytes_vec();
            match after_comma(&bytes) {
                None => None,
                Some(body) => match base64_decode(body.as_slice()) {
                    Ok(v) => Some(v),
                    Err(_) => None,
                },
            }
        },
    };
    let version = match doc.version {
        Some(v) => v,
        None => String::from_str("Unknown"),
    };
    let description = match doc.description {
        Some(d) => d,
        None => String::new(),
    };
    let player_count = match doc.online {
        Some(n) => n,
        None => 0,
    };
    let player_max = match doc.max {
        Some(n) => n,
        None => 0,
    };
    let sample = match &doc.sample {
        Some(entries) => crate::text::join_with(&sample_display_names(entries), ", "),
        None => String::from_str("Unknown"),
    };
    StatusSnapshot { online: true, version, description, player_count, player_max, sample, favicon }
}

/// The displayed name of each sample entry, with the null spelling for an
/// entry that carries none.
fn sample_display_names(entries: &Vec<Option<String>>) -> (r: Vec<String>)
    ensures
        r.deep_view() == spec_sample_names(entries.deep_view()),
{
    let mut names: Vec<String> = Vec::new();
    let n = entries.len();
    let mut i: usize = 0;
    while i < n
        invariant
            0 <= i <= n == entries@.len(),
            names.deep_view() =~= spec_sample_names(entries.deep_view().take(i as int)),
        decreases n - i,
    {
        let ghost pre = names.deep_view();
        match &entries[i] {
            Some(s) => names.push(s.clone()),
            None => names.push(String::from_str("null")),
        }
        proof {
            assert(entries@[i as int].deep_view() == entries.deep_view()[i as int]);
            assert(names.deep_view() =~= pre.push(names.deep_view().last()));
            assert(entries.deep_view().take(i as int + 1) =~= entries.deep_view().take(
                i as int,
            ).push(entries.deep_view()[i as int]));
            assert(names.deep_view() =~= spec_sample_names(
                entries.deep_view().take(i as int + 1),
            ));
        }
        i = i + 1;
    }
    proof {
        assert(entries.deep_view().take(n as int) =~= entries.deep_view());
    }
    names
}

/// Parses one status payload: well-formed JSON yields the snapshot of its
/// fields with the defaulting rules applied; anything else is a malformed
/// response.
pub fn parse_status_payload(bytes: &[u8]) -> (r: Result<StatusSnapshot, StatusError>)
    ensures
        r is Err <==> !json_wf(bytes@),
        r matches Err(e) ==> e == StatusError::MalformedResponse,
        r matches Ok(snap) ==> snap@ == spec_snapshot_of(status_document_of(bytes@)),
{
    match read_status_document(bytes) {
        None => Err(StatusError::MalformedResponse),
        Some(doc) => Ok(snapshot_of_document(doc)),
    }
}

} // verus!
