//! Persistence of the service registry across restarts.
//!
//! The store is a flat byte record: a descriptor count, then one record per
//! descriptor.  Integers are little-endian; strings are a length followed
//! by their UTF-8 bytes.  Decoding mirrors encoding exactly, and a decoded
//! list re-creates the registry through the ordinary start path, so a
//! crafted store can never break the one-service-per-channel invariant.

use crate::monitor::has_channel;
use crate::monitor::registry_wf;
use crate::monitor::DescriptorView;
use crate::monitor::MonitorDescriptor;
use crate::monitor::MonitorType;
use crate::monitor::MonitorTypeView;
use crate::monitor::ServiceRegistry;
use vstd::bytes::lemma_auto_spec_u16_to_from_le_bytes;
use vstd::bytes::lemma_auto_spec_u64_to_from_le_bytes;
use vstd::bytes::spec_u16_to_le_bytes;
use vstd::bytes::spec_u16_from_le_bytes;
use vstd::bytes::spec_u64_to_le_bytes;
use vstd::bytes::spec_u64_from_le_bytes;
use vstd::bytes::u16_from_le_bytes;
use vstd::bytes::u16_to_le_bytes;
use vstd::bytes::u64_from_le_bytes;
use vstd::bytes::u64_to_le_bytes;
use vstd::prelude::*;
use vstd::slice::slice_subrange;
use vstd::slice::slice_to_vec;
use vstd::string::StrSliceExecFns;
use vstd::string::StringSliceAdditionalSpecFns;
use vstd::utf8::decode_utf8;
use vstd::utf8::encode_utf8;
use vstd::utf8::encode_utf8_decode_utf8;
use vstd::utf8::encode_utf8_valid_utf8;
use vstd::utf8::valid_utf8;

verus! {

/// Record tag of the status variant.
pub const TAG_STATUS: u8 = 1;

/// Record tag of the advancement variant.
pub const TAG_ADVANCEMENT: u8 = 2;

/// Record tag of the death variant.
pub const TAG_DEATH: u8 = 3;

/// A string in the store: length, then UTF-8 bytes.
pub open spec fn spec_string_bytes(s: Seq<char>) -> Seq<u8> {
    spec_u64_to_le_bytes(encode_utf8(s).len() as u64) + encode_utf8(s)
}

/// A monitor variant in the store: tag byte, then its fields.
pub open spec fn spec_mtype_bytes(t: MonitorTypeView) -> Seq<u8> {
    match t {
        MonitorTypeView::Status { name, host, port, mid } => seq![TAG_STATUS]
            + spec_string_bytes(name) + spec_string_bytes(host) + spec_u16_to_le_bytes(port)
            + spec_u64_to_le_bytes(mid),
        MonitorTypeView::Advancement { port } => seq![TAG_ADVANCEMENT] + spec_u16_to_le_bytes(
            port,
        ),
        MonitorTypeView::Death { port } => seq![TAG_DEATH] + spec_u16_to_le_bytes(port),
    }
}

/// A descriptor in the store: channel, then the variant.
pub open spec fn spec_descriptor_bytes(d: DescriptorView) -> Seq<u8> {
    spec_u64_to_le_bytes(d.channel_id) + spec_mtype_bytes(d.monitor_type)
}

/// The records of all the descriptors, in order.
pub open spec fn spec_descs_bytes(s: Seq<DescriptorView>) -> Seq<u8>
    decreases s.len(),
{
    if s.len() == 0 {
        Seq::empty()
    } else {
        spec_descriptor_bytes(s[0]) + spec_descs_bytes(s.skip(1))
    }
}

/// The whole store: descriptor count, then the records.
pub open spec fn spec_registry_bytes(s: Seq<DescriptorView>) -> Seq<u8> {
    spec_u64_to_le_bytes(s.len() as u64) + spec_descs_bytes(s)
}

/// Reading a string back: its characters and the bytes consumed, or
/// nothing when the bytes run out or are not UTF-8.
pub open spec fn spec_parse_string(bytes: Seq<u8>) -> Option<(Seq<char>, int)> {
    if bytes.len() < 8 {
        None
    } else {
        let n = spec_u64_from_le_bytes(bytes.subrange(0, 8)) as int;
        if bytes.len() < 8 + n {
            None
        } else {
            let b = bytes.subrange(8, 8 + n);
            if valid_utf8(b) {
                Some((decode_utf8(b), 8 + n))
            } else {
                None
            }
        }
    }
}

/// Reading a monitor variant back: the variant and the bytes consumed.
pub open spec fn spec_parse_mtype(bytes: Seq<u8>) -> Option<(MonitorTypeView, int)> {
    if bytes.len() < 1 {
        None
    } else if bytes[0] == TAG_STATUS {
        match spec_parse_string(bytes.skip(1)) {
            Some((name, n1)) => match spec_parse_string(bytes.skip(1 + n1)) {
                Some((host, n2)) => {
                    let rest = bytes.skip(1 + n1 + n2);
                    if rest.len() < 10 {
                        None
                    } else {
                        Some(
                            (
                                MonitorTypeView::Status {
                                    name,
                                    host,
                                    port: spec_u16_from_le_bytes(rest.subrange(0, 2)),
                                    mid: spec_u64_from_le_bytes(rest.subrange(2, 10)),
                                },
                                1 + n1 + n2 + 10,
                            ),
                        )
                    }
                },
                None => None,
            },
            None => None,
        }
    } else if bytes[0] == TAG_ADVANCEMENT {
        if bytes.len() < 3 {
            None
        } else {
            Some(
                (
                    MonitorTypeView::Advancement {
                        port: spec_u16_from_le_bytes(bytes.subrange(1, 3)),
                    },
                    3,
                ),
            )
        }
    } else if bytes[0] == TAG_DEATH {
        if bytes.len() < 3 {
            None
        } else {
            Some(
                (MonitorTypeView::Death { port: spec_u16_from_le_bytes(bytes.subrange(1, 3)) }, 3),
            )
        }
    } else {
        None
    }
}

/// Reading one descriptor back: the descriptor and the bytes consumed.
pub open spec fn spec_parse_descriptor(bytes: Seq<u8>) -> Option<(DescriptorView, int)> {
    if bytes.len() < 8 {
        None
    } else {
        match spec_parse_mtype(bytes.skip(8)) {
            Some((t, n)) => Some(
                (
                    DescriptorView {
                        channel_id: spec_u64_from_le_bytes(bytes.subrange(0, 8)),
                        monitor_type: t,
                    },
                    8 + n,
                ),
            ),
            None => None,
        }
    }
}

/// Reading `count` descriptors that consume the bytes exactly.
pub open spec fn spec_parse_descs(bytes: Seq<u8>, count: nat) -> Option<Seq<DescriptorView>>
    decreases count,
{
    if count == 0 {
        if bytes.len() == 0 {
            Some(Seq::empty())
        } else {
            None
        }
    } else {
        match spec_parse_descriptor(bytes) {
            Some((d, n)) => match spec_parse_descs(bytes.skip(n), (count - 1) as nat) {
                Some(rest) => Some(seq![d] + rest),
                None => None,
            },
            None => None,
        }
    }
}

/// Reading a whole store back.
pub open spec fn spec_parse_registry(bytes: Seq<u8>) -> Option<Seq<DescriptorView>> {
    if bytes.len() < 8 {
        None
    } else {
        spec_parse_descs(
            bytes.skip(8),
            spec_u64_from_le_bytes(bytes.subrange(0, 8)) as nat,
        )
    }
}

/// The store length of a string field stays within its length prefix.
pub open spec fn bounded_string(s: Seq<char>) -> bool {
    encode_utf8(s).len() < 0x1_0000_0000_0000_0000
}

/// Every string of the descriptor fits its length prefix.
pub open spec fn bounded_descriptor(d: DescriptorView) -> bool {
    match d.monitor_type {
        MonitorTypeView::Status { name, host, .. } => bounded_string(name) && bounded_string(host),
        _ => true,
    }
}

/// Reading a string record back gives the characters written, whatever
/// follows it.
proof fn lemma_parse_string_round(s: Seq<char>, rest: Seq<u8>)
    requires
        bounded_string(s),
    ensures
        spec_parse_string(spec_string_bytes(s) + rest) == Some(
            (s, spec_string_bytes(s).len() as int),
        ),
{
    lemma_auto_spec_u64_to_from_le_bytes();
    encode_utf8_valid_utf8(s);
    encode_utf8_decode_utf8(s);
    let b = encode_utf8(s);
    let all = spec_string_bytes(s) + rest;
    assert(all.subrange(0, 8) =~= spec_u64_to_le_bytes(b.len() as u64));
    assert(all.subrange(8, 8 + b.len() as int) =~= b);
}

/// Reading a variant record back gives the variant written, whatever
/// follows it.
proof fn lemma_parse_mtype_round(t: MonitorTypeView, rest: Seq<u8>)
    requires
        bounded_descriptor(DescriptorView { channel_id: 0, monitor_type: t }),
    ensures
        spec_parse_mtype(spec_mtype_bytes(t) + rest) == Some(
            (t, spec_mtype_bytes(t).len() as int),
        ),
{
    lemma_auto_spec_u16_to_from_le_bytes();
    lemma_auto_spec_u64_to_from_le_bytes();
    let all = spec_mtype_bytes(t) + rest;
    match t {
        MonitorTypeView::Status { name, host, port, mid } => {
            let nb = spec_string_bytes(name);
            let hb = spec_string_bytes(host);
            let fixed = spec_u16_to_le_bytes(port) + spec_u64_to_le_bytes(mid);
            assert(all[0] == TAG_STATUS);
            assert(all.skip(1) =~= nb + (hb + fixed + rest));
            lemma_parse_string_round(name, hb + fixed + rest);
            assert(all.skip(1 + nb.len() as int) =~= hb + (fixed + rest));
            lemma_parse_string_round(host, fixed + rest);
            let tail = all.skip(1 + nb.len() as int + hb.len() as int);
            assert(tail =~= fixed + rest);
            assert(tail.subrange(0, 2) =~= spec_u16_to_le_bytes(port));
            assert(tail.subrange(2, 10) =~= spec_u64_to_le_bytes(mid));
        },
        MonitorTypeView::Advancement { port } => {
            assert(all[0] == TAG_ADVANCEMENT);
            assert(all.subrange(1, 3) =~= spec_u16_to_le_bytes(port));
        },
        MonitorTypeView::Death { port } => {
            assert(all[0] == TAG_DEATH);
            assert(all.subrange(1, 3) =~= spec_u16_to_le_bytes(port));
        },
    }
}

/// Reading a descriptor record back gives the descriptor written, whatever
/// follows it.
proof fn lemma_parse_descriptor_round(d: DescriptorView, rest: Seq<u8>)
    requires
        bounded_descriptor(d),
    ensures
        spec_parse_descriptor(spec_descriptor_bytes(d) + rest) == Some(
            (d, spec_descriptor_bytes(d).len() as int),
        ),
{
    lemma_auto_spec_u64_to_from_le_bytes();
    let all = spec_descriptor_bytes(d) + rest;
    assert(all.subrange(0, 8) =~= spec_u64_to_le_bytes(d.channel_id));
    assert(all.skip(8) =~= spec_mtype_bytes(d.monitor_type) + rest);
    lemma_parse_mtype_round(d.monitor_type, rest);
}

/// Reading the records of a descriptor list back gives the list written.
proof fn lemma_parse_descs_round(s: Seq<DescriptorView>)
    requires
        forall|i: int| 0 <= i < s.len() ==> bounded_descriptor(s[i]),
    ensures
        spec_parse_descs(spec_descs_bytes(s), s.len() as nat) == Some(s),
    decreases s.len(),
{
    if s.len() == 0 {
        assert(spec_descs_bytes(s).len() == 0);
        assert(s =~= Seq::<DescriptorView>::empty());
    } else {
        let d = s[0];
        let tail = s.skip(1);
        let rest = spec_descs_bytes(tail);
        lemma_parse_descriptor_round(d, rest);
        lemma_parse_descs_round(tail);
        let all = spec_descs_bytes(s);
        assert(all =~= spec_descriptor_bytes(d) + rest);
        assert(all.skip(spec_descriptor_bytes(d).len() as int) =~= rest);
        assert(seq![d] + tail =~= s);
    }
}

/// Law: a persisted registry reads back as exactly the descriptors that
/// were written, so the restored set equals the persisted set.
pub proof fn lemma_persist_round_trip(s: Seq<DescriptorView>)
    requires
        s.len() < 0x1_0000_0000_0000_0000,
        forall|i: int| 0 <= i < s.len() ==> bounded_descriptor(s[i]),
    ensures
        spec_parse_registry(spec_registry_bytes(s)) == Some(s),
{
    lemma_auto_spec_u64_to_from_le_bytes();
    let all = spec_registry_bytes(s);
    assert(all.subrange(0, 8) =~= spec_u64_to_le_bytes(s.len() as u64));
    assert(all.skip(8) =~= spec_descs_bytes(s));
    lemma_parse_descs_round(s);
}

/// Appending one record to the records of a list.
proof fn lemma_descs_bytes_push(s: Seq<DescriptorView>, d: DescriptorView)
    ensures
        spec_descs_bytes(s.push(d)) == spec_descs_bytes(s) + spec_descriptor_bytes(d),
    decreases s.len(),
{
    if s.len() == 0 {
        assert(s.push(d)[0] == d);
        assert(s.push(d).skip(1) =~= Seq::<DescriptorView>::empty());
        assert(spec_descs_bytes(s.push(d).skip(1)) =~= Seq::<u8>::empty());
        assert(spec_descs_bytes(s) =~= Seq::<u8>::empty());
        assert(spec_descs_bytes(s.push(d)) =~= spec_descs_bytes(s) + spec_descriptor_bytes(d));
    } else {
        assert(s.push(d)[0] == s[0]);
        assert(s.push(d).skip(1) =~= s.skip(1).push(d));
        lemma_descs_bytes_push(s.skip(1), d);
        assert(spec_descs_bytes(s.push(d)) == spec_descriptor_bytes(s[0]) + spec_descs_bytes(
            s.skip(1).push(d),
        ));
        assert(spec_descs_bytes(s.push(d)) =~= spec_descs_bytes(s) + spec_descriptor_bytes(d));
    }
}

/// The bytes of one string field: length, then UTF-8 bytes.
fn string_record(s: &String) -> (out: Vec<u8>)
    ensures
        out@ == spec_string_bytes(s@),
{
    let bytes = s.as_str().as_bytes_vec();
    let mut out = u64_to_le_bytes(bytes.len() as u64);
    let mut body = bytes;
    out.append(&mut body);
    proof {
        assert(out@ =~= spec_string_bytes(s@));
    }
    out
}

/// The record of one descriptor.
fn descriptor_record(d: &MonitorDescriptor) -> (out: Vec<u8>)
    ensures
        out@ == spec_descriptor_bytes(d@),
{
    let mut out = u64_to_le_bytes(d.channel_id);
    match &d.monitor_type {
        MonitorType::Status { name, host, port, mid } => {
            out.push(TAG_STATUS);
            let mut nb = string_record(name);
            let mut hb = string_record(host);
            let mut pb = u16_to_le_bytes(*port);
            let mut mb = u64_to_le_bytes(*mid);
            out.append(&mut nb);
            out.append(&mut hb);
            out.append(&mut pb);
            out.append(&mut mb);
        },
        MonitorType::Advancement { port } => {
            out.push(TAG_ADVANCEMENT);
            let mut pb = u16_to_le_bytes(*port);
            out.append(&mut pb);
        },
        MonitorType::Death { port } => {
            out.push(TAG_DEATH);
            let mut pb = u16_to_le_bytes(*port);
            out.append(&mut pb);
        },
    }
    proof {
        assert(out@ =~= spec_descriptor_bytes(d@));
    }
    out
}

/// The registry that replaying a descriptor list through the start path
/// builds on top of `acc`: each channel's first descriptor is kept and
/// later duplicates are dropped.
pub open spec fn spec_first_occurrences(
    s: Seq<DescriptorView>,
    acc: Seq<DescriptorView>,
) -> Seq<DescriptorView>
    decreases s.len(),
{
    if s.len() == 0 {
        acc
    } else if has_channel(acc, s[0].channel_id) {
        spec_first_occurrences(s.skip(1), acc)
    } else {
        spec_first_occurrences(s.skip(1), acc.push(s[0]))
    }
}

impl ServiceRegistry {
    /// Serializes the registry's descriptors for the store; called on
    /// graceful shutdown.
    pub fn persist(&self) -> (out: Vec<u8>)
        ensures
            out@ == spec_registry_bytes(self@),
    {
        let entries = self.entries();
        let n = entries.len();
        let mut out = u64_to_le_bytes(n as u64);
        let mut i: usize = 0;
        while i < n
            invariant
                0 <= i <= n == self@.len(),
                entries.deep_view() == self@,
                out@ == spec_u64_to_le_bytes(self@.len() as u64) + spec_descs_bytes(
                    self@.take(i as int),
                ),
            decreases n - i,
        {
            let mut rec = descriptor_record(&entries[i]);
            proof {
                assert(self@.take(i as int + 1) =~= self@.take(i as int).push(self@[i as int]));
                lemma_descs_bytes_push(self@.take(i as int), self@[i as int]);
                assert(entries[i as int]@ == self@[i as int]);
            }
            out.append(&mut rec);
            i = i + 1;
        }
        proof {
            assert(self@.take(n as int) =~= self@);
        }
        out
    }

    /// Re-creates a registry from the store.  An unreadable store restores
    /// an empty registry; each decoded descriptor goes through the normal
    /// start path, so duplicate channels in a crafted store are dropped and
    /// the one-service-per-channel invariant holds whatever was read.
    pub fn restore(bytes: &[u8]) -> (r: ServiceRegistry)
        ensures
            r.wf(),
            spec_parse_registry(bytes@) is None ==> r@ == Seq::<DescriptorView>::empty(),
            spec_parse_registry(bytes@) is Some ==> r@ == spec_first_occurrences(
                spec_parse_registry(bytes@)->Some_0,
                Seq::<DescriptorView>::empty(),
            ),
            spec_parse_registry(bytes@) is Some && registry_wf(spec_parse_registry(bytes@)->Some_0)
                ==> r@ == spec_parse_registry(bytes@)->Some_0,
    {
        let mut r = ServiceRegistry::new();
        let decoded = decode_registry(bytes);
        match decoded {
            None => r,
            Some(list) => {
                let ghost s = list.deep_view();
                let n = list.len();
                let mut i: usize = 0;
                proof {
                    assert(s.skip(0) =~= s);
                }
                while i < n
                    invariant
                        0 <= i <= n == list@.len(),
                        list.deep_view() == s,
                        r.wf(),
                        spec_first_occurrences(s.skip(i as int), r@) == spec_first_occurrences(
                            s,
                            Seq::<DescriptorView>::empty(),
                        ),
                        registry_wf(s) ==> r@ == s.take(i as int),
                    decreases n - i,
                {
                    let d = copy_descriptor(&list[i]);
                    proof {
                        assert(list[i as int]@ == s[i as int]);
                        assert(s.skip(i as int)[0] == s[i as int]);
                        assert(s.skip(i as int).skip(1) =~= s.skip(i as int + 1));
                        if registry_wf(s) {
                            assert(r@ == s.take(i as int));
                            assert forall|k: int| 0 <= k < r@.len() implies r@[k].channel_id
                                != s[i as int].channel_id by {
                                assert(r@[k] == s[k]);
                            }
                            assert(!has_channel(r@, s[i as int].channel_id));
                            assert(s.take(i as int + 1) =~= s.take(i as int).push(s[i as int]));
                        }
                    }
                    let _ = r.start(d);
                    i = i + 1;
                }
                proof {
                    assert(s.skip(n as int).len() == 0);
                    if registry_wf(s) {
                        assert(s.take(n as int) =~= s);
                    }
                }
                r
            },
        }
    }
}

/// A fresh descriptor with the same value.
fn copy_descriptor(d: &MonitorDescriptor) -> (r: MonitorDescriptor)
    ensures
        r@ == d@,
{
    let monitor_type = match &d.monitor_type {
        MonitorType::Status { name, host, port, mid } => MonitorType::Status {
            name: name.clone(),
            host: host.clone(),
            port: *port,
            mid: *mid,
        },
        MonitorType::Advancement { port } => MonitorType::Advancement { port: *port },
        MonitorType::Death { port } => MonitorType::Death { port: *port },
    };
    MonitorDescriptor { channel_id: d.channel_id, monitor_type }
}

/// Reads a string record at `pos`.
fn parse_string_at(bytes: &[u8], pos: usize) -> (r: Option<(String, usize)>)
    requires
        pos <= bytes@.len(),
    ensures
        r is None <==> spec_parse_string(bytes@.skip(pos as int)) is None,
        r matches Some((s, new_pos)) ==> {
            &&& pos < new_pos <= bytes@.len()
            &&& spec_parse_string(bytes@.skip(pos as int)) == Some((s@, new_pos - pos))
        },
{
    let remaining = bytes.len() - pos;
    if remaining < 8 {
        return None;
    }
    let len_raw = u64_from_le_bytes(slice_subrange(bytes, pos, pos + 8));
    proof {
        assert(bytes@.subrange(pos as int, pos as int + 8) =~= bytes@.skip(pos as int).subrange(
            0,
            8,
        ));
    }
    if len_raw > (remaining - 8) as u64 {
        return None;
    }
    let n = len_raw as usize;
    let body = slice_to_vec(slice_subrange(bytes, pos + 8, pos + 8 + n));
    proof {
        assert(bytes@.subrange(pos as int + 8, pos as int + 8 + n) =~= bytes@.skip(
            pos as int,
        ).subrange(8, 8 + n));
    }
    match crate::text::string_from_utf8(body) {
        Some(s) => Some((s, pos + 8 + n)),
        None => None,
    }
}

/// Reads one descriptor record at `pos`.
fn parse_descriptor_at(bytes: &[u8], pos: usize) -> (r: Option<(MonitorDescriptor, usize)>)
    requires
        pos <= bytes@.len(),
    ensures
        r is None <==> spec_parse_descriptor(bytes@.skip(pos as int)) is None,
        r matches Some((d, new_pos)) ==> {
            &&& pos < new_pos <= bytes@.len()
            &&& spec_parse_descriptor(bytes@.skip(pos as int)) == Some((d@, new_pos - pos))
        },
{
    let remaining = bytes.len() - pos;
    if remaining < 8 {
        return None;
    }
    let channel_id = u64_from_le_bytes(slice_subrange(bytes, pos, pos + 8));
    proof {
        assert(bytes@.subrange(pos as int, pos as int + 8) =~= bytes@.skip(pos as int).subrange(
            0,
            8,
        ));
        assert(bytes@.skip(pos as int + 8) =~= bytes@.skip(pos as int).skip(8));
    }
    match parse_mtype_at(bytes, pos + 8) {
        Some((monitor_type, new_pos)) => Some(
            (MonitorDescriptor { channel_id, monitor_type }, new_pos),
        ),
        None => None,
    }
}

/// Reads one monitor-variant record at `pos`.
fn parse_mtype_at(bytes: &[u8], pos: usize) -> (r: Option<(MonitorType, usize)>)
    requires
        pos <= bytes@.len(),
    ensures
        r is None <==> spec_parse_mtype(bytes@.skip(pos as int)) is None,
        r matches Some((t, new_pos)) ==> {
            &&& pos < new_pos <= bytes@.len()
            &&& spec_parse_mtype(bytes@.skip(pos as int)) == Some((t@, new_pos - pos))
        },
{
    let remaining = bytes.len() - pos;
    if remaining < 1 {
        return None;
    }
    let tag = bytes[pos];
    proof {
        assert(bytes@.skip(pos as int)[0] == bytes@[pos as int]);
    }
    if tag == TAG_STATUS {
        let ghost base = bytes@.skip(pos as int);
        proof {
            assert(base.skip(1) =~= bytes@.skip(pos as int + 1));
        }
        match parse_string_at(bytes, pos + 1) {
            Some((name, p1)) => {
                proof {
                    assert(base.skip(1 + (p1 - pos - 1)) =~= bytes@.skip(p1 as int));
                }
                match parse_string_at(bytes, p1) {
                    Some((host, p2)) => {
                        proof {
                            assert(base.skip(p2 - pos) =~= bytes@.skip(p2 as int));
                        }
                        if bytes.len() - p2 < 10 {
                            return None;
                        }
                        let port = u16_from_le_bytes(slice_subrange(bytes, p2, p2 + 2));
                        let mid = u64_from_le_bytes(slice_subrange(bytes, p2 + 2, p2 + 10));
                        proof {
                            assert(bytes@.subrange(p2 as int, p2 as int + 2) =~= bytes@.skip(
                                p2 as int,
                            ).subrange(0, 2));
                            assert(bytes@.subrange(p2 as int + 2, p2 as int + 10) =~= bytes@.skip(
                                p2 as int,
                            ).subrange(2, 10));
                        }
                        Some((MonitorType::Status { name, host, port, mid }, p2 + 10))
                    },
                    None => None,
                }
            },
            None => None,
        }
    } else if tag == TAG_ADVANCEMENT {
        if remaining < 3 {
            return None;
        }
        let port = u16_from_le_bytes(slice_subrange(bytes, pos + 1, pos + 3));
        proof {
            assert(bytes@.subrange(pos as int + 1, pos as int + 3) =~= bytes@.skip(
                pos as int,
            ).subrange(1, 3));
        }
        Some((MonitorType::Advancement { port }, pos + 3))
    } else if tag == TAG_DEATH {
        if remaining < 3 {
            return None;
        }
        let port = u16_from_le_bytes(slice_subrange(bytes, pos + 1, pos + 3));
        proof {
            assert(bytes@.subrange(pos as int + 1, pos as int + 3) =~= bytes@.skip(
                pos as int,
            ).subrange(1, 3));
        }
        Some((MonitorType::Death { port }, pos + 3))
    } else {
        None
    }
}

/// Reads a whole store: the descriptor list, or nothing when the store is
/// not a well-formed record.
pub fn decode_registry(bytes: &[u8]) -> (r: Option<Vec<MonitorDescriptor>>)
    ensures
        r is Some <==> spec_parse_registry(bytes@) is Some,
        r matches Some(v) ==> spec_parse_registry(bytes@) == Some(v.deep_view()),
{
    if bytes.len() < 8 {
        return None;
    }
    let count_raw = u64_from_le_bytes(slice_subrange(bytes, 0, 8));
    let mut acc: Vec<MonitorDescriptor> = Vec::new();
    let mut pos: usize = 8;
    let mut remaining: u64 = count_raw;
    while remaining > 0
        invariant
            8 <= pos <= bytes@.len(),
            count_raw == spec_u64_from_le_bytes(bytes@.subrange(0, 8)),
            acc.deep_view().len() + remaining == count_raw,
            spec_parse_descs(bytes@.skip(8), count_raw as nat) matches Some(whole) ==> {
                &&& spec_parse_descs(bytes@.skip(pos as int), remaining as nat) matches Some(rest)
                &&& whole == acc.deep_view() + rest
            },
            (spec_parse_descs(bytes@.skip(8), count_raw as nat) is None) ==> (spec_parse_descs(
                bytes@.skip(pos as int),
                remaining as nat,
            ) is None),
        decreases remaining,
    {
        match parse_descriptor_at(bytes, pos) {
            None => {
                proof {
                    assert(spec_parse_descs(bytes@.skip(pos as int), remaining as nat) is None);
                    assert(spec_parse_registry(bytes@) is None);
                }
                return None;
            },
            Some((d, new_pos)) => {
                let ghost old_acc = acc.deep_view();
                let ghost n = new_pos - pos;
                proof {
                    assert(bytes@.skip(pos as int).skip(n) =~= bytes@.skip(new_pos as int));
                }
                acc.push(d);
                proof {
                    assert(acc.deep_view() =~= old_acc.push(d@));
                    if spec_parse_descs(bytes@.skip(8), count_raw as nat) is Some {
                        let rest = spec_parse_descs(
                            bytes@.skip(pos as int),
                            remaining as nat,
                        )->Some_0;
                        let rest2 = spec_parse_descs(
                            bytes@.skip(new_pos as int),
                            (remaining - 1) as nat,
                        )->Some_0;
                        assert(rest == seq![d@] + rest2);
                        assert(old_acc + rest =~= old_acc.push(d@) + rest2);
                    }
                }
                pos = new_pos;
                remaining = remaining - 1;
            },
        }
    }
    if pos == bytes.len() {
        proof {
            assert(bytes@.skip(pos as int).len() == 0);
            if spec_parse_descs(bytes@.skip(8), count_raw as nat) is Some {
                let whole = spec_parse_descs(bytes@.skip(8), count_raw as nat)->Some_0;
                assert(whole =~= acc.deep_view());
            }
        }
        Some(acc)
    } else {
        None
    }
}

} // verus!
