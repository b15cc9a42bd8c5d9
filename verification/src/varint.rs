//! Varint codec of the status-ping protocol: 32-bit signed values in the
//! 7-bit continuation format, least-significant group first, with the high
//! bit of each byte as the continuation flag.

use vstd::prelude::*;

verus! {

/// The byte sequence that encodes `v`: the low 7 bits of each group, with
/// the continuation flag set on every byte but the last.
pub open spec fn varint_encoding(v: u32) -> Seq<u8>
    decreases v,
{
    if v < 0x80 {
        seq![v as u8]
    } else {
        seq![(v % 0x80 + 0x80) as u8] + varint_encoding(v / 0x80)
    }
}

/// Number of bytes of the varint that starts `s`, if a byte without the
/// continuation flag occurs within `fuel` bytes.
pub open spec fn varint_size_rec(s: Seq<u8>, fuel: nat) -> Option<int>
    decreases fuel,
{
    if fuel == 0 || s.len() == 0 {
        None
    } else if s[0] < 0x80 {
        Some(1)
    } else {
        match varint_size_rec(s.skip(1), (fuel - 1) as nat) {
            Some(n) => Some(n + 1),
            None => None,
        }
    }
}

/// Number of bytes consumed by the varint that starts `s`; decoding examines
/// at most 5 bytes, enough for the whole 32-bit range.
pub open spec fn varint_size(s: Seq<u8>) -> Option<int> {
    varint_size_rec(s, 5)
}

/// The non-negative integer denoted by the varint that starts `s`, reading
/// groups up to the first byte without the continuation flag.
pub open spec fn varint_value(s: Seq<u8>) -> int
    decreases s.len(),
{
    if s.len() == 0 {
        0
    } else if s[0] < 0x80 {
        s[0] as int
    } else {
        (s[0] - 0x80) + 0x80 * varint_value(s.skip(1))
    }
}

/// Decoding a varint from the front of `s`: the value (reinterpreted as a
/// 32-bit signed integer) and the number of bytes consumed, or nothing when
/// no byte within the first 5 ends the varint.
pub open spec fn varint_parse(s: Seq<u8>) -> Option<(i32, int)> {
    match varint_size(s) {
        Some(n) => Some((((varint_value(s) as u32) as i32), n)),
        None => None,
    }
}

/// Place value of the group at byte position `i`.
spec fn varint_place(i: int) -> int {
    if i <= 0 {
        1
    } else if i == 1 {
        0x80
    } else if i == 2 {
        0x4000
    } else if i == 3 {
        0x200000
    } else if i == 4 {
        0x10000000
    } else {
        0x800000000
    }
}

/// The encoding of a group value is never longer than 5 bytes: four
/// divisions by 128 bring any 32-bit value under 128.
pub proof fn lemma_varint_encoding_len(v: u32)
    ensures
        1 <= varint_encoding(v).len() <= 5,
{
    let v1 = v / 0x80;
    let v2 = v1 / 0x80;
    let v3 = v2 / 0x80;
    let v4 = v3 / 0x80;
    assert(v4 < 0x80) by (nonlinear_arith)
        requires
            v1 == v / 0x80 && v2 == v1 / 0x80 && v3 == v2 / 0x80 && v4 == v3 / 0x80,
    ;
    if v < 0x80 {
        assert(varint_encoding(v).len() == 1);
    } else {
        assert(varint_encoding(v).len() == 1 + varint_encoding(v1).len());
        if v1 < 0x80 {
            assert(varint_encoding(v1).len() == 1);
        } else {
            assert(varint_encoding(v1).len() == 1 + varint_encoding(v2).len());
            if v2 < 0x80 {
                assert(varint_encoding(v2).len() == 1);
            } else {
                assert(varint_encoding(v2).len() == 1 + varint_encoding(v3).len());
                if v3 < 0x80 {
                    assert(varint_encoding(v3).len() == 1);
                } else {
                    assert(varint_encoding(v3).len() == 1 + varint_encoding(v4).len());
                    assert(varint_encoding(v4).len() == 1);
                }
            }
        }
    }
}

/// Decoding the encoding of `v` gives back `v`.
pub proof fn lemma_varint_value_encoding(v: u32)
    ensures
        varint_value(varint_encoding(v)) == v,
    decreases v,
{
    if v < 0x80 {
    } else {
        assert(v / 0x80 < v) by (nonlinear_arith)
            requires
                v >= 0x80,
        ;
        lemma_varint_value_encoding(v / 0x80);
        let s = varint_encoding(v);
        assert(s.skip(1) =~= varint_encoding(v / 0x80));
        assert(v % 0x80 + 0x80 * (v / 0x80) == v) by (nonlinear_arith);
    }
}

/// The encoding of `v` is a terminated varint of exactly its own length,
/// seen with any fuel that covers it.
pub proof fn lemma_varint_size_encoding(v: u32, fuel: nat)
    requires
        varint_encoding(v).len() <= fuel,
    ensures
        varint_size_rec(varint_encoding(v), fuel) == Some(varint_encoding(v).len() as int),
    decreases v,
{
    if v < 0x80 {
    } else {
        assert(v / 0x80 < v) by (nonlinear_arith)
            requires
                v >= 0x80,
        ;
        let s = varint_encoding(v);
        assert(s.skip(1) =~= varint_encoding(v / 0x80));
        lemma_varint_size_encoding(v / 0x80, (fuel - 1) as nat);
    }
}

/// Law: for every 32-bit signed value, encoding and then decoding returns
/// the original value, and the encoding never has more than 5 bytes.
pub proof fn lemma_varint_round_trip(value: i32)
    ensures
        varint_encoding(value as u32).len() <= 5,
        varint_parse(varint_encoding(value as u32)) == Some((
            value,
            varint_encoding(value as u32).len() as int,
        )),
{
    let w = value as u32;
    lemma_varint_encoding_len(w);
    lemma_varint_value_encoding(w);
    lemma_varint_size_encoding(w, 5);
    assert((value as u32) as i32 == value) by (bit_vector);
}

/// Encodes `value` in the 7-bit continuation format; at most 5 bytes.
pub fn varint_encode(value: i32) -> (out: Vec<u8>)
    ensures
        out@ == varint_encoding(value as u32),
        1 <= out@.len() <= 5,
{
    let ghost w0: u32 = value as u32;
    let mut v: u32 = #[verifier::truncate] (value as u32);
    let mut out: Vec<u8> = Vec::new();
    proof {
        lemma_varint_encoding_len(w0);
    }
    loop
        invariant_except_break
            varint_encoding(w0) == out@ + varint_encoding(v),
        ensures
            out@ == varint_encoding(w0),
        decreases v,
    {
        if v < 0x80 {
            out.push(v as u8);
            proof {
                assert(out@ =~= varint_encoding(w0));
            }
            break;
        }
        out.push((v % 0x80 + 0x80) as u8);
        proof {
            assert(out@ + varint_encoding(v / 0x80) =~= varint_encoding(w0));
            assert(v / 0x80 < v) by (nonlinear_arith)
                requires
                    v >= 0x80,
            ;
        }
        v = v / 0x80;
    }
    out
}

/// Decodes a varint from the front of `bytes`: the value and the number of
/// bytes consumed, or `None` when no byte within the first 5 ends it.
pub fn varint_decode(bytes: &[u8]) -> (r: Option<(i32, usize)>)
    ensures
        r is Some <==> varint_parse(bytes@) is Some,
        r matches Some(p) ==> varint_parse(bytes@) == Some((p.0, p.1 as int)),
{
    let mut acc: u64 = 0;
    let mut mult: u64 = 1;
    let mut i: usize = 0;
    let n: usize = if bytes.len() < 5 {
        bytes.len()
    } else {
        5
    };
    proof {
        assert(bytes@.skip(0) =~= bytes@);
    }
    while i < n && bytes[i] >= 0x80
        invariant
            0 <= i <= n,
            n <= bytes@.len(),
            n == if bytes@.len() < 5 {
                bytes@.len() as int
            } else {
                5
            },
            forall|j: int| 0 <= j < i ==> bytes@[j] >= 0x80,
            mult == varint_place(i as int),
            acc < mult,
            acc + mult * varint_value(bytes@.skip(i as int)) == varint_value(bytes@),
        decreases n - i,
    {
        let b = bytes[i];
        proof {
            lemma_value_split_step(bytes@, i as int);
            let d = (b - 0x80) as int;
            let tail = varint_value(bytes@.skip(i as int + 1));
            assert(acc + mult * d + (mult * 0x80) * tail == acc + mult * (d + 0x80 * tail))
                by (nonlinear_arith);
            assert(mult * d <= 0x10000000 * 0x7F) by (nonlinear_arith)
                requires
                    0 <= d <= 0x7F && 0 < mult <= 0x10000000,
            ;
            assert(acc + mult * d < mult * 0x80) by (nonlinear_arith)
                requires
                    acc < mult && 0 <= d <= 0x7F && 0 < mult,
            ;
        }
        acc = acc + mult * ((b - 0x80) as u64);
        mult = mult * 0x80;
        i = i + 1;
    }
    if i < n {
        let b = bytes[i];
        proof {
            lemma_terminated_size(bytes@, i as int);
            lemma_value_split(bytes@, i as int);
            assert(mult * (b as int) <= 0x10000000 * 0x7F) by (nonlinear_arith)
                requires
                    0 <= b < 0x80 && 0 < mult <= 0x10000000,
            ;
        }
        let wide: u64 = acc + mult * (b as u64);
        let value: i32 = #[verifier::truncate] ((#[verifier::truncate] (wide as u32)) as i32);
        Some((value, i + 1))
    } else {
        proof {
            lemma_no_terminator_no_size(bytes@, i as int);
        }
        None
    }
}

/// If the first `min(len, 5)` bytes all carry the continuation flag, the
/// varint is unterminated.
proof fn lemma_no_terminator_no_size(s: Seq<u8>, i: int)
    requires
        i == if s.len() < 5 {
            s.len() as int
        } else {
            5
        },
        forall|j: int| 0 <= j < i ==> s[j] >= 0x80,
    ensures
        varint_size_rec(s, 5) is None,
{
    lemma_size_skip(s, 0, 5);
    assert(s.skip(0) =~= s);
}

proof fn lemma_size_skip(s: Seq<u8>, k: int, fuel: nat)
    requires
        0 <= k <= s.len(),
        fuel + k == 5,
        forall|j: int| 0 <= j < 5 && j < s.len() ==> s[j] >= 0x80,
    ensures
        varint_size_rec(s.skip(k), fuel) is None,
    decreases fuel,
{
    let t = s.skip(k);
    if fuel == 0 || t.len() == 0 {
    } else {
        assert(t[0] == s[k]);
        assert(t.skip(1) =~= s.skip(k + 1));
        lemma_size_skip(s, k + 1, (fuel - 1) as nat);
    }
}

/// A terminator at position `i < 5` makes the varint `i + 1` bytes long.
proof fn lemma_terminated_size(s: Seq<u8>, i: int)
    requires
        0 <= i < 5,
        i < s.len(),
        s[i] < 0x80,
        forall|j: int| 0 <= j < i ==> s[j] >= 0x80,
    ensures
        varint_size_rec(s, 5) == Some(i + 1),
{
    lemma_terminated_size_rec(s, 0, i);
    assert(s.skip(0) =~= s);
}

proof fn lemma_terminated_size_rec(s: Seq<u8>, k: int, i: int)
    requires
        0 <= k <= i < 5,
        i < s.len(),
        s[i] < 0x80,
        forall|j: int| 0 <= j < i ==> s[j] >= 0x80,
    ensures
        varint_size_rec(s.skip(k), (5 - k) as nat) == Some(i + 1 - k),
    decreases i - k,
{
    let t = s.skip(k);
    assert(t[0] == s[k]);
    if k == i {
    } else {
        assert(t.skip(1) =~= s.skip(k + 1));
        lemma_terminated_size_rec(s, k + 1, i);
    }
}

/// At a byte without the continuation flag the remaining groups denote just
/// that byte.
proof fn lemma_value_split(s: Seq<u8>, i: int)
    requires
        0 <= i < s.len(),
        s[i] < 0x80,
    ensures
        varint_value(s.skip(i)) == s[i] as int,
{
    assert(s.skip(i)[0] == s[i]);
}

/// Peeling one continuation byte off the front of the remaining groups.
proof fn lemma_value_split_step(s: Seq<u8>, i: int)
    requires
        0 <= i < s.len(),
        s[i] >= 0x80,
    ensures
        varint_value(s.skip(i)) == (s[i] - 0x80) + 0x80 * varint_value(s.skip(i + 1)),
{
    let t = s.skip(i);
    assert(t[0] == s[i]);
    assert(t.skip(1) =~= s.skip(i + 1));
}

} // verus!
