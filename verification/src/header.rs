//! Lightweight header extraction from raw MessagePack message bytes.
//!
//! A pipeline `Message` is serialized as a one-entry map whose key names the
//! variant (`"Data"`, `"EndOfStream"`, `"Heartbeat"`) and whose value is the
//! variant's struct serialized as an array. Forwarders only need the source
//! id (and, for data, the sequence number), which are the first array
//! elements, so they read those without decoding the rest.

use vstd::prelude::*;

verus! {

/// Header info extracted from raw MessagePack bytes
#[derive(Debug, Clone, Copy, PartialEq, Eq, Structural)]
pub enum MessageHeader {
    /// Data batch with source_id and sequence_number
    Data { source_id: u32, sequence_number: u64 },
    /// End of stream
    EndOfStream { source_id: u32 },
    /// Heartbeat
    Heartbeat { source_id: u32 },
}

/// Big-endian value of `b[lo..hi]`.
pub open spec fn be_value(b: Seq<u8>, lo: int, hi: int) -> nat
    decreases hi - lo,
{
    if hi <= lo {
        0
    } else {
        be_value(b, lo, hi - 1) * 256 + b[hi - 1] as nat
    }
}

/// A MessagePack unsigned integer of at most 32 bits at the start of `b`:
/// its value and its encoded length.
pub open spec fn spec_uint32(b: Seq<u8>) -> Option<(nat, nat)> {
    if b.len() == 0 {
        None
    } else if b[0] <= 0x7f {
        Some((b[0] as nat, 1))
    } else if b[0] == 0xcc && b.len() >= 2 {
        Some((be_value(b, 1, 2), 2))
    } else if b[0] == 0xcd && b.len() >= 3 {
        Some((be_value(b, 1, 3), 3))
    } else if b[0] == 0xce && b.len() >= 5 {
        Some((be_value(b, 1, 5), 5))
    } else {
        None
    }
}

/// A MessagePack unsigned integer of at most 64 bits at the start of `b`:
/// its value and its encoded length.
pub open spec fn spec_uint64(b: Seq<u8>) -> Option<(nat, nat)> {
    if b.len() > 0 && b[0] == 0xcf && b.len() >= 9 {
        Some((be_value(b, 1, 9), 9))
    } else {
        spec_uint32(b)
    }
}

/// The length of an array header at the start of the value of a `Data`
/// entry (fixarray, array16, array32).
pub open spec fn data_array_header_len(b: Seq<u8>) -> Option<nat> {
    if b.len() == 0 {
        None
    } else if 0x90 <= b[0] <= 0x9f {
        Some(1)
    } else if b[0] == 0xdc && b.len() >= 3 {
        Some(3)
    } else if b[0] == 0xdd && b.len() >= 5 {
        Some(5)
    } else {
        None
    }
}

/// Header of a `Data` value: array header, source id, sequence number.
pub open spec fn spec_parse_data(b: Seq<u8>) -> Option<MessageHeader> {
    match data_array_header_len(b) {
        None => None,
        Some(p) => match spec_uint32(b.subrange(p as int, b.len() as int)) {
            None => None,
            Some((sid, n1)) => match spec_uint64(b.subrange((p + n1) as int, b.len() as int)) {
                None => None,
                Some((seq, _)) => Some(
                    MessageHeader::Data { source_id: sid as u32, sequence_number: seq as u64 },
                ),
            },
        },
    }
}

/// The source id that starts a fixarray value.
pub open spec fn spec_fixarray_source(b: Seq<u8>) -> Option<nat> {
    if b.len() == 0 || !(0x90 <= b[0] <= 0x9f) {
        None
    } else {
        match spec_uint32(b.subrange(1, b.len() as int)) {
            None => None,
            Some((sid, _)) => Some(sid),
        }
    }
}

/// The variant keys as bytes.
pub open spec fn key_data() -> Seq<u8> {
    seq![0x44u8, 0x61, 0x74, 0x61]
}

pub open spec fn key_eos() -> Seq<u8> {
    seq![0x45u8, 0x6e, 0x64, 0x4f, 0x66, 0x53, 0x74, 0x72, 0x65, 0x61, 0x6d]
}

pub open spec fn key_heartbeat() -> Seq<u8> {
    seq![0x48u8, 0x65, 0x61, 0x72, 0x74, 0x62, 0x65, 0x61, 0x74]
}

/// What `MessageHeader::parse` extracts from a byte sequence.
pub open spec fn spec_parse(b: Seq<u8>) -> Option<MessageHeader> {
    if b.len() < 3 || b[0] != 0x81 || !(0xa0 <= b[1] <= 0xbf) {
        None
    } else {
        let key_len = (b[1] - 0xa0) as int;
        if b.len() < 2 + key_len {
            None
        } else {
            let key = b.subrange(2, 2 + key_len);
            let rest = b.subrange(2 + key_len, b.len() as int);
            if key == key_data() {
                spec_parse_data(rest)
            } else if key == key_eos() {
                match spec_fixarray_source(rest) {
                    Some(sid) => Some(MessageHeader::EndOfStream { source_id: sid as u32 }),
                    None => None,
                }
            } else if key == key_heartbeat() {
                match spec_fixarray_source(rest) {
                    Some(sid) => Some(MessageHeader::Heartbeat { source_id: sid as u32 }),
                    None => None,
                }
            } else {
                None
            }
        }
    }
}

proof fn lemma_be_value_bound(b: Seq<u8>, lo: int, hi: int)
    requires
        lo <= hi,
    ensures
        be_value(b, lo, hi) < pow256(hi - lo),
    decreases hi - lo,
{
    if hi > lo {
        lemma_be_value_bound(b, lo, hi - 1);
        assert(be_value(b, lo, hi - 1) * 256 + (b[hi - 1] as nat) < pow256(hi - lo)) by (nonlinear_arith)
            requires
                be_value(b, lo, hi - 1) < pow256(hi - 1 - lo),
                pow256(hi - lo) == pow256(hi - 1 - lo) * 256,
                b[hi - 1] < 256,
        ;
    }
}

/// 256 to the power `n`.
pub open spec fn pow256(n: int) -> nat
    decreases n,
{
    if n <= 0 {
        1
    } else {
        256 * pow256(n - 1)
    }
}

/// `b[lo..hi]` as a big-endian number.
fn be_read(bytes: &[u8], lo: usize, hi: usize) -> (r: u64)
    requires
        lo <= hi <= bytes@.len(),
        hi - lo <= 8,
    ensures
        r as nat == be_value(bytes@, lo as int, hi as int),
{
    let mut v: u64 = 0;
    let mut i: usize = lo;
    while i < hi
        invariant
            lo <= i <= hi <= bytes@.len(),
            hi - lo <= 8,
            v as nat == be_value(bytes@, lo as int, i as int),
        decreases hi - i,
    {
        proof {
            lemma_be_value_bound(bytes@, lo as int, i as int);
            lemma_pow256_mono(i - lo, 7);
            reveal_with_fuel(pow256, 8);
                assert(pow256(7) == 72057594037927936);
        }
        assert(v * 256 + bytes@[i as int] < 0x1_0000_0000_0000_0000) by (nonlinear_arith)
            requires
                v < 72057594037927936,
                bytes@[i as int] < 256,
        ;
        v = v * 256 + bytes[i] as u64;
        i = i + 1;
    }
    v
}

proof fn lemma_pow256_mono(a: int, b: int)
    requires
        0 <= a <= b,
    ensures
        pow256(a) <= pow256(b),
    decreases b - a,
{
    if a < b {
        lemma_pow256_mono(a, b - 1);
    }
}

impl MessageHeader {
    /// Extract header info from raw MessagePack bytes without full
    /// deserialization. Returns `None` unless the bytes start with a
    /// one-entry map whose key is a known variant name and whose value
    /// starts with the fields the header needs.
    pub fn parse(bytes: &[u8]) -> (r: Option<MessageHeader>)
        ensures
            r == spec_parse(bytes@),
    {
        if bytes.len() == 0 {
            return None;
        }
        if bytes[0] != 0x81 {
            return None;
        }
        if bytes.len() < 3 {
            return None;
        }
        let b1 = bytes[1];
        if !(0xa0 <= b1 && b1 <= 0xbf) {
            return None;
        }
        let key_len = (b1 & 0x1f) as usize;
        assert(b1 & 0x1f == b1 - 0xa0) by (bit_vector)
            requires
                0xa0 <= b1 <= 0xbf,
        ;
        if bytes.len() < 2 + key_len {
            return None;
        }
        let key = &bytes[2..2 + key_len];
        let rest = &bytes[2 + key_len..bytes.len()];
        let data_key: [u8; 4] = [0x44, 0x61, 0x74, 0x61];
        let eos_key: [u8; 11] = [0x45, 0x6e, 0x64, 0x4f, 0x66, 0x53, 0x74, 0x72, 0x65, 0x61, 0x6d];
        let hb_key: [u8; 9] = [0x48, 0x65, 0x61, 0x72, 0x74, 0x62, 0x65, 0x61, 0x74];
        assert(data_key@ == key_data());
        assert(eos_key@ == key_eos());
        assert(hb_key@ == key_heartbeat());
        if bytes_equal(key, &data_key) {
            Self::parse_data_header(rest)
        } else if bytes_equal(key, &eos_key) {
            Self::parse_eos_header(rest)
        } else if bytes_equal(key, &hb_key) {
            Self::parse_heartbeat_header(rest)
        } else {
            None
        }
    }

    /// Parse the value of a `Data` entry: an array whose first two elements
    /// are the source id and the sequence number.
    fn parse_data_header(bytes: &[u8]) -> (r: Option<MessageHeader>)
        ensures
            r == spec_parse_data(bytes@),
    {
        if bytes.len() == 0 {
            return None;
        }
        let b0 = bytes[0];
        let mut pos: usize = if 0x90 <= b0 && b0 <= 0x9f {
            1
        } else if b0 == 0xdc && bytes.len() >= 3 {
            3
        } else if b0 == 0xdd && bytes.len() >= 5 {
            5
        } else {
            return None;
        };
        let source_id = match Self::parse_u32(&bytes[pos..bytes.len()], &mut pos) {
            Some(v) => v,
            None => return None,
        };
        assert(pos <= bytes@.len());
        let sequence_number = match Self::parse_u64(&bytes[pos..bytes.len()], &mut pos) {
            Some(v) => v,
            None => return None,
        };
        Some(MessageHeader::Data { source_id, sequence_number })
    }

    /// Parse the value of an `EndOfStream` entry: a fixarray starting with
    /// the source id.
    fn parse_eos_header(bytes: &[u8]) -> (r: Option<MessageHeader>)
        ensures
            r == (match spec_fixarray_source(bytes@) {
                Some(sid) => Some(MessageHeader::EndOfStream { source_id: sid as u32 }),
                None => None,
            }),
    {
        if bytes.len() == 0 {
            return None;
        }
        if !(0x90 <= bytes[0] && bytes[0] <= 0x9f) {
            return None;
        }
        let mut pos: usize = 1;
        match Self::parse_u32(&bytes[1..bytes.len()], &mut pos) {
            Some(source_id) => Some(MessageHeader::EndOfStream { source_id }),
            None => None,
        }
    }

    /// Parse the value of a `Heartbeat` entry: a fixarray starting with the
    /// source id.
    fn parse_heartbeat_header(bytes: &[u8]) -> (r: Option<MessageHeader>)
        ensures
            r == (match spec_fixarray_source(bytes@) {
                Some(sid) => Some(MessageHeader::Heartbeat { source_id: sid as u32 }),
                None => None,
            }),
    {
        if bytes.len() == 0 {
            return None;
        }
        if !(0x90 <= bytes[0] && bytes[0] <= 0x9f) {
            return None;
        }
        let mut pos: usize = 1;
        match Self::parse_u32(&bytes[1..bytes.len()], &mut pos) {
            Some(source_id) => Some(MessageHeader::Heartbeat { source_id }),
            None => None,
        }
    }

    /// Parse a MessagePack unsigned integer of at most 32 bits at the start
    /// of `bytes`, advancing `pos` by its encoded length.
    fn parse_u32(bytes: &[u8], pos: &mut usize) -> (r: Option<u32>)
        requires
            *old(pos) + 5 <= usize::MAX,
        ensures
            match spec_uint32(bytes@) {
                Some((v, n)) => r == Some(v as u32) && *final(pos) == *old(pos) + n && v < 0x1_0000_0000,
                None => r is None && *final(pos) == *old(pos),
            },
    {
        if bytes.len() == 0 {
            return None;
        }
        let b0 = bytes[0];
        if b0 <= 0x7f {
            *pos = *pos + 1;
            Some(b0 as u32)
        } else if b0 == 0xcc && bytes.len() >= 2 {
            *pos = *pos + 2;
            let v = be_read(bytes, 1, 2);
            proof {
                lemma_be_value_bound(bytes@, 1, 2);
                reveal_with_fuel(pow256, 2);
                assert(pow256(1) == 256);
            }
            Some(v as u32)
        } else if b0 == 0xcd && bytes.len() >= 3 {
            *pos = *pos + 3;
            let v = be_read(bytes, 1, 3);
            proof {
                lemma_be_value_bound(bytes@, 1, 3);
                reveal_with_fuel(pow256, 3);
                assert(pow256(2) == 65536);
            }
            Some(v as u32)
        } else if b0 == 0xce && bytes.len() >= 5 {
            *pos = *pos + 5;
            let v = be_read(bytes, 1, 5);
            proof {
                lemma_be_value_bound(bytes@, 1, 5);
                reveal_with_fuel(pow256, 5);
                assert(pow256(4) == 0x1_0000_0000);
            }
            Some(v as u32)
        } else {
            None
        }
    }

    /// Parse a MessagePack unsigned integer of at most 64 bits at the start
    /// of `bytes`, advancing `pos` by its encoded length.
    fn parse_u64(bytes: &[u8], pos: &mut usize) -> (r: Option<u64>)
        requires
            *old(pos) + 9 <= usize::MAX,
        ensures
            match spec_uint64(bytes@) {
                Some((v, n)) => r == Some(v as u64) && *final(pos) == *old(pos) + n
                    && v < 0x1_0000_0000_0000_0000,
                None => r is None && *final(pos) == *old(pos),
            },
    {
        if bytes.len() > 0 && bytes[0] == 0xcf && bytes.len() >= 9 {
            *pos = *pos + 9;
            let v = be_read(bytes, 1, 9);
            proof {
                lemma_be_value_bound(bytes@, 1, 9);
                reveal_with_fuel(pow256, 9);
                assert(pow256(8) == 0x1_0000_0000_0000_0000);
            }
            return Some(v);
        }
        match Self::parse_u32(bytes, pos) {
            Some(v) => Some(v as u64),
            None => None,
        }
    }
}

/// Byte-wise equality of two slices.
fn bytes_equal(a: &[u8], b: &[u8]) -> (r: bool)
    ensures
        r == (a@ == b@),
{
    if a.len() != b.len() {
        return false;
    }
    let mut i: usize = 0;
    while i < a.len()
        invariant
            a@.len() == b@.len(),
            i <= a@.len(),
            forall|j: int| 0 <= j < i ==> a@[j] == b@[j],
        decreases a@.len() - i,
    {
        if a[i] != b[i] {
            return false;
        }
        i = i + 1;
    }
    assert(a@ =~= b@);
    true
}

/// The canonical (shortest) MessagePack encoding of an unsigned integer,
/// as a serializer writes it: positive fixint, then uint8, uint16, uint32
/// and uint64, each big-endian.
pub open spec fn mp_uint(v: u64) -> Seq<u8> {
    if v < 0x80 {
        seq![v as u8]
    } else if v < 0x100 {
        seq![0xccu8, v as u8]
    } else if v < 0x1_0000 {
        seq![0xcdu8, (v >> 8u64) as u8, (v & 0xffu64) as u8]
    } else if v < 0x1_0000_0000 {
        seq![
            0xceu8,
            (v >> 24u64) as u8,
            ((v >> 16u64) & 0xffu64) as u8,
            ((v >> 8u64) & 0xffu64) as u8,
            (v & 0xffu64) as u8,
        ]
    } else {
        seq![
            0xcfu8,
            (v >> 56u64) as u8,
            ((v >> 48u64) & 0xffu64) as u8,
            ((v >> 40u64) & 0xffu64) as u8,
            ((v >> 32u64) & 0xffu64) as u8,
            ((v >> 24u64) & 0xffu64) as u8,
            ((v >> 16u64) & 0xffu64) as u8,
            ((v >> 8u64) & 0xffu64) as u8,
            (v & 0xffu64) as u8,
        ]
    }
}

/// Each MessagePack unsigned-integer form is read as the big-endian value
/// of its payload bytes, whatever follows it: a uint8 `0xcc x` is `x`, a
/// uint16 `0xcd x y` is `256 x + y`, a uint32 `0xce x y z w` is
/// `2^24 x + 2^16 y + 2^8 z + w`, and a positive fixint is itself.
pub proof fn lemma_uint_forms(x: u8, y: u8, z: u8, w: u8, rest: Seq<u8>)
    ensures
        x <= 0x7f ==> spec_uint32(seq![x] + rest) == Some((x as nat, 1nat)),
        spec_uint32(seq![0xccu8, x] + rest) == Some((x as nat, 2nat)),
        spec_uint32(seq![0xcdu8, x, y] + rest) == Some((x as nat * 256 + y as nat, 3nat)),
        spec_uint32(seq![0xceu8, x, y, z, w] + rest) == Some(
            (x as nat * 0x100_0000 + y as nat * 0x1_0000 + z as nat * 0x100 + w as nat, 5nat),
        ),
        spec_uint64(seq![0xccu8, x] + rest) == Some((x as nat, 2nat)),
{
    reveal_with_fuel(be_value, 6);
    let b1 = seq![0xccu8, x] + rest;
    assert(b1[0] == 0xcc && b1[1] == x);
    assert(be_value(b1, 1, 2) == x as nat);
    let b2 = seq![0xcdu8, x, y] + rest;
    assert(b2[0] == 0xcd && b2[1] == x && b2[2] == y);
    assert(be_value(b2, 1, 3) == x as nat * 256 + y as nat);
    let b3 = seq![0xceu8, x, y, z, w] + rest;
    assert(b3[0] == 0xce && b3[1] == x && b3[2] == y && b3[3] == z && b3[4] == w);
    assert(be_value(b3, 1, 5) == x as nat * 0x100_0000 + y as nat * 0x1_0000 + z as nat * 0x100 + w as nat);
    let b0 = seq![x] + rest;
    assert(b0[0] == x);
}

/// An integer below 2^32 written in canonical MessagePack is read back as
/// itself, with its encoded length, whatever follows it.
pub proof fn lemma_uint32_roundtrip(v: u64, rest: Seq<u8>)
    requires
        v < 0x1_0000_0000,
    ensures
        spec_uint32(mp_uint(v) + rest) == Some((v as nat, mp_uint(v).len())),
{
    let b = mp_uint(v) + rest;
    reveal_with_fuel(be_value, 6);
    if v < 0x80 {
        assert(b[0] == v as u8);
    } else if v < 0x100 {
        assert(b[0] == 0xcc && b[1] == v as u8);
        assert(be_value(b, 1, 2) == b[1] as nat);
    } else if v < 0x1_0000 {
        let x = (v >> 8u64) as u8;
        let y = (v & 0xffu64) as u8;
        assert(b[0] == 0xcd && b[1] == x && b[2] == y);
        assert(be_value(b, 1, 3) == x as nat * 256 + y as nat);
        assert(x as u64 * 256 + y as u64 == v) by (bit_vector)
            requires
                v < 0x1_0000,
                x == (v >> 8u64) as u8,
                y == (v & 0xffu64) as u8,
        ;
    } else {
        let x = (v >> 24u64) as u8;
        let y = ((v >> 16u64) & 0xffu64) as u8;
        let z = ((v >> 8u64) & 0xffu64) as u8;
        let w = (v & 0xffu64) as u8;
        assert(b[0] == 0xce && b[1] == x && b[2] == y && b[3] == z && b[4] == w);
        assert(be_value(b, 1, 5) == ((x as nat * 256 + y as nat) * 256 + z as nat) * 256 + w as nat);
        assert(((x as u64 * 256 + y as u64) * 256 + z as u64) * 256 + w as u64 == v) by (bit_vector)
            requires
                v < 0x1_0000_0000,
                x == (v >> 24u64) as u8,
                y == ((v >> 16u64) & 0xffu64) as u8,
                z == ((v >> 8u64) & 0xffu64) as u8,
                w == (v & 0xffu64) as u8,
        ;
    }
}

/// Any `u64` written in canonical MessagePack is read back as itself, with
/// its encoded length, whatever follows it.
pub proof fn lemma_uint64_roundtrip(v: u64, rest: Seq<u8>)
    ensures
        spec_uint64(mp_uint(v) + rest) == Some((v as nat, mp_uint(v).len())),
{
    let b = mp_uint(v) + rest;
    if v < 0x1_0000_0000 {
        lemma_uint32_roundtrip(v, rest);
        assert(b[0] != 0xcf);
    } else {
        reveal_with_fuel(be_value, 10);
        let b1 = (v >> 56u64) as u8;
        let b2 = ((v >> 48u64) & 0xffu64) as u8;
        let b3 = ((v >> 40u64) & 0xffu64) as u8;
        let b4 = ((v >> 32u64) & 0xffu64) as u8;
        let b5 = ((v >> 24u64) & 0xffu64) as u8;
        let b6 = ((v >> 16u64) & 0xffu64) as u8;
        let b7 = ((v >> 8u64) & 0xffu64) as u8;
        let b8 = (v & 0xffu64) as u8;
        assert(b[0] == 0xcf && b[1] == b1 && b[2] == b2 && b[3] == b3 && b[4] == b4);
        assert(b[5] == b5 && b[6] == b6 && b[7] == b7 && b[8] == b8);
        assert(be_value(b, 1, 9) == ((((((b1 as nat * 256 + b2 as nat) * 256 + b3 as nat) * 256 + b4 as nat)
            * 256 + b5 as nat) * 256 + b6 as nat) * 256 + b7 as nat) * 256 + b8 as nat);
        assert(((((((b1 as u128 * 256 + b2 as u128) * 256 + b3 as u128) * 256 + b4 as u128) * 256
            + b5 as u128) * 256 + b6 as u128) * 256 + b7 as u128) * 256 + b8 as u128 == v as u128)
            by (bit_vector)
            requires
                b1 == (v >> 56u64) as u8,
                b2 == ((v >> 48u64) & 0xffu64) as u8,
                b3 == ((v >> 40u64) & 0xffu64) as u8,
                b4 == ((v >> 32u64) & 0xffu64) as u8,
                b5 == ((v >> 24u64) & 0xffu64) as u8,
                b6 == ((v >> 16u64) & 0xffu64) as u8,
                b7 == ((v >> 8u64) & 0xffu64) as u8,
                b8 == (v & 0xffu64) as u8,
        ;
    }
}

/// A `Data` message as a serializer writes it: a one-entry map whose key
/// is `"Data"` and whose value is an array (fixarray header `array_header`)
/// starting with the source id and the sequence number in canonical
/// MessagePack, followed by the rest of the message.
pub open spec fn data_message(array_header: u8, source_id: u32, sequence_number: u64, tail: Seq<u8>) -> Seq<u8> {
    seq![0x81u8, 0xa4u8] + seq![0x44u8, 0x61, 0x74, 0x61] + seq![array_header] + mp_uint(source_id as u64)
        + mp_uint(sequence_number) + tail
}

/// A fixarray-valued message with key `key` (a fixstr of fewer than 32
/// bytes) that starts with the source id, followed by the rest.
pub open spec fn source_message(key: Seq<u8>, array_header: u8, source_id: u32, tail: Seq<u8>) -> Seq<u8> {
    seq![0x81u8, (0xa0 + key.len()) as u8] + key + seq![array_header] + mp_uint(source_id as u64) + tail
}

/// Every `Data` header parses back to exactly the source id and sequence
/// number it was written with, for every value of both.
pub proof fn lemma_data_header_roundtrip(array_header: u8, source_id: u32, sequence_number: u64, tail: Seq<u8>)
    requires
        0x90 <= array_header <= 0x9f,
    ensures
        spec_parse(data_message(array_header, source_id, sequence_number, tail)) == Some(
            MessageHeader::Data { source_id, sequence_number },
        ),
{
    let b = data_message(array_header, source_id, sequence_number, tail);
    let sid = mp_uint(source_id as u64);
    let sq = mp_uint(sequence_number);
    assert(b[0] == 0x81 && b[1] == 0xa4);
    assert(b.subrange(2, 6) =~= key_data());
    let rest = b.subrange(6, b.len() as int);
    assert(rest =~= seq![array_header] + sid + sq + tail);
    assert(rest.subrange(1, rest.len() as int) =~= sid + (sq + tail));
    lemma_uint32_roundtrip(source_id as u64, sq + tail);
    assert(rest.subrange((1 + sid.len()) as int, rest.len() as int) =~= sq + tail);
    lemma_uint64_roundtrip(sequence_number, tail);
}

/// The value after a fixstr key of a source message.
proof fn lemma_source_message_parts(key: Seq<u8>, array_header: u8, source_id: u32, tail: Seq<u8>)
    requires
        0 < key.len() < 32,
        0x90 <= array_header <= 0x9f,
    ensures
        ({
            let b = source_message(key, array_header, source_id, tail);
            let rest = b.subrange(2 + key.len() as int, b.len() as int);
            &&& b.len() >= 3
            &&& b[0] == 0x81
            &&& b[1] == 0xa0 + key.len()
            &&& b.subrange(2, 2 + key.len() as int) == key
            &&& spec_fixarray_source(rest) == Some(source_id as nat)
        }),
{
    let b = source_message(key, array_header, source_id, tail);
    let sid = mp_uint(source_id as u64);
    lemma_uint32_roundtrip(source_id as u64, tail);
    assert(b.subrange(2, 2 + key.len() as int) =~= key);
    let rest = b.subrange(2 + key.len() as int, b.len() as int);
    assert(rest =~= seq![array_header] + sid + tail);
    assert(rest.subrange(1, rest.len() as int) =~= sid + tail);
}

/// Every `EndOfStream` header parses back to exactly the source id it was
/// written with.
pub proof fn lemma_eos_header_roundtrip(array_header: u8, source_id: u32, tail: Seq<u8>)
    requires
        0x90 <= array_header <= 0x9f,
    ensures
        spec_parse(source_message(key_eos(), array_header, source_id, tail)) == Some(
            MessageHeader::EndOfStream { source_id },
        ),
{
    lemma_source_message_parts(key_eos(), array_header, source_id, tail);
    assert(key_eos() != key_data()) by {
        assert(key_eos().len() != key_data().len());
    }
}

/// Every `Heartbeat` header parses back to exactly the source id it was
/// written with.
pub proof fn lemma_heartbeat_header_roundtrip(array_header: u8, source_id: u32, tail: Seq<u8>)
    requires
        0x90 <= array_header <= 0x9f,
    ensures
        spec_parse(source_message(key_heartbeat(), array_header, source_id, tail)) == Some(
            MessageHeader::Heartbeat { source_id },
        ),
{
    lemma_source_message_parts(key_heartbeat(), array_header, source_id, tail);
    assert(key_heartbeat() != key_data()) by {
        assert(key_heartbeat().len() != key_data().len());
    }
    assert(key_heartbeat() != key_eos()) by {
        assert(key_heartbeat().len() != key_eos().len());
    }
}

/// A `Data` message whose value array has an array16 (`0xdc` and two
/// length bytes) or array32 (`0xdd` and four length bytes) header.
pub open spec fn data_message_long(array_header: Seq<u8>, source_id: u32, sequence_number: u64, tail: Seq<u8>) -> Seq<u8> {
    seq![0x81u8, 0xa4u8] + seq![0x44u8, 0x61, 0x74, 0x61] + array_header + mp_uint(source_id as u64)
        + mp_uint(sequence_number) + tail
}

/// Whatever the array header's form, a `Data` header parses back to
/// exactly the source id and sequence number it was written with.
pub proof fn lemma_long_array_data_roundtrip(array_header: Seq<u8>, source_id: u32, sequence_number: u64, tail: Seq<u8>)
    requires
        (array_header.len() == 3 && array_header[0] == 0xdc) || (array_header.len() == 5 && array_header[0]
            == 0xdd),
    ensures
        spec_parse(data_message_long(array_header, source_id, sequence_number, tail)) == Some(
            MessageHeader::Data { source_id, sequence_number },
        ),
{
    let b = data_message_long(array_header, source_id, sequence_number, tail);
    let sid = mp_uint(source_id as u64);
    let sq = mp_uint(sequence_number);
    let n = array_header.len() as int;
    assert(b[0] == 0x81 && b[1] == 0xa4);
    assert(b.subrange(2, 6) =~= key_data());
    let rest = b.subrange(6, b.len() as int);
    assert(rest =~= array_header + sid + sq + tail);
    assert(rest[0] == array_header[0]);
    assert(rest.subrange(n, rest.len() as int) =~= sid + (sq + tail));
    lemma_uint32_roundtrip(source_id as u64, sq + tail);
    assert(rest.subrange(n + sid.len(), rest.len() as int) =~= sq + tail);
    lemma_uint64_roundtrip(sequence_number, tail);
}

} // verus!
