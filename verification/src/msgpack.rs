//! MessagePack byte-level codec.
//!
//! The wire protocol carries every scalar and aggregate as a value of this
//! self-describing binary format.  Encoders append the minimal encoding of a
//! value to an output buffer; each is specified against a spec function that
//! gives the exact byte sequence.  Decoders are specified against spec parse
//! functions that give, for every input, either the decoded value and the
//! position after it, or nothing when the input is truncated or malformed.

use vstd::prelude::*;

verus! {

// ---------------------------------------------------------------------------
// Big-endian digit sequences, written with division and remainder by 0x100 so
// that the parse direction can be proved inverse by linear reasoning.
// ---------------------------------------------------------------------------

/// The two big-endian bytes of a value below 0x1_0000.
pub open spec fn spec_be2(v: u64) -> Seq<u8> {
    seq![(v / 0x100 % 0x100) as u8, (v % 0x100) as u8]
}

/// The four big-endian bytes of a value below 0x1_0000_0000.
pub open spec fn spec_be4(v: u64) -> Seq<u8> {
    seq![
        (v / 0x1000000 % 0x100) as u8,
        (v / 0x10000 % 0x100) as u8,
        (v / 0x100 % 0x100) as u8,
        (v % 0x100) as u8,
    ]
}

/// The eight big-endian bytes of a value.
pub open spec fn spec_be8(v: u64) -> Seq<u8> {
    seq![
        (v / 0x100000000000000 % 0x100) as u8,
        (v / 0x1000000000000 % 0x100) as u8,
        (v / 0x10000000000 % 0x100) as u8,
        (v / 0x100000000 % 0x100) as u8,
        (v / 0x1000000 % 0x100) as u8,
        (v / 0x10000 % 0x100) as u8,
        (v / 0x100 % 0x100) as u8,
        (v % 0x100) as u8,
    ]
}

/// The value read back from two big-endian bytes.
pub open spec fn spec_comb2(b0: u8, b1: u8) -> u64 {
    ((b0 as u64) * 0x100 + (b1 as u64)) as u64
}

/// The value read back from four big-endian bytes.
pub open spec fn spec_comb4(b0: u8, b1: u8, b2: u8, b3: u8) -> u64 {
    ((b0 as u64) * 0x1000000 + (b1 as u64) * 0x10000 + (b2 as u64) * 0x100 + (b3 as u64)) as u64
}

/// The value read back from eight big-endian bytes.
pub open spec fn spec_comb8(b0: u8, b1: u8, b2: u8, b3: u8, b4: u8, b5: u8, b6: u8, b7: u8) -> u64 {
    ((b0 as u64) * 0x100000000000000 + (b1 as u64) * 0x1000000000000 + (b2 as u64) * 0x10000000000
        + (b3 as u64) * 0x100000000 + (b4 as u64) * 0x1000000 + (b5 as u64) * 0x10000
        + (b6 as u64) * 0x100 + (b7 as u64)) as u64
}

pub proof fn lemma_comb2_be2(v: u64)
    requires
        v < 0x10000,
    ensures
        spec_comb2(spec_be2(v)[0], spec_be2(v)[1]) == v,
{
}

pub proof fn lemma_comb4_be4(v: u64)
    requires
        v < 0x100000000,
    ensures
        spec_comb4(spec_be4(v)[0], spec_be4(v)[1], spec_be4(v)[2], spec_be4(v)[3]) == v,
{
}

#[verifier::rlimit(100)]
pub proof fn lemma_comb8_be8(v: u64)
    ensures
        spec_comb8(
            spec_be8(v)[0],
            spec_be8(v)[1],
            spec_be8(v)[2],
            spec_be8(v)[3],
            spec_be8(v)[4],
            spec_be8(v)[5],
            spec_be8(v)[6],
            spec_be8(v)[7],
        ) == v,
{
    let x = v as int;
    vstd::arithmetic::div_mod::lemma_div_denominator(x, 0x100, 0x100);
    vstd::arithmetic::div_mod::lemma_div_denominator(x, 0x10000, 0x100);
    vstd::arithmetic::div_mod::lemma_div_denominator(x, 0x1000000, 0x100);
    vstd::arithmetic::div_mod::lemma_div_denominator(x, 0x100000000, 0x100);
    vstd::arithmetic::div_mod::lemma_div_denominator(x, 0x10000000000, 0x100);
    vstd::arithmetic::div_mod::lemma_div_denominator(x, 0x1000000000000, 0x100);
    let x1 = x / 0x100;
    let x2 = x / 0x10000;
    let x3 = x / 0x1000000;
    let x4 = x / 0x100000000;
    let x5 = x / 0x10000000000;
    let x6 = x / 0x1000000000000;
    let x7 = x / 0x100000000000000;
    assert(x2 == x1 / 0x100 && x3 == x2 / 0x100 && x4 == x3 / 0x100 && x5 == x4 / 0x100 && x6
        == x5 / 0x100 && x7 == x6 / 0x100);
    assert(x == x1 * 0x100 + x % 0x100);
    assert(x1 == x2 * 0x100 + x1 % 0x100);
    assert(x2 == x3 * 0x100 + x2 % 0x100);
    assert(x3 == x4 * 0x100 + x3 % 0x100);
    assert(x4 == x5 * 0x100 + x4 % 0x100);
    assert(x5 == x6 * 0x100 + x5 % 0x100);
    assert(x6 == x7 * 0x100 + x6 % 0x100);
    assert(x7 % 0x100 == x7);
}

// ---------------------------------------------------------------------------
// Spec encodings: the minimal MessagePack bytes of each value shape.
// ---------------------------------------------------------------------------

/// Minimal encoding of an unsigned integer.
pub open spec fn spec_uint(v: u64) -> Seq<u8> {
    if v < 0x80 {
        seq![v as u8]
    } else if v < 0x100 {
        seq![0xccu8, v as u8]
    } else if v < 0x10000 {
        seq![0xcdu8] + spec_be2(v)
    } else if v < 0x100000000 {
        seq![0xceu8] + spec_be4(v)
    } else {
        seq![0xcfu8] + spec_be8(v)
    }
}

/// Minimal encoding of a string given as its UTF-8 bytes.
pub open spec fn spec_str(s: Seq<u8>) -> Seq<u8> {
    if s.len() < 32 {
        seq![(0xa0 + s.len()) as u8] + s
    } else if s.len() < 0x100 {
        seq![0xd9u8, s.len() as u8] + s
    } else if s.len() < 0x10000 {
        seq![0xdau8] + spec_be2(s.len() as u64) + s
    } else {
        seq![0xdbu8] + spec_be4(s.len() as u64) + s
    }
}

/// Minimal encoding of an array header announcing `n` elements.
pub open spec fn spec_array_header(n: nat) -> Seq<u8> {
    if n < 16 {
        seq![(0x90 + n) as u8]
    } else if n < 0x10000 {
        seq![0xdcu8] + spec_be2(n as u64)
    } else {
        seq![0xddu8] + spec_be4(n as u64)
    }
}

/// Minimal encoding of a map header announcing `n` key-value pairs.
pub open spec fn spec_map_header(n: nat) -> Seq<u8> {
    if n < 16 {
        seq![(0x80 + n) as u8]
    } else if n < 0x10000 {
        seq![0xdeu8] + spec_be2(n as u64)
    } else {
        seq![0xdfu8] + spec_be4(n as u64)
    }
}

/// Encoding of a boolean.
pub open spec fn spec_bool(b: bool) -> Seq<u8> {
    if b {
        seq![0xc3u8]
    } else {
        seq![0xc2u8]
    }
}

/// Encoding of nil.
pub open spec fn spec_nil() -> Seq<u8> {
    seq![0xc0u8]
}

/// Encoding of a fixext16 extension value: tag byte, then 16 payload bytes.
pub open spec fn spec_ext16(tag: u8, payload: Seq<u8>) -> Seq<u8> {
    seq![0xd8u8, tag] + payload
}

// ---------------------------------------------------------------------------
// Exec encoders: each appends exactly its spec encoding to the buffer.
// ---------------------------------------------------------------------------

/// Append the two big-endian bytes of `v`.
fn enc_be2(buf: &mut Vec<u8>, v: u64)
    requires
        v < 0x10000,
    ensures
        final(buf)@ == old(buf)@ + spec_be2(v),
{
    buf.push((v / 0x100 % 0x100) as u8);
    buf.push((v % 0x100) as u8);
    assert(buf@ =~= old(buf)@ + spec_be2(v));
}

/// Append the four big-endian bytes of `v`.
fn enc_be4(buf: &mut Vec<u8>, v: u64)
    requires
        v < 0x100000000,
    ensures
        final(buf)@ == old(buf)@ + spec_be4(v),
{
    buf.push((v / 0x1000000 % 0x100) as u8);
    buf.push((v / 0x10000 % 0x100) as u8);
    buf.push((v / 0x100 % 0x100) as u8);
    buf.push((v % 0x100) as u8);
    assert(buf@ =~= old(buf)@ + spec_be4(v));
}

/// Append the eight big-endian bytes of `v`.
fn enc_be8(buf: &mut Vec<u8>, v: u64)
    ensures
        final(buf)@ == old(buf)@ + spec_be8(v),
{
    buf.push((v / 0x100000000000000 % 0x100) as u8);
    buf.push((v / 0x1000000000000 % 0x100) as u8);
    buf.push((v / 0x10000000000 % 0x100) as u8);
    buf.push((v / 0x100000000 % 0x100) as u8);
    buf.push((v / 0x1000000 % 0x100) as u8);
    buf.push((v / 0x10000 % 0x100) as u8);
    buf.push((v / 0x100 % 0x100) as u8);
    buf.push((v % 0x100) as u8);
    assert(buf@ =~= old(buf)@ + spec_be8(v));
}

/// Append the minimal encoding of an unsigned integer.
pub fn enc_uint(buf: &mut Vec<u8>, v: u64)
    ensures
        final(buf)@ == old(buf)@ + spec_uint(v),
{
    if v < 0x80 {
        buf.push(v as u8);
        assert(buf@ =~= old(buf)@ + spec_uint(v));
    } else if v < 0x100 {
        buf.push(0xcc);
        buf.push(v as u8);
        assert(buf@ =~= old(buf)@ + spec_uint(v));
    } else if v < 0x10000 {
        buf.push(0xcd);
        enc_be2(buf, v);
        assert(buf@ =~= old(buf)@ + spec_uint(v));
    } else if v < 0x100000000 {
        buf.push(0xce);
        enc_be4(buf, v);
        assert(buf@ =~= old(buf)@ + spec_uint(v));
    } else {
        buf.push(0xcf);
        enc_be8(buf, v);
        assert(buf@ =~= old(buf)@ + spec_uint(v));
    }
}

/// Append the minimal encoding of a string given as its UTF-8 bytes.
pub fn enc_str_bytes(buf: &mut Vec<u8>, s: &Vec<u8>)
    requires
        s@.len() < 0x100000000,
    ensures
        final(buf)@ == old(buf)@ + spec_str(s@),
{
    let n: usize = s.len();
    if n < 32 {
        buf.push(0xa0 + n as u8);
    } else if n < 0x100 {
        buf.push(0xd9);
        buf.push(n as u8);
    } else if n < 0x10000 {
        buf.push(0xda);
        enc_be2(buf, n as u64);
    } else {
        buf.push(0xdb);
        enc_be4(buf, n as u64);
    }
    let ghost with_header: Seq<u8> = buf@;
    let mut i: usize = 0;
    while i < n
        invariant
            n == s@.len(),
            i <= n,
            buf@ == with_header + s@.subrange(0, i as int),
        decreases n - i,
    {
        buf.push(s[i]);
        i = i + 1;
        assert(buf@ =~= with_header + s@.subrange(0, i as int));
    }
    assert(s@.subrange(0, n as int) =~= s@);
    assert(buf@ =~= old(buf)@ + spec_str(s@));
}

/// Append the minimal encoding of an array header announcing `n` elements.
pub fn enc_array_header(buf: &mut Vec<u8>, n: usize)
    requires
        n < 0x100000000,
    ensures
        final(buf)@ == old(buf)@ + spec_array_header(n as nat),
{
    if n < 16 {
        buf.push(0x90 + n as u8);
        assert(buf@ =~= old(buf)@ + spec_array_header(n as nat));
    } else if n < 0x10000 {
        buf.push(0xdc);
        enc_be2(buf, n as u64);
        assert(buf@ =~= old(buf)@ + spec_array_header(n as nat));
    } else {
        buf.push(0xdd);
        enc_be4(buf, n as u64);
        assert(buf@ =~= old(buf)@ + spec_array_header(n as nat));
    }
}

/// Append the minimal encoding of a map header announcing `n` pairs.
pub fn enc_map_header(buf: &mut Vec<u8>, n: usize)
    requires
        n < 0x100000000,
    ensures
        final(buf)@ == old(buf)@ + spec_map_header(n as nat),
{
    if n < 16 {
        buf.push(0x80 + n as u8);
        assert(buf@ =~= old(buf)@ + spec_map_header(n as nat));
    } else if n < 0x10000 {
        buf.push(0xde);
        enc_be2(buf, n as u64);
        assert(buf@ =~= old(buf)@ + spec_map_header(n as nat));
    } else {
        buf.push(0xdf);
        enc_be4(buf, n as u64);
        assert(buf@ =~= old(buf)@ + spec_map_header(n as nat));
    }
}

/// Append the encoding of a boolean.
pub fn enc_bool(buf: &mut Vec<u8>, b: bool)
    ensures
        final(buf)@ == old(buf)@ + spec_bool(b),
{
    if b {
        buf.push(0xc3);
    } else {
        buf.push(0xc2);
    }
    assert(buf@ =~= old(buf)@ + spec_bool(b));
}

/// Append the encoding of nil.
pub fn enc_nil(buf: &mut Vec<u8>)
    ensures
        final(buf)@ == old(buf)@ + spec_nil(),
{
    buf.push(0xc0);
    assert(buf@ =~= old(buf)@ + spec_nil());
}

// ---------------------------------------------------------------------------
// Spec parsers: for every input, the decoded value and the position after
// it, or `None` when the bytes are truncated or not of the expected shape.
// ---------------------------------------------------------------------------

/// Parse an unsigned integer at `pos`.
pub open spec fn spec_parse_uint(b: Seq<u8>, pos: int) -> Option<(u64, int)> {
    if pos < 0 || pos >= b.len() {
        None
    } else {
        let m = b[pos];
        if m < 0x80 {
            Some((m as u64, pos + 1))
        } else if m == 0xcc {
            if pos + 2 <= b.len() {
                Some((b[pos + 1] as u64, pos + 2))
            } else {
                None
            }
        } else if m == 0xcd {
            if pos + 3 <= b.len() {
                Some((spec_comb2(b[pos + 1], b[pos + 2]), pos + 3))
            } else {
                None
            }
        } else if m == 0xce {
            if pos + 5 <= b.len() {
                Some((spec_comb4(b[pos + 1], b[pos + 2], b[pos + 3], b[pos + 4]), pos + 5))
            } else {
                None
            }
        } else if m == 0xcf {
            if pos + 9 <= b.len() {
                Some(
                    (
                        spec_comb8(
                            b[pos + 1],
                            b[pos + 2],
                            b[pos + 3],
                            b[pos + 4],
                            b[pos + 5],
                            b[pos + 6],
                            b[pos + 7],
                            b[pos + 8],
                        ),
                        pos + 9,
                    ),
                )
            } else {
                None
            }
        } else {
            None
        }
    }
}

/// Parse a string at `pos`: its UTF-8 bytes and the position after them.
pub open spec fn spec_parse_str(b: Seq<u8>, pos: int) -> Option<(Seq<u8>, int)> {
    match spec_parse_str_header(b, pos) {
        None => None,
        Some((len, data_pos)) => if data_pos + len <= b.len() {
            Some((b.subrange(data_pos, data_pos + len), data_pos + len))
        } else {
            None
        },
    }
}

/// Parse a string header at `pos`: the announced byte length and the
/// position of the first data byte.
pub open spec fn spec_parse_str_header(b: Seq<u8>, pos: int) -> Option<(int, int)> {
    if pos < 0 || pos >= b.len() {
        None
    } else {
        let m = b[pos];
        if 0xa0 <= m < 0xc0 {
            Some(((m - 0xa0) as int, pos + 1))
        } else if m == 0xd9 {
            if pos + 2 <= b.len() {
                Some((b[pos + 1] as int, pos + 2))
            } else {
                None
            }
        } else if m == 0xda {
            if pos + 3 <= b.len() {
                Some((spec_comb2(b[pos + 1], b[pos + 2]) as int, pos + 3))
            } else {
                None
            }
        } else if m == 0xdb {
            if pos + 5 <= b.len() {
                Some((spec_comb4(b[pos + 1], b[pos + 2], b[pos + 3], b[pos + 4]) as int, pos + 5))
            } else {
                None
            }
        } else {
            None
        }
    }
}

/// Parse an array header at `pos`: the element count and the position of
/// the first element.
pub open spec fn spec_parse_array_header(b: Seq<u8>, pos: int) -> Option<(nat, int)> {
    if pos < 0 || pos >= b.len() {
        None
    } else {
        let m = b[pos];
        if 0x90 <= m < 0xa0 {
            Some(((m - 0x90) as nat, pos + 1))
        } else if m == 0xdc {
            if pos + 3 <= b.len() {
                Some((spec_comb2(b[pos + 1], b[pos + 2]) as nat, pos + 3))
            } else {
                None
            }
        } else if m == 0xdd {
            if pos + 5 <= b.len() {
                Some((spec_comb4(b[pos + 1], b[pos + 2], b[pos + 3], b[pos + 4]) as nat, pos + 5))
            } else {
                None
            }
        } else {
            None
        }
    }
}

/// Parse a map header at `pos`: the pair count and the position of the
/// first key.
pub open spec fn spec_parse_map_header(b: Seq<u8>, pos: int) -> Option<(nat, int)> {
    if pos < 0 || pos >= b.len() {
        None
    } else {
        let m = b[pos];
        if 0x80 <= m < 0x90 {
            Some(((m - 0x80) as nat, pos + 1))
        } else if m == 0xde {
            if pos + 3 <= b.len() {
                Some((spec_comb2(b[pos + 1], b[pos + 2]) as nat, pos + 3))
            } else {
                None
            }
        } else if m == 0xdf {
            if pos + 5 <= b.len() {
                Some((spec_comb4(b[pos + 1], b[pos + 2], b[pos + 3], b[pos + 4]) as nat, pos + 5))
            } else {
                None
            }
        } else {
            None
        }
    }
}

/// End position of a fixed-length payload starting at `data_pos`, or `None`
/// when the input ends first.
pub open spec fn spec_skip_len(b: Seq<u8>, data_pos: int, len: int) -> Option<int> {
    if 0 <= data_pos && data_pos + len <= b.len() {
        Some(data_pos + len)
    } else {
        None
    }
}

/// Position after one value of any shape at `pos`, or `None` when the
/// bytes are truncated or start with the reserved marker.
pub open spec fn spec_skip(b: Seq<u8>, pos: int) -> Option<int>
    decreases b.len() - pos, 0int, 0nat,
{
    if pos < 0 || pos >= b.len() {
        None
    } else {
        let m = b[pos];
        if m < 0x80 {
            Some(pos + 1)
        } else if m < 0x90 {
            spec_skip_n(b, pos + 1, 2 * ((m - 0x80) as nat))
        } else if m < 0xa0 {
            spec_skip_n(b, pos + 1, (m - 0x90) as nat)
        } else if m < 0xc0 {
            spec_skip_len(b, pos + 1, (m - 0xa0) as int)
        } else if m == 0xc0 || m == 0xc2 || m == 0xc3 {
            Some(pos + 1)
        } else if m == 0xc1 {
            None
        } else if m == 0xc4 {
            if pos + 2 <= b.len() {
                spec_skip_len(b, pos + 2, b[pos + 1] as int)
            } else {
                None
            }
        } else if m == 0xc5 {
            if pos + 3 <= b.len() {
                spec_skip_len(b, pos + 3, spec_comb2(b[pos + 1], b[pos + 2]) as int)
            } else {
                None
            }
        } else if m == 0xc6 {
            if pos + 5 <= b.len() {
                spec_skip_len(
                    b,
                    pos + 5,
                    spec_comb4(b[pos + 1], b[pos + 2], b[pos + 3], b[pos + 4]) as int,
                )
            } else {
                None
            }
        } else if m == 0xc7 {
            if pos + 2 <= b.len() {
                spec_skip_len(b, pos + 3, b[pos + 1] as int)
            } else {
                None
            }
        } else if m == 0xc8 {
            if pos + 3 <= b.len() {
                spec_skip_len(b, pos + 4, spec_comb2(b[pos + 1], b[pos + 2]) as int)
            } else {
                None
            }
        } else if m == 0xc9 {
            if pos + 5 <= b.len() {
                spec_skip_len(
                    b,
                    pos + 6,
                    spec_comb4(b[pos + 1], b[pos + 2], b[pos + 3], b[pos + 4]) as int,
                )
            } else {
                None
            }
        } else if m == 0xca {
            spec_skip_len(b, pos + 1, 4)
        } else if m == 0xcb {
            spec_skip_len(b, pos + 1, 8)
        } else if m == 0xcc || m == 0xd0 {
            spec_skip_len(b, pos + 1, 1)
        } else if m == 0xcd || m == 0xd1 {
            spec_skip_len(b, pos + 1, 2)
        } else if m == 0xce || m == 0xd2 {
            spec_skip_len(b, pos + 1, 4)
        } else if m == 0xcf || m == 0xd3 {
            spec_skip_len(b, pos + 1, 8)
        } else if m == 0xd4 {
            spec_skip_len(b, pos + 2, 1)
        } else if m == 0xd5 {
            spec_skip_len(b, pos + 2, 2)
        } else if m == 0xd6 {
            spec_skip_len(b, pos + 2, 4)
        } else if m == 0xd7 {
            spec_skip_len(b, pos + 2, 8)
        } else if m == 0xd8 {
            spec_skip_len(b, pos + 2, 16)
        } else if m == 0xd9 {
            if pos + 2 <= b.len() {
                spec_skip_len(b, pos + 2, b[pos + 1] as int)
            } else {
                None
            }
        } else if m == 0xda {
            if pos + 3 <= b.len() {
                spec_skip_len(b, pos + 3, spec_comb2(b[pos + 1], b[pos + 2]) as int)
            } else {
                None
            }
        } else if m == 0xdb {
            if pos + 5 <= b.len() {
                spec_skip_len(
                    b,
                    pos + 5,
                    spec_comb4(b[pos + 1], b[pos + 2], b[pos + 3], b[pos + 4]) as int,
                )
            } else {
                None
            }
        } else if m == 0xdc {
            if pos + 3 <= b.len() {
                spec_skip_n(b, pos + 3, spec_comb2(b[pos + 1], b[pos + 2]) as nat)
            } else {
                None
            }
        } else if m == 0xdd {
            if pos + 5 <= b.len() {
                spec_skip_n(
                    b,
                    pos + 5,
                    spec_comb4(b[pos + 1], b[pos + 2], b[pos + 3], b[pos + 4]) as nat,
                )
            } else {
                None
            }
        } else if m == 0xde {
            if pos + 3 <= b.len() {
                spec_skip_n(b, pos + 3, 2 * spec_comb2(b[pos + 1], b[pos + 2]) as nat)
            } else {
                None
            }
        } else if m == 0xdf {
            if pos + 5 <= b.len() {
                spec_skip_n(
                    b,
                    pos + 5,
                    2 * spec_comb4(b[pos + 1], b[pos + 2], b[pos + 3], b[pos + 4]) as nat,
                )
            } else {
                None
            }
        } else {
            // 0xe0 ..= 0xff: negative fixint
            Some(pos + 1)
        }
    }
}

/// Position after `n` consecutive values starting at `pos`.
pub open spec fn spec_skip_n(b: Seq<u8>, pos: int, n: nat) -> Option<int>
    decreases b.len() - pos, 1int, n,
{
    if n == 0 {
        if 0 <= pos <= b.len() {
            Some(pos)
        } else {
            None
        }
    } else {
        match spec_skip(b, pos) {
            None => None,
            Some(p2) => if pos < p2 <= b.len() {
                spec_skip_n(b, p2, (n - 1) as nat)
            } else {
                None
            },
        }
    }
}

/// Parsing where a minimal integer encoding was written yields the value
/// back and stops right after it, whatever precedes and follows.
pub proof fn lemma_parse_uint_enc(prefix: Seq<u8>, v: u64, rest: Seq<u8>)
    ensures
        spec_parse_uint(prefix + spec_uint(v) + rest, prefix.len() as int) == Some(
            (v, (prefix.len() + spec_uint(v).len()) as int),
        ),
{
    let b = prefix + spec_uint(v) + rest;
    let pos = prefix.len() as int;
    assert(forall|i: int|
        0 <= i < spec_uint(v).len() ==> #[trigger] b[pos + i] == spec_uint(v)[i]);
    if v < 0x80 {
    } else if v < 0x100 {
    } else if v < 0x10000 {
        lemma_comb2_be2(v);
    } else if v < 0x100000000 {
        lemma_comb4_be4(v);
    } else {
        lemma_comb8_be8(v);
    }
}

// ---------------------------------------------------------------------------
// Exec decoders: each returns exactly what its spec parser gives.
// ---------------------------------------------------------------------------

/// Copy the bytes of `b` between `lo` and `hi` into a fresh buffer.
pub fn copy_range(b: &Vec<u8>, lo: usize, hi: usize) -> (r: Vec<u8>)
    requires
        lo <= hi <= b@.len(),
    ensures
        r@ == b@.subrange(lo as int, hi as int),
{
    let mut r: Vec<u8> = Vec::new();
    let mut i: usize = lo;
    while i < hi
        invariant
            lo <= i <= hi <= b@.len(),
            r@ == b@.subrange(lo as int, i as int),
        decreases hi - i,
    {
        r.push(b[i]);
        i = i + 1;
        assert(r@ =~= b@.subrange(lo as int, i as int));
    }
    r
}

/// Decode an unsigned integer at `pos`.
pub fn dec_uint(b: &Vec<u8>, pos: usize) -> (r: Option<(u64, usize)>)
    ensures
        match r {
            Some((v, p)) => spec_parse_uint(b@, pos as int) == Some((v, p as int)) && pos < p
                <= b@.len(),
            None => spec_parse_uint(b@, pos as int) is None,
        },
{
    if pos >= b.len() {
        return None;
    }
    let m: u8 = b[pos];
    let rem: usize = b.len() - pos;
    if m < 0x80 {
        Some((m as u64, pos + 1))
    } else if m == 0xcc {
        if rem >= 2 {
            Some((b[pos + 1] as u64, pos + 2))
        } else {
            None
        }
    } else if m == 0xcd {
        if rem >= 3 {
            let v: u64 = (b[pos + 1] as u64) * 0x100 + (b[pos + 2] as u64);
            Some((v, pos + 3))
        } else {
            None
        }
    } else if m == 0xce {
        if rem >= 5 {
            let v: u64 = (b[pos + 1] as u64) * 0x1000000 + (b[pos + 2] as u64) * 0x10000 + (b[pos
                + 3] as u64) * 0x100 + (b[pos + 4] as u64);
            Some((v, pos + 5))
        } else {
            None
        }
    } else if m == 0xcf {
        if rem >= 9 {
            let hi: u64 = (b[pos + 1] as u64) * 0x1000000 + (b[pos + 2] as u64) * 0x10000 + (b[pos
                + 3] as u64) * 0x100 + (b[pos + 4] as u64);
            let lo: u64 = (b[pos + 5] as u64) * 0x1000000 + (b[pos + 6] as u64) * 0x10000 + (b[pos
                + 7] as u64) * 0x100 + (b[pos + 8] as u64);
            let v: u64 = hi * 0x100000000 + lo;
            assert(v == spec_comb8(
                b@[pos + 1],
                b@[pos + 2],
                b@[pos + 3],
                b@[pos + 4],
                b@[pos + 5],
                b@[pos + 6],
                b@[pos + 7],
                b@[pos + 8],
            ));
            Some((v, pos + 9))
        } else {
            None
        }
    } else {
        None
    }
}

/// Decode a string header at `pos`: the announced byte length and the
/// position of the first data byte.
fn dec_str_header(b: &Vec<u8>, pos: usize) -> (r: Option<(usize, usize)>)
    ensures
        match r {
            Some((len, data_pos)) => spec_parse_str_header(b@, pos as int) == Some(
                (len as int, data_pos as int),
            ) && pos < data_pos <= b@.len() && data_pos + len <= b@.len(),
            None => spec_parse_str(b@, pos as int) is None,
        },
{
    if pos >= b.len() {
        return None;
    }
    let m: u8 = b[pos];
    let rem: usize = b.len() - pos;
    let parsed: Option<(u64, usize)> = if 0xa0 <= m && m < 0xc0 {
        Some(((m - 0xa0) as u64, pos + 1))
    } else if m == 0xd9 {
        if rem >= 2 {
            Some((b[pos + 1] as u64, pos + 2))
        } else {
            None
        }
    } else if m == 0xda {
        if rem >= 3 {
            Some(((b[pos + 1] as u64) * 0x100 + (b[pos + 2] as u64), pos + 3))
        } else {
            None
        }
    } else if m == 0xdb {
        if rem >= 5 {
            Some(
                (
                    (b[pos + 1] as u64) * 0x1000000 + (b[pos + 2] as u64) * 0x10000 + (b[pos
                        + 3] as u64) * 0x100 + (b[pos + 4] as u64),
                    pos + 5,
                ),
            )
        } else {
            None
        }
    } else {
        None
    };
    match parsed {
        None => None,
        Some((len, data_pos)) => {
            if len <= (b.len() - data_pos) as u64 {
                Some((len as usize, data_pos))
            } else {
                None
            }
        },
    }
}

/// Decode a string at `pos` into its UTF-8 bytes.
pub fn dec_str_bytes(b: &Vec<u8>, pos: usize) -> (r: Option<(Vec<u8>, usize)>)
    ensures
        match r {
            Some((s, p)) => spec_parse_str(b@, pos as int) == Some((s@, p as int)) && pos < p
                <= b@.len(),
            None => spec_parse_str(b@, pos as int) is None,
        },
{
    match dec_str_header(b, pos) {
        None => None,
        Some((len, data_pos)) => {
            let n: usize = b.len();
            assert(data_pos + len <= n);
            let end: usize = data_pos + len;
            let s = copy_range(b, data_pos, end);
            Some((s, end))
        },
    }
}

/// Decode an array header at `pos`: the element count and the position of
/// the first element.
pub fn dec_array_header(b: &Vec<u8>, pos: usize) -> (r: Option<(u64, usize)>)
    ensures
        match r {
            Some((n, p)) => spec_parse_array_header(b@, pos as int) == Some((n as nat, p as int))
                && pos < p <= b@.len(),
            None => spec_parse_array_header(b@, pos as int) is None,
        },
{
    if pos >= b.len() {
        return None;
    }
    let m: u8 = b[pos];
    let rem: usize = b.len() - pos;
    if 0x90 <= m && m < 0xa0 {
        Some(((m - 0x90) as u64, pos + 1))
    } else if m == 0xdc {
        if rem >= 3 {
            Some(((b[pos + 1] as u64) * 0x100 + (b[pos + 2] as u64), pos + 3))
        } else {
            None
        }
    } else if m == 0xdd {
        if rem >= 5 {
            Some(
                (
                    (b[pos + 1] as u64) * 0x1000000 + (b[pos + 2] as u64) * 0x10000 + (b[pos
                        + 3] as u64) * 0x100 + (b[pos + 4] as u64),
                    pos + 5,
                ),
            )
        } else {
            None
        }
    } else {
        None
    }
}

/// Decode a map header at `pos`: the pair count and the position of the
/// first key.
pub fn dec_map_header(b: &Vec<u8>, pos: usize) -> (r: Option<(u64, usize)>)
    ensures
        match r {
            Some((n, p)) => spec_parse_map_header(b@, pos as int) == Some((n as nat, p as int))
                && pos < p <= b@.len(),
            None => spec_parse_map_header(b@, pos as int) is None,
        },
{
    if pos >= b.len() {
        return None;
    }
    let m: u8 = b[pos];
    let rem: usize = b.len() - pos;
    if 0x80 <= m && m < 0x90 {
        Some(((m - 0x80) as u64, pos + 1))
    } else if m == 0xde {
        if rem >= 3 {
            Some(((b[pos + 1] as u64) * 0x100 + (b[pos + 2] as u64), pos + 3))
        } else {
            None
        }
    } else if m == 0xdf {
        if rem >= 5 {
            Some(
                (
                    (b[pos + 1] as u64) * 0x1000000 + (b[pos + 2] as u64) * 0x10000 + (b[pos
                        + 3] as u64) * 0x100 + (b[pos + 4] as u64),
                    pos + 5,
                ),
            )
        } else {
            None
        }
    } else {
        None
    }
}

/// Bounds-checked end of a fixed-length payload: mirrors `spec_skip_len`.
fn skip_len(b: &Vec<u8>, data_pos: usize, len: u64) -> (r: Option<usize>)
    ensures
        match r {
            Some(p) => spec_skip_len(b@, data_pos as int, len as int) == Some(p as int)
                && data_pos <= p <= b@.len(),
            None => spec_skip_len(b@, data_pos as int, len as int) is None,
        },
{
    if data_pos <= b.len() && len <= (b.len() - data_pos) as u64 {
        Some(data_pos + len as usize)
    } else {
        None
    }
}

/// Position after one value of any shape at `pos`: mirrors `spec_skip`.
pub fn skip_value(b: &Vec<u8>, pos: usize) -> (r: Option<usize>)
    ensures
        match r {
            Some(p) => spec_skip(b@, pos as int) == Some(p as int) && pos < p <= b@.len(),
            None => spec_skip(b@, pos as int) is None,
        },
    decreases b@.len() - pos, 0int, 0nat,
{
    if pos >= b.len() {
        return None;
    }
    let m: u8 = b[pos];
    let rem: usize = b.len() - pos;
    if m < 0x80 {
        Some(pos + 1)
    } else if m < 0x90 {
        skip_n_values(b, pos + 1, 2 * ((m - 0x80) as u64))
    } else if m < 0xa0 {
        skip_n_values(b, pos + 1, (m - 0x90) as u64)
    } else if m < 0xc0 {
        skip_len(b, pos + 1, (m - 0xa0) as u64)
    } else if m == 0xc0 || m == 0xc2 || m == 0xc3 {
        Some(pos + 1)
    } else if m == 0xc1 {
        None
    } else if m == 0xc4 {
        if rem >= 2 {
            skip_len(b, pos + 2, b[pos + 1] as u64)
        } else {
            None
        }
    } else if m == 0xc5 {
        if rem >= 3 {
            skip_len(b, pos + 3, (b[pos + 1] as u64) * 0x100 + (b[pos + 2] as u64))
        } else {
            None
        }
    } else if m == 0xc6 {
        if rem >= 5 {
            skip_len(
                b,
                pos + 5,
                (b[pos + 1] as u64) * 0x1000000 + (b[pos + 2] as u64) * 0x10000 + (b[pos
                    + 3] as u64) * 0x100 + (b[pos + 4] as u64),
            )
        } else {
            None
        }
    } else if m == 0xc7 {
        if rem >= 3 {
            skip_len(b, pos + 3, b[pos + 1] as u64)
        } else {
            None
        }
    } else if m == 0xc8 {
        if rem >= 4 {
            skip_len(b, pos + 4, (b[pos + 1] as u64) * 0x100 + (b[pos + 2] as u64))
        } else {
            None
        }
    } else if m == 0xc9 {
        if rem >= 6 {
            skip_len(
                b,
                pos + 6,
                (b[pos + 1] as u64) * 0x1000000 + (b[pos + 2] as u64) * 0x10000 + (b[pos
                    + 3] as u64) * 0x100 + (b[pos + 4] as u64),
            )
        } else {
            None
        }
    } else if m == 0xca {
        skip_len(b, pos + 1, 4)
    } else if m == 0xcb {
        skip_len(b, pos + 1, 8)
    } else if m == 0xcc || m == 0xd0 {
        skip_len(b, pos + 1, 1)
    } else if m == 0xcd || m == 0xd1 {
        skip_len(b, pos + 1, 2)
    } else if m == 0xce || m == 0xd2 {
        skip_len(b, pos + 1, 4)
    } else if m == 0xcf || m == 0xd3 {
        skip_len(b, pos + 1, 8)
    } else if m == 0xd4 {
        if rem >= 2 {
            skip_len(b, pos + 2, 1)
        } else {
            None
        }
    } else if m == 0xd5 {
        if rem >= 2 {
            skip_len(b, pos + 2, 2)
        } else {
            None
        }
    } else if m == 0xd6 {
        if rem >= 2 {
            skip_len(b, pos + 2, 4)
        } else {
            None
        }
    } else if m == 0xd7 {
        if rem >= 2 {
            skip_len(b, pos + 2, 8)
        } else {
            None
        }
    } else if m == 0xd8 {
        if rem >= 2 {
            skip_len(b, pos + 2, 16)
        } else {
            None
        }
    } else if m == 0xd9 {
        if rem >= 2 {
            skip_len(b, pos + 2, b[pos + 1] as u64)
        } else {
            None
        }
    } else if m == 0xda {
        if rem >= 3 {
            skip_len(b, pos + 3, (b[pos + 1] as u64) * 0x100 + (b[pos + 2] as u64))
        } else {
            None
        }
    } else if m == 0xdb {
        if rem >= 5 {
            skip_len(
                b,
                pos + 5,
                (b[pos + 1] as u64) * 0x1000000 + (b[pos + 2] as u64) * 0x10000 + (b[pos
                    + 3] as u64) * 0x100 + (b[pos + 4] as u64),
            )
        } else {
            None
        }
    } else if m == 0xdc {
        if rem >= 3 {
            skip_n_values(b, pos + 3, (b[pos + 1] as u64) * 0x100 + (b[pos + 2] as u64))
        } else {
            None
        }
    } else if m == 0xdd {
        if rem >= 5 {
            skip_n_values(
                b,
                pos + 5,
                (b[pos + 1] as u64) * 0x1000000 + (b[pos + 2] as u64) * 0x10000 + (b[pos
                    + 3] as u64) * 0x100 + (b[pos + 4] as u64),
            )
        } else {
            None
        }
    } else if m == 0xde {
        if rem >= 3 {
            skip_n_values(b, pos + 3, 2 * ((b[pos + 1] as u64) * 0x100 + (b[pos + 2] as u64)))
        } else {
            None
        }
    } else if m == 0xdf {
        if rem >= 5 {
            skip_n_values(
                b,
                pos + 5,
                2 * ((b[pos + 1] as u64) * 0x1000000 + (b[pos + 2] as u64) * 0x10000 + (b[pos
                    + 3] as u64) * 0x100 + (b[pos + 4] as u64)),
            )
        } else {
            None
        }
    } else {
        // 0xe0 ..= 0xff: negative fixint
        Some(pos + 1)
    }
}

/// Position after `n` consecutive values starting at `pos`: mirrors
/// `spec_skip_n`.
pub fn skip_n_values(b: &Vec<u8>, pos: usize, n: u64) -> (r: Option<usize>)
    requires
        pos <= b@.len(),
    ensures
        match r {
            Some(p) => spec_skip_n(b@, pos as int, n as nat) == Some(p as int) && pos <= p
                <= b@.len(),
            None => spec_skip_n(b@, pos as int, n as nat) is None,
        },
    decreases b@.len() - pos, 1int, n as nat,
{
    if n == 0 {
        Some(pos)
    } else {
        match skip_value(b, pos) {
            None => None,
            Some(p2) => skip_n_values(b, p2, n - 1),
        }
    }
}

} // verus!
