//! Datetime values as the wire carries them: a fixed 16-byte little-endian
//! payload inside a tagged extension value.
//!
//! The crate models a moment by the plain fields the payload holds:
//! seconds since the epoch, nanoseconds within the second, and the zone
//! offset in whole minutes.  Converting to and from a calendar library's
//! richer type is the embedder's business; the byte layout and its
//! round-trip are proved here.

use vstd::prelude::*;

use crate::msgpack::spec_ext16;

verus! {

/// The extension tag of a datetime value on the wire.
pub const MP_DATETIME: u8 = 4;

/// The raw wire record: seconds, nanoseconds, zone offset in minutes, and
/// a zone index that this client neither reads nor writes.
#[derive(Debug, Clone, Copy, PartialEq, Eq, Structural)]
#[allow(non_camel_case_types)]
pub struct datetime {
    pub s: i64,
    pub n: i32,
    pub tz: i16,
    pub tzi: i16,
}

/// A moment: seconds since the Unix epoch, nanoseconds within the second,
/// and the offset of its zone in whole minutes.
#[derive(Debug, Clone, Copy, PartialEq, Eq, Structural)]
pub struct Datetime {
    pub secs: i64,
    pub nsecs: u32,
    pub tz_offset_minutes: i16,
}

/// The two little-endian bytes of a value below 0x1_0000.
pub open spec fn spec_le2(v: u64) -> Seq<u8> {
    seq![(v % 0x100) as u8, (v / 0x100 % 0x100) as u8]
}

/// The four little-endian bytes of a value below 0x1_0000_0000.
pub open spec fn spec_le4(v: u64) -> Seq<u8> {
    seq![
        (v % 0x100) as u8,
        (v / 0x100 % 0x100) as u8,
        (v / 0x10000 % 0x100) as u8,
        (v / 0x1000000 % 0x100) as u8,
    ]
}

/// The eight little-endian bytes of a value.
pub open spec fn spec_le8(v: u64) -> Seq<u8> {
    seq![
        (v % 0x100) as u8,
        (v / 0x100 % 0x100) as u8,
        (v / 0x10000 % 0x100) as u8,
        (v / 0x1000000 % 0x100) as u8,
        (v / 0x100000000 % 0x100) as u8,
        (v / 0x10000000000 % 0x100) as u8,
        (v / 0x1000000000000 % 0x100) as u8,
        (v / 0x100000000000000 % 0x100) as u8,
    ]
}

/// The value read back from two little-endian bytes.
pub open spec fn spec_comb_le2(b0: u8, b1: u8) -> u64 {
    ((b1 as u64) * 0x100 + (b0 as u64)) as u64
}

/// The value read back from four little-endian bytes.
pub open spec fn spec_comb_le4(b0: u8, b1: u8, b2: u8, b3: u8) -> u64 {
    ((b3 as u64) * 0x1000000 + (b2 as u64) * 0x10000 + (b1 as u64) * 0x100 + (b0 as u64)) as u64
}

/// The value read back from eight little-endian bytes.
pub open spec fn spec_comb_le8(
    b0: u8,
    b1: u8,
    b2: u8,
    b3: u8,
    b4: u8,
    b5: u8,
    b6: u8,
    b7: u8,
) -> u64 {
    ((b7 as u64) * 0x100000000000000 + (b6 as u64) * 0x1000000000000 + (b5 as u64) * 0x10000000000
        + (b4 as u64) * 0x100000000 + (b3 as u64) * 0x1000000 + (b2 as u64) * 0x10000 + (b1 as u64)
        * 0x100 + (b0 as u64)) as u64
}

/// The 16 payload bytes of a moment: seconds, nanoseconds, zone offset,
/// and a zero zone index, all little-endian.
pub open spec fn spec_dt_bytes(dt: Datetime) -> Seq<u8> {
    spec_le8(dt.secs as u64) + spec_le4(dt.nsecs as u64) + spec_le2(dt.tz_offset_minutes as u16 as u64)
        + seq![0u8, 0u8]
}

/// The moment read back from 16 payload bytes; the zone index in the last
/// two bytes is ignored.
pub open spec fn spec_dt_of(b: Seq<u8>) -> Datetime {
    Datetime {
        secs: spec_comb_le8(b[0], b[1], b[2], b[3], b[4], b[5], b[6], b[7]) as i64,
        nsecs: spec_comb_le4(b[8], b[9], b[10], b[11]) as u32,
        tz_offset_minutes: spec_comb_le2(b[12], b[13]) as u16 as i16,
    }
}

impl Datetime {
    /// The moment held in an array of 16 little-endian payload bytes.
    pub fn from_bytes(bytes: [u8; 16]) -> (r: Datetime)
        ensures
            r == spec_dt_of(bytes@),
    {
        let secs_u: u64 = (bytes[7] as u64) * 0x100000000000000 + (bytes[6] as u64)
            * 0x1000000000000 + (bytes[5] as u64) * 0x10000000000 + (bytes[4] as u64) * 0x100000000
            + (bytes[3] as u64) * 0x1000000 + (bytes[2] as u64) * 0x10000 + (bytes[1] as u64)
            * 0x100 + (bytes[0] as u64);
        let nsecs_u: u64 = (bytes[11] as u64) * 0x1000000 + (bytes[10] as u64) * 0x10000 + (
        bytes[9] as u64) * 0x100 + (bytes[8] as u64);
        let tz_u: u64 = (bytes[13] as u64) * 0x100 + (bytes[12] as u64);
        Datetime {
            secs: #[verifier::truncate] (secs_u as i64),
            nsecs: #[verifier::truncate] (nsecs_u as u32),
            tz_offset_minutes: #[verifier::truncate] ((#[verifier::truncate] (tz_u as u16)) as i16),
        }
    }

    /// The moment held in a slice of little-endian payload bytes.  The
    /// payload has a fixed length: any slice other than exactly 16 bytes
    /// is refused.
    pub fn try_from_slice(bytes: &[u8]) -> (r: Option<Datetime>)
        ensures
            bytes@.len() == 16 ==> r == Some(spec_dt_of(bytes@)),
            bytes@.len() != 16 ==> r is None,
    {
        if bytes.len() != 16 {
            return None;
        }
        let arr: [u8; 16] = [
            bytes[0],
            bytes[1],
            bytes[2],
            bytes[3],
            bytes[4],
            bytes[5],
            bytes[6],
            bytes[7],
            bytes[8],
            bytes[9],
            bytes[10],
            bytes[11],
            bytes[12],
            bytes[13],
            bytes[14],
            bytes[15],
        ];
        let dt = Datetime::from_bytes(arr);
        proof {
            assert(arr@ =~= bytes@);
        }
        Some(dt)
    }

    /// The 16 little-endian payload bytes of this moment; the zone index
    /// is written as zero.
    pub fn as_bytes(&self) -> (r: [u8; 16])
        ensures
            r@ == spec_dt_bytes(*self),
    {
        let su: u64 = #[verifier::truncate] (self.secs as u64);
        let nu: u64 = self.nsecs as u64;
        let tu: u64 = (#[verifier::truncate] (self.tz_offset_minutes as u16)) as u64;
        let r: [u8; 16] = [
            (su % 0x100) as u8,
            (su / 0x100 % 0x100) as u8,
            (su / 0x10000 % 0x100) as u8,
            (su / 0x1000000 % 0x100) as u8,
            (su / 0x100000000 % 0x100) as u8,
            (su / 0x10000000000 % 0x100) as u8,
            (su / 0x1000000000000 % 0x100) as u8,
            (su / 0x100000000000000 % 0x100) as u8,
            (nu % 0x100) as u8,
            (nu / 0x100 % 0x100) as u8,
            (nu / 0x10000 % 0x100) as u8,
            (nu / 0x1000000 % 0x100) as u8,
            (tu % 0x100) as u8,
            (tu / 0x100 % 0x100) as u8,
            0,
            0,
        ];
        assert(r@ =~= spec_dt_bytes(*self));
        r
    }

    /// The raw wire record of this moment.  The nanosecond field of the
    /// record is signed and narrower, so a count above `i32::MAX` wraps by
    /// the usual two's-complement truncation.
    pub fn to_record(&self) -> (r: datetime)
        ensures
            r.s == self.secs,
            r.n == self.nsecs as i32,
            r.tz == self.tz_offset_minutes,
            r.tzi == 0,
    {
        datetime {
            s: self.secs,
            n: #[verifier::truncate] (self.nsecs as i32),
            tz: self.tz_offset_minutes,
            tzi: 0,
        }
    }
}

/// Eight little-endian digits combine back to their value.
#[verifier::spinoff_prover]
#[verifier::rlimit(100)]
proof fn lemma_comb_le8(v: u64)
    ensures
        spec_comb_le8(
            spec_le8(v)[0],
            spec_le8(v)[1],
            spec_le8(v)[2],
            spec_le8(v)[3],
            spec_le8(v)[4],
            spec_le8(v)[5],
            spec_le8(v)[6],
            spec_le8(v)[7],
        ) == v,
{
    crate::msgpack::lemma_comb8_be8(v);
}

/// The digit positions of the payload: the three little-endian fields and
/// the zero padding, laid out in order.
#[verifier::spinoff_prover]
proof fn lemma_dt_bytes_layout(dt: Datetime)
    ensures
        spec_dt_bytes(dt).len() == 16,
        forall|i: int| 0 <= i < 8 ==> spec_dt_bytes(dt)[i] == spec_le8(dt.secs as u64)[i],
        forall|i: int|
            8 <= i < 12 ==> spec_dt_bytes(dt)[i] == spec_le4(dt.nsecs as u64)[i - 8],
        forall|i: int|
            12 <= i < 14 ==> spec_dt_bytes(dt)[i] == spec_le2(
                dt.tz_offset_minutes as u16 as u64,
            )[i - 12],
{
}

/// Reading back what was written restores the moment exactly.
#[verifier::spinoff_prover]
pub proof fn lemma_dt_roundtrip(dt: Datetime)
    ensures
        spec_dt_of(spec_dt_bytes(dt)) == dt,
{
    let su = dt.secs as u64;
    let nu = dt.nsecs as u64;
    let tu = (dt.tz_offset_minutes as u16) as u64;
    let b = spec_dt_bytes(dt);
    lemma_dt_bytes_layout(dt);
    lemma_comb_le8(su);
    assert(spec_comb_le8(b[0], b[1], b[2], b[3], b[4], b[5], b[6], b[7]) == su);
    assert(spec_comb_le4(b[8], b[9], b[10], b[11]) == nu);
    assert(spec_comb_le2(b[12], b[13]) == tu);
    let sv: i64 = dt.secs;
    assert((su as i64) == sv) by (bit_vector)
        requires
            su == sv as u64,
    ;
    let tv: i16 = dt.tz_offset_minutes;
    let tw: u16 = tu as u16;
    assert((tw as i16) == tv) by (bit_vector)
        requires
            tw == tv as u16,
    ;
}

/// The bytes of a datetime extension value on the wire: the tag, then the
/// 16 payload bytes.
pub open spec fn spec_dt_ext(dt: Datetime) -> Seq<u8> {
    spec_ext16(MP_DATETIME, spec_dt_bytes(dt))
}

/// Append the extension encoding of a moment.
pub fn encode_datetime(buf: &mut Vec<u8>, dt: &Datetime)
    ensures
        final(buf)@ == old(buf)@ + spec_dt_ext(*dt),
{
    buf.push(0xd8);
    buf.push(MP_DATETIME);
    let payload = dt.as_bytes();
    let mut i: usize = 0;
    let ghost with_tag: Seq<u8> = buf@;
    while i < 16
        invariant
            i <= 16,
            payload@ == spec_dt_bytes(*dt),
            buf@ == with_tag + payload@.subrange(0, i as int),
        decreases 16 - i,
    {
        buf.push(payload[i]);
        i = i + 1;
        assert(buf@ =~= with_tag + payload@.subrange(0, i as int));
    }
    assert(payload@.subrange(0, 16) =~= payload@);
    assert(buf@ =~= old(buf)@ + spec_dt_ext(*dt));
}

} // verus!
