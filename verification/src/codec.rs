//! Bounded-size serialization of owner-keyed records.
//!
//! A record is framed as three length-prefixed byte strings — owner, name,
//! power — each with a two-byte little-endian length. Decoding is specified
//! as a function on byte sequences; encoding is proved to produce exactly the
//! frames that decoding accepts, so a record survives the durable store
//! byte-for-byte.

use vstd::prelude::*;
use vstd::arithmetic::div_mod::lemma_fundamental_div_mod;
use vstd::slice::{slice_subrange, slice_to_vec};
use crate::identity::{copy_bytes, Identity};
use crate::store::MAX_VALUE_BYTES;

verus! {

/// An owner-keyed record: who created it, its name, and its power attribute,
/// both as UTF-8 bytes.
pub struct HeroRecord {
    pub owner: Identity,
    pub name: Vec<u8>,
    pub power: Vec<u8>,
}

/// The mathematical shape of one record.
pub ghost struct HeroView {
    pub owner: Seq<u8>,
    pub name: Seq<u8>,
    pub power: Seq<u8>,
}

impl View for HeroRecord {
    type V = HeroView;

    open spec fn view(&self) -> HeroView {
        HeroView { owner: self.owner@, name: self.name@, power: self.power@ }
    }
}

impl HeroRecord {
    /// An owned copy of this record.
    pub fn duplicate(&self) -> (r: HeroRecord)
        ensures
            r@ == self@,
    {
        HeroRecord {
            owner: self.owner.duplicate(),
            name: copy_bytes(&self.name),
            power: copy_bytes(&self.power),
        }
    }
}

/// The little-endian 16-bit number stored at position `i`.
pub open spec fn read_u16(b: Seq<u8>, i: int) -> int {
    b[i] + 256 * b[i + 1]
}

/// A 16-bit length as two little-endian bytes.
pub open spec fn u16le(n: int) -> Seq<u8> {
    seq![(n % 256) as u8, (n / 256) as u8]
}

/// The encoded frame of a record.
pub open spec fn hero_bytes(h: HeroView) -> Seq<u8> {
    u16le(h.owner.len() as int) + h.owner + u16le(h.name.len() as int) + h.name + u16le(
        h.power.len() as int,
    ) + h.power
}

/// The encoded size of a record: three two-byte length prefixes plus the
/// three byte strings.
pub open spec fn hero_encoded_len(h: HeroView) -> int {
    6 + h.owner.len() as int + h.name.len() as int + h.power.len() as int
}

/// What a byte string means as a record: the frame is parsed front to back,
/// and nothing may be left over.
pub open spec fn spec_decode_hero(b: Seq<u8>) -> Option<HeroView> {
    if b.len() < 2 {
        None
    } else {
        let ol = read_u16(b, 0);
        if b.len() < 2 + ol + 2 {
            None
        } else {
            let nl = read_u16(b, 2 + ol);
            if b.len() < 2 + ol + 2 + nl + 2 {
                None
            } else {
                let pl = read_u16(b, 2 + ol + 2 + nl);
                if b.len() != 2 + ol + 2 + nl + 2 + pl {
                    None
                } else {
                    Some(
                        (HeroView {
                            owner: b.subrange(2, 2 + ol),
                            name: b.subrange(2 + ol + 2, 2 + ol + 2 + nl),
                            power: b.subrange(2 + ol + 2 + nl + 2, 2 + ol + 2 + nl + 2 + pl),
                        }),
                    )
                }
            }
        }
    }
}

fn push_u16(out: &mut Vec<u8>, v: u16)
    ensures
        final(out)@ == old(out)@ + u16le(v as int),
{
    out.push((v % 256) as u8);
    out.push((v / 256) as u8);
    proof {
        assert(out@ =~= old(out)@ + u16le(v as int));
    }
}

pub(crate) fn push_slice(out: &mut Vec<u8>, src: &[u8])
    ensures
        final(out)@ == old(out)@ + src@,
{
    let mut tail = slice_to_vec(src);
    out.append(&mut tail);
}

/// Encodes a record if it fits the declared size bound of one stored value;
/// an oversized record is rejected before anything is written.
pub fn encode_hero(h: &HeroRecord) -> (r: Option<Vec<u8>>)
    ensures
        match r {
            Some(bytes) => hero_encoded_len(h@) <= MAX_VALUE_BYTES && bytes@ == hero_bytes(h@)
                && bytes@.len() == hero_encoded_len(h@),
            None => hero_encoded_len(h@) > MAX_VALUE_BYTES,
        },
{
    let ol = h.owner.bytes().len();
    let nl = h.name.len();
    let pl = h.power.len();
    if ol > MAX_VALUE_BYTES || nl > MAX_VALUE_BYTES || pl > MAX_VALUE_BYTES {
        return None;
    }
    if 6 + ol + nl + pl > MAX_VALUE_BYTES {
        return None;
    }
    let mut out: Vec<u8> = Vec::new();
    push_u16(&mut out, ol as u16);
    push_slice(&mut out, h.owner.bytes().as_slice());
    push_u16(&mut out, nl as u16);
    push_slice(&mut out, h.name.as_slice());
    push_u16(&mut out, pl as u16);
    push_slice(&mut out, h.power.as_slice());
    proof {
        assert(out@ =~= hero_bytes(h@));
    }
    Some(out)
}

/// Decoding inverts encoding: the frame of any record whose parts carry
/// 16-bit lengths parses back to exactly that record.
pub proof fn lemma_hero_bytes_decode(h: HeroView)
    requires
        h.owner.len() <= 0xffff,
        h.name.len() <= 0xffff,
        h.power.len() <= 0xffff,
    ensures
        spec_decode_hero(hero_bytes(h)) == Some(h),
{
    let b = hero_bytes(h);
    let ol = h.owner.len() as int;
    let nl = h.name.len() as int;
    let pl = h.power.len() as int;
    lemma_fundamental_div_mod(ol, 256);
    lemma_fundamental_div_mod(nl, 256);
    lemma_fundamental_div_mod(pl, 256);
    assert(b.len() == 6 + ol + nl + pl);
    assert(read_u16(b, 0) == ol);
    assert(b.subrange(2, 2 + ol) =~= h.owner);
    assert(read_u16(b, 2 + ol) == nl);
    assert(b.subrange(2 + ol + 2, 2 + ol + 2 + nl) =~= h.name);
    assert(read_u16(b, 2 + ol + 2 + nl) == pl);
    assert(b.subrange(2 + ol + 2 + nl + 2, 2 + ol + 2 + nl + 2 + pl) =~= h.power);
}

/// Parses a stored byte string back into a record, exactly as the decoding
/// specification says.
pub fn decode_hero(b: &Vec<u8>) -> (r: Option<HeroRecord>)
    ensures
        match r {
            Some(h) => spec_decode_hero(b@) == Some(h@),
            None => spec_decode_hero(b@) is None,
        },
{
    let len = b.len();
    if len < 2 {
        return None;
    }
    let ol = (b[0] as usize) + 256 * (b[1] as usize);
    assert(ol == read_u16(b@, 0));
    if len < ol + 4 {
        return None;
    }
    let nl = (b[ol + 2] as usize) + 256 * (b[ol + 3] as usize);
    assert(nl == read_u16(b@, 2 + ol));
    if len < ol + nl + 6 {
        return None;
    }
    let pl = (b[ol + nl + 4] as usize) + 256 * (b[ol + nl + 5] as usize);
    assert(pl == read_u16(b@, 2 + ol + 2 + nl));
    if len != ol + nl + pl + 6 {
        return None;
    }
    let owner = slice_to_vec(slice_subrange(b.as_slice(), 2, 2 + ol));
    let name = slice_to_vec(slice_subrange(b.as_slice(), ol + 4, ol + 4 + nl));
    let power = slice_to_vec(slice_subrange(b.as_slice(), ol + nl + 6, ol + nl + 6 + pl));
    let record = HeroRecord { owner: Identity::from_bytes(owner), name, power };
    proof {
        assert(spec_decode_hero(b@) == Some(record@));
    }
    Some(record)
}

} // verus!
