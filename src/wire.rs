//! Little-endian primitives of the wire format, and the two-byte header that
//! starts every message.
use vstd::bytes::*;
use vstd::prelude::*;
use vstd::slice::*;

verus! {

/// Version of the wire layout, the first byte of every message.
pub const WIRE_VERSION: u8 = 1;

/// A two-component vector whose components are IEEE-754 single-precision
/// values, held as their bit patterns: the library carries positions and
/// directions, it never computes with them.
#[derive(Clone, Copy, Debug, PartialEq, Eq, Structural)]
pub struct WireVec2 {
    pub x_bits: u32,
    pub y_bits: u32,
}

impl WireVec2 {
    /// The zero vector (both components +0.0).
    pub fn zero() -> (r: WireVec2)
        ensures
            r.x_bits == 0 && r.y_bits == 0,
    {
        WireVec2 { x_bits: 0, y_bits: 0 }
    }
}

pub open spec fn le64(x: u64) -> Seq<u8> {
    spec_u64_to_le_bytes(x)
}

pub open spec fn le32(x: u32) -> Seq<u8> {
    spec_u32_to_le_bytes(x)
}

pub open spec fn bool_byte(b: bool) -> u8 {
    if b { 1 } else { 0 }
}

pub open spec fn vec2_bytes(v: WireVec2) -> Seq<u8> {
    le32(v.x_bits) + le32(v.y_bits)
}

/// The header of a message with the given tag.
pub open spec fn header(tag: u8) -> Seq<u8> {
    seq![WIRE_VERSION, tag]
}

/// Lengths of the primitive encodings, and that each one determines its value.
pub proof fn lemma_primitives()
    ensures
        forall|x: u64| #[trigger] le64(x).len() == 8,
        forall|x: u32| #[trigger] le32(x).len() == 4,
        forall|x: u64, y: u64| #[trigger] le64(x) == #[trigger] le64(y) ==> x == y,
        forall|x: u32, y: u32| #[trigger] le32(x) == #[trigger] le32(y) ==> x == y,
        forall|v: WireVec2| #[trigger] vec2_bytes(v).len() == 8,
{
    lemma_auto_spec_u64_to_from_le_bytes();
    lemma_auto_spec_u32_to_from_le_bytes();
    assert forall|x: u64, y: u64| #[trigger] le64(x) == #[trigger] le64(y) implies x == y by {
        assert(spec_u64_to_le_bytes(x).len() == 8);
        assert(spec_u64_to_le_bytes(y).len() == 8);
    }
    assert forall|x: u32, y: u32| #[trigger] le32(x) == #[trigger] le32(y) implies x == y by {
        assert(spec_u32_to_le_bytes(x).len() == 4);
        assert(spec_u32_to_le_bytes(y).len() == 4);
    }
}

/// Two vectors with the same encoding are the same vector.
pub proof fn lemma_vec2_injective(a: WireVec2, b: WireVec2)
    requires
        vec2_bytes(a) == vec2_bytes(b),
    ensures
        a == b,
{
    lemma_primitives();
    assert(vec2_bytes(a).subrange(0, 4) == le32(a.x_bits));
    assert(vec2_bytes(b).subrange(0, 4) == le32(b.x_bits));
    assert(vec2_bytes(a).subrange(4, 8) == le32(a.y_bits));
    assert(vec2_bytes(b).subrange(4, 8) == le32(b.y_bits));
}

pub fn put_header(out: &mut Vec<u8>, tag: u8)
    ensures
        final(out)@ == old(out)@ + header(tag),
{
    out.push(WIRE_VERSION);
    out.push(tag);
    assert(final(out)@ =~= old(out)@ + header(tag));
}

pub fn put_u64(out: &mut Vec<u8>, x: u64)
    ensures
        final(out)@ == old(out)@ + le64(x),
{
    let mut b = u64_to_le_bytes(x);
    out.append(&mut b);
}

pub fn put_u32(out: &mut Vec<u8>, x: u32)
    ensures
        final(out)@ == old(out)@ + le32(x),
{
    let mut b = u32_to_le_bytes(x);
    out.append(&mut b);
}

pub fn put_bool(out: &mut Vec<u8>, b: bool)
    ensures
        final(out)@ == old(out)@.push(bool_byte(b)),
{
    if b {
        out.push(1);
    } else {
        out.push(0);
    }
}

pub fn put_vec2(out: &mut Vec<u8>, v: WireVec2)
    ensures
        final(out)@ == old(out)@ + vec2_bytes(v),
{
    put_u32(out, v.x_bits);
    put_u32(out, v.y_bits);
    assert(final(out)@ =~= old(out)@ + vec2_bytes(v));
}

/// Reads the eight bytes at `at` as a little-endian integer.
pub fn get_u64(b: &Vec<u8>, at: usize) -> (r: u64)
    requires
        at + 8 <= b@.len(),
    ensures
        le64(r) == b@.subrange(at as int, at + 8),
{
    let _len = b.len();
    let s = slice_subrange(b.as_slice(), at, at + 8);
    let r = u64_from_le_bytes(s);
    proof {
        lemma_auto_spec_u64_to_from_le_bytes();
        assert(spec_u64_to_le_bytes(spec_u64_from_le_bytes(s@)) == s@);
    }
    r
}

/// Reads the four bytes at `at` as a little-endian integer.
pub fn get_u32(b: &Vec<u8>, at: usize) -> (r: u32)
    requires
        at + 4 <= b@.len(),
    ensures
        le32(r) == b@.subrange(at as int, at + 4),
{
    let _len = b.len();
    let s = slice_subrange(b.as_slice(), at, at + 4);
    let r = u32_from_le_bytes(s);
    proof {
        lemma_auto_spec_u32_to_from_le_bytes();
        assert(spec_u32_to_le_bytes(spec_u32_from_le_bytes(s@)) == s@);
    }
    r
}

/// Reads the eight bytes at `at` as a vector.
pub fn get_vec2(b: &Vec<u8>, at: usize) -> (r: WireVec2)
    requires
        at + 8 <= b@.len(),
    ensures
        vec2_bytes(r) == b@.subrange(at as int, at + 8),
{
    let _len = b.len();
    let x_bits = get_u32(b, at);
    let y_bits = get_u32(b, at + 4);
    let r = WireVec2 { x_bits, y_bits };
    assert(vec2_bytes(r) =~= b@.subrange(at as int, at + 8));
    r
}

/// Reads the byte at `at` as a flag: `None` unless it is 0 or 1.
pub fn get_bool(b: &Vec<u8>, at: usize) -> (r: Option<bool>)
    requires
        at < b@.len(),
    ensures
        r matches Some(v) ==> bool_byte(v) == b@[at as int],
        r is None <==> (b@[at as int] != 0 && b@[at as int] != 1),
{
    if b[at] == 0 {
        Some(false)
    } else if b[at] == 1 {
        Some(true)
    } else {
        None
    }
}

} // verus!
