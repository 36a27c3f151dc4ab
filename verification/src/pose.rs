//! Body pose snapshots and their byte-exact serialization.
//!
//! A pose records the bit patterns of one body's translation (three 32-bit
//! scalars) and rotation (a quaternion, four 32-bit scalars), exactly 28
//! bytes with a fixed field order and no padding. The snapshot also carries
//! a sort key: an order-preserving integer encoding of the x-coordinate,
//! so that the hasher can order bodies without reading the scalars.

use vstd::prelude::*;

verus! {

/// A byte-exact snapshot of one rigid body's pose.
///
/// The seven `u32` fields hold the raw bit patterns of the pose scalars:
/// translation x, y, z, then rotation x, y, z, w. `x_key` is a total-order
/// key for the translation's x-coordinate, supplied by the caller; equal
/// x-coordinates must map to equal keys and smaller ones to smaller keys.
#[derive(Clone, Copy, Debug, PartialEq, Eq, Structural)]
pub struct Pose {
    pub x_key: u64,
    pub tx: u32,
    pub ty: u32,
    pub tz: u32,
    pub rx: u32,
    pub ry: u32,
    pub rz: u32,
    pub rw: u32,
}

/// The four bytes of a 32-bit word, least significant first.
pub open spec fn word_bytes(w: u32) -> Seq<u8> {
    seq![
        (w % 0x100) as u8,
        ((w / 0x100) % 0x100) as u8,
        ((w / 0x10000) % 0x100) as u8,
        ((w / 0x1000000) % 0x100) as u8,
    ]
}

/// The 28-byte serialization of a pose: translation x, y, z, then
/// rotation x, y, z, w, each word least-significant byte first.
pub open spec fn pose_bytes(p: Pose) -> Seq<u8> {
    word_bytes(p.tx) + word_bytes(p.ty) + word_bytes(p.tz) + word_bytes(p.rx) + word_bytes(p.ry)
        + word_bytes(p.rz) + word_bytes(p.rw)
}

/// Appends the four bytes of `w` to `out`, least significant first.
pub fn push_word_bytes(out: &mut Vec<u8>, w: u32)
    ensures
        final(out)@ == old(out)@ + word_bytes(w),
{
    out.push((w % 0x100) as u8);
    out.push(((w / 0x100) % 0x100) as u8);
    out.push(((w / 0x10000) % 0x100) as u8);
    out.push(((w / 0x1000000) % 0x100) as u8);
    assert(out@ =~= old(out)@ + word_bytes(w));
}

/// Serializes a pose into its 28-byte record.
pub fn pose_to_bytes(p: &Pose) -> (r: Vec<u8>)
    ensures
        r@ == pose_bytes(*p),
        r@.len() == 28,
{
    let mut out: Vec<u8> = Vec::new();
    push_word_bytes(&mut out, p.tx);
    push_word_bytes(&mut out, p.ty);
    push_word_bytes(&mut out, p.tz);
    push_word_bytes(&mut out, p.rx);
    push_word_bytes(&mut out, p.ry);
    push_word_bytes(&mut out, p.rz);
    push_word_bytes(&mut out, p.rw);
    assert(out@ =~= pose_bytes(*p));
    out
}

} // verus!
