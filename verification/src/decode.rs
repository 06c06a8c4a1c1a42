//! The packet-specific decoders, composed from the chunk reader.
//!
//! Each executable decoder is proved equal to a mathematical decoder over
//! the byte sequence, on success and on failure alike.

use crate::chunk::decoded;
use crate::chunk::parse_value;
use crate::chunk::spec_parse_value;
use crate::chunk::SpecData;
use crate::chunk::utf8_string;
use crate::errors::DecodeError;
use crate::packets::Bone;
use crate::packets::BoneTrans;
use crate::packets::Frame;
use crate::packets::FramePacket;
use crate::packets::Head;
use crate::packets::Info;
use crate::packets::Position;
use crate::packets::Rotation;
use crate::packets::Skeleton;
use crate::packets::SkeletonOrFrame;
use crate::packets::SkeletonPacket;
use crate::packets::SpecFrame;
use crate::packets::SpecFramePacket;
use crate::packets::SpecHead;
use crate::packets::SpecPacket;
use crate::packets::SpecSkeletonPacket;
use crate::packets::Transform;
use vstd::bytes::spec_u16_from_le_bytes;
use vstd::bytes::spec_u32_from_le_bytes;
use vstd::bytes::spec_u64_from_le_bytes;
use vstd::bytes::u16_from_le_bytes;
use vstd::bytes::u32_from_le_bytes;
use vstd::bytes::u64_from_le_bytes;
use vstd::prelude::*;
use vstd::slice::slice_subrange;
use vstd::slice::slice_to_vec;
use vstd::utf8::decode_utf8;
use vstd::utf8::valid_utf8;

verus! {

/// What decoding the header chunk yields: the outer declared length (for
/// the caller to advance past the chunk) and the format/version pair. The
/// payload holds a format-text chunk then a version chunk, in that order;
/// the version chunk's payload must be non-empty, its first byte is the
/// version.
pub open spec fn spec_parse_head(s: Seq<u8>) -> Result<(u32, SpecHead), DecodeError> {
    match spec_parse_value(s) {
        Err(e) => Err(e),
        Ok(outer) => match spec_parse_value(outer.data) {
            Err(e) => Err(e),
            Ok(ftyp) => if !valid_utf8(ftyp.data) {
                Err(DecodeError::InvalidUtf8)
            } else {
                match spec_parse_value(ftyp.rem) {
                    Err(e) => Err(e),
                    Ok(vrsn) => if vrsn.data.len() < 1 {
                        Err(DecodeError::FieldSizeMismatch(1))
                    } else {
                        Ok(
                            (
                                outer.len,
                                SpecHead { format: decode_utf8(ftyp.data), ver: vrsn.data[0] },
                            ),
                        )
                    },
                }
            },
        },
    }
}

/// Decode the header chunk: format text then version byte, in fixed order.
pub fn parse_head(data: &[u8]) -> (r: Result<(u32, Head), DecodeError>)
    ensures
        decoded(r, spec_parse_head(data@)),
{
    let outer = match parse_value(data) {
        Ok(d) => d,
        Err(e) => {
            return Err(e);
        },
    };
    let ftyp = match parse_value(outer.data) {
        Ok(d) => d,
        Err(e) => {
            return Err(e);
        },
    };
    let format = match utf8_string(slice_to_vec(ftyp.data)) {
        Some(s) => s,
        None => {
            return Err(DecodeError::InvalidUtf8);
        },
    };
    let vrsn = match parse_value(ftyp.rem) {
        Ok(d) => d,
        Err(e) => {
            return Err(e);
        },
    };
    if vrsn.data.len() < 1 {
        return Err(DecodeError::FieldSizeMismatch(1));
    }
    let ver = vrsn.data[0];
    Ok((outer.len, Head { format, ver }))
}

/// What decoding the info chunk yields: the outer declared length and the
/// sender endpoint. The payload holds an 8-byte little-endian address
/// chunk then a 2-byte little-endian port chunk; a payload of any other
/// width fails with `FieldSizeMismatch` naming the expected width.
pub open spec fn spec_parse_info(s: Seq<u8>) -> Result<(u32, Info), DecodeError> {
    match spec_parse_value(s) {
        Err(e) => Err(e),
        Ok(outer) => match spec_parse_value(outer.data) {
            Err(e) => Err(e),
            Ok(ipad) => if ipad.data.len() != 8 {
                Err(DecodeError::FieldSizeMismatch(8))
            } else {
                match spec_parse_value(ipad.rem) {
                    Err(e) => Err(e),
                    Ok(rcvp) => if rcvp.data.len() != 2 {
                        Err(DecodeError::FieldSizeMismatch(2))
                    } else {
                        Ok(
                            (
                                outer.len,
                                Info {
                                    addr: spec_u64_from_le_bytes(ipad.data),
                                    port: spec_u16_from_le_bytes(rcvp.data),
                                },
                            ),
                        )
                    },
                }
            },
        },
    }
}

/// Decode the info chunk: sender address then port, in fixed order.
pub fn parse_info(data: &[u8]) -> (r: Result<(u32, Info), DecodeError>)
    ensures
        decoded(r, spec_parse_info(data@)),
{
    let outer = match parse_value(data) {
        Ok(d) => d,
        Err(e) => {
            return Err(e);
        },
    };
    let ipad = match parse_value(outer.data) {
        Ok(d) => d,
        Err(e) => {
            return Err(e);
        },
    };
    if ipad.data.len() != 8 {
        return Err(DecodeError::FieldSizeMismatch(8));
    }
    let addr = u64_from_le_bytes(ipad.data);
    let rcvp = match parse_value(ipad.rem) {
        Ok(d) => d,
        Err(e) => {
            return Err(e);
        },
    };
    if rcvp.data.len() != 2 {
        return Err(DecodeError::FieldSizeMismatch(2));
    }
    let port = u16_from_le_bytes(rcvp.data);
    Ok((outer.len, Info { addr, port }))
}

/// What decoding a transform chunk yields. The payload must be exactly 28
/// bytes: seven consecutive 4-byte little-endian IEEE-754 bit patterns,
/// in field order rot.x, rot.y, rot.z, rot.w, pos.x, pos.y, pos.z. Any
/// bit pattern passes through unchanged.
pub open spec fn spec_parse_trans(s: Seq<u8>) -> Result<(u32, Transform), DecodeError> {
    match spec_parse_value(s) {
        Err(e) => Err(e),
        Ok(c) => if c.data.len() != 28 {
            Err(DecodeError::FieldSizeMismatch(28))
        } else {
            Ok(
                (
                    c.len,
                    Transform {
                        rot: Rotation {
                            x: spec_u32_from_le_bytes(c.data.subrange(0, 4)),
                            y: spec_u32_from_le_bytes(c.data.subrange(4, 8)),
                            z: spec_u32_from_le_bytes(c.data.subrange(8, 12)),
                            w: spec_u32_from_le_bytes(c.data.subrange(12, 16)),
                        },
                        pos: Position {
                            x: spec_u32_from_le_bytes(c.data.subrange(16, 20)),
                            y: spec_u32_from_le_bytes(c.data.subrange(20, 24)),
                            z: spec_u32_from_le_bytes(c.data.subrange(24, 28)),
                        },
                    },
                ),
            )
        },
    }
}

/// Decode a transform chunk: seven exact 4-byte little-endian bit
/// patterns from a 28-byte payload.
pub fn parse_trans(data: &[u8]) -> (r: Result<(u32, Transform), DecodeError>)
    ensures
        decoded(r, spec_parse_trans(data@)),
{
    let c = match parse_value(data) {
        Ok(d) => d,
        Err(e) => {
            return Err(e);
        },
    };
    if c.data.len() != 28 {
        return Err(DecodeError::FieldSizeMismatch(28));
    }
    let rot = Rotation {
        x: u32_from_le_bytes(slice_subrange(c.data, 0, 4)),
        y: u32_from_le_bytes(slice_subrange(c.data, 4, 8)),
        z: u32_from_le_bytes(slice_subrange(c.data, 8, 12)),
        w: u32_from_le_bytes(slice_subrange(c.data, 12, 16)),
    };
    let pos = Position {
        x: u32_from_le_bytes(slice_subrange(c.data, 16, 20)),
        y: u32_from_le_bytes(slice_subrange(c.data, 20, 24)),
        z: u32_from_le_bytes(slice_subrange(c.data, 24, 28)),
    };
    Ok((c.len, Transform { rot, pos }))
}

/// What decoding one bone entry's payload yields: a 2-byte id chunk, a
/// 2-byte parent-id chunk, then a transform chunk, in fixed order.
pub open spec fn spec_parse_bone(p: Seq<u8>) -> Result<Bone, DecodeError> {
    match spec_parse_value(p) {
        Err(e) => Err(e),
        Ok(bnid) => if bnid.data.len() != 2 {
            Err(DecodeError::FieldSizeMismatch(2))
        } else {
            match spec_parse_value(bnid.rem) {
                Err(e) => Err(e),
                Ok(pbid) => if pbid.data.len() != 2 {
                    Err(DecodeError::FieldSizeMismatch(2))
                } else {
                    match spec_parse_trans(pbid.rem) {
                        Err(e) => Err(e),
                        Ok((_, t)) => Ok(
                            Bone {
                                id: spec_u16_from_le_bytes(bnid.data),
                                parent: spec_u16_from_le_bytes(pbid.data),
                                trans: t,
                            },
                        ),
                    }
                },
            }
        },
    }
}

/// Decode one bone entry's payload: id, parent id, transform.
pub fn parse_bone(p: &[u8]) -> (r: Result<Bone, DecodeError>)
    ensures
        decoded(r, spec_parse_bone(p@)),
{
    let bnid = match parse_value(p) {
        Ok(d) => d,
        Err(e) => {
            return Err(e);
        },
    };
    if bnid.data.len() != 2 {
        return Err(DecodeError::FieldSizeMismatch(2));
    }
    let id = u16_from_le_bytes(bnid.data);
    let pbid = match parse_value(bnid.rem) {
        Ok(d) => d,
        Err(e) => {
            return Err(e);
        },
    };
    if pbid.data.len() != 2 {
        return Err(DecodeError::FieldSizeMismatch(2));
    }
    let parent = u16_from_le_bytes(pbid.data);
    let trans = match parse_trans(pbid.rem) {
        Ok((_, t)) => t,
        Err(e) => {
            return Err(e);
        },
    };
    Ok(Bone { id, parent, trans })
}

/// What decoding a back-to-back run of bone entry chunks yields. The run
/// must tile `s` exactly: each step reads one child chunk and advances by
/// its declared length plus the eight header bytes; a child chunk that
/// does not fit the remaining bytes fails with `MalformedList`.
pub open spec fn spec_parse_bone_entries(s: Seq<u8>) -> Result<Seq<Bone>, DecodeError>
    decreases s.len(),
{
    if s.len() == 0 {
        Ok(Seq::empty())
    } else {
        match spec_parse_value(s) {
            Err(DecodeError::Truncated) => Err(DecodeError::MalformedList),
            Err(e) => Err(e),
            Ok(child) => match spec_parse_bone(child.data) {
                Err(e) => Err(e),
                Ok(bone) => match spec_parse_bone_entries(child.rem) {
                    Err(e) => Err(e),
                    Ok(rest) => Ok(seq![bone] + rest),
                },
            },
        }
    }
}

/// What decoding the bone-list chunk yields: its declared length and the
/// bones decoded from the children tiling its payload, in encoded order.
pub open spec fn spec_parse_bones(s: Seq<u8>) -> Result<(u32, Seq<Bone>), DecodeError> {
    match spec_parse_value(s) {
        Err(e) => Err(e),
        Ok(c) => match spec_parse_bone_entries(c.data) {
            Err(e) => Err(e),
            Ok(items) => Ok((c.len, items)),
        },
    }
}

/// Decode the bone-list chunk: read child chunks back to back until they
/// have consumed the declared payload exactly, one bone per child.
pub fn parse_bones(data: &[u8]) -> (r: Result<(u32, Vec<Bone>), DecodeError>)
    ensures
        decoded(r, spec_parse_bones(data@)),
{
    let outer = match parse_value(data) {
        Ok(d) => d,
        Err(e) => {
            return Err(e);
        },
    };
    let n = outer.data.len();
    let mut bones: Vec<Bone> = Vec::new();
    let mut consumed: usize = 0;
    proof {
        assert(outer.data@.skip(0int) =~= outer.data@);
        if let Ok(rest) = spec_parse_bone_entries(outer.data@) {
            assert(bones@ + rest =~= rest);
        }
    }
    while consumed < n
        invariant
            spec_parse_value(data@) == Ok::<SpecData, DecodeError>(outer@),
            n == outer.data@.len(),
            consumed <= n,
            (match spec_parse_bone_entries(outer.data@.skip(consumed as int)) {
                Ok(rest) => spec_parse_bone_entries(outer.data@) == Ok::<
                    Seq<Bone>,
                    DecodeError,
                >(bones@ + rest),
                Err(e) => spec_parse_bone_entries(outer.data@) == Err::<Seq<Bone>, DecodeError>(e),
            }),
        decreases n - consumed,
    {
        let ghost tail = outer.data@.skip(consumed as int);
        let part = slice_subrange(outer.data, consumed, n);
        proof {
            assert(part@ =~= tail);
        }
        let child = match parse_value(part) {
            Ok(d) => d,
            Err(e) => {
                let mapped = match e {
                    DecodeError::Truncated => DecodeError::MalformedList,
                    other => other,
                };
                proof {
                    assert(spec_parse_bone_entries(tail) == Err::<Seq<Bone>, DecodeError>(mapped));
                    assert(spec_parse_bone_entries(outer.data@) == Err::<Seq<Bone>, DecodeError>(
                        mapped,
                    ));
                    assert(spec_parse_bones(data@) == Err::<(u32, Seq<Bone>), DecodeError>(mapped));
                }
                return Err(mapped);
            },
        };
        let bone = match parse_bone(child.data) {
            Ok(b) => b,
            Err(e) => {
                proof {
                    assert(spec_parse_bone_entries(tail) == Err::<Seq<Bone>, DecodeError>(e));
                    assert(spec_parse_bone_entries(outer.data@) == Err::<Seq<Bone>, DecodeError>(
                        e,
                    ));
                    assert(spec_parse_bones(data@) == Err::<(u32, Seq<Bone>), DecodeError>(e));
                }
                return Err(e);
            },
        };
        proof {
            assert(child.rem@ =~= outer.data@.skip(consumed + 8 + child.len as int));
            assert(bones@.push(bone) + spec_parse_bone_entries(child.rem@)->Ok_0 =~= bones@ + (
            seq![bone] + spec_parse_bone_entries(child.rem@)->Ok_0));
        }
        bones.push(bone);
        consumed = consumed + 8 + child.len as usize;
    }
    proof {
        assert(outer.data@.skip(consumed as int) =~= Seq::<u8>::empty());
        assert(spec_parse_bone_entries(Seq::<u8>::empty()) == Ok::<Seq<Bone>, DecodeError>(
            Seq::empty(),
        ));
        assert(bones@ + Seq::<Bone>::empty() =~= bones@);
    }
    Ok((outer.len, bones))
}

/// What decoding one bone-transform entry's payload yields: a 2-byte id
/// chunk then a transform chunk, in fixed order.
pub open spec fn spec_parse_bone_trans_entry(p: Seq<u8>) -> Result<BoneTrans, DecodeError> {
    match spec_parse_value(p) {
        Err(e) => Err(e),
        Ok(bnid) => if bnid.data.len() != 2 {
            Err(DecodeError::FieldSizeMismatch(2))
        } else {
            match spec_parse_trans(bnid.rem) {
                Err(e) => Err(e),
                Ok((_, t)) => Ok(BoneTrans { id: spec_u16_from_le_bytes(bnid.data), trans: t }),
            }
        },
    }
}

/// Decode one bone-transform entry's payload: id, transform.
pub fn parse_bone_trans_entry(p: &[u8]) -> (r: Result<BoneTrans, DecodeError>)
    ensures
        decoded(r, spec_parse_bone_trans_entry(p@)),
{
    let bnid = match parse_value(p) {
        Ok(d) => d,
        Err(e) => {
            return Err(e);
        },
    };
    if bnid.data.len() != 2 {
        return Err(DecodeError::FieldSizeMismatch(2));
    }
    let id = u16_from_le_bytes(bnid.data);
    let trans = match parse_trans(bnid.rem) {
        Ok((_, t)) => t,
        Err(e) => {
            return Err(e);
        },
    };
    Ok(BoneTrans { id, trans })
}

/// What decoding a back-to-back run of bone-transform entry chunks
/// yields, under the same exact-tiling policy as the bone entries.
pub open spec fn spec_parse_bone_trans_entries(s: Seq<u8>) -> Result<Seq<BoneTrans>, DecodeError>
    decreases s.len(),
{
    if s.len() == 0 {
        Ok(Seq::empty())
    } else {
        match spec_parse_value(s) {
            Err(DecodeError::Truncated) => Err(DecodeError::MalformedList),
            Err(e) => Err(e),
            Ok(child) => match spec_parse_bone_trans_entry(child.data) {
                Err(e) => Err(e),
                Ok(bt) => match spec_parse_bone_trans_entries(child.rem) {
                    Err(e) => Err(e),
                    Ok(rest) => Ok(seq![bt] + rest),
                },
            },
        }
    }
}

/// What decoding the bone-transform-list chunk yields: its declared
/// length and the entries tiling its payload, in encoded order.
pub open spec fn spec_parse_bone_trans(s: Seq<u8>) -> Result<(u32, Seq<BoneTrans>), DecodeError> {
    match spec_parse_value(s) {
        Err(e) => Err(e),
        Ok(c) => match spec_parse_bone_trans_entries(c.data) {
            Err(e) => Err(e),
            Ok(items) => Ok((c.len, items)),
        },
    }
}

/// Decode the bone-transform-list chunk: read child chunks back to back
/// until they have consumed the declared payload exactly.
pub fn parse_bone_trans(data: &[u8]) -> (r: Result<(u32, Vec<BoneTrans>), DecodeError>)
    ensures
        decoded(r, spec_parse_bone_trans(data@)),
{
    let outer = match parse_value(data) {
        Ok(d) => d,
        Err(e) => {
            return Err(e);
        },
    };
    let n = outer.data.len();
    let mut bones: Vec<BoneTrans> = Vec::new();
    let mut consumed: usize = 0;
    proof {
        assert(outer.data@.skip(0int) =~= outer.data@);
        if let Ok(rest) = spec_parse_bone_trans_entries(outer.data@) {
            assert(bones@ + rest =~= rest);
        }
    }
    while consumed < n
        invariant
            spec_parse_value(data@) == Ok::<SpecData, DecodeError>(outer@),
            n == outer.data@.len(),
            consumed <= n,
            (match spec_parse_bone_trans_entries(outer.data@.skip(consumed as int)) {
                Ok(rest) => spec_parse_bone_trans_entries(outer.data@) == Ok::<
                    Seq<BoneTrans>,
                    DecodeError,
                >(bones@ + rest),
                Err(e) => spec_parse_bone_trans_entries(outer.data@) == Err::<
                    Seq<BoneTrans>,
                    DecodeError,
                >(e),
            }),
        decreases n - consumed,
    {
        let ghost tail = outer.data@.skip(consumed as int);
        let part = slice_subrange(outer.data, consumed, n);
        proof {
            assert(part@ =~= tail);
        }
        let child = match parse_value(part) {
            Ok(d) => d,
            Err(e) => {
                let mapped = match e {
                    DecodeError::Truncated => DecodeError::MalformedList,
                    other => other,
                };
                proof {
                    assert(spec_parse_bone_trans_entries(tail) == Err::<
                        Seq<BoneTrans>,
                        DecodeError,
                    >(mapped));
                    assert(spec_parse_bone_trans(data@) == Err::<
                        (u32, Seq<BoneTrans>),
                        DecodeError,
                    >(mapped));
                }
                return Err(mapped);
            },
        };
        let bt = match parse_bone_trans_entry(child.data) {
            Ok(b) => b,
            Err(e) => {
                proof {
                    assert(spec_parse_bone_trans_entries(tail) == Err::<
                        Seq<BoneTrans>,
                        DecodeError,
                    >(e));
                    assert(spec_parse_bone_trans(data@) == Err::<
                        (u32, Seq<BoneTrans>),
                        DecodeError,
                    >(e));
                }
                return Err(e);
            },
        };
        proof {
            assert(child.rem@ =~= outer.data@.skip(consumed + 8 + child.len as int));
            assert(bones@.push(bt) + spec_parse_bone_trans_entries(child.rem@)->Ok_0 =~= bones@ + (
            seq![bt] + spec_parse_bone_trans_entries(child.rem@)->Ok_0));
        }
        bones.push(bt);
        consumed = consumed + 8 + child.len as usize;
    }
    proof {
        assert(outer.data@.skip(consumed as int) =~= Seq::<u8>::empty());
        assert(spec_parse_bone_trans_entries(Seq::<u8>::empty()) == Ok::<
            Seq<BoneTrans>,
            DecodeError,
        >(Seq::empty()));
        assert(bones@ + Seq::<BoneTrans>::empty() =~= bones@);
    }
    Ok((outer.len, bones))
}

/// What decoding the skeleton section yields: the declared length of the
/// skeleton chunk and the bones of the bone-list chunk that is its whole
/// payload.
pub open spec fn spec_parse_skeleton(s: Seq<u8>) -> Result<(u32, Seq<Bone>), DecodeError> {
    match spec_parse_value(s) {
        Err(e) => Err(e),
        Ok(c) => match spec_parse_bones(c.data) {
            Err(e) => Err(e),
            Ok((_, items)) => Ok((c.len, items)),
        },
    }
}

/// Decode the skeleton section: the skeleton chunk wrapping the bone
/// list.
pub fn parse_skeleton(data: &[u8]) -> (r: Result<(u32, Skeleton), DecodeError>)
    ensures
        decoded(r, spec_parse_skeleton(data@)),
{
    let c = match parse_value(data) {
        Ok(d) => d,
        Err(e) => {
            return Err(e);
        },
    };
    let bones = match parse_bones(c.data) {
        Ok((_, b)) => b,
        Err(e) => {
            return Err(e);
        },
    };
    Ok((c.len, Skeleton { bones }))
}

/// What decoding the frame section yields: the declared length of the
/// frame chunk and the frame. The payload holds a 4-byte frame-number
/// chunk, a 4-byte timestamp chunk, then the bone-transform list, in
/// fixed order.
pub open spec fn spec_parse_frame(s: Seq<u8>) -> Result<(u32, SpecFrame), DecodeError> {
    match spec_parse_value(s) {
        Err(e) => Err(e),
        Ok(c) => match spec_parse_value(c.data) {
            Err(e) => Err(e),
            Ok(fnum) => if fnum.data.len() != 4 {
                Err(DecodeError::FieldSizeMismatch(4))
            } else {
                match spec_parse_value(fnum.rem) {
                    Err(e) => Err(e),
                    Ok(ftime) => if ftime.data.len() != 4 {
                        Err(DecodeError::FieldSizeMismatch(4))
                    } else {
                        match spec_parse_bone_trans(ftime.rem) {
                            Err(e) => Err(e),
                            Ok((_, items)) => Ok(
                                (
                                    c.len,
                                    SpecFrame {
                                        num: spec_u32_from_le_bytes(fnum.data),
                                        time: spec_u32_from_le_bytes(ftime.data),
                                        bones: items,
                                    },
                                ),
                            ),
                        }
                    },
                }
            },
        },
    }
}

/// Decode the frame section: frame number, timestamp, bone-transform
/// list.
pub fn parse_frame(data: &[u8]) -> (r: Result<(u32, Frame), DecodeError>)
    ensures
        decoded(r, spec_parse_frame(data@)),
{
    let c = match parse_value(data) {
        Ok(d) => d,
        Err(e) => {
            return Err(e);
        },
    };
    let fnum = match parse_value(c.data) {
        Ok(d) => d,
        Err(e) => {
            return Err(e);
        },
    };
    if fnum.data.len() != 4 {
        return Err(DecodeError::FieldSizeMismatch(4));
    }
    let num = u32_from_le_bytes(fnum.data);
    let ftime = match parse_value(fnum.rem) {
        Ok(d) => d,
        Err(e) => {
            return Err(e);
        },
    };
    if ftime.data.len() != 4 {
        return Err(DecodeError::FieldSizeMismatch(4));
    }
    let time = u32_from_le_bytes(ftime.data);
    let bones = match parse_bone_trans(ftime.rem) {
        Ok((_, b)) => b,
        Err(e) => {
            return Err(e);
        },
    };
    Ok((c.len, Frame { num, time, bones }))
}

/// The four tag bytes that open a skeleton section: the ASCII text
/// `skdf`, read at the body chunk's own tag position.
pub open spec fn spec_is_skeleton_tag(s: Seq<u8>) -> bool {
    s.len() >= 8 && s[4] == 0x73u8 && s[5] == 0x6bu8 && s[6] == 0x64u8 && s[7] == 0x66u8
}

/// What decoding a whole datagram yields: the header chunk, the info
/// chunk at the offset just past it, then the body, which is a skeleton
/// section exactly when its own leading chunk carries the skeleton tag,
/// and a frame section otherwise.
pub open spec fn spec_parse(s: Seq<u8>) -> Result<SpecPacket, DecodeError> {
    match spec_parse_head(s) {
        Err(e) => Err(e),
        Ok((hlen, head)) => {
            let after_head = s.skip(8 + hlen);
            match spec_parse_info(after_head) {
                Err(e) => Err(e),
                Ok((ilen, info)) => {
                    let body = after_head.skip(8 + ilen);
                    if spec_is_skeleton_tag(body) {
                        match spec_parse_skeleton(body) {
                            Err(e) => Err(e),
                            Ok((_, bones)) => Ok(
                                SpecPacket::Skeleton(
                                    SpecSkeletonPacket { head, info, skeleton: bones },
                                ),
                            ),
                        }
                    } else {
                        match spec_parse_frame(body) {
                            Err(e) => Err(e),
                            Ok((_, frame)) => Ok(
                                SpecPacket::Frame(SpecFramePacket { head, info, frame }),
                            ),
                        }
                    }
                },
            }
        },
    }
}

/// Decode one whole datagram: header, info, then the body section picked
/// by the body chunk's own tag.
///
/// The packet kind is read from the tag of the chunk that opens the body
/// section, not from the tag at offset 0 of the datagram: the chunk at
/// offset 0 is the header chunk, whose tag never names a packet kind.
pub fn parse(data: &[u8]) -> (r: Result<SkeletonOrFrame, DecodeError>)
    ensures
        decoded(r, spec_parse(data@)),
{
    let (hlen, head) = match parse_head(data) {
        Ok(p) => p,
        Err(e) => {
            return Err(e);
        },
    };
    let dlen = data.len();
    proof {
        assert(spec_parse_value(data@) is Ok);
        assert(hlen == spec_parse_value(data@)->Ok_0.len);
        assert(8 + hlen <= data@.len());
    }
    let after_head = slice_subrange(data, hlen as usize + 8, dlen);
    proof {
        assert(after_head@ =~= data@.skip(8 + hlen as int));
    }
    let (ilen, info) = match parse_info(after_head) {
        Ok(p) => p,
        Err(e) => {
            return Err(e);
        },
    };
    let alen = after_head.len();
    proof {
        assert(spec_parse_value(after_head@) is Ok);
        assert(ilen == spec_parse_value(after_head@)->Ok_0.len);
        assert(8 + ilen <= after_head@.len());
    }
    let body = slice_subrange(after_head, ilen as usize + 8, alen);
    proof {
        assert(body@ =~= (data@.skip(8 + hlen as int)).skip(8 + ilen as int));
    }
    let is_skeleton = body.len() >= 8 && body[4] == 0x73u8 && body[5] == 0x6bu8 && body[6]
        == 0x64u8 && body[7] == 0x66u8;
    proof {
        assert(is_skeleton == spec_is_skeleton_tag(body@));
    }
    if is_skeleton {
        let skeleton = match parse_skeleton(body) {
            Ok((_, sk)) => sk,
            Err(e) => {
                return Err(e);
            },
        };
        Ok(SkeletonOrFrame::Skeleton(SkeletonPacket { head, info, skeleton }))
    } else {
        let frame = match parse_frame(body) {
            Ok((_, f)) => f,
            Err(e) => {
                return Err(e);
            },
        };
        Ok(SkeletonOrFrame::Frame(FramePacket { head, info, frame }))
    }
}

} // verus!
