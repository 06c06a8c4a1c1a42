//! The decoded packet shapes and their mathematical views.
//!
//! Transform components are carried as the bit patterns of IEEE-754
//! single-precision floats, read little-endian from the wire; callers that
//! want floating-point values reinterpret the bits (`f32::from_bits`).

use vstd::prelude::*;

verus! {

/// A bone identifier; not required to be contiguous or zero-based.
pub type BoneId = u16;

/// The bit pattern of one IEEE-754 single-precision wire value.
pub type TransBits = u32;

/// Format name and version, decoded once per packet from the header chunk.
#[derive(Debug, PartialEq)]
pub struct Head {
    pub format: String,
    pub ver: u8,
}

/// Mathematical image of [`Head`].
#[verifier::ext_equal]
pub struct SpecHead {
    pub format: Seq<char>,
    pub ver: u8,
}

impl View for Head {
    type V = SpecHead;

    open spec fn view(&self) -> SpecHead {
        SpecHead { format: self.format@, ver: self.ver }
    }
}

/// Sender address and port, decoded from the info chunk.
#[derive(Debug, Clone, Copy, PartialEq, Eq, Structural)]
pub struct Info {
    pub addr: u64,
    pub port: u16,
}

impl View for Info {
    type V = Info;

    open spec fn view(&self) -> Info {
        *self
    }
}

/// An orientation quaternion, one bit pattern per component.
#[derive(Debug, Clone, Copy, PartialEq, Eq, Structural)]
pub struct Rotation {
    pub x: TransBits,
    pub y: TransBits,
    pub z: TransBits,
    pub w: TransBits,
}

/// A position vector, one bit pattern per component.
#[derive(Debug, Clone, Copy, PartialEq, Eq, Structural)]
pub struct Position {
    pub x: TransBits,
    pub y: TransBits,
    pub z: TransBits,
}

/// A rigid-body pose: rotation then position, decoded from 28 payload
/// bytes in field order rot.x, rot.y, rot.z, rot.w, pos.x, pos.y, pos.z.
#[derive(Debug, Clone, Copy, PartialEq, Eq, Structural)]
pub struct Transform {
    pub rot: Rotation,
    pub pos: Position,
}

impl View for Transform {
    type V = Transform;

    open spec fn view(&self) -> Transform {
        *self
    }
}

/// One bone of a skeleton definition: its id, its parent's id, and its
/// rest pose. The decoder does not interpret the parent reference.
#[derive(Debug, Clone, Copy, PartialEq, Eq, Structural)]
pub struct Bone {
    pub id: BoneId,
    pub parent: BoneId,
    pub trans: Transform,
}

impl View for Bone {
    type V = Bone;

    open spec fn view(&self) -> Bone {
        *self
    }
}

/// One per-frame pose update for a bone declared in a skeleton packet.
#[derive(Debug, Clone, Copy, PartialEq, Eq, Structural)]
pub struct BoneTrans {
    pub id: BoneId,
    pub trans: Transform,
}

impl View for BoneTrans {
    type V = BoneTrans;

    open spec fn view(&self) -> BoneTrans {
        *self
    }
}

/// The rig topology: the bones of a skeleton packet, in encoded order.
#[derive(Debug, PartialEq)]
pub struct Skeleton {
    pub bones: Vec<Bone>,
}

impl View for Skeleton {
    type V = Seq<Bone>;

    open spec fn view(&self) -> Seq<Bone> {
        self.bones@
    }
}

/// One timestamped pose update: frame counter, timestamp, and the bone
/// transforms, in encoded order.
#[derive(Debug, PartialEq)]
pub struct Frame {
    pub num: u32,
    pub time: u32,
    pub bones: Vec<BoneTrans>,
}

/// Mathematical image of [`Frame`].
#[verifier::ext_equal]
pub struct SpecFrame {
    pub num: u32,
    pub time: u32,
    pub bones: Seq<BoneTrans>,
}

impl View for Frame {
    type V = SpecFrame;

    open spec fn view(&self) -> SpecFrame {
        SpecFrame { num: self.num, time: self.time, bones: self.bones@ }
    }
}

/// A whole decoded skeleton datagram.
#[derive(Debug, PartialEq)]
pub struct SkeletonPacket {
    pub head: Head,
    pub info: Info,
    pub skeleton: Skeleton,
}

/// Mathematical image of [`SkeletonPacket`].
#[verifier::ext_equal]
pub struct SpecSkeletonPacket {
    pub head: SpecHead,
    pub info: Info,
    pub skeleton: Seq<Bone>,
}

impl View for SkeletonPacket {
    type V = SpecSkeletonPacket;

    open spec fn view(&self) -> SpecSkeletonPacket {
        SpecSkeletonPacket { head: self.head@, info: self.info, skeleton: self.skeleton@ }
    }
}

/// A whole decoded frame datagram.
#[derive(Debug, PartialEq)]
pub struct FramePacket {
    pub head: Head,
    pub info: Info,
    pub frame: Frame,
}

/// Mathematical image of [`FramePacket`].
#[verifier::ext_equal]
pub struct SpecFramePacket {
    pub head: SpecHead,
    pub info: Info,
    pub frame: SpecFrame,
}

impl View for FramePacket {
    type V = SpecFramePacket;

    open spec fn view(&self) -> SpecFramePacket {
        SpecFramePacket { head: self.head@, info: self.info, frame: self.frame@ }
    }
}

/// The tagged union a decode call returns: one of the two packet shapes.
#[derive(Debug, PartialEq)]
pub enum SkeletonOrFrame {
    Skeleton(SkeletonPacket),
    Frame(FramePacket),
}

/// Mathematical image of [`SkeletonOrFrame`].
#[verifier::ext_equal]
pub enum SpecPacket {
    Skeleton(SpecSkeletonPacket),
    Frame(SpecFramePacket),
}

impl View for SkeletonOrFrame {
    type V = SpecPacket;

    open spec fn view(&self) -> SpecPacket {
        match self {
            SkeletonOrFrame::Skeleton(p) => SpecPacket::Skeleton(p@),
            SkeletonOrFrame::Frame(p) => SpecPacket::Frame(p@),
        }
    }
}

} // verus!
