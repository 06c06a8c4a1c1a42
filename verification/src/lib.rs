//! Decoder for motion-capture telemetry datagrams.
//!
//! A datagram is a sequence of length-prefixed, tagged binary chunks:
//! `length:u32-LE | tag:[u8;4] | payload:[u8;length]`, nested to describe a
//! packet. The decoder reads exactly one datagram from a byte buffer and
//! returns an owned packet value (a skeleton definition or a frame of bone
//! transforms) or a decode error. It performs no I/O and keeps no state
//! across calls.

pub mod chunk;
pub mod decode;
pub mod errors;
pub mod laws;
pub mod packets;

pub use decode::parse;
pub use decode::parse_bone;
pub use decode::parse_bone_trans;
pub use decode::parse_bone_trans_entry;
pub use decode::parse_bones;
pub use decode::parse_frame;
pub use decode::parse_head;
pub use decode::parse_info;
pub use decode::parse_skeleton;
pub use decode::parse_trans;
pub use decode::spec_is_skeleton_tag;
pub use decode::spec_parse;
pub use decode::spec_parse_bone;
pub use decode::spec_parse_bone_entries;
pub use decode::spec_parse_bone_trans;
pub use decode::spec_parse_bone_trans_entries;
pub use decode::spec_parse_bone_trans_entry;
pub use decode::spec_parse_bones;
pub use decode::spec_parse_frame;
pub use decode::spec_parse_head;
pub use decode::spec_parse_info;
pub use decode::spec_parse_skeleton;
pub use decode::spec_parse_trans;

pub use chunk::Data;
pub use chunk::SpecData;
pub use chunk::parse_value;
pub use chunk::spec_parse_value;
pub use errors::DecodeError;
pub use packets::Bone;
pub use packets::BoneId;
pub use packets::BoneTrans;
pub use packets::Frame;
pub use packets::FramePacket;
pub use packets::Head;
pub use packets::Info;
pub use packets::Position;
pub use packets::Rotation;
pub use packets::Skeleton;
pub use packets::SkeletonOrFrame;
pub use packets::SkeletonPacket;
pub use packets::SpecFrame;
pub use packets::SpecFramePacket;
pub use packets::SpecHead;
pub use packets::SpecPacket;
pub use packets::SpecSkeletonPacket;
pub use packets::Transform;
pub use packets::TransBits;
