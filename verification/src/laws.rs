//! Proved laws of the decoder, stated over the mathematical decoders.

use crate::chunk::spec_parse_value;
use crate::chunk::SpecData;
use crate::decode::spec_parse;
use crate::decode::spec_parse_bone;
use crate::decode::spec_parse_bone_entries;
use crate::decode::spec_parse_bone_trans_entries;
use crate::decode::spec_parse_bone_trans_entry;
use crate::decode::spec_parse_head;
use crate::decode::spec_parse_info;
use crate::errors::DecodeError;
use crate::packets::Bone;
use crate::packets::BoneTrans;
use crate::packets::SpecFramePacket;
use crate::packets::SpecPacket;
use crate::packets::SpecSkeletonPacket;
use vstd::bytes::spec_u32_from_le_bytes;
use vstd::prelude::*;

verus! {

/// A buffer shorter than the eight chunk header bytes plus the declared
/// payload length never yields a chunk: the reader fails with
/// `Truncated`. (That it also reads no byte out of bounds is what its
/// verification shows: `parse_value` has no precondition.)
pub proof fn lemma_chunk_truncated(s: Seq<u8>)
    requires
        s.len() < 8 || s.len() < 8 + spec_u32_from_le_bytes(s.subrange(0, 4)),
    ensures
        spec_parse_value(s) == Err::<SpecData, DecodeError>(DecodeError::Truncated),
{
}

/// The first failure short-circuits the whole decode: a datagram whose
/// leading chunk is malformed decodes to that chunk's error, never to a
/// packet.
pub proof fn lemma_short_circuit(s: Seq<u8>)
    requires
        spec_parse_value(s) is Err,
    ensures
        spec_parse(s) == Err::<SpecPacket, DecodeError>(spec_parse_value(s)->Err_0),
{
}

/// The declared lengths of the successive chunks tiling `s`, stopping at
/// the first chunk that does not fit.
pub open spec fn spec_child_lengths(s: Seq<u8>) -> Seq<u32>
    decreases s.len(),
{
    if s.len() == 0 {
        Seq::empty()
    } else {
        match spec_parse_value(s) {
            Err(_) => Seq::empty(),
            Ok(c) => seq![c.len] + spec_child_lengths(c.rem),
        }
    }
}

/// The payloads of the successive chunks tiling `s`, in order.
pub open spec fn spec_child_payloads(s: Seq<u8>) -> Seq<Seq<u8>>
    decreases s.len(),
{
    if s.len() == 0 {
        Seq::empty()
    } else {
        match spec_parse_value(s) {
            Err(_) => Seq::empty(),
            Ok(c) => seq![c.data] + spec_child_payloads(c.rem),
        }
    }
}

/// The bytes a run of chunks with these declared lengths occupies: each
/// chunk's length plus its eight header bytes.
pub open spec fn spec_sum_framed(lens: Seq<u32>) -> int
    decreases lens.len(),
{
    if lens.len() == 0 {
        0
    } else {
        8 + lens[0] + spec_sum_framed(lens.skip(1))
    }
}

/// Repeated-chunk decoding is total over the declared length: when a
/// bone list decodes, re-summing each child's declared length plus eight
/// gives the parent's payload length exactly.
pub proof fn lemma_bone_list_total(s: Seq<u8>)
    requires
        spec_parse_bone_entries(s) is Ok,
    ensures
        spec_sum_framed(spec_child_lengths(s)) == s.len(),
    decreases s.len(),
{
    if s.len() > 0 {
        let c = spec_parse_value(s)->Ok_0;
        lemma_bone_list_total(c.rem);
        let lens = spec_child_lengths(s);
        assert(lens.skip(1) =~= spec_child_lengths(c.rem));
    }
}

/// The same totality law for a bone-transform list.
pub proof fn lemma_bone_trans_list_total(s: Seq<u8>)
    requires
        spec_parse_bone_trans_entries(s) is Ok,
    ensures
        spec_sum_framed(spec_child_lengths(s)) == s.len(),
    decreases s.len(),
{
    if s.len() > 0 {
        let c = spec_parse_value(s)->Ok_0;
        lemma_bone_trans_list_total(c.rem);
        let lens = spec_child_lengths(s);
        assert(lens.skip(1) =~= spec_child_lengths(c.rem));
    }
}

/// Bone-list decoding is order-preserving: a decoded list has exactly
/// one bone per child chunk, and the i-th bone is decoded from the i-th
/// child chunk's payload.
pub proof fn lemma_bone_list_order(s: Seq<u8>)
    requires
        spec_parse_bone_entries(s) is Ok,
    ensures
        spec_parse_bone_entries(s)->Ok_0.len() == spec_child_payloads(s).len(),
        forall|i: int|
            0 <= i < spec_child_payloads(s).len() ==> spec_parse_bone(
                #[trigger] spec_child_payloads(s)[i],
            ) == Ok::<Bone, DecodeError>(spec_parse_bone_entries(s)->Ok_0[i]),
    decreases s.len(),
{
    if s.len() > 0 {
        let c = spec_parse_value(s)->Ok_0;
        lemma_bone_list_order(c.rem);
        let payloads = spec_child_payloads(s);
        let bones = spec_parse_bone_entries(s)->Ok_0;
        assert(payloads =~= seq![c.data] + spec_child_payloads(c.rem));
        assert(bones =~= seq![spec_parse_bone(c.data)->Ok_0] + spec_parse_bone_entries(
            c.rem,
        )->Ok_0);
        assert forall|i: int| 0 <= i < payloads.len() implies spec_parse_bone(
            #[trigger] payloads[i],
        ) == Ok::<Bone, DecodeError>(bones[i]) by {
            if i > 0 {
                assert(payloads[i] == spec_child_payloads(c.rem)[i - 1]);
                assert(bones[i] == spec_parse_bone_entries(c.rem)->Ok_0[i - 1]);
            }
        }
    }
}

/// A decoded skeleton packet carries exactly one bone per bone entry
/// chunk encoded in the datagram's bone list, in encoded order.
pub proof fn lemma_skeleton_packet_bones(s: Seq<u8>, p: SpecSkeletonPacket)
    requires
        spec_parse(s) == Ok::<SpecPacket, DecodeError>(SpecPacket::Skeleton(p)),
    ensures
        ({
            let after_head = s.skip(8 + spec_parse_head(s)->Ok_0.0);
            let body = after_head.skip(8 + spec_parse_info(after_head)->Ok_0.0);
            let skdf = spec_parse_value(body)->Ok_0;
            let bons = spec_parse_value(skdf.data)->Ok_0;
            &&& p.skeleton == spec_parse_bone_entries(bons.data)->Ok_0
            &&& p.skeleton.len() == spec_child_payloads(bons.data).len()
            &&& forall|i: int|
                0 <= i < p.skeleton.len() ==> spec_parse_bone(
                    #[trigger] spec_child_payloads(bons.data)[i],
                ) == Ok::<Bone, DecodeError>(p.skeleton[i])
        }),
{
    let after_head = s.skip(8 + spec_parse_head(s)->Ok_0.0);
    let body = after_head.skip(8 + spec_parse_info(after_head)->Ok_0.0);
    let skdf = spec_parse_value(body)->Ok_0;
    let bons = spec_parse_value(skdf.data)->Ok_0;
    lemma_bone_list_order(bons.data);
}

/// A decoded frame packet carries the encoded frame number and
/// timestamp, and exactly one entry per bone-transform chunk encoded in
/// the datagram's list, in encoded order.
pub proof fn lemma_frame_packet_bones(s: Seq<u8>, p: SpecFramePacket)
    requires
        spec_parse(s) == Ok::<SpecPacket, DecodeError>(SpecPacket::Frame(p)),
    ensures
        ({
            let after_head = s.skip(8 + spec_parse_head(s)->Ok_0.0);
            let body = after_head.skip(8 + spec_parse_info(after_head)->Ok_0.0);
            let fram = spec_parse_value(body)->Ok_0;
            let fnum = spec_parse_value(fram.data)->Ok_0;
            let ftime = spec_parse_value(fnum.rem)->Ok_0;
            let btrs = spec_parse_value(ftime.rem)->Ok_0;
            &&& p.frame.num == spec_u32_from_le_bytes(fnum.data)
            &&& p.frame.time == spec_u32_from_le_bytes(ftime.data)
            &&& p.frame.bones == spec_parse_bone_trans_entries(btrs.data)->Ok_0
            &&& p.frame.bones.len() == spec_child_payloads(btrs.data).len()
            &&& forall|i: int|
                0 <= i < p.frame.bones.len() ==> spec_parse_bone_trans_entry(
                    #[trigger] spec_child_payloads(btrs.data)[i],
                ) == Ok::<BoneTrans, DecodeError>(p.frame.bones[i])
        }),
{
    let after_head = s.skip(8 + spec_parse_head(s)->Ok_0.0);
    let body = after_head.skip(8 + spec_parse_info(after_head)->Ok_0.0);
    let fram = spec_parse_value(body)->Ok_0;
    let fnum = spec_parse_value(fram.data)->Ok_0;
    let ftime = spec_parse_value(fnum.rem)->Ok_0;
    let btrs = spec_parse_value(ftime.rem)->Ok_0;
    lemma_bone_trans_list_order(btrs.data);
}

/// The same order-preservation law for a bone-transform list.
pub proof fn lemma_bone_trans_list_order(s: Seq<u8>)
    requires
        spec_parse_bone_trans_entries(s) is Ok,
    ensures
        spec_parse_bone_trans_entries(s)->Ok_0.len() == spec_child_payloads(s).len(),
        forall|i: int|
            0 <= i < spec_child_payloads(s).len() ==> spec_parse_bone_trans_entry(
                #[trigger] spec_child_payloads(s)[i],
            ) == Ok::<BoneTrans, DecodeError>(spec_parse_bone_trans_entries(s)->Ok_0[i]),
    decreases s.len(),
{
    if s.len() > 0 {
        let c = spec_parse_value(s)->Ok_0;
        lemma_bone_trans_list_order(c.rem);
        let payloads = spec_child_payloads(s);
        let bones = spec_parse_bone_trans_entries(s)->Ok_0;
        assert(payloads =~= seq![c.data] + spec_child_payloads(c.rem));
        assert(bones =~= seq![spec_parse_bone_trans_entry(c.data)->Ok_0]
            + spec_parse_bone_trans_entries(c.rem)->Ok_0);
        assert forall|i: int| 0 <= i < payloads.len() implies spec_parse_bone_trans_entry(
            #[trigger] payloads[i],
        ) == Ok::<BoneTrans, DecodeError>(bones[i]) by {
            if i > 0 {
                assert(payloads[i] == spec_child_payloads(c.rem)[i - 1]);
                assert(bones[i] == spec_parse_bone_trans_entries(c.rem)->Ok_0[i - 1]);
            }
        }
    }
}

} // verus!
