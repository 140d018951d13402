//! Framing transport: segmented write and segmented read/reassembly of
//! control and data packets over a reliable ordered byte stream.
//!
//! Every packet starts with a four-byte header. The top three bits of
//! byte 0 give the message type, bit 4 is the Packet Boundary Flag (PBF,
//! set when more segments follow), and the low four bits carry the group
//! id. A control packet keeps its payload length in byte 3 (one byte); a
//! data packet keeps it in bytes 2..4, little-endian.

use vstd::prelude::*;

verus! {

/// Largest control packet payload carried by one segment.
pub const MAX_CTRL_PACKET_PAYLOAD_SIZE: usize = 255;

/// Largest data packet payload carried by one segment.
pub const MAX_DATA_PACKET_PAYLOAD_SIZE: usize = 1024;

/// Message type bits of a header byte.
pub open spec fn spec_mt_bits(b0: u8) -> u8 {
    (b0 >> 5) & 0x7
}

/// True of the header byte of a data packet.
pub open spec fn spec_is_data(b0: u8) -> bool {
    spec_mt_bits(b0) == 0
}

/// Group id bits of a header byte.
pub open spec fn spec_gid_bits(b0: u8) -> u8 {
    b0 & 0xf
}

/// True when the PBF announces further segments.
pub open spec fn spec_pbf_not_complete(b0: u8) -> bool {
    b0 & 0x10 != 0
}

/// Payload length a four-byte header announces.
pub open spec fn spec_payload_len(h: Seq<u8>) -> int
    recommends
        h.len() >= 4,
{
    if spec_is_data(h[0]) {
        h[2] + 256 * h[3]
    } else {
        h[3] as int
    }
}

/// Payload bytes one segment may carry, by message type.
pub open spec fn spec_chunk_limit(b0: u8) -> int {
    if spec_is_data(b0) {
        MAX_DATA_PACKET_PAYLOAD_SIZE as int
    } else {
        MAX_CTRL_PACKET_PAYLOAD_SIZE as int
    }
}

/// The header of one outgoing segment: PBF rewritten, length field
/// rewritten for the chunk, everything else kept from the original
/// header bytes.
pub open spec fn spec_segment_header(b0: u8, b1: u8, b2: u8, last: bool, len: int) -> Seq<u8> {
    let pbf_byte = if last {
        (b0 & 0xef) as u8
    } else {
        ((b0 & 0xef) | 0x10) as u8
    };
    if spec_is_data(b0) {
        seq![pbf_byte, b1, (len % 256) as u8, (len / 256) as u8]
    } else {
        seq![pbf_byte, b1, b2, len as u8]
    }
}

/// The wire segments a logical packet with header bytes `b0 b1 b2` and
/// the given payload is written as: full chunks with the PBF set, then a
/// final chunk (possibly empty) with the PBF clear.
pub open spec fn spec_segments(b0: u8, b1: u8, b2: u8, payload: Seq<u8>) -> Seq<Seq<u8>>
    decreases payload.len(),
{
    let limit = spec_chunk_limit(b0);
    if payload.len() <= limit {
        seq![spec_segment_header(b0, b1, b2, true, payload.len() as int) + payload]
    } else {
        seq![spec_segment_header(b0, b1, b2, false, limit) + payload.take(limit)]
            + spec_segments(b0, b1, b2, payload.skip(limit))
    }
}

/// The payload carried by a sequence of segments, headers stripped.
pub open spec fn spec_concat_chunks(segs: Seq<Seq<u8>>) -> Seq<u8>
    decreases segs.len(),
{
    if segs.len() == 0 {
        Seq::empty()
    } else {
        segs[0].skip(4) + spec_concat_chunks(segs.skip(1))
    }
}

/// The logical packet a reader reassembles from a run of segments: the
/// last segment's header followed by every segment's payload in order.
pub open spec fn spec_reassembled(segs: Seq<Seq<u8>>) -> Seq<u8>
    recommends
        segs.len() >= 1,
{
    segs.last().take(4) + spec_concat_chunks(segs)
}

/// Rewriting the PBF leaves the message type and group id bits alone,
/// and sets exactly the PBF bit.
proof fn lemma_header_bits(b0: u8)
    ensures
        spec_mt_bits((b0 & 0xef) as u8) == spec_mt_bits(b0),
        spec_mt_bits(((b0 & 0xef) | 0x10) as u8) == spec_mt_bits(b0),
        spec_gid_bits((b0 & 0xef) as u8) == spec_gid_bits(b0),
        spec_gid_bits(((b0 & 0xef) | 0x10) as u8) == spec_gid_bits(b0),
        !spec_pbf_not_complete((b0 & 0xef) as u8),
        spec_pbf_not_complete(((b0 & 0xef) | 0x10) as u8),
{
    assert(((b0 & 0xef) >> 5) & 0x7 == (b0 >> 5) & 0x7) by (bit_vector);
    assert((((b0 & 0xef) | 0x10) >> 5) & 0x7 == (b0 >> 5) & 0x7) by (bit_vector);
    assert((b0 & 0xef) & 0xf == b0 & 0xf) by (bit_vector);
    assert(((b0 & 0xef) | 0x10) & 0xf == b0 & 0xf) by (bit_vector);
    assert((b0 & 0xef) & 0x10 == 0) by (bit_vector);
    assert(((b0 & 0xef) | 0x10) & 0x10 != 0) by (bit_vector);
}

/// Every segment of a packet is well formed: at least a header, a chunk
/// within the limit, a length field that matches the chunk, the original
/// message type, group id and second header byte, and a PBF that is set
/// on every segment but the last.
pub proof fn lemma_segments_well_formed(b0: u8, b1: u8, b2: u8, payload: Seq<u8>)
    ensures
        ({
            let segs = spec_segments(b0, b1, b2, payload);
            &&& segs.len() >= 1
            &&& forall|i: int|
                0 <= i < segs.len() ==> {
                    let s = #[trigger] segs[i];
                    &&& s.len() >= 4
                    &&& s.len() - 4 <= spec_chunk_limit(b0)
                    &&& spec_is_data(s[0]) == spec_is_data(b0)
                    &&& spec_mt_bits(s[0]) == spec_mt_bits(b0)
                    &&& spec_gid_bits(s[0]) == spec_gid_bits(b0)
                    &&& s[1] == b1
                    &&& spec_payload_len(s) == s.len() - 4
                    &&& (spec_pbf_not_complete(s[0]) <==> i < segs.len() - 1)
                }
        }),
    decreases payload.len(),
{
    lemma_header_bits(b0);
    let limit = spec_chunk_limit(b0);
    let segs = spec_segments(b0, b1, b2, payload);
    if payload.len() <= limit {
        let s = segs[0];
        assert(s == spec_segment_header(b0, b1, b2, true, payload.len() as int) + payload);
        if spec_is_data(b0) {
            vstd::arithmetic::div_mod::lemma_fundamental_div_mod(payload.len() as int, 256);
            assert(spec_payload_len(s) == s.len() - 4);
        }
    } else {
        lemma_segments_well_formed(b0, b1, b2, payload.skip(limit));
        let rest = spec_segments(b0, b1, b2, payload.skip(limit));
        let s = segs[0];
        assert(s == spec_segment_header(b0, b1, b2, false, limit) + payload.take(limit));
        if spec_is_data(b0) {
            vstd::arithmetic::div_mod::lemma_fundamental_div_mod(limit, 256);
        }
        assert(spec_payload_len(s) == s.len() - 4);
        assert(forall|i: int| 1 <= i < segs.len() ==> segs[i] == rest[i - 1]);
    }
}

/// The chunks of a packet's segments, in order, are exactly its payload.
pub proof fn lemma_segments_carry_payload(b0: u8, b1: u8, b2: u8, payload: Seq<u8>)
    ensures
        spec_concat_chunks(spec_segments(b0, b1, b2, payload)) == payload,
    decreases payload.len(),
{
    let limit = spec_chunk_limit(b0);
    let segs = spec_segments(b0, b1, b2, payload);
    assert(spec_concat_chunks(segs) == segs[0].skip(4) + spec_concat_chunks(segs.skip(1)));
    if payload.len() <= limit {
        assert(segs.skip(1) =~= Seq::<Seq<u8>>::empty());
        assert(spec_concat_chunks(Seq::<Seq<u8>>::empty()) == Seq::<u8>::empty());
        assert(segs[0].skip(4) =~= payload);
        assert(spec_concat_chunks(segs) =~= payload);
    } else {
        lemma_segments_carry_payload(b0, b1, b2, payload.skip(limit));
        let rest = spec_segments(b0, b1, b2, payload.skip(limit));
        assert(segs.skip(1) =~= rest);
        assert(segs[0].skip(4) =~= payload.take(limit));
        assert(spec_concat_chunks(segs) =~= payload.take(limit) + payload.skip(limit));
        assert(payload.take(limit) + payload.skip(limit) =~= payload);
    }
}

/// Writing a logical packet and reading its segments back yields the
/// packet again: the message type, group id and second header byte are
/// kept, the PBF comes back reset to complete, and the payload is
/// byte-for-byte the one written.
pub proof fn lemma_write_read_round_trip(b0: u8, b1: u8, b2: u8, payload: Seq<u8>)
    ensures
        ({
            let segs = spec_segments(b0, b1, b2, payload);
            let packet = spec_reassembled(segs);
            &&& packet.len() == 4 + payload.len()
            &&& spec_mt_bits(packet[0]) == spec_mt_bits(b0)
            &&& spec_gid_bits(packet[0]) == spec_gid_bits(b0)
            &&& !spec_pbf_not_complete(packet[0])
            &&& packet[1] == b1
            &&& packet.skip(4) == payload
        }),
{
    lemma_segments_well_formed(b0, b1, b2, payload);
    lemma_segments_carry_payload(b0, b1, b2, payload);
    let segs = spec_segments(b0, b1, b2, payload);
    let last = segs.last();
    let packet = spec_reassembled(segs);
    assert(last.len() >= 4);
    assert(packet.skip(4) =~= payload);
    assert(packet[0] == last[0] && packet[1] == last[1]);
}

/// The boundary behavior of segmentation: a payload within the chunk
/// limit goes out as one complete segment; one over the limit by at most
/// a full chunk goes out as a full segment marked not complete followed
/// by a complete one with the rest.
pub proof fn lemma_segment_boundaries(b0: u8, b1: u8, b2: u8, payload: Seq<u8>)
    ensures
        payload.len() <= spec_chunk_limit(b0) ==> ({
            let segs = spec_segments(b0, b1, b2, payload);
            &&& segs.len() == 1
            &&& !spec_pbf_not_complete(segs[0][0])
            &&& segs[0].len() == 4 + payload.len()
        }),
        spec_chunk_limit(b0) < payload.len() <= 2 * spec_chunk_limit(b0) ==> ({
            let segs = spec_segments(b0, b1, b2, payload);
            &&& segs.len() == 2
            &&& spec_pbf_not_complete(segs[0][0])
            &&& !spec_pbf_not_complete(segs[1][0])
            &&& segs[0].len() == 4 + spec_chunk_limit(b0)
            &&& segs[1].len() == 4 + payload.len() - spec_chunk_limit(b0)
        }),
{
    lemma_header_bits(b0);
    let limit = spec_chunk_limit(b0);
    if limit < payload.len() <= 2 * limit {
        let rest = payload.skip(limit);
        assert(rest.len() == payload.len() - limit <= limit);
        assert(spec_segments(b0, b1, b2, rest) == seq![
            spec_segment_header(b0, b1, b2, true, rest.len() as int) + rest,
        ]);
    }
}

/// Split a logical packet into its wire segments. The caller's header
/// supplies the message type, group id and the second and third header
/// bytes; its own PBF and length field are ignored and rebuilt per
/// segment.
pub fn segment_packet(packet: &Vec<u8>) -> (segments: Vec<Vec<u8>>)
    requires
        packet@.len() >= 4,
    ensures
        segments@.len() == spec_segments(packet@[0], packet@[1], packet@[2], packet@.skip(4)).len(),
        forall|i: int|
            0 <= i < segments@.len() ==> segments@[i]@ == spec_segments(
                packet@[0],
                packet@[1],
                packet@[2],
                packet@.skip(4),
            )[i],
{
    let b0: u8 = packet[0];
    let b1: u8 = packet[1];
    let b2: u8 = packet[2];
    let is_data: bool = (b0 >> 5) & 0x7 == 0;
    let limit: usize = if is_data {
        MAX_DATA_PACKET_PAYLOAD_SIZE
    } else {
        MAX_CTRL_PACKET_PAYLOAD_SIZE
    };
    let ghost whole: Seq<Seq<u8>> = spec_segments(b0, b1, b2, packet@.skip(4));
    let mut segments: Vec<Vec<u8>> = Vec::new();
    let mut offset: usize = 4;
    loop
        invariant_except_break
            4 <= offset <= packet@.len(),
            limit == spec_chunk_limit(b0),
            is_data == spec_is_data(b0),
            b0 == packet@[0] && b1 == packet@[1] && b2 == packet@[2],
            whole == spec_segments(b0, b1, b2, packet@.skip(4)),
            whole =~= segments@.map_values(|v: Vec<u8>| v@) + spec_segments(
                b0,
                b1,
                b2,
                packet@.skip(offset as int),
            ),
        ensures
            segments@.len() == whole.len(),
            forall|i: int| 0 <= i < segments@.len() ==> segments@[i]@ == whole[i],
        decreases packet@.len() - offset,
    {
        let remaining: usize = packet.len() - offset;
        let chunk: usize = if remaining < limit {
            remaining
        } else {
            limit
        };
        let last: bool = chunk == remaining;

        let mut seg: Vec<u8> = Vec::new();
        let h0: u8 = if last {
            b0 & 0xef
        } else {
            (b0 & 0xef) | 0x10
        };
        seg.push(h0);
        seg.push(b1);
        if is_data {
            seg.push((chunk % 256) as u8);
            seg.push((chunk / 256) as u8);
        } else {
            seg.push(b2);
            seg.push(chunk as u8);
        }
        proof {
            assert(seg@ =~= spec_segment_header(b0, b1, b2, last, chunk as int));
            assert(seg@.take(4) =~= spec_segment_header(b0, b1, b2, last, chunk as int));
            assert(seg@.skip(4) =~= packet@.subrange(offset as int, offset as int));
        }
        let mut i: usize = 0;
        while i < chunk
            invariant
                i <= chunk,
                offset + chunk <= packet@.len(),
                packet@.len() <= usize::MAX,
                seg@.len() == 4 + i,
                seg@.take(4) == spec_segment_header(b0, b1, b2, last, chunk as int),
                seg@.skip(4) =~= packet@.subrange(offset as int, offset + i),
            decreases chunk - i,
        {
            seg.push(packet[offset + i]);
            proof {
                assert(seg@.take(4) =~= spec_segment_header(b0, b1, b2, last, chunk as int));
                assert(seg@.skip(4) =~= packet@.subrange(offset as int, offset + i + 1));
            }
            i += 1;
        }
        proof {
            assert(seg@ =~= spec_segment_header(b0, b1, b2, last, chunk as int) + packet@.subrange(
                offset as int,
                offset + chunk,
            ));
        }
        segments.push(seg);
        if last {
            proof {
                let rest = packet@.skip(offset as int);
                assert(rest.len() == chunk);
                assert(spec_segments(b0, b1, b2, rest) =~= seq![
                    spec_segment_header(b0, b1, b2, true, chunk as int) + rest,
                ]);
                assert(spec_segment_header(b0, b1, b2, true, chunk as int) + rest =~= seg@);
                assert(whole =~= segments@.map_values(|v: Vec<u8>| v@));
                assert forall|k: int| 0 <= k < segments@.len() implies segments@[k]@ == whole[k] by {
                    assert(whole[k] == segments@.map_values(|v: Vec<u8>| v@)[k]);
                }
            }
            break ;
        }
        proof {
            let rest = packet@.skip(offset as int);
            assert(rest.len() > limit);
            assert(spec_segments(b0, b1, b2, rest) == seq![
                spec_segment_header(b0, b1, b2, false, limit as int) + rest.take(limit as int),
            ] + spec_segments(b0, b1, b2, rest.skip(limit as int)));
            assert(spec_segment_header(b0, b1, b2, false, limit as int) + rest.take(limit as int)
                =~= seg@);
            assert(rest.skip(limit as int) =~= packet@.skip(offset + limit));
            assert(whole =~= segments@.map_values(|v: Vec<u8>| v@) + spec_segments(
                b0,
                b1,
                b2,
                packet@.skip(offset + limit),
            ));
        }
        offset += chunk;
    }
    segments
}

/// Payload length a four-byte header announces.
pub fn payload_length(header: [u8; 4]) -> (r: usize)
    ensures
        r as int == spec_payload_len(header@),
        r <= 0xffff,
{
    let is_data: bool = (header[0] >> 5) & 0x7 == 0;
    if is_data {
        header[2] as usize + 256 * (header[3] as usize)
    } else {
        header[3] as usize
    }
}

/// The chunks of the first `i + 1` segments are those of the first `i`
/// plus the next segment's payload.
proof fn lemma_concat_chunks_snoc(segs: Seq<Seq<u8>>, i: int)
    requires
        0 <= i < segs.len(),
    ensures
        spec_concat_chunks(segs.take(i + 1)) == spec_concat_chunks(segs.take(i)) + segs[i].skip(4),
    decreases i,
{
    if i == 0 {
        assert(segs.take(1)[0] == segs[0]);
        assert(segs.take(1).skip(1) =~= Seq::<Seq<u8>>::empty());
        assert(segs.take(0) =~= Seq::<Seq<u8>>::empty());
        assert(spec_concat_chunks(Seq::<Seq<u8>>::empty()) == Seq::<u8>::empty());
        assert(spec_concat_chunks(segs.take(1)) =~= segs[0].skip(4));
        assert(spec_concat_chunks(segs.take(0)) + segs[0].skip(4) =~= segs[0].skip(4));
    } else {
        lemma_concat_chunks_snoc(segs.skip(1), i - 1);
        assert(segs.take(i + 1)[0] == segs[0]);
        assert(segs.take(i + 1).skip(1) =~= segs.skip(1).take(i));
        assert(segs.take(i)[0] == segs[0]);
        assert(segs.take(i).skip(1) =~= segs.skip(1).take(i - 1));
        assert(segs.skip(1)[i - 1] == segs[i]);
        let head = segs[0].skip(4);
        assert(spec_concat_chunks(segs.take(i + 1)) == head + spec_concat_chunks(
            segs.skip(1).take(i),
        ));
        assert(spec_concat_chunks(segs.take(i)) == head + spec_concat_chunks(
            segs.skip(1).take(i - 1),
        ));
        assert(head + (spec_concat_chunks(segs.skip(1).take(i - 1)) + segs[i].skip(4)) =~= (head
            + spec_concat_chunks(segs.skip(1).take(i - 1))) + segs[i].skip(4));
    }
}

/// A reassembled packet keeps exactly the last segment's header bytes —
/// so its message type, group id and opcode — whatever the earlier
/// headers carried, and carries every segment's payload in order.
pub proof fn lemma_reassembled_keeps_last_header(segs: Seq<Seq<u8>>)
    requires
        segs.len() >= 1,
        segs.last().len() >= 4,
    ensures
        ({
            let p = spec_reassembled(segs);
            &&& p.len() == 4 + spec_concat_chunks(segs).len()
            &&& p[0] == segs.last()[0]
            &&& p[1] == segs.last()[1]
            &&& p.take(4) == segs.last().take(4)
            &&& p.skip(4) == spec_concat_chunks(segs)
        }),
{
    let p = spec_reassembled(segs);
    assert(p.take(4) =~= segs.last().take(4));
    assert(p.skip(4) =~= spec_concat_chunks(segs));
}

/// The Packet Boundary Flag a header byte carries.
pub fn packet_boundary_flag(b0: u8) -> (r: crate::uci::PacketBoundaryFlag)
    ensures
        r == (if spec_pbf_not_complete(b0) {
            crate::uci::PacketBoundaryFlag::NotComplete
        } else {
            crate::uci::PacketBoundaryFlag::Complete
        }),
{
    if b0 & 0x10 != 0 {
        crate::uci::PacketBoundaryFlag::NotComplete
    } else {
        crate::uci::PacketBoundaryFlag::Complete
    }
}

/// Reassembles control packets out of their segments, and hands data
/// packets through fragment by fragment.
pub struct PacketAssembler {
    buffer: Vec<u8>,
}

/// What pushing one segment into the assembler produced.
#[derive(Debug)]
pub enum AssembleResult {
    /// A complete logical packet: the last segment's header followed by
    /// the payload of every segment since the previous packet.
    Packet(Vec<u8>),
    /// More control segments are needed.
    Pending,
    /// A data fragment arrived in the middle of a segmented control
    /// packet; the stream cannot be trusted further.
    Unsupported,
}

impl PacketAssembler {
    /// The control payload bytes accumulated so far.
    pub closed spec fn pending(self) -> Seq<u8> {
        self.buffer@
    }

    /// A fresh assembler with nothing buffered.
    pub fn new() -> (r: PacketAssembler)
        ensures
            r.pending() == Seq::<u8>::empty(),
    {
        PacketAssembler { buffer: Vec::new() }
    }

    /// Feed one wire segment: its four header bytes and exactly the
    /// payload the header announces. A data fragment is returned as-is
    /// and at once (each fragment is credited upstream); a control
    /// segment is buffered until one arrives with the PBF clear, and the
    /// completed packet keeps only that last header.
    pub fn push_segment(&mut self, header: [u8; 4], payload: &Vec<u8>) -> (r: AssembleResult)
        requires
            payload@.len() == spec_payload_len(header@),
        ensures
            spec_is_data(header@[0]) && old(self).pending().len() == 0 ==> (r matches
                AssembleResult::Packet(p) && p@ == header@ + payload@),
            spec_is_data(header@[0]) && old(self).pending().len() != 0 ==> (r matches
                AssembleResult::Unsupported),
            !spec_is_data(header@[0]) && spec_pbf_not_complete(header@[0]) ==> (r matches
                AssembleResult::Pending),
            !spec_is_data(header@[0]) && !spec_pbf_not_complete(header@[0]) ==> (r matches
                AssembleResult::Packet(p) && p@ == header@ + old(self).pending() + payload@),
            final(self).pending() == if !spec_is_data(header@[0]) && spec_pbf_not_complete(
                header@[0],
            ) {
                old(self).pending() + payload@
            } else {
                Seq::<u8>::empty()
            },
    {
        let is_data: bool = (header[0] >> 5) & 0x7 == 0;
        if is_data {
            if self.buffer.len() != 0 {
                self.buffer = Vec::new();
                return AssembleResult::Unsupported;
            }
            let mut packet: Vec<u8> = Vec::new();
            packet.push(header[0]);
            packet.push(header[1]);
            packet.push(header[2]);
            packet.push(header[3]);
            let mut i: usize = 0;
            while i < payload.len()
                invariant
                    i <= payload@.len(),
                    packet@ =~= header@ + payload@.take(i as int),
                decreases payload@.len() - i,
            {
                packet.push(payload[i]);
                i += 1;
            }
            proof {
                assert(packet@ =~= header@ + payload@);
            }
            return AssembleResult::Packet(packet);
        }
        let mut i: usize = 0;
        while i < payload.len()
            invariant
                i <= payload@.len(),
                self.buffer@ =~= old(self).pending() + payload@.take(i as int),
            decreases payload@.len() - i,
        {
            let b: u8 = payload[i];
            self.buffer.push(b);
            i += 1;
        }
        proof {
            assert(self.buffer@ =~= old(self).pending() + payload@);
        }
        if header[0] & 0x10 != 0 {
            return AssembleResult::Pending;
        }
        let mut packet: Vec<u8> = Vec::new();
        packet.push(header[0]);
        packet.push(header[1]);
        packet.push(header[2]);
        packet.push(header[3]);
        let mut j: usize = 0;
        while j < self.buffer.len()
            invariant
                j <= self.buffer@.len(),
                self.buffer@ == old(self).pending() + payload@,
                packet@ =~= header@ + self.buffer@.take(j as int),
            decreases self.buffer@.len() - j,
        {
            let b: u8 = self.buffer[j];
            packet.push(b);
            j += 1;
        }
        proof {
            assert(packet@ =~= header@ + (old(self).pending() + payload@));
            assert(header@ + (old(self).pending() + payload@) =~= header@ + old(self).pending()
                + payload@);
        }
        self.buffer = Vec::new();
        AssembleResult::Packet(packet)
    }
}

/// Whether `segments` is one complete run of control segments: each at
/// least a header whose length field matches its payload, with the PBF
/// set on every segment but the last.
pub open spec fn spec_control_run(segs: Seq<Seq<u8>>) -> bool {
    &&& segs.len() >= 1
    &&& forall|i: int|
        0 <= i < segs.len() ==> {
            let s = #[trigger] segs[i];
            &&& s.len() >= 4
            &&& !spec_is_data(s[0])
            &&& spec_payload_len(s) == s.len() - 4
            &&& (spec_pbf_not_complete(s[0]) <==> i < segs.len() - 1)
        }
}

/// Reassemble one complete run of control segments, however many there
/// are: the result is the last segment's header — its message type,
/// group id and opcode — followed by every segment's payload in order.
/// The earlier headers' non-length fields are discarded, whatever they
/// carried.
pub fn reassemble_packet(segments: &Vec<Vec<u8>>) -> (r: Vec<u8>)
    requires
        spec_control_run(segments@.map_values(|v: Vec<u8>| v@)),
    ensures
        r@ == spec_reassembled(segments@.map_values(|v: Vec<u8>| v@)),
{
    let ghost views: Seq<Seq<u8>> = segments@.map_values(|v: Vec<u8>| v@);
    let mut assembler = PacketAssembler::new();
    let n: usize = segments.len();
    let mut i: usize = 0;
    while i < n - 1
        invariant
            n == segments@.len(),
            i <= n - 1,
            views == segments@.map_values(|v: Vec<u8>| v@),
            spec_control_run(views),
            assembler.pending() == spec_concat_chunks(views.take(i as int)),
        decreases n - 1 - i,
    {
        let seg = &segments[i];
        proof {
            assert(views[i as int] == seg@);
        }
        let header: [u8; 4] = [seg[0], seg[1], seg[2], seg[3]];
        let mut payload: Vec<u8> = Vec::new();
        let mut j: usize = 4;
        while j < seg.len()
            invariant
                4 <= j <= seg@.len(),
                payload@ =~= seg@.subrange(4, j as int),
            decreases seg@.len() - j,
        {
            payload.push(seg[j]);
            proof {
                assert(payload@ =~= seg@.subrange(4, j + 1));
            }
            j += 1;
        }
        proof {
            assert(payload@ =~= seg@.skip(4));
            assert(header@ =~= seg@.take(4));
            assert(spec_payload_len(header@) == spec_payload_len(seg@));
        }
        let step = assembler.push_segment(header, &payload);
        proof {
            assert(step matches AssembleResult::Pending);
            lemma_concat_chunks_snoc(views, i as int);
            assert(assembler.pending() =~= spec_concat_chunks(views.take(i + 1)));
        }
        i += 1;
    }
    let seg = &segments[n - 1];
    proof {
        assert(views[n - 1] == seg@);
    }
    let header: [u8; 4] = [seg[0], seg[1], seg[2], seg[3]];
    let mut payload: Vec<u8> = Vec::new();
    let mut j: usize = 4;
    while j < seg.len()
        invariant
            4 <= j <= seg@.len(),
            payload@ =~= seg@.subrange(4, j as int),
        decreases seg@.len() - j,
    {
        payload.push(seg[j]);
        proof {
            assert(payload@ =~= seg@.subrange(4, j + 1));
        }
        j += 1;
    }
    proof {
        assert(payload@ =~= seg@.skip(4));
        assert(header@ =~= seg@.take(4));
        assert(spec_payload_len(header@) == spec_payload_len(seg@));
    }
    match assembler.push_segment(header, &payload) {
        AssembleResult::Packet(packet) => {
            proof {
                lemma_concat_chunks_snoc(views, n - 1);
                assert(views.take(n as int) =~= views);
                assert(packet@ =~= views.last().take(4) + spec_concat_chunks(views));
            }
            packet
        },
        AssembleResult::Pending => {
            proof {
                assert(false);
            }
            Vec::new()
        },
        AssembleResult::Unsupported => {
            proof {
                assert(false);
            }
            Vec::new()
        },
    }
}

} // verus!
