//! UDP framing of encoded video: the 24-byte big-endian header, splitting a
//! frame into MTU-sized packets, and detecting codec configuration NAL units.
use vstd::prelude::*;

use crate::bytes::{be16, be32, push_bytes, slice_bytes};
use crate::encode::EncodedFrame;

verus! {

pub const VERSION: u8 = 1;

pub const HEADER_LENGTH: u8 = 24;

pub const MAX_MTU: usize = 1200;

/// `MAX_MTU` less the header.
pub const MAX_PAYLOAD_SIZE: usize = 1176;

pub const PAYLOAD_TYPE_VIDEO: u8 = 0x01;

pub const RESERVED: u8 = 0;

pub const STREAM_ID: u32 = 1;

pub const FLAG_KEYFRAME: u16 = 1;

pub const FLAG_CONFIG: u16 = 2;

pub const FLAG_END_OF_FRAME: u16 = 4;

/// The largest frame that numbered packets can carry: 65535 full payloads, as
/// the packet id and the packet count are 16-bit fields.
pub const MAX_FRAME_LEN: usize = 65535 * MAX_PAYLOAD_SIZE;

/// The fields of a packet header that vary; magic, version, header length and
/// the reserved byte are fixed.
#[derive(Debug, Clone)]
pub struct PacketHeader {
    pub flags: u16,
    pub stream_id: u32,
    pub frame_id: u32,
    pub packet_id: u16,
    pub packet_count: u16,
    pub payload_type: u8,
    pub payload_length: u16,
}

/// The 24 header bytes: `PRLX`, version, header length, then the fields in
/// big-endian order with the reserved byte before the payload length.
pub open spec fn header_bytes(h: PacketHeader) -> Seq<u8> {
    seq![0x50u8, 0x52u8, 0x4cu8, 0x58u8, VERSION, HEADER_LENGTH] + be16(h.flags) + be32(h.stream_id)
        + be32(h.frame_id) + be16(h.packet_id) + be16(h.packet_count) + seq![
        h.payload_type,
        RESERVED,
    ] + be16(h.payload_length)
}

impl PacketHeader {
    /// The wire form of the header.
    pub fn encode(&self) -> (out: [u8; 24])
        ensures
            out@ == header_bytes(*self),
    {
        let f = self.flags;
        let s = self.stream_id;
        let fr = self.frame_id;
        let p = self.packet_id;
        let c = self.packet_count;
        let l = self.payload_length;
        let out: [u8; 24] = [
            0x50,
            0x52,
            0x4c,
            0x58,
            VERSION,
            HEADER_LENGTH,
            (f / 256) as u8,
            (f % 256) as u8,
            (s / 0x100_0000) as u8,
            ((s / 0x1_0000) % 256) as u8,
            ((s / 256) % 256) as u8,
            (s % 256) as u8,
            (fr / 0x100_0000) as u8,
            ((fr / 0x1_0000) % 256) as u8,
            ((fr / 256) % 256) as u8,
            (fr % 256) as u8,
            (p / 256) as u8,
            (p % 256) as u8,
            (c / 256) as u8,
            (c % 256) as u8,
            self.payload_type,
            RESERVED,
            (l / 256) as u8,
            (l % 256) as u8,
        ];
        assert(out@ =~= header_bytes(*self));
        out
    }
}

/// A header and its payload.
#[derive(Debug, Clone)]
pub struct UdpPacket {
    pub header: PacketHeader,
    pub payload: Vec<u8>,
}

/// The datagram: header bytes, then the payload.
pub open spec fn packet_bytes(p: UdpPacket) -> Seq<u8> {
    header_bytes(p.header) + p.payload@
}

impl UdpPacket {
    /// The datagram that carries this packet.
    pub fn to_bytes(&self) -> (out: Vec<u8>)
        ensures
            out@ == packet_bytes(*self),
    {
        let mut bytes: Vec<u8> = Vec::new();
        let header = self.header.encode();
        push_bytes(&mut bytes, &header);
        push_bytes(&mut bytes, self.payload.as_slice());
        bytes
    }
}

// ---------------------------------------------------------------------------
// Splitting a frame into packets
// ---------------------------------------------------------------------------
/// How many chunks of `chunk_size` bytes cover `total_len` bytes (one for an
/// empty frame), clamped to the 16-bit range; the frames that `packetize_frame`
/// accepts (at most `MAX_FRAME_LEN` bytes) never reach the clamp.
pub open spec fn spec_chunk_count(total_len: nat, chunk_size: nat) -> nat {
    if total_len == 0 {
        1
    } else {
        let n = (total_len + chunk_size - 1) / chunk_size as int;
        if n > 0xffff {
            0xffff
        } else {
            n as nat
        }
    }
}

/// The number of chunks of `chunk_size` bytes that cover `total_len` bytes.
pub fn chunk_count(total_len: usize, chunk_size: usize) -> (n: u16)
    requires
        chunk_size > 0,
        total_len + chunk_size <= usize::MAX,
    ensures
        n == spec_chunk_count(total_len as nat, chunk_size as nat),
{
    if total_len == 0 {
        return 1;
    }
    let count = (total_len + chunk_size - 1) / chunk_size;
    if count > 0xffff {
        0xffff
    } else {
        count as u16
    }
}

/// The number of packets a non-empty frame of `len` bytes is split into.
pub open spec fn num_chunks(len: nat) -> nat {
    ((len + MAX_PAYLOAD_SIZE - 1) / MAX_PAYLOAD_SIZE as int) as nat
}

/// Where the `i`-th chunk of a frame of `len` bytes starts.
pub open spec fn chunk_start(i: int) -> int {
    i * MAX_PAYLOAD_SIZE
}

/// Where the `i`-th chunk of a frame of `len` bytes ends.
pub open spec fn chunk_end(len: nat, i: int) -> int {
    if chunk_start(i) + MAX_PAYLOAD_SIZE <= len {
        chunk_start(i) + MAX_PAYLOAD_SIZE
    } else {
        len as int
    }
}

/// The bytes of the `i`-th packet of a frame.
pub open spec fn chunk(data: Seq<u8>, i: int) -> Seq<u8> {
    data.subrange(chunk_start(i), chunk_end(data.len(), i))
}

/// The flags every packet of a frame carries.
pub open spec fn frame_flags(is_keyframe: bool, has_config: bool) -> u16 {
    ((if is_keyframe {
        FLAG_KEYFRAME
    } else {
        0
    }) + (if has_config {
        FLAG_CONFIG
    } else {
        0
    })) as u16
}

/// The header of packet `i` (counted from 0) of a non-empty frame of `len`
/// bytes: the packet id is `i` and the packet count the number of packets.
pub open spec fn chunk_header(len: nat, flags: u16, frame_id: u32, i: int) -> PacketHeader {
    let count = num_chunks(len) as u16;
    let id = i as u16;
    PacketHeader {
        flags: if i == num_chunks(len) - 1 {
            (flags + FLAG_END_OF_FRAME) as u16
        } else {
            flags
        },
        stream_id: STREAM_ID,
        frame_id,
        packet_id: id,
        packet_count: count,
        payload_type: PAYLOAD_TYPE_VIDEO,
        payload_length: (chunk_end(len, i) - chunk_start(i)) as u16,
    }
}

/// What `packetize_frame` makes of a frame: one empty end-of-frame packet for an
/// empty frame, otherwise the frame's bytes in consecutive chunks of
/// `MAX_PAYLOAD_SIZE`, at most 65535 of them, each with the frame's flags, the
/// frame id, its index as packet id and the number of packets as packet count,
/// and the end-of-frame flag on the last.
pub open spec fn packetized(
    data: Seq<u8>,
    is_keyframe: bool,
    frame_id: u32,
    packets: Seq<UdpPacket>,
) -> bool {
    let flags = frame_flags(is_keyframe, has_config_nal(data));
    if data.len() == 0 {
        &&& packets.len() == 1
        &&& packets[0].header == PacketHeader {
            flags: (flags + FLAG_END_OF_FRAME) as u16,
            stream_id: STREAM_ID,
            frame_id,
            packet_id: 0,
            packet_count: 1,
            payload_type: PAYLOAD_TYPE_VIDEO,
            payload_length: 0,
        }
        &&& packets[0].payload@ == Seq::<u8>::empty()
    } else {
        &&& packets.len() == num_chunks(data.len())
        &&& packets.len() <= 0xffff
        &&& forall|i: int|
            0 <= i < packets.len() ==> {
                &&& (#[trigger] packets[i]).header == chunk_header(data.len(), flags, frame_id, i)
                &&& packets[i].payload@ == chunk(data, i)
            }
    }
}

/// Splits an encoded frame into packets that fit the MTU; `frame_id` numbers the
/// frame. Each packet's id is its index and its count the number of packets.
pub fn packetize_frame(encoded_frame: &EncodedFrame, frame_id: u32) -> (packets: Vec<UdpPacket>)
    requires
        encoded_frame.data@.len() <= MAX_FRAME_LEN,
    ensures
        packetized(encoded_frame.data@, encoded_frame.is_keyframe, frame_id, packets@),
        forall|i: int|
            0 <= i < packets@.len() ==> (#[trigger] packets@[i]).header.packet_id == i
                && packets@[i].header.packet_count == packets@.len()
                && packets@[i].header.frame_id == frame_id,
{
    let data = &encoded_frame.data;
    let mut flags: u16 = 0;
    if encoded_frame.is_keyframe {
        flags = flags + FLAG_KEYFRAME;
    }
    if contains_config_nal(data.as_slice()) {
        flags = flags + FLAG_CONFIG;
    }
    assert(flags == frame_flags(encoded_frame.is_keyframe, has_config_nal(data@)));
    if data.len() == 0 {
        let header = PacketHeader {
            flags: flags + FLAG_END_OF_FRAME,
            stream_id: STREAM_ID,
            frame_id,
            packet_id: 0,
            packet_count: 1,
            payload_type: PAYLOAD_TYPE_VIDEO,
            payload_length: 0,
        };
        let mut packets: Vec<UdpPacket> = Vec::new();
        packets.push(UdpPacket { header, payload: Vec::new() });
        return packets;
    }
    let len = data.len();
    let total_packets = chunk_count(len, MAX_PAYLOAD_SIZE);
    let n = len / MAX_PAYLOAD_SIZE + (if len % MAX_PAYLOAD_SIZE == 0 {
        0
    } else {
        1
    });
    assert(n == num_chunks(len as nat));
    proof {
        lemma_chunks_cover(len as nat);
        assert((n - 1) * 1176 < 65535 * 1176);
        assert(n <= 65535) by (nonlinear_arith)
            requires
                (n - 1) * 1176 < 65535 * 1176,
        ;
    }
    let mut packets: Vec<UdpPacket> = Vec::new();
    let mut index: usize = 0;
    while index < n
        invariant
            len == data@.len(),
            len > 0,
            len <= MAX_FRAME_LEN,
            n == num_chunks(len as nat),
            n <= 0xffff,
            total_packets == spec_chunk_count(len as nat, MAX_PAYLOAD_SIZE as nat),
            flags == frame_flags(encoded_frame.is_keyframe, has_config_nal(data@)),
            index <= n,
            packets@.len() == index,
            forall|i: int|
                0 <= i < index ==> {
                    &&& (#[trigger] packets@[i]).header == chunk_header(
                        len as nat,
                        flags,
                        frame_id,
                        i,
                    )
                    &&& packets@[i].payload@ == chunk(data@, i)
                },
        decreases n - index,
    {
        let lo = index * MAX_PAYLOAD_SIZE;
        let hi = if lo + MAX_PAYLOAD_SIZE <= len {
            lo + MAX_PAYLOAD_SIZE
        } else {
            len
        };
        let chunk_bytes = slice_bytes(data.as_slice(), lo, hi);
        let packet_id = index as u16;
        let mut packet_flags = flags;
        if index == n - 1 {
            packet_flags = flags + FLAG_END_OF_FRAME;
        }
        let header = PacketHeader {
            flags: packet_flags,
            stream_id: STREAM_ID,
            frame_id,
            packet_id,
            packet_count: total_packets,
            payload_type: PAYLOAD_TYPE_VIDEO,
            payload_length: (hi - lo) as u16,
        };
        packets.push(UdpPacket { header, payload: chunk_bytes });
        index = index + 1;
    }
    packets
}

// ---------------------------------------------------------------------------
// Frame ids
// ---------------------------------------------------------------------------
/// The id after `id`: one more, wrapping to 0 after `u32::MAX`.
pub open spec fn next_frame_id(id: u32) -> u32 {
    if id == u32::MAX {
        0
    } else {
        (id + 1) as u32
    }
}

/// Numbers the frames that are sent: each frame takes the next id.
pub struct FrameCounter {
    next: u32,
}

impl View for FrameCounter {
    type V = u32;

    /// The id the next frame takes.
    closed spec fn view(&self) -> u32 {
        self.next
    }
}

impl FrameCounter {
    /// A counter whose first frame takes id 0.
    pub fn new() -> (c: Self)
        ensures
            c@ == 0,
    {
        FrameCounter { next: 0 }
    }

    /// Takes the id of the next frame.
    pub fn next_id(&mut self) -> (id: u32)
        ensures
            id == old(self)@,
            final(self)@ == next_frame_id(old(self)@),
    {
        let id = self.next;
        self.next = self.next.wrapping_add(1);
        id
    }
}

/// Frames numbered by a counter, one after the other, carry successive frame
/// ids (wrapping after `u32::MAX`), and every packet of a frame carries that
/// frame's id.
pub proof fn lemma_successive_frame_ids(
    counter: u32,
    d1: Seq<u8>,
    k1: bool,
    p1: Seq<UdpPacket>,
    d2: Seq<u8>,
    k2: bool,
    p2: Seq<UdpPacket>,
)
    requires
        packetized(d1, k1, counter, p1),
        packetized(d2, k2, next_frame_id(counter), p2),
    ensures
        p1.len() > 0,
        p2.len() > 0,
        p2[0].header.frame_id == next_frame_id(p1[0].header.frame_id),
        forall|i: int| 0 <= i < p1.len() ==> (#[trigger] p1[i]).header.frame_id == counter,
{
    if d1.len() > 0 {
        lemma_chunks_cover(d1.len());
    }
    if d2.len() > 0 {
        lemma_chunks_cover(d2.len());
    }
}

/// The payloads of a sequence of packets, one after the other.
pub open spec fn concat_payloads(ps: Seq<UdpPacket>) -> Seq<u8>
    decreases ps.len(),
{
    if ps.len() == 0 {
        Seq::empty()
    } else {
        concat_payloads(ps.drop_last()) + ps.last().payload@
    }
}

proof fn lemma_chunks_cover(len: nat)
    requires
        len > 0,
    ensures
        (num_chunks(len) - 1) * MAX_PAYLOAD_SIZE < len <= num_chunks(len) * MAX_PAYLOAD_SIZE,
{
    let n = num_chunks(len) as int;
    assert(n * 1176 <= len + 1175 < n * 1176 + 1176) by (nonlinear_arith)
        requires
            n == (len + 1175) / 1176,
    ;
}

proof fn lemma_packets_prefix(
    data: Seq<u8>,
    is_keyframe: bool,
    frame_id: u32,
    packets: Seq<UdpPacket>,
    k: int,
)
    requires
        packetized(data, is_keyframe, frame_id, packets),
        data.len() > 0,
        0 <= k <= packets.len(),
    ensures
        concat_payloads(packets.take(k)) == data.take(
            if k < packets.len() {
                chunk_start(k)
            } else {
                data.len() as int
            },
        ),
    decreases k,
{
    let n = packets.len() as int;
    lemma_chunks_cover(data.len());
    if k == 0 {
        assert(packets.take(0) =~= Seq::<UdpPacket>::empty());
        assert(data.take(0) =~= Seq::<u8>::empty());
    } else {
        let j = k - 1;
        lemma_packets_prefix(data, is_keyframe, frame_id, packets, j);
        assert(packets.take(k).drop_last() =~= packets.take(j));
        assert(packets.take(k).last() == packets[j]);
        assert(j * 1176 <= (n - 1) * 1176) by (nonlinear_arith)
            requires
                j <= n - 1,
        ;
        if k < n {
            assert(k * 1176 <= (n - 1) * 1176) by (nonlinear_arith)
                requires
                    k <= n - 1,
            ;
            assert(chunk_end(data.len(), j) == chunk_start(k));
            assert(data.take(chunk_start(j)) + chunk(data, j) =~= data.take(chunk_start(k)));
        } else {
            assert(chunk_end(data.len(), j) == data.len());
            assert(data.take(chunk_start(j)) + chunk(data, j) =~= data);
            assert(data.take(data.len() as int) =~= data);
        }
    }
}

/// A receiver that puts the payloads of a frame's packets side by side gets the
/// frame back.
pub proof fn lemma_packets_reassemble(
    data: Seq<u8>,
    is_keyframe: bool,
    frame_id: u32,
    packets: Seq<UdpPacket>,
)
    requires
        packetized(data, is_keyframe, frame_id, packets),
    ensures
        concat_payloads(packets) == data,
{
    if data.len() == 0 {
        assert(packets.drop_last() =~= Seq::<UdpPacket>::empty());
        assert(packets.last() == packets[0]);
        assert(concat_payloads(packets.drop_last()) =~= Seq::<u8>::empty());
        assert(concat_payloads(packets) =~= data);
    } else {
        let n = packets.len() as int;
        lemma_chunks_cover(data.len());
        lemma_packets_prefix(data, is_keyframe, frame_id, packets, n);
        assert(packets.take(n) =~= packets);
        assert(data.take(data.len() as int) =~= data);
    }
}

/// Every datagram fits the MTU, and its header states its payload's length.
pub proof fn lemma_packets_fit_mtu(
    data: Seq<u8>,
    is_keyframe: bool,
    frame_id: u32,
    packets: Seq<UdpPacket>,
    i: int,
)
    requires
        packetized(data, is_keyframe, frame_id, packets),
        0 <= i < packets.len(),
    ensures
        packets[i].payload@.len() <= MAX_PAYLOAD_SIZE,
        packets[i].header.payload_length == packets[i].payload@.len(),
        packet_bytes(packets[i]).len() <= MAX_MTU,
{
    if data.len() > 0 {
        lemma_chunks_cover(data.len());
        assert(i * 1176 <= (packets.len() - 1) * 1176) by (nonlinear_arith)
            requires
                i <= packets.len() - 1,
        ;
    }
}

/// Each packet's header numbers it by its position, states how many packets the
/// frame has, and marks exactly the last one as the end of the frame.
pub proof fn lemma_packets_numbered(
    data: Seq<u8>,
    is_keyframe: bool,
    frame_id: u32,
    packets: Seq<UdpPacket>,
    i: int,
)
    requires
        packetized(data, is_keyframe, frame_id, packets),
        0 <= i < packets.len(),
    ensures
        packets[i].header.packet_id == i,
        packets[i].header.packet_count == packets.len(),
        packets[i].header.frame_id == frame_id,
        packets[i].header.flags == frame_flags(is_keyframe, has_config_nal(data)) + (if i
            == packets.len() - 1 {
            FLAG_END_OF_FRAME
        } else {
            0
        }),
{
}

// ---------------------------------------------------------------------------
// Codec configuration detection
// ---------------------------------------------------------------------------
/// The length of the start code at `i`, 0 where none starts there. The scan
/// looks for `00 00 01` and `00 00 00 01` only where at least four bytes remain.
pub open spec fn start_code_len(d: Seq<u8>, i: int) -> nat {
    if 0 <= i && i + 3 < d.len() && d[i] == 0 && d[i + 1] == 0 {
        if d[i + 2] == 1 {
            3
        } else if d[i + 2] == 0 && d[i + 3] == 1 {
            4
        } else {
            0
        }
    } else {
        0
    }
}

/// The NAL unit type in a NAL header byte.
pub open spec fn nal_type(b: u8) -> u8 {
    b % 32
}

/// Sequence and picture parameter sets.
pub open spec fn is_config_type(t: u8) -> bool {
    t == 7 || t == 8
}

/// Scanning from `i`: at the next start code, the NAL header after it names a
/// parameter set, or the scan goes on after that header byte.
pub open spec fn config_scan(d: Seq<u8>, i: int) -> bool
    decreases d.len() - i,
{
    if i < 0 || i + 3 >= d.len() {
        false
    } else if start_code_len(d, i) == 0 {
        config_scan(d, i + 1)
    } else {
        let n = i + start_code_len(d, i);
        if n >= d.len() {
            false
        } else if is_config_type(nal_type(d[n])) {
            true
        } else {
            config_scan(d, n + 1)
        }
    }
}

/// The frame holds a sequence or picture parameter set.
pub open spec fn has_config_nal(d: Seq<u8>) -> bool {
    config_scan(d, 0)
}

/// A start code found by the scan.
pub struct StartCode {
    pub code_start: usize,
    pub code_len: usize,
}

/// The first start code at or after `offset`.
pub fn find_start_code(data: &[u8], offset: usize) -> (r: Option<StartCode>)
    ensures
        match r {
            Some(sc) => {
                &&& offset <= sc.code_start
                &&& sc.code_start + 3 < data@.len()
                &&& sc.code_len <= 4
                &&& sc.code_len == start_code_len(data@, sc.code_start as int)
                &&& sc.code_len > 0
                &&& forall|j: int|
                    offset <= j < sc.code_start ==> #[trigger] start_code_len(data@, j) == 0
            },
            None => forall|j: int| offset <= j ==> #[trigger] start_code_len(data@, j) == 0,
        },
{
    let mut i = offset;
    while i < data.len() && data.len() - i > 3
        invariant
            offset <= i,
            forall|j: int| offset <= j < i ==> #[trigger] start_code_len(data@, j) == 0,
        decreases data@.len() - i,
    {
        if data[i] == 0 && data[i + 1] == 0 {
            if data[i + 2] == 1 {
                return Some(StartCode { code_start: i, code_len: 3 });
            }
            if data[i + 2] == 0 && data[i + 3] == 1 {
                return Some(StartCode { code_start: i, code_len: 4 });
            }
        }
        i = i + 1;
    }
    None
}

proof fn lemma_scan_skip(d: Seq<u8>, a: int, b: int)
    requires
        0 <= a <= b,
        forall|j: int| a <= j < b ==> #[trigger] start_code_len(d, j) == 0,
    ensures
        config_scan(d, a) == config_scan(d, b) || (b + 3 >= d.len() && !config_scan(d, a)),
    decreases b - a,
{
    if a < b {
        assert(start_code_len(d, a) == 0);
        lemma_scan_skip(d, a + 1, b);
    }
}

proof fn lemma_scan_none(d: Seq<u8>, a: int)
    requires
        0 <= a,
        forall|j: int| a <= j ==> #[trigger] start_code_len(d, j) == 0,
    ensures
        !config_scan(d, a),
    decreases d.len() - a,
{
    if a + 3 < d.len() {
        assert(start_code_len(d, a) == 0);
        lemma_scan_none(d, a + 1);
    }
}

/// Whether the frame holds an SPS or PPS NAL unit.
pub fn contains_config_nal(data: &[u8]) -> (r: bool)
    ensures
        r == has_config_nal(data@),
{
    let n = data.len();
    let mut offset: usize = 0;
    loop
        invariant
            n == data@.len(),
            offset <= data@.len() + 1,
            config_scan(data@, 0) == config_scan(data@, offset as int),
        decreases data@.len() + 1 - offset,
    {
        match find_start_code(data, offset) {
            None => {
                proof {
                    lemma_scan_none(data@, offset as int);
                }
                return false;
            },
            Some(start) => {
                proof {
                    lemma_scan_skip(data@, offset as int, start.code_start as int);
                }
                let nal_start = start.code_start + start.code_len;
                if nal_start >= data.len() {
                    return false;
                }
                let nal_header = data[nal_start];
                let t = nal_header % 32;
                if t == 7 || t == 8 {
                    return true;
                }
                offset = nal_start + 1;
            },
        }
    }
}

} // verus!
