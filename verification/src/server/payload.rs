//! Wire payloads that the server builds: the handshake and the frames.

use vstd::prelude::*;

use crate::proto::frame;
use crate::proto::frame::{FrameMeta, WireRegion};
use crate::proto::handshake::HandshakePayload;
use crate::proto::handshake::{capture_flags, compress_flags};
use crate::proto::header::flags;
use crate::proto::header::{FrameHeader, MsgType};
use crate::proto::wire;
use crate::server::cli::{CaptureBackendArg, CompressArg};
use crate::server::damage::DamageRect;

verus! {

/// Sizes before and after compression.
#[derive(Debug, Default)]
pub struct CompressionStats {
    /// Bytes that went into the compressor.
    pub original_bytes: usize,
    /// Bytes that came out of it.
    pub compressed_bytes: usize,
}

/// A frame after compression: one blob per damage region, one after another.
#[derive(Debug, Default)]
pub struct CompressedFrame {
    /// The blobs.
    pub data: Vec<u8>,
    /// Where each region's blob starts in `data`.
    pub region_offsets: Vec<usize>,
    /// Length of each region's blob.
    pub region_sizes: Vec<usize>,
    /// Sizes before and after.
    pub stats: CompressionStats,
}

/// Capture backends that a choice announces; auto-detection announces all.
pub open spec fn capture_bits(arg: CaptureBackendArg) -> u8 {
    match arg {
        CaptureBackendArg::Auto => 7,
        CaptureBackendArg::WlrScreencopy => capture_flags::WLR_SCREENCOPY,
        CaptureBackendArg::ExtImageCapture => capture_flags::EXT_IMAGE_CAPTURE,
        CaptureBackendArg::Portal => capture_flags::PORTAL,
    }
}

/// Algorithms that a choice announces; a zstd server also speaks LZ4.
pub open spec fn compress_bits(arg: CompressArg) -> u8 {
    match arg {
        CompressArg::Raw => compress_flags::NONE,
        CompressArg::Lz4 => compress_flags::LZ4,
        CompressArg::Zstd => 3,
    }
}

/// Header of the server's handshake.
pub open spec fn handshake_header() -> FrameHeader {
    FrameHeader {
        stream_id: 0,
        msg_type: MsgType::Handshake.spec_code(),
        flags: flags::LAST_CHUNK,
        payload_len: 8,
        timestamp_ns: 0,
    }
}

/// Bytes of a handshake payload with the given capabilities.
pub open spec fn handshake_wire(capture: u8, compress: u8) -> Seq<u8> {
    seq![1u8, 0u8, capture, compress, 0u8, 0u8, 0u8, 0u8]
}

/// The server's handshake: header, then payload.
pub open spec fn handshake_message(capture: CaptureBackendArg, compress: CompressArg) -> Seq<u8> {
    handshake_header().wire() + handshake_wire(capture_bits(capture), compress_bits(compress))
}

/// Build the handshake payload describing server capabilities.
pub fn build_handshake(capture_arg: &CaptureBackendArg, compress_arg: &CompressArg) -> (r: Vec<u8>)
    ensures
        r@ == handshake_message(*capture_arg, *compress_arg),
        r@.len() == 24,
{
    let cap: u8 = match capture_arg {
        CaptureBackendArg::Auto => {
            assert(1u8 | 2u8 | 4u8 == 7u8) by (bit_vector);
            capture_flags::WLR_SCREENCOPY | capture_flags::EXT_IMAGE_CAPTURE | capture_flags::PORTAL
        },
        CaptureBackendArg::WlrScreencopy => capture_flags::WLR_SCREENCOPY,
        CaptureBackendArg::ExtImageCapture => capture_flags::EXT_IMAGE_CAPTURE,
        CaptureBackendArg::Portal => capture_flags::PORTAL,
    };
    let comp: u8 = match compress_arg {
        CompressArg::Raw => compress_flags::NONE,
        CompressArg::Lz4 => compress_flags::LZ4,
        CompressArg::Zstd => {
            assert(1u8 | 2u8 == 3u8) by (bit_vector);
            compress_flags::LZ4 | compress_flags::ZSTD
        },
    };
    let hs = HandshakePayload::new(cap, comp);
    let hdr = FrameHeader::new(0, MsgType::Handshake, flags::LAST_CHUNK, 8, 0);
    assert(hs.wire() =~= handshake_wire(cap, comp));
    let mut wire = hdr.as_bytes();
    let mut tail = hs.as_bytes();
    wire.append(&mut tail);
    wire
}

/// Descriptor of region `i` on the wire.
pub open spec fn wire_region(rect: DamageRect, size: usize) -> WireRegion {
    WireRegion {
        x: rect.x,
        y: rect.y,
        w: rect.width,
        h: rect.height,
        compressed_size: size as u32,
    }
}

/// The descriptors of the first `n` regions, one after another.
pub open spec fn regions_wire(regions: Seq<DamageRect>, sizes: Seq<usize>, n: nat) -> Seq<u8>
    decreases n,
{
    if n == 0 {
        Seq::empty()
    } else {
        regions_wire(regions, sizes, (n - 1) as nat) + wire_region(
            regions[n - 1],
            sizes[n - 1],
        ).wire()
    }
}

/// Metadata in front of a frame's regions.
pub open spec fn frame_meta(width: u32, height: u32, stride: u32, regions: nat) -> FrameMeta {
    FrameMeta { width, height, stride, num_regions: regions as u32 }
}

/// The payload of a frame: metadata, region descriptors, compressed data.
pub open spec fn frame_payload(
    width: u32,
    height: u32,
    stride: u32,
    regions: Seq<DamageRect>,
    sizes: Seq<usize>,
    data: Seq<u8>,
) -> Seq<u8> {
    frame_meta(width, height, stride, regions.len()).wire() + regions_wire(
        regions,
        sizes,
        regions.len(),
    ) + data
}

/// Serialize a compressed frame into wire payload bytes.
pub fn serialize_frame_payload(
    width: u32,
    height: u32,
    stride: u32,
    regions: &[DamageRect],
    compressed: &CompressedFrame,
) -> (r: Vec<u8>)
    requires
        compressed.region_sizes@.len() >= regions@.len(),
    ensures
        r@ == frame_payload(
            width,
            height,
            stride,
            regions@,
            compressed.region_sizes@,
            compressed.data@,
        ),
{
    let meta = FrameMeta::new(
        width,
        height,
        stride,
        #[verifier::truncate]
        (regions.len() as u32),
    );
    let mut payload = meta.as_bytes();
    let mut i: usize = 0;
    assert(payload@ =~= meta.wire() + regions_wire(regions@, compressed.region_sizes@, 0));
    while i < regions.len()
        invariant
            i <= regions@.len(),
            compressed.region_sizes@.len() >= regions@.len(),
            payload@ == meta.wire() + regions_wire(regions@, compressed.region_sizes@, i as nat),
        decreases regions.len() - i,
    {
        let rect = regions[i];
        let wr = WireRegion::new(
            rect.x,
            rect.y,
            rect.width,
            rect.height,
            #[verifier::truncate]
            (compressed.region_sizes[i] as u32),
        );
        let mut bytes = wr.as_bytes();
        payload.append(&mut bytes);
        assert(payload@ =~= meta.wire() + regions_wire(
            regions@,
            compressed.region_sizes@,
            (i + 1) as nat,
        ));
        i = i + 1;
    }
    payload.extend_from_slice(compressed.data.as_slice());
    assert(payload@ =~= frame_payload(
        width,
        height,
        stride,
        regions@,
        compressed.region_sizes@,
        compressed.data@,
    ));
    payload
}

proof fn lemma_regions_wire(regions: Seq<DamageRect>, sizes: Seq<usize>, n: nat, i: int)
    ensures
        regions_wire(regions, sizes, n).len() == 20 * n,
        0 <= i < n ==> regions_wire(regions, sizes, n).subrange(20 * i, 20 * i + 20)
            == wire_region(regions[i], sizes[i]).wire(),
    decreases n,
{
    if n > 0 {
        lemma_regions_wire(regions, sizes, (n - 1) as nat, i);
        let all = regions_wire(regions, sizes, n);
        let init = regions_wire(regions, sizes, (n - 1) as nat);
        frame::law_wire_region_decode_of_wire(
            wire_region(regions[n - 1], sizes[n - 1]),
            Seq::empty(),
        );
        if 0 <= i < n - 1 {
            assert(all.subrange(20 * i, 20 * i + 20) =~= init.subrange(20 * i, 20 * i + 20));
        }
        if i == n - 1 {
            assert(all.subrange(20 * i, 20 * i + 20) =~= wire_region(regions[i], sizes[i]).wire());
        }
    }
}

/// A frame payload reads back. In front stand the dimensions of the frame and
/// the number of regions. The descriptor of region `i`, at offset `16 + 20 * i`,
/// names the left and top edge, the width and the height of the region and the
/// length of its blob, in this order, and so covers exactly the pixels that the
/// region covers. The compressed data stands behind the last descriptor.
pub proof fn law_frame_payload_reads_back(
    width: u32,
    height: u32,
    stride: u32,
    regions: Seq<DamageRect>,
    sizes: Seq<usize>,
    data: Seq<u8>,
    i: int,
)
    ensures
        ({
            let p = frame_payload(width, height, stride, regions, sizes, data);
            let n = regions.len();
            let meta = FrameMeta::decode(p);
            let region = WireRegion::decode(p.subrange(16 + 20 * i, p.len() as int));
            let at = 16 + 20 * i;
            &&& p.len() == 16 + 20 * n + data.len()
            &&& meta.width == width
            &&& meta.height == height
            &&& meta.stride == stride
            &&& n <= u32::MAX ==> meta.num_regions == n
            &&& wire::u32_at(p, 0) == width
            &&& wire::u32_at(p, 4) == height
            &&& wire::u32_at(p, 8) == stride
            &&& n <= u32::MAX ==> wire::u32_at(p, 12) == n
            &&& 0 <= i < n ==> {
                &&& region.x == regions[i].x
                &&& region.y == regions[i].y
                &&& region.w == regions[i].width
                &&& region.h == regions[i].height
                &&& sizes[i] <= u32::MAX ==> region.compressed_size == sizes[i]
                &&& wire::u32_at(p, at) == regions[i].x
                &&& wire::u32_at(p, at + 4) == regions[i].y
                &&& wire::u32_at(p, at + 8) == regions[i].width
                &&& wire::u32_at(p, at + 12) == regions[i].height
                &&& sizes[i] <= u32::MAX ==> wire::u32_at(p, at + 16) == sizes[i]
                &&& forall|px: int, py: int| #[trigger]
                    regions[i].covers(px, py) <==> region.x <= px < region.x + region.w
                        && region.y <= py < region.y + region.h
            }
            &&& p.subrange((16 + 20 * n) as int, p.len() as int) == data
        }),
{
    let p = frame_payload(width, height, stride, regions, sizes, data);
    let n = regions.len();
    let meta = frame_meta(width, height, stride, n);
    let rw = regions_wire(regions, sizes, n);
    lemma_regions_wire(regions, sizes, n, i);
    frame::law_frame_meta_decode_of_wire(meta, rw + data);
    assert(p =~= meta.wire() + (rw + data));
    assert(p.subrange((16 + 20 * n) as int, p.len() as int) =~= data);
    if 0 <= i < n {
        let from = p.subrange(16 + 20 * i, p.len() as int);
        let rest = p.subrange(36 + 20 * i, p.len() as int);
        assert(from.subrange(0, 20) =~= rw.subrange(20 * i, 20 * i + 20));
        assert(from =~= from.subrange(0, 20) + rest);
        frame::law_wire_region_decode_of_wire(wire_region(regions[i], sizes[i]), rest);
    }
}

/// The handshake reads back. Its header announces a whole message of type
/// handshake on the input stream, of the length of the payload. The payload names
/// the protocol version, the capture backends (the one that was chosen, or all of
/// them where none was) and the algorithms that can be used: none for raw bytes,
/// LZ4 for itself and for zstd, zstd only for itself.
pub proof fn law_handshake_reads_back(capture: CaptureBackendArg, compress: CompressArg)
    ensures
        ({
            let bytes = handshake_message(capture, compress);
            let header = FrameHeader::decode(bytes);
            let payload = HandshakePayload::decode(bytes.subrange(16, 24));
            let any = capture == CaptureBackendArg::Auto;
            &&& bytes.len() == 24
            &&& header.stream_id == 0
            &&& MsgType::spec_decode(header.msg_type) matches Ok(t) && t == MsgType::Handshake
            &&& header.flags & flags::LAST_CHUNK == flags::LAST_CHUNK
            &&& header.payload_len == bytes.len() - 16
            &&& header.timestamp_ns == 0
            &&& payload.version == HandshakePayload::PROTOCOL_VERSION
            &&& payload._reserved@ == seq![0u8, 0u8, 0u8, 0u8]
            &&& payload.capture_flags & capture_flags::WLR_SCREENCOPY != 0 <==> any || capture
                == CaptureBackendArg::WlrScreencopy
            &&& payload.capture_flags & capture_flags::EXT_IMAGE_CAPTURE != 0 <==> any || capture
                == CaptureBackendArg::ExtImageCapture
            &&& payload.capture_flags & capture_flags::PORTAL != 0 <==> any || capture
                == CaptureBackendArg::Portal
            &&& payload.compress_flags & compress_flags::LZ4 != 0 <==> compress != CompressArg::Raw
            &&& payload.compress_flags & compress_flags::ZSTD != 0 <==> compress
                == CompressArg::Zstd
        }),
{
    let tail = handshake_wire(capture_bits(capture), compress_bits(compress));
    let bytes = handshake_message(capture, compress);
    crate::proto::header::law_header_decode_of_wire(handshake_header(), tail);
    assert(bytes.subrange(16, 24) =~= tail);
    assert(HandshakePayload::decode(tail)._reserved@ =~= seq![0u8, 0u8, 0u8, 0u8]);
    assert(1u8 & 1 == 1 && 1u8 & 2 == 0 && 1u8 & 4 == 0 && 2u8 & 1 == 0 && 2u8 & 2 == 2 && 2u8
        & 4 == 0 && 4u8 & 1 == 0 && 4u8 & 2 == 0 && 4u8 & 4 == 4 && 7u8 & 1 == 1 && 7u8 & 2 == 2
        && 7u8 & 4 == 4 && 3u8 & 1 == 1 && 3u8 & 2 == 2 && 0u8 & 1 == 0 && 0u8 & 2 == 0)
        by (bit_vector);
}

/// The algorithm that the server uses is one that it announces, and where it uses none it
/// announces none.
pub proof fn law_algorithm_is_announced(arg: CompressArg)
    ensures
        arg.spec_kind() is Raw <==> compress_bits(arg) == 0,
        arg.spec_kind() is Lz4 ==> compress_bits(arg) & compress_flags::LZ4 != 0,
        arg.spec_kind() is Zstd <==> compress_bits(arg) & compress_flags::ZSTD != 0,
{
    assert(0u8 & 2 == 0 && 1u8 & 1 != 0 && 1u8 & 2 == 0 && 3u8 & 2 != 0) by (bit_vector);
}

} // verus!
