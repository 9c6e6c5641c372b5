//! Where each field of a message stands on the wire.
//!
//! Every number is unsigned or in two's complement, least significant byte
//! first. The laws give each field of each message its offset and its bytes.

use vstd::prelude::*;

use crate::proto::clipboard::{ClipboardHeader, ClipboardMime};
use crate::proto::cursor::{CursorMove, CursorUpdate};
use crate::proto::frame::{FrameMeta, WireRegion};
use crate::proto::handshake::HandshakePayload;
use crate::proto::handshake::{capture_flags, compress_flags};
use crate::proto::header::flags;
use crate::proto::header::{FrameHeader, MsgType};
use crate::proto::input::{
    InputEvent, InputKind, KeyEvent, PointerAxis, PointerButton, PointerMotion,
};
use crate::proto::monitor::{FractionalScale, MonitorInfo};
use crate::proto::resize::ResizePayload;
use crate::proto::target_resolution::TargetResolutionPayload;
use crate::proto::wire;

verus! {

/// The number in two bytes from offset `i`.
pub open spec fn half(b: Seq<u8>, i: int) -> int {
    b[i] + 0x100 * b[i + 1]
}

/// The number in four bytes from offset `i`.
pub open spec fn word(b: Seq<u8>, i: int) -> int {
    b[i] + 0x100 * b[i + 1] + 0x1_0000 * b[i + 2] + 0x100_0000 * b[i + 3]
}

/// The number in eight bytes from offset `i`.
pub open spec fn double(b: Seq<u8>, i: int) -> int {
    word(b, i) + 0x1_0000_0000 * word(b, i + 4)
}

/// The signed number in two bytes from offset `i`.
pub open spec fn signed_half(b: Seq<u8>, i: int) -> int {
    if b[i + 1] < 0x80 {
        half(b, i)
    } else {
        half(b, i) - 0x1_0000
    }
}

/// Numbers are read and written with the least significant byte first.
pub proof fn law_numbers_are_little_endian(b: Seq<u8>, i: int, x: u16, y: u32, z: u64, v: i16)
    ensures
        wire::u16_at(b, i) == half(b, i),
        wire::u32_at(b, i) == word(b, i),
        wire::u64_at(b, i) == double(b, i),
        wire::i16_of_image(wire::u16_at(b, i)) == signed_half(b, i),
        wire::le16(x).len() == 2,
        wire::le32(y).len() == 4,
        wire::le64(z).len() == 8,
        half(wire::le16(x), 0) == x,
        word(wire::le32(y), 0) == y,
        double(wire::le64(z), 0) == z,
        signed_half(wire::le16(wire::i16_image(v)), 0) == v,
{
    assert(wire::u32_at(b, i + 4) == word(b, i + 4));
    let s = wire::le64(z);
    assert(s.subrange(0, 8) =~= s);
    wire::lemma_u64_at(s, 0, z);
    assert(wire::u32_at(s, 0) == word(s, 0));
    assert(wire::u32_at(s, 4) == word(s, 4));
    let w = wire::le32(y);
    assert(w.subrange(0, 4) =~= w);
    wire::lemma_u32_at(w, 0, y);
}

/// The bytes that stand for the types of messages, of input events and of
/// clipboard contents, and the bits that stand for flags.
pub proof fn law_codes_on_the_wire()
    ensures
        MsgType::FrameUpdate.spec_code() == 0,
        MsgType::AnchorFrame.spec_code() == 1,
        MsgType::InputEvent.spec_code() == 2,
        MsgType::CursorMove.spec_code() == 3,
        MsgType::Handshake.spec_code() == 4,
        MsgType::Ack.spec_code() == 5,
        MsgType::Resize.spec_code() == 6,
        MsgType::Clipboard.spec_code() == 7,
        MsgType::TargetResolution.spec_code() == 8,
        InputKind::PointerMotion.spec_code() == 0,
        InputKind::PointerButton.spec_code() == 1,
        InputKind::PointerAxis.spec_code() == 2,
        InputKind::Key.spec_code() == 3,
        ClipboardMime::TextPlain.spec_code() == 0,
        ClipboardMime::TextHtml.spec_code() == 1,
        ClipboardMime::ImagePng.spec_code() == 2,
        HandshakePayload::PROTOCOL_VERSION == 1,
        capture_flags::WLR_SCREENCOPY == 1,
        capture_flags::EXT_IMAGE_CAPTURE == 2,
        capture_flags::PORTAL == 4,
        compress_flags::NONE == 0,
        compress_flags::LZ4 == 1,
        compress_flags::ZSTD == 2,
        flags::COMPRESSED == 1,
        flags::LAST_CHUNK == 2,
        flags::KEY_FRAME == 4,
{
}

/// The frame header: stream, type and flags, length of the payload, timestamp.
pub proof fn law_frame_header_fields(v: FrameHeader)
    ensures
        v.wire().len() == 16,
        half(v.wire(), 0) == v.stream_id,
        v.wire()[2] == v.msg_type,
        v.wire()[3] == v.flags,
        word(v.wire(), 4) == v.payload_len,
        double(v.wire(), 8) == v.timestamp_ns,
{
    let b = v.wire();
    crate::proto::header::law_header_decode_of_wire(v, Seq::empty());
    assert(b + Seq::<u8>::empty() =~= b);
    law_numbers_are_little_endian(b, 0, 0, 0, 0, 0);
    law_numbers_are_little_endian(b, 4, 0, 0, 0, 0);
    law_numbers_are_little_endian(b, 8, 0, 0, 0, 0);
}

/// The handshake: version, then one byte each for capture and compression.
pub proof fn law_handshake_fields(v: HandshakePayload)
    ensures
        v.wire().len() == 8,
        half(v.wire(), 0) == v.version,
        v.wire()[2] == v.capture_flags,
        v.wire()[3] == v.compress_flags,
{
    let b = v.wire();
    crate::proto::handshake::law_handshake_decode_of_wire(v, Seq::empty());
    assert(b + Seq::<u8>::empty() =~= b);
    law_numbers_are_little_endian(b, 0, 0, 0, 0, 0);
}

/// The metadata of a frame: width, height, stride, number of regions.
pub proof fn law_frame_meta_fields(v: FrameMeta)
    ensures
        v.wire().len() == 16,
        word(v.wire(), 0) == v.width,
        word(v.wire(), 4) == v.height,
        word(v.wire(), 8) == v.stride,
        word(v.wire(), 12) == v.num_regions,
{
    let b = v.wire();
    crate::proto::frame::law_frame_meta_decode_of_wire(v, Seq::empty());
    assert(b + Seq::<u8>::empty() =~= b);
    law_numbers_are_little_endian(b, 0, 0, 0, 0, 0);
    law_numbers_are_little_endian(b, 4, 0, 0, 0, 0);
    law_numbers_are_little_endian(b, 8, 0, 0, 0, 0);
    law_numbers_are_little_endian(b, 12, 0, 0, 0, 0);
}

/// A region: left and top edge, width, height, length of its blob.
pub proof fn law_wire_region_fields(v: WireRegion)
    ensures
        v.wire().len() == 20,
        word(v.wire(), 0) == v.x,
        word(v.wire(), 4) == v.y,
        word(v.wire(), 8) == v.w,
        word(v.wire(), 12) == v.h,
        word(v.wire(), 16) == v.compressed_size,
{
    let b = v.wire();
    crate::proto::frame::law_wire_region_decode_of_wire(v, Seq::empty());
    assert(b + Seq::<u8>::empty() =~= b);
    law_numbers_are_little_endian(b, 0, 0, 0, 0, 0);
    law_numbers_are_little_endian(b, 4, 0, 0, 0, 0);
    law_numbers_are_little_endian(b, 8, 0, 0, 0, 0);
    law_numbers_are_little_endian(b, 12, 0, 0, 0, 0);
    law_numbers_are_little_endian(b, 16, 0, 0, 0, 0);
}

/// A pointer motion: surface, then both coordinates behind the padding.
pub proof fn law_pointer_motion_fields(v: PointerMotion)
    ensures
        v.wire().len() == 12,
        half(v.wire(), 0) == v.surface_id,
        half(v.wire(), 2) == v._pad,
        word(v.wire(), 4) == v.x,
        word(v.wire(), 8) == v.y,
{
    let b = v.wire();
    crate::proto::input::law_pointer_motion_decode_of_wire(v, Seq::empty());
    assert(b + Seq::<u8>::empty() =~= b);
    law_numbers_are_little_endian(b, 0, 0, 0, 0, 0);
    law_numbers_are_little_endian(b, 2, 0, 0, 0, 0);
    law_numbers_are_little_endian(b, 4, 0, 0, 0, 0);
    law_numbers_are_little_endian(b, 8, 0, 0, 0, 0);
}

/// A pointer button: its code, then its state.
pub proof fn law_pointer_button_fields(v: PointerButton)
    ensures
        v.wire().len() == 8,
        word(v.wire(), 0) == v.button,
        word(v.wire(), 4) == v.state,
{
    let b = v.wire();
    crate::proto::input::law_pointer_button_decode_of_wire(v, Seq::empty());
    assert(b + Seq::<u8>::empty() =~= b);
    law_numbers_are_little_endian(b, 0, 0, 0, 0, 0);
    law_numbers_are_little_endian(b, 4, 0, 0, 0, 0);
}

/// A scroll event: the axis, then the value behind the padding.
pub proof fn law_pointer_axis_fields(v: PointerAxis)
    ensures
        v.wire().len() == 8,
        v.wire()[0] == v.axis,
        word(v.wire(), 4) == v.value,
{
    let b = v.wire();
    crate::proto::input::law_pointer_axis_decode_of_wire(v, Seq::empty());
    assert(b + Seq::<u8>::empty() =~= b);
    law_numbers_are_little_endian(b, 4, 0, 0, 0, 0);
}

/// A key: its code, then its state.
pub proof fn law_key_event_fields(v: KeyEvent)
    ensures
        v.wire().len() == 8,
        word(v.wire(), 0) == v.key,
        word(v.wire(), 4) == v.state,
{
    let b = v.wire();
    crate::proto::input::law_key_event_decode_of_wire(v, Seq::empty());
    assert(b + Seq::<u8>::empty() =~= b);
    law_numbers_are_little_endian(b, 0, 0, 0, 0, 0);
    law_numbers_are_little_endian(b, 4, 0, 0, 0, 0);
}

/// A resize: surface, then width and height behind the padding.
pub proof fn law_resize_fields(v: ResizePayload)
    ensures
        v.wire().len() == 12,
        half(v.wire(), 0) == v.surface_id,
        half(v.wire(), 2) == v._pad,
        word(v.wire(), 4) == v.width,
        word(v.wire(), 8) == v.height,
{
    let b = v.wire();
    crate::proto::resize::law_resize_decode_of_wire(v, Seq::empty());
    assert(b + Seq::<u8>::empty() =~= b);
    law_numbers_are_little_endian(b, 0, 0, 0, 0, 0);
    law_numbers_are_little_endian(b, 2, 0, 0, 0, 0);
    law_numbers_are_little_endian(b, 4, 0, 0, 0, 0);
    law_numbers_are_little_endian(b, 8, 0, 0, 0, 0);
}

/// A target resolution: width, then height.
pub proof fn law_target_resolution_fields(v: TargetResolutionPayload)
    ensures
        v.wire().len() == 8,
        word(v.wire(), 0) == v.width,
        word(v.wire(), 4) == v.height,
{
    let b = v.wire();
    crate::proto::target_resolution::law_target_resolution_decode_of_wire(v, Seq::empty());
    assert(b + Seq::<u8>::empty() =~= b);
    law_numbers_are_little_endian(b, 0, 0, 0, 0, 0);
    law_numbers_are_little_endian(b, 4, 0, 0, 0, 0);
}

/// A monitor: stream, position, then size, refresh rate and scale behind the padding.
pub proof fn law_monitor_info_fields(v: MonitorInfo)
    ensures
        v.wire().len() == 24,
        half(v.wire(), 0) == v.stream_id,
        signed_half(v.wire(), 2) == v.x,
        signed_half(v.wire(), 4) == v.y,
        half(v.wire(), 6) == v._pad,
        word(v.wire(), 8) == v.width,
        word(v.wire(), 12) == v.height,
        word(v.wire(), 16) == v.refresh_mhz,
        word(v.wire(), 20) == v.scale,
{
    let b = v.wire();
    crate::proto::monitor::law_monitor_info_decode_of_wire(v, Seq::empty());
    assert(b + Seq::<u8>::empty() =~= b);
    law_numbers_are_little_endian(b, 0, 0, 0, 0, 0);
    law_numbers_are_little_endian(b, 2, 0, 0, 0, 0);
    law_numbers_are_little_endian(b, 4, 0, 0, 0, 0);
    law_numbers_are_little_endian(b, 6, 0, 0, 0, 0);
    law_numbers_are_little_endian(b, 8, 0, 0, 0, 0);
    law_numbers_are_little_endian(b, 12, 0, 0, 0, 0);
    law_numbers_are_little_endian(b, 16, 0, 0, 0, 0);
    law_numbers_are_little_endian(b, 20, 0, 0, 0, 0);
}

/// A fractional scale: stream, then scale.
pub proof fn law_fractional_scale_fields(v: FractionalScale)
    ensures
        v.wire().len() == 4,
        half(v.wire(), 0) == v.stream_id,
        half(v.wire(), 2) == v.scale_120,
{
    let b = v.wire();
    crate::proto::monitor::law_fractional_scale_decode_of_wire(v, Seq::empty());
    assert(b + Seq::<u8>::empty() =~= b);
    law_numbers_are_little_endian(b, 0, 0, 0, 0, 0);
    law_numbers_are_little_endian(b, 2, 0, 0, 0, 0);
}

/// A cursor position: surface, then both coordinates behind the padding.
pub proof fn law_cursor_move_fields(v: CursorMove)
    ensures
        v.wire().len() == 12,
        half(v.wire(), 0) == v.surface_id,
        half(v.wire(), 2) == v._pad,
        word(v.wire(), 4) == v.x,
        word(v.wire(), 8) == v.y,
{
    let b = v.wire();
    crate::proto::cursor::law_cursor_move_decode_of_wire(v, Seq::empty());
    assert(b + Seq::<u8>::empty() =~= b);
    law_numbers_are_little_endian(b, 0, 0, 0, 0, 0);
    law_numbers_are_little_endian(b, 2, 0, 0, 0, 0);
    law_numbers_are_little_endian(b, 4, 0, 0, 0, 0);
    law_numbers_are_little_endian(b, 8, 0, 0, 0, 0);
}

/// A cursor: surface, hotspot, whether a bitmap follows and its size, then the position.
pub proof fn law_cursor_update_fields(v: CursorUpdate)
    ensures
        v.wire().len() == 20,
        half(v.wire(), 0) == v.surface_id,
        signed_half(v.wire(), 2) == v.hotspot_x,
        signed_half(v.wire(), 4) == v.hotspot_y,
        v.wire()[6] == v.has_bitmap,
        half(v.wire(), 8) == v.bitmap_width,
        half(v.wire(), 10) == v.bitmap_height,
        word(v.wire(), 12) == v.x,
        word(v.wire(), 16) == v.y,
{
    let b = v.wire();
    crate::proto::cursor::law_cursor_update_decode_of_wire(v, Seq::empty());
    assert(b + Seq::<u8>::empty() =~= b);
    law_numbers_are_little_endian(b, 0, 0, 0, 0, 0);
    law_numbers_are_little_endian(b, 2, 0, 0, 0, 0);
    law_numbers_are_little_endian(b, 4, 0, 0, 0, 0);
    law_numbers_are_little_endian(b, 8, 0, 0, 0, 0);
    law_numbers_are_little_endian(b, 10, 0, 0, 0, 0);
    law_numbers_are_little_endian(b, 12, 0, 0, 0, 0);
    law_numbers_are_little_endian(b, 16, 0, 0, 0, 0);
}

/// A clipboard header: content type and direction, then the length behind the padding.
pub proof fn law_clipboard_header_fields(v: ClipboardHeader)
    ensures
        v.wire().len() == 8,
        v.wire()[0] == v.mime_type,
        v.wire()[1] == v.direction,
        half(v.wire(), 2) == v._pad,
        word(v.wire(), 4) == v.data_len,
{
    let b = v.wire();
    crate::proto::clipboard::law_clipboard_header_decode_of_wire(v, Seq::empty());
    assert(b + Seq::<u8>::empty() =~= b);
    law_numbers_are_little_endian(b, 2, 0, 0, 0, 0);
    law_numbers_are_little_endian(b, 4, 0, 0, 0, 0);
}

/// An input event: its kind, then its payload behind the padding.
pub proof fn law_input_event_fields(v: InputEvent, i: int)
    ensures
        v.wire().len() == 16,
        v.wire()[0] == v.kind,
        0 <= i < 12 ==> v.wire()[4 + i] == v.payload@[i],
{
}

} // verus!
