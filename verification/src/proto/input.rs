//! Input event protocol covering pointer, keyboard, and scroll.

use vstd::prelude::*;

use crate::proto::wire;

verus! {

/// Discriminant for the payload inside [`InputEvent`].
#[derive(Debug, Clone, Copy, PartialEq, Eq, Structural)]
pub enum InputKind {
    /// Pointer motion event.
    PointerMotion,
    /// Pointer button press or release.
    PointerButton,
    /// Pointer scroll (axis) event.
    PointerAxis,
    /// Keyboard key press or release.
    Key,
}

impl InputKind {
    /// The byte that stands for this variant on the wire.
    pub open spec fn spec_code(self) -> u8 {
        match self {
            InputKind::PointerMotion => 0,
            InputKind::PointerButton => 1,
            InputKind::PointerAxis => 2,
            InputKind::Key => 3,
        }
    }

    /// The byte that stands for this variant on the wire.
    pub fn code(self) -> (r: u8)
        ensures
            r == self.spec_code(),
    {
        match self {
            InputKind::PointerMotion => 0,
            InputKind::PointerButton => 1,
            InputKind::PointerAxis => 2,
            InputKind::Key => 3,
        }
    }

    /// The variant a byte stands for, or the byte itself when there is none.
    pub open spec fn spec_decode(v: u8) -> Result<InputKind, u8> {
        if v == 0 {
            Ok(InputKind::PointerMotion)
        } else if v == 1 {
            Ok(InputKind::PointerButton)
        } else if v == 2 {
            Ok(InputKind::PointerAxis)
        } else if v == 3 {
            Ok(InputKind::Key)
        } else {
            Err(v)
        }
    }
}

impl vstd::std_specs::convert::TryFromSpecImpl<u8> for InputKind {
    open spec fn obeys_try_from_spec() -> bool {
        true
    }

    open spec fn try_from_spec(v: u8) -> Result<InputKind, u8> {
        InputKind::spec_decode(v)
    }
}

impl TryFrom<u8> for InputKind {
    type Error = u8;

    fn try_from(v: u8) -> (r: Result<InputKind, u8>) {
        match v {
            0 => Ok(InputKind::PointerMotion),
            1 => Ok(InputKind::PointerButton),
            2 => Ok(InputKind::PointerAxis),
            3 => Ok(InputKind::Key),
            other => Err(other),
        }
    }
}

/// Decoding the byte of an input kind gives it back; a byte is decoded exactly if it
/// is below 4, and is handed back as the error otherwise.
pub proof fn law_input_kind_round_trip(k: InputKind, v: u8)
    ensures
        InputKind::spec_decode(k.spec_code()) == Ok::<InputKind, u8>(k),
        InputKind::spec_decode(v) is Ok <==> v < 4,
        InputKind::spec_decode(v) matches Ok(u) ==> u.spec_code() == v,
        InputKind::spec_decode(v) matches Err(e) ==> e == v,
{
}

/// Pointer motion in surface-local coordinates (sub-pixel precision).
#[derive(Debug, Clone, Copy)]
pub struct PointerMotion {
    /// Target surface ID.
    pub surface_id: u16,
    /// Alignment padding; always zero.
    pub _pad: u16,
    /// X coordinate in surface-local pixels (IEEE 754 single-precision bits).
    pub x: u32,
    /// Y coordinate in surface-local pixels (IEEE 754 single-precision bits).
    pub y: u32,
}

impl PointerMotion {
    /// Size of `PointerMotion` in bytes (always 12).
    pub const SIZE: usize = 12;

    /// The 12 bytes on the wire.
    pub open spec fn wire(self) -> Seq<u8> {
        wire::le16(self.surface_id) + wire::le16(self._pad) + wire::le32(self.x) + wire::le32(self.y)
    }

    /// The value that the first 12 bytes of `s` stand for.
    pub open spec fn decode(s: Seq<u8>) -> PointerMotion {
        PointerMotion {
            surface_id: wire::u16_at(s, 0),
            _pad: wire::u16_at(s, 2),
            x: wire::u32_at(s, 4),
            y: wire::u32_at(s, 8),
        }
    }

    /// The bytes as they go on the wire.
    pub fn as_bytes(&self) -> (r: Vec<u8>)
        ensures
            r@ == self.wire(),
            r@.len() == 12,
    {
        let mut out: Vec<u8> = Vec::with_capacity(12);
        wire::put16(&mut out, self.surface_id);
        wire::put16(&mut out, self._pad);
        wire::put32(&mut out, self.x);
        wire::put32(&mut out, self.y);
        assert(out@ =~= self.wire());
        out
    }

    /// Read the value from exactly 12 bytes; any other length is refused.
    pub fn read_from_bytes(bytes: &[u8]) -> (r: Option<PointerMotion>)
        ensures
            r == if bytes@.len() == 12 {
                Some(PointerMotion::decode(bytes@))
            } else {
                None
            },
    {
        if bytes.len() != 12 {
            return None;
        }
        Some(
            PointerMotion {
                surface_id: wire::get16(bytes, 0),
                _pad: wire::get16(bytes, 2),
                x: wire::get32(bytes, 4),
                y: wire::get32(bytes, 8),
            },
        )
    }
}

/// A pointer motion read back from bytes that start with its wire form is the same.
pub proof fn law_pointer_motion_decode_of_wire(v: PointerMotion, rest: Seq<u8>)
    ensures
        v.wire().len() == 12,
        PointerMotion::decode(v.wire() + rest) == v,
{
    let s = v.wire() + rest;
    assert(s.subrange(0, 2) =~= wire::le16(v.surface_id));
    wire::lemma_u16_at(s, 0, v.surface_id);
    assert(s.subrange(2, 4) =~= wire::le16(v._pad));
    wire::lemma_u16_at(s, 2, v._pad);
    assert(s.subrange(4, 8) =~= wire::le32(v.x));
    wire::lemma_u32_at(s, 4, v.x);
    assert(s.subrange(8, 12) =~= wire::le32(v.y));
    wire::lemma_u32_at(s, 8, v.y);
}

/// Any 12 bytes are the wire form of what they decode to.
pub proof fn law_pointer_motion_wire_of_decode(s: Seq<u8>)
    requires
        s.len() >= 12,
    ensures
        PointerMotion::decode(s).wire() == s.subrange(0, 12),
{
    wire::lemma_le16_of_u16_at(s, 0);
    wire::lemma_le16_of_u16_at(s, 2);
    wire::lemma_le32_of_u32_at(s, 4);
    wire::lemma_le32_of_u32_at(s, 8);
    assert(PointerMotion::decode(s).wire() =~= s.subrange(0, 12));
}

/// Pointer button press or release.
#[derive(Debug, Clone, Copy)]
pub struct PointerButton {
    /// Linux evdev button code (`BTN_LEFT` = 0x110, etc.).
    pub button: u32,
    /// 1 = pressed, 0 = released.
    pub state: u32,
}

impl PointerButton {
    /// Size of `PointerButton` in bytes (always 8).
    pub const SIZE: usize = 8;

    /// The 8 bytes on the wire.
    pub open spec fn wire(self) -> Seq<u8> {
        wire::le32(self.button) + wire::le32(self.state)
    }

    /// The value that the first 8 bytes of `s` stand for.
    pub open spec fn decode(s: Seq<u8>) -> PointerButton {
        PointerButton {
            button: wire::u32_at(s, 0),
            state: wire::u32_at(s, 4),
        }
    }

    /// The bytes as they go on the wire.
    pub fn as_bytes(&self) -> (r: Vec<u8>)
        ensures
            r@ == self.wire(),
            r@.len() == 8,
    {
        let mut out: Vec<u8> = Vec::with_capacity(8);
        wire::put32(&mut out, self.button);
        wire::put32(&mut out, self.state);
        assert(out@ =~= self.wire());
        out
    }

    /// Read the value from exactly 8 bytes; any other length is refused.
    pub fn read_from_bytes(bytes: &[u8]) -> (r: Option<PointerButton>)
        ensures
            r == if bytes@.len() == 8 {
                Some(PointerButton::decode(bytes@))
            } else {
                None
            },
    {
        if bytes.len() != 8 {
            return None;
        }
        Some(
            PointerButton {
                button: wire::get32(bytes, 0),
                state: wire::get32(bytes, 4),
            },
        )
    }
}

/// A button event read back from bytes that start with its wire form is the same.
pub proof fn law_pointer_button_decode_of_wire(v: PointerButton, rest: Seq<u8>)
    ensures
        v.wire().len() == 8,
        PointerButton::decode(v.wire() + rest) == v,
{
    let s = v.wire() + rest;
    assert(s.subrange(0, 4) =~= wire::le32(v.button));
    wire::lemma_u32_at(s, 0, v.button);
    assert(s.subrange(4, 8) =~= wire::le32(v.state));
    wire::lemma_u32_at(s, 4, v.state);
}

/// Any 8 bytes are the wire form of what they decode to.
pub proof fn law_pointer_button_wire_of_decode(s: Seq<u8>)
    requires
        s.len() >= 8,
    ensures
        PointerButton::decode(s).wire() == s.subrange(0, 8),
{
    wire::lemma_le32_of_u32_at(s, 0);
    wire::lemma_le32_of_u32_at(s, 4);
    assert(PointerButton::decode(s).wire() =~= s.subrange(0, 8));
}

/// Pointer scroll (axis) event.
#[derive(Debug, Clone, Copy)]
pub struct PointerAxis {
    /// 0 = vertical, 1 = horizontal.
    pub axis: u8,
    /// Alignment padding; always zero.
    pub _pad: [u8; 3],
    /// Scroll delta, positive = down/right (IEEE 754 single-precision bits).
    pub value: u32,
}

impl PointerAxis {
    /// Size of `PointerAxis` in bytes (always 8).
    pub const SIZE: usize = 8;

    /// The 8 bytes on the wire.
    pub open spec fn wire(self) -> Seq<u8> {
        seq![self.axis] + self._pad@ + wire::le32(self.value)
    }

    /// The value that the first 8 bytes of `s` stand for.
    pub open spec fn decode(s: Seq<u8>) -> PointerAxis {
        PointerAxis { axis: s[0], _pad: [s[1], s[2], s[3]], value: wire::u32_at(s, 4) }
    }

    /// The bytes as they go on the wire.
    pub fn as_bytes(&self) -> (r: Vec<u8>)
        ensures
            r@ == self.wire(),
            r@.len() == 8,
    {
        let mut out: Vec<u8> = Vec::with_capacity(8);
        out.push(self.axis);
        out.push(self._pad[0]);
        out.push(self._pad[1]);
        out.push(self._pad[2]);
        wire::put32(&mut out, self.value);
        assert(out@ =~= self.wire());
        out
    }

    /// Read the value from exactly 8 bytes; any other length is refused.
    pub fn read_from_bytes(bytes: &[u8]) -> (r: Option<PointerAxis>)
        ensures
            r == if bytes@.len() == 8 {
                Some(PointerAxis::decode(bytes@))
            } else {
                None
            },
    {
        if bytes.len() != 8 {
            return None;
        }
        Some(
            PointerAxis {
                axis: bytes[0],
                _pad: [bytes[1], bytes[2], bytes[3]],
                value: wire::get32(bytes, 4),
            },
        )
    }
}

/// A scroll event read back from bytes that start with its wire form is the same.
pub proof fn law_pointer_axis_decode_of_wire(v: PointerAxis, rest: Seq<u8>)
    ensures
        v.wire().len() == 8,
        PointerAxis::decode(v.wire() + rest) == v,
{
    let s = v.wire() + rest;
    assert(s.subrange(4, 8) =~= wire::le32(v.value));
    wire::lemma_u32_at(s, 4, v.value);
    assert(PointerAxis::decode(s)._pad =~= v._pad);
}

/// Any 8 bytes are the wire form of what they decode to.
pub proof fn law_pointer_axis_wire_of_decode(s: Seq<u8>)
    requires
        s.len() >= 8,
    ensures
        PointerAxis::decode(s).wire() == s.subrange(0, 8),
{
    wire::lemma_le32_of_u32_at(s, 4);
    assert(PointerAxis::decode(s).wire() =~= s.subrange(0, 8));
}

/// Key press or release.
#[derive(Debug, Clone, Copy)]
pub struct KeyEvent {
    /// Linux evdev key code.
    pub key: u32,
    /// 1 = pressed, 0 = released, 2 = repeat.
    pub state: u32,
}

impl KeyEvent {
    /// Size of `KeyEvent` in bytes (always 8).
    pub const SIZE: usize = 8;

    /// The 8 bytes on the wire.
    pub open spec fn wire(self) -> Seq<u8> {
        wire::le32(self.key) + wire::le32(self.state)
    }

    /// The value that the first 8 bytes of `s` stand for.
    pub open spec fn decode(s: Seq<u8>) -> KeyEvent {
        KeyEvent {
            key: wire::u32_at(s, 0),
            state: wire::u32_at(s, 4),
        }
    }

    /// The bytes as they go on the wire.
    pub fn as_bytes(&self) -> (r: Vec<u8>)
        ensures
            r@ == self.wire(),
            r@.len() == 8,
    {
        let mut out: Vec<u8> = Vec::with_capacity(8);
        wire::put32(&mut out, self.key);
        wire::put32(&mut out, self.state);
        assert(out@ =~= self.wire());
        out
    }

    /// Read the value from exactly 8 bytes; any other length is refused.
    pub fn read_from_bytes(bytes: &[u8]) -> (r: Option<KeyEvent>)
        ensures
            r == if bytes@.len() == 8 {
                Some(KeyEvent::decode(bytes@))
            } else {
                None
            },
    {
        if bytes.len() != 8 {
            return None;
        }
        Some(
            KeyEvent {
                key: wire::get32(bytes, 0),
                state: wire::get32(bytes, 4),
            },
        )
    }
}

/// A key event read back from bytes that start with its wire form is the same.
pub proof fn law_key_event_decode_of_wire(v: KeyEvent, rest: Seq<u8>)
    ensures
        v.wire().len() == 8,
        KeyEvent::decode(v.wire() + rest) == v,
{
    let s = v.wire() + rest;
    assert(s.subrange(0, 4) =~= wire::le32(v.key));
    wire::lemma_u32_at(s, 0, v.key);
    assert(s.subrange(4, 8) =~= wire::le32(v.state));
    wire::lemma_u32_at(s, 4, v.state);
}

/// Any 8 bytes are the wire form of what they decode to.
pub proof fn law_key_event_wire_of_decode(s: Seq<u8>)
    requires
        s.len() >= 8,
    ensures
        KeyEvent::decode(s).wire() == s.subrange(0, 8),
{
    wire::lemma_le32_of_u32_at(s, 0);
    wire::lemma_le32_of_u32_at(s, 4);
    assert(KeyEvent::decode(s).wire() =~= s.subrange(0, 8));
}

/// `src` followed by zeros up to `n` bytes.
pub open spec fn zero_padded(src: Seq<u8>, n: nat) -> Seq<u8> {
    src + Seq::new((n - src.len()) as nat, |i: int| 0u8)
}

/// Fixed-size input event (16 bytes) transmitted on the input stream.
///
/// Layout: kind(1) + _pad(3) + payload(12) = 16 bytes.
/// `payload` is large enough to hold the widest sub-type (`PointerMotion` = 12 bytes).
#[derive(Debug, Clone, Copy)]
pub struct InputEvent {
    /// Discriminant from [`InputKind`].
    pub kind: u8,
    /// Alignment padding; always zero.
    pub _pad: [u8; 3],
    /// Sub-type payload (size varies by kind).
    pub payload: [u8; 12],
}

impl InputEvent {
    /// Size of `InputEvent` in bytes (always 16).
    pub const SIZE: usize = 16;

    /// The 16 bytes on the wire.
    pub open spec fn wire(self) -> Seq<u8> {
        seq![self.kind] + self._pad@ + self.payload@
    }

    /// The event that the first 16 bytes of `s` stand for.
    pub open spec fn decode(s: Seq<u8>) -> InputEvent {
        InputEvent {
            kind: s[0],
            _pad: [s[1], s[2], s[3]],
            payload: [
                s[4],
                s[5],
                s[6],
                s[7],
                s[8],
                s[9],
                s[10],
                s[11],
                s[12],
                s[13],
                s[14],
                s[15],
            ],
        }
    }

    /// Whether this event has the given kind and carries `bytes`, zero-padded.
    pub open spec fn packs(self, kind: InputKind, bytes: Seq<u8>) -> bool {
        &&& self.kind == kind.spec_code()
        &&& self._pad@ == seq![0u8, 0u8, 0u8]
        &&& self.payload@ == zero_padded(bytes, 12)
    }

    /// Pack a sub-type's bytes into the fixed-size payload.
    fn from_bytes_padded(kind: InputKind, src: &[u8]) -> (r: InputEvent)
        requires
            src@.len() <= 12,
        ensures
            r.packs(kind, src@),
    {
        let mut payload: [u8; 12] = [0u8; 12];
        let mut i: usize = 0;
        while i < src.len()
            invariant
                i <= src@.len() <= 12,
                payload@.len() == 12,
                forall|j: int| 0 <= j < i ==> payload@[j] == src@[j],
                forall|j: int| i <= j < 12 ==> payload@[j] == 0,
            decreases src.len() - i,
        {
            payload[i] = src[i];
            i = i + 1;
        }
        let r = InputEvent { kind: kind.code(), _pad: [0u8; 3], payload };
        assert(r._pad@ =~= seq![0u8, 0u8, 0u8]);
        assert(r.payload@ =~= zero_padded(src@, 12));
        r
    }

    /// Create an `InputEvent` from a [`PointerMotion`].
    #[must_use]
    pub fn pointer_motion(motion: PointerMotion) -> (r: InputEvent)
        ensures
            r.packs(InputKind::PointerMotion, motion.wire()),
    {
        InputEvent::from_bytes_padded(InputKind::PointerMotion, motion.as_bytes().as_slice())
    }

    /// Create an `InputEvent` from a [`PointerButton`].
    #[must_use]
    pub fn pointer_button(btn: PointerButton) -> (r: InputEvent)
        ensures
            r.packs(InputKind::PointerButton, btn.wire()),
    {
        InputEvent::from_bytes_padded(InputKind::PointerButton, btn.as_bytes().as_slice())
    }

    /// Create an `InputEvent` from a [`PointerAxis`].
    #[must_use]
    pub fn pointer_axis(axis: PointerAxis) -> (r: InputEvent)
        ensures
            r.packs(InputKind::PointerAxis, axis.wire()),
    {
        InputEvent::from_bytes_padded(InputKind::PointerAxis, axis.as_bytes().as_slice())
    }

    /// Create an `InputEvent` from a [`KeyEvent`].
    #[must_use]
    pub fn key(key: KeyEvent) -> (r: InputEvent)
        ensures
            r.packs(InputKind::Key, key.wire()),
    {
        InputEvent::from_bytes_padded(InputKind::Key, key.as_bytes().as_slice())
    }

    /// Decode the `kind` byte into an [`InputKind`] discriminant.
    pub fn kind(&self) -> (r: Result<InputKind, u8>)
        ensures
            r == InputKind::spec_decode(self.kind),
    {
        InputKind::try_from(self.kind)
    }

    /// The event as it goes on the wire.
    pub fn as_bytes(&self) -> (r: Vec<u8>)
        ensures
            r@ == self.wire(),
            r@.len() == 16,
    {
        let mut out: Vec<u8> = Vec::with_capacity(16);
        out.push(self.kind);
        out.push(self._pad[0]);
        out.push(self._pad[1]);
        out.push(self._pad[2]);
        let mut i: usize = 0;
        while i < 12
            invariant
                i <= 12,
                out@ =~= seq![self.kind] + self._pad@ + self.payload@.subrange(0, i as int),
            decreases 12 - i,
        {
            out.push(self.payload[i]);
            i = i + 1;
        }
        assert(out@ =~= self.wire());
        out
    }

    /// Read an event from exactly 16 bytes; any other length is refused.
    pub fn read_from_bytes(bytes: &[u8]) -> (r: Option<InputEvent>)
        ensures
            r == if bytes@.len() == 16 {
                Some(InputEvent::decode(bytes@))
            } else {
                None
            },
    {
        if bytes.len() != 16 {
            return None;
        }
        Some(
            InputEvent {
                kind: bytes[0],
                _pad: [bytes[1], bytes[2], bytes[3]],
                payload: [
                    bytes[4],
                    bytes[5],
                    bytes[6],
                    bytes[7],
                    bytes[8],
                    bytes[9],
                    bytes[10],
                    bytes[11],
                    bytes[12],
                    bytes[13],
                    bytes[14],
                    bytes[15],
                ],
            },
        )
    }
}

/// An event read back from bytes that start with its wire form is the same.
pub proof fn law_input_event_decode_of_wire(v: InputEvent, rest: Seq<u8>)
    ensures
        v.wire().len() == 16,
        InputEvent::decode(v.wire() + rest) == v,
{
    let d = InputEvent::decode(v.wire() + rest);
    assert(d._pad =~= v._pad);
    assert(d.payload =~= v.payload);
}

/// Any 16 bytes are the wire form of the event they decode to.
pub proof fn law_input_event_wire_of_decode(s: Seq<u8>)
    requires
        s.len() >= 16,
    ensures
        InputEvent::decode(s).wire() == s.subrange(0, 16),
{
    assert(InputEvent::decode(s).wire() =~= s.subrange(0, 16));
}

/// What was packed into an event comes out of its payload again, under the
/// kind it was packed with, whichever of the four kinds it is.
pub proof fn law_input_event_unpacks(
    ev: InputEvent,
    motion: PointerMotion,
    btn: PointerButton,
    axis: PointerAxis,
    key: KeyEvent,
)
    ensures
        ev.packs(InputKind::PointerMotion, motion.wire()) ==> {
            &&& InputKind::spec_decode(ev.kind) == Ok::<InputKind, u8>(InputKind::PointerMotion)
            &&& PointerMotion::decode(ev.payload@) == motion
        },
        ev.packs(InputKind::PointerButton, btn.wire()) ==> {
            &&& InputKind::spec_decode(ev.kind) == Ok::<InputKind, u8>(InputKind::PointerButton)
            &&& PointerButton::decode(ev.payload@) == btn
        },
        ev.packs(InputKind::PointerAxis, axis.wire()) ==> {
            &&& InputKind::spec_decode(ev.kind) == Ok::<InputKind, u8>(InputKind::PointerAxis)
            &&& PointerAxis::decode(ev.payload@) == axis
        },
        ev.packs(InputKind::Key, key.wire()) ==> {
            &&& InputKind::spec_decode(ev.kind) == Ok::<InputKind, u8>(InputKind::Key)
            &&& KeyEvent::decode(ev.payload@) == key
        },
{
    law_pointer_motion_decode_of_wire(motion, Seq::new(0, |i: int| 0u8));
    law_pointer_button_decode_of_wire(btn, Seq::new(4, |i: int| 0u8));
    law_pointer_axis_decode_of_wire(axis, Seq::new(4, |i: int| 0u8));
    law_key_event_decode_of_wire(key, Seq::new(4, |i: int| 0u8));
    assert(zero_padded(motion.wire(), 12) =~= motion.wire() + Seq::new(0, |i: int| 0u8));
    assert(zero_padded(btn.wire(), 12) =~= btn.wire() + Seq::new(4, |i: int| 0u8));
    assert(zero_padded(axis.wire(), 12) =~= axis.wire() + Seq::new(4, |i: int| 0u8));
    assert(zero_padded(key.wire(), 12) =~= key.wire() + Seq::new(4, |i: int| 0u8));
}

/// What is packed stands at the front of the payload, and all that is left over is zero.
pub proof fn law_unused_bytes_are_zero(ev: InputEvent, kind: InputKind, bytes: Seq<u8>, i: int)
    requires
        ev.packs(kind, bytes),
        bytes.len() <= 12,
    ensures
        ev.kind == kind.spec_code(),
        0 <= i < 3 ==> ev._pad@[i] == 0,
        0 <= i < bytes.len() ==> ev.payload@[i] == bytes[i],
        bytes.len() <= i < 12 ==> ev.payload@[i] == 0,
{
}

} // verus!
