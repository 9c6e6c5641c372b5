//! Decisions of the compress-and-send loop.
//!
//! The loop itself captures, compresses and sends; what it does with each
//! frame is decided here. [`next_step`] says whether there is a frame to
//! handle. For each one the loop calls [`FrameLoop::note_capture`],
//! [`FrameLoop::frame_size`], [`FrameLoop::plan`], [`package`] on the compressed
//! result, and [`FrameLoop::finish`] with what became of it. Where the client
//! asks for a size, it calls [`FrameLoop::request_size`] before.

use vstd::prelude::*;

use crate::proto::error::ProtoError;
use crate::proto::frame::{FrameMeta, WireRegion};
use crate::proto::header::flags;
use crate::proto::header::{FrameHeader, MsgType};
use crate::proto::target_resolution::TargetResolutionPayload;
use crate::server::cli::DownscaleFilterArg;
use crate::server::damage;
use crate::server::damage::DamageRect;
use crate::server::downscale;
use crate::server::downscale::Scaling;
use crate::server::payload;
use crate::server::payload::CompressedFrame;
use crate::transport::chunk_sender;
use crate::transport::laws;
use crate::transport::multiplexer;
use crate::transport::multiplexer::{Frame, Outcome, Receiver};

verus! {

/// Maximum chunk size for frame data on the wire (64 KiB).
pub const CHUNK_SIZE: usize = 64 * 1024;

/// Send an anchor frame every N frames to prevent error accumulation
/// and enable resync after packet loss.
pub const ANCHOR_INTERVAL: u64 = 300;

/// Stream of the primary surface.
pub const PRIMARY_STREAM: u16 = 1;

/// How long to sleep while no frame is ready. Keeps latency low while yielding
/// the CPU.
pub const POLL_INTERVAL_MS: u64 = 2;

/// What the loop does next.
#[derive(Debug, Clone, Copy, PartialEq, Eq, Structural)]
pub enum LoopStep {
    /// Handle the newest of the frames that were ready. The others are stale:
    /// processing them would only add pipeline latency.
    Take {
        /// Frames that were passed over.
        skipped: u32,
    },
    /// No frame is ready: sleep, then look again.
    Wait {
        /// How long.
        millis: u64,
    },
    /// No frame is ready and none will come.
    End,
}

/// What the loop does next, after the capture ring was drained.
pub open spec fn step_after(drained: u32, feed_finished: bool) -> LoopStep {
    if drained > 0 {
        LoopStep::Take { skipped: (drained - 1) as u32 }
    } else if feed_finished {
        LoopStep::End
    } else {
        LoopStep::Wait { millis: POLL_INTERVAL_MS }
    }
}

/// Decide what the loop does next: `drained` frames came out of the capture ring,
/// and `feed_finished` says whether the capture has ended. A capture that has
/// ended still has its last frames handled.
#[must_use]
pub fn next_step(drained: u32, feed_finished: bool) -> (r: LoopStep)
    ensures
        r == step_after(drained, feed_finished),
{
    if drained > 0 {
        LoopStep::Take { skipped: drained - 1 }
    } else if feed_finished {
        LoopStep::End
    } else {
        LoopStep::Wait { millis: POLL_INTERVAL_MS }
    }
}

/// Size of a frame as it is sent.
#[derive(Debug, Clone, Copy, PartialEq, Eq, Structural)]
pub struct FrameSize {
    /// Width in pixels.
    pub width: u32,
    /// Height in pixels.
    pub height: u32,
    /// Whether the captured frame has to be scaled to it.
    pub scaled: bool,
}

/// One side of a requested size: a request of 0, or of more than there is, leaves
/// the side as it was captured.
pub open spec fn requested_side(requested: u32, native: u32) -> u32 {
    if requested == 0 || requested > native {
        native
    } else {
        requested
    }
}

fn side(requested: u32, native: u32) -> (r: u32)
    ensures
        r == requested_side(requested, native),
{
    if requested == 0 || requested > native {
        native
    } else {
        requested
    }
}

/// What the loop carries from one frame to the next.
#[verifier::ext_equal]
pub struct LoopState {
    /// The frame that the next delta is relative to.
    pub previous: Seq<u8>,
    /// Frames handled so far.
    pub frame_count: nat,
    /// Whether the next frame must be sent whole.
    pub need_full_damage: bool,
    /// Whether frames are scaled down as long as the client asks for no size.
    pub downscaling: bool,
    /// The size that the client asked for last, if it did.
    pub target: Option<TargetResolutionPayload>,
    /// Whether the client asked for a size since a frame was last sent.
    pub asked: bool,
    /// Width and height of the last frame, but for later frames that were not
    /// sent while the client waits for a size that it asked for.
    pub last_size: Option<(u32, u32)>,
}

/// Bytes cut or zero-extended to a length.
pub open spec fn resized(s: Seq<u8>, len: nat) -> Seq<u8> {
    Seq::new(
        len,
        |i: int|
            if i < s.len() {
                s[i]
            } else {
                0u8
            },
    )
}

impl LoopState {
    /// Before any frame.
    pub open spec fn start(downscaling: bool) -> LoopState {
        LoopState {
            previous: Seq::empty(),
            frame_count: 0,
            need_full_damage: false,
            downscaling,
            target: None,
            asked: false,
            last_size: None,
        }
    }

    /// After the client asked for a size.
    pub open spec fn requested(self, request: TargetResolutionPayload) -> LoopState {
        LoopState { target: Some(request), asked: true, ..self }
    }

    /// Whether a frame is of a new size because the client asked for one.
    pub open spec fn changes_size(self, size: FrameSize) -> bool {
        self.asked && self.last_size != Some((size.width, size.height))
    }

    /// Size of the next frame, which was captured as `native_w × native_h`: what
    /// the client asked for, or else `scaled_w × scaled_h` where frames are
    /// scaled down.
    pub open spec fn frame_size(
        self,
        native_w: u32,
        native_h: u32,
        scaled_w: u32,
        scaled_h: u32,
    ) -> FrameSize {
        match self.target {
            Some(t) => FrameSize {
                width: requested_side(t.width, native_w),
                height: requested_side(t.height, native_h),
                scaled: requested_side(t.width, native_w) != native_w || requested_side(
                    t.height,
                    native_h,
                ) != native_h,
            },
            None => if self.downscaling {
                FrameSize { width: scaled_w, height: scaled_h, scaled: true }
            } else {
                FrameSize { width: native_w, height: native_h, scaled: false }
            },
        }
    }

    /// Whether the next frame is an anchor: the first one is, and then every
    /// `ANCHOR_INTERVAL`-th. So is a frame whose size changes because the client
    /// asked for another: a delta needs a base of its own length.
    pub open spec fn anchor_due(self, size: FrameSize) -> bool {
        self.frame_count % (ANCHOR_INTERVAL as nat) == 0 || self.changes_size(size)
    }

    /// Whether the next frame is sent whole.
    pub open spec fn sends_whole(self, size: FrameSize, damage: Seq<DamageRect>) -> bool {
        self.anchor_due(size) || damage.len() == 0 || self.need_full_damage || size.scaled
    }

    /// The regions of the next frame: stripes of the whole frame, one per
    /// worker, or the damage as captured.
    pub open spec fn regions(
        self,
        size: FrameSize,
        damage: Seq<DamageRect>,
        workers: usize,
    ) -> Seq<DamageRect> {
        if self.sends_whole(size, damage) {
            damage::stripes(size.width, size.height, workers)
        } else {
            damage
        }
    }

    /// Message type of the next frame.
    pub open spec fn next_type(self, size: FrameSize) -> MsgType {
        if self.anchor_due(size) {
            MsgType::AnchorFrame
        } else {
            MsgType::FrameUpdate
        }
    }

    /// What is done with the next frame.
    pub open spec fn plan(
        self,
        size: FrameSize,
        damage: Seq<DamageRect>,
        workers: usize,
    ) -> PlanView {
        PlanView {
            anchor: self.anchor_due(size),
            msg_type: self.next_type(size),
            regions: self.regions(size, damage, workers),
        }
    }

    /// After a capture that overtook others: their damage is lost.
    pub open spec fn captured(self, skipped: nat, dropped: bool) -> LoopState {
        LoopState {
            need_full_damage: self.need_full_damage || skipped > 0 || dropped,
            ..self
        }
    }

    /// After planning: an anchor has a delta base of its own length.
    pub open spec fn planned(self, size: FrameSize, data_len: nat) -> LoopState {
        LoopState {
            previous: if self.anchor_due(size) {
                resized(self.previous, data_len)
            } else {
                self.previous
            },
            ..self
        }
    }

    /// After the frame: the delta base advances only if the frame was sent,
    /// and the next one is sent whole if it was not.
    pub open spec fn finished(self, sent: bool, size: FrameSize, data: Seq<u8>) -> LoopState {
        LoopState {
            previous: if sent {
                data
            } else {
                self.previous
            },
            frame_count: self.frame_count + 1,
            need_full_damage: !sent,
            downscaling: self.downscaling,
            target: self.target,
            asked: self.asked && !sent,
            last_size: if sent || !self.asked || self.last_size is None {
                Some((size.width, size.height))
            } else {
                self.last_size
            },
        }
    }
}

/// What to do with a captured frame.
#[derive(Debug)]
pub struct FramePlan {
    /// Whether it goes out as an anchor: unbounded queue, never dropped.
    pub anchor: bool,
    /// Message type on the wire.
    pub msg_type: MsgType,
    /// Regions to compress.
    pub regions: Vec<DamageRect>,
}

/// What a plan says.
#[verifier::ext_equal]
pub struct PlanView {
    pub anchor: bool,
    pub msg_type: MsgType,
    pub regions: Seq<DamageRect>,
}

impl View for FramePlan {
    type V = PlanView;

    open spec fn view(&self) -> PlanView {
        PlanView { anchor: self.anchor, msg_type: self.msg_type, regions: self.regions@ }
    }
}

/// State of the compress-and-send loop.
pub struct FrameLoop {
    previous_frame: Vec<u8>,
    frame_count: u64,
    need_full_damage: bool,
    do_downscale: bool,
    target: Option<TargetResolutionPayload>,
    asked: bool,
    last_size: Option<(u32, u32)>,
}

impl View for FrameLoop {
    type V = LoopState;

    closed spec fn view(&self) -> LoopState {
        LoopState {
            previous: self.previous_frame@,
            frame_count: self.frame_count as nat,
            need_full_damage: self.need_full_damage,
            downscaling: self.do_downscale,
            target: self.target,
            asked: self.asked,
            last_size: self.last_size,
        }
    }
}

impl FrameLoop {
    /// A loop before its first frame.
    pub fn new(do_downscale: bool) -> (r: FrameLoop)
        ensures
            r@ == LoopState::start(do_downscale),
    {
        FrameLoop {
            previous_frame: Vec::new(),
            frame_count: 0,
            need_full_damage: false,
            do_downscale,
            target: None,
            asked: false,
            last_size: None,
        }
    }

    /// Produce frames of the size that the client asks for from now on. A width
    /// and height of 0 reset to native resolution.
    pub fn request_size(&mut self, request: TargetResolutionPayload)
        ensures
            final(self)@ == old(self)@.requested(request),
    {
        self.target = Some(request);
        self.asked = true;
    }

    /// Size that a frame captured as `native_w × native_h` is sent in;
    /// `scaled_w × scaled_h` is its size where frames are scaled down and the
    /// client asked for none.
    #[must_use]
    pub fn frame_size(
        &self,
        native_w: u32,
        native_h: u32,
        scaled_w: u32,
        scaled_h: u32,
    ) -> (r: FrameSize)
        ensures
            r == self@.frame_size(native_w, native_h, scaled_w, scaled_h),
    {
        match self.target {
            Some(t) => {
                let width: u32 = side(t.width, native_w);
                let height: u32 = side(t.height, native_h);
                FrameSize { width, height, scaled: width != native_w || height != native_h }
            },
            None => if self.do_downscale {
                FrameSize { width: scaled_w, height: scaled_h, scaled: true }
            } else {
                FrameSize { width: native_w, height: native_h, scaled: false }
            },
        }
    }

    /// Record what happened before the frame was picked up: `skipped` newer
    /// captures replaced it in the ring, or the capture thread dropped some.
    /// Their damage regions are lost, so the whole frame must be sent.
    pub fn note_capture(&mut self, skipped: u32, dropped: bool)
        ensures
            final(self)@ == old(self)@.captured(skipped as nat, dropped),
    {
        if skipped > 0 || dropped {
            self.need_full_damage = true;
        }
    }

    /// Decide what to do with a frame of the given size, and make the delta
    /// base of an anchor as long as the frame.
    pub fn plan(
        &mut self,
        size: FrameSize,
        data_len: usize,
        damage: &Vec<DamageRect>,
        workers: usize,
    ) -> (r: FramePlan)
        ensures
            r.anchor == old(self)@.anchor_due(size),
            r.msg_type == old(self)@.next_type(size),
            r.regions@ == old(self)@.regions(size, damage@, workers),
            r@ == old(self)@.plan(size, damage@, workers),
            final(self)@ == old(self)@.planned(size, data_len as nat),
    {
        let same_size = match self.last_size {
            Some((w, h)) => w == size.width && h == size.height,
            None => false,
        };
        let force_anchor = self.frame_count % ANCHOR_INTERVAL == 0 || (self.asked && !same_size);
        let use_full_damage = force_anchor || damage.len() == 0 || self.need_full_damage;
        let regions: Vec<DamageRect> = if use_full_damage || size.scaled {
            damage::stripe_full_frame(size.width, size.height, workers)
        } else {
            let mut out: Vec<DamageRect> = Vec::new();
            let mut i: usize = 0;
            while i < damage.len()
                invariant
                    i <= damage.len(),
                    out@ == damage@.subrange(0, i as int),
                decreases damage.len() - i,
            {
                out.push(damage[i]);
                assert(out@ =~= damage@.subrange(0, i + 1));
                i = i + 1;
            }
            assert(out@ =~= damage@);
            out
        };
        if force_anchor {
            self.previous_frame.resize(data_len, 0);
            assert(self.previous_frame@ =~= resized(old(self)@.previous, data_len as nat));
        }
        FramePlan {
            anchor: force_anchor,
            msg_type: if force_anchor {
                MsgType::AnchorFrame
            } else {
                MsgType::FrameUpdate
            },
            regions,
        }
    }

    /// The frame that the next delta is relative to.
    pub fn previous_frame(&self) -> (r: &[u8])
        ensures
            r@ == self@.previous,
    {
        self.previous_frame.as_slice()
    }

    /// Number of frames handled so far.
    pub fn frame_count(&self) -> (r: u64)
        ensures
            r == self@.frame_count,
    {
        self.frame_count
    }

    /// Record what became of the frame.
    ///
    /// The delta base only advances when the frame actually reaches the
    /// client. Otherwise the server's previous frame diverges from the
    /// client's, causing cumulative artifacts.
    pub fn finish(&mut self, sent: bool, size: FrameSize, data: Vec<u8>)
        requires
            old(self)@.frame_count < u64::MAX,
        ensures
            final(self)@ == old(self)@.finished(sent, size, data@),
    {
        if sent || !self.asked || self.last_size.is_none() {
            self.last_size = Some((size.width, size.height));
        }
        if sent {
            self.previous_frame = data;
            self.asked = false;
        }
        self.need_full_damage = !sent;
        self.frame_count = self.frame_count + 1;
    }
}

/// A frame scaled with the chosen filter.
pub open spec fn scaled_frame(src: Seq<u8>, s: Scaling, filter: DownscaleFilterArg) -> Seq<u8> {
    match filter {
        DownscaleFilterArg::Box => s.boxed(src),
        DownscaleFilterArg::Nearest => downscale::nearest(
            src,
            s.src_w as int,
            s.src_h as int,
            s.src_stride as int,
            s.dst_w as int,
            s.dst_h as int,
        ),
    }
}

/// Scales a captured frame down to `dst_w × dst_h` with the chosen filter.
/// Returns the stride of the result.
pub fn scale_frame(
    src: &[u8],
    s: Scaling,
    filter: DownscaleFilterArg,
    out: &mut Vec<u8>,
) -> (r: u32)
    requires
        s.dst_fits(),
        match filter {
            DownscaleFilterArg::Box => s.box_readable(src@.len() as int),
            DownscaleFilterArg::Nearest => s.nearest_readable(src@.len() as int),
        },
    ensures
        r == s.dst_w * 4,
        final(out)@ == scaled_frame(src@, s, filter),
{
    match filter {
        DownscaleFilterArg::Box => downscale::downscale_box(
            src,
            s.src_w,
            s.src_h,
            s.src_stride,
            s.dst_w,
            s.dst_h,
            out,
        ),
        DownscaleFilterArg::Nearest => downscale::downscale_nearest(
            src,
            s.src_w,
            s.src_h,
            s.src_stride,
            s.dst_w,
            s.dst_h,
            out,
        ),
    }
}

/// The frames that carry a frame payload.
pub open spec fn payload_frames(msg_type: MsgType, bytes: Seq<u8>, timestamp_ns: u64) -> Seq<
    Frame,
> {
    chunk_sender::chunk_frames(
        PRIMARY_STREAM,
        msg_type,
        flags::COMPRESSED,
        bytes,
        timestamp_ns,
        CHUNK_SIZE as nat,
    )
}

/// The wire bytes of a compressed frame.
pub open spec fn packaged(
    msg_type: MsgType,
    width: u32,
    height: u32,
    stride: u32,
    regions: Seq<DamageRect>,
    sizes: Seq<usize>,
    data: Seq<u8>,
    timestamp_ns: u64,
) -> Seq<u8> {
    multiplexer::frames_wire(
        payload_frames(
            msg_type,
            payload::frame_payload(width, height, stride, regions, sizes, data),
            timestamp_ns,
        ),
    )
}

/// The wire bytes of a compressed frame: its payload, cut into chunks.
pub fn package(
    plan: &FramePlan,
    width: u32,
    height: u32,
    stride: u32,
    compressed: &CompressedFrame,
    timestamp_ns: u64,
) -> (r: Vec<u8>)
    requires
        compressed.region_sizes@.len() >= plan.regions@.len(),
    ensures
        r@ == packaged(
            plan.msg_type,
            width,
            height,
            stride,
            plan.regions@,
            compressed.region_sizes@,
            compressed.data@,
            timestamp_ns,
        ),
{
    let bytes = payload::serialize_frame_payload(
        width,
        height,
        stride,
        plan.regions.as_slice(),
        compressed,
    );
    let mut wire: Vec<u8> = Vec::new();
    chunk_sender::split_into_chunks(
        PRIMARY_STREAM,
        plan.msg_type,
        flags::COMPRESSED,
        bytes.as_slice(),
        timestamp_ns,
        CHUNK_SIZE,
        &mut wire,
    );
    assert(Seq::<u8>::empty() + multiplexer::frames_wire(
        payload_frames(plan.msg_type, bytes@, timestamp_ns),
    ) =~= multiplexer::frames_wire(payload_frames(plan.msg_type, bytes@, timestamp_ns)));
    wire
}

/// A packaged frame arrives at the other side as exactly one message on the
/// primary stream, with its payload, its type and its timestamp.
pub proof fn law_packaged_frame_arrives(
    msg_type: MsgType,
    bytes: Seq<u8>,
    timestamp_ns: u64,
)
    ensures
        ({
            let outcome = multiplexer::feed(
                Receiver { buf: Seq::empty(), partial: Map::empty() },
                multiplexer::frames_wire(payload_frames(msg_type, bytes, timestamp_ns)),
            );
            &&& outcome.error is None
            &&& outcome.state == (Receiver { buf: Seq::empty(), partial: Map::empty() })
            &&& outcome.messages.len() == 1
            &&& outcome.messages[0].payload == bytes
            &&& outcome.messages[0].header.stream_id == 1
            &&& outcome.messages[0].header.msg_type == msg_type.spec_code()
            &&& outcome.messages[0].header.timestamp_ns == timestamp_ns
            &&& outcome.messages[0].header.flags == 3
        }),
{
    assert(1u8 | 2u8 == 3u8) by (bit_vector);
    laws::law_split_payload_arrives_whole(
        Map::empty(),
        PRIMARY_STREAM,
        msg_type,
        flags::COMPRESSED,
        bytes,
        timestamp_ns,
        CHUNK_SIZE as nat,
    );
    assert(Map::<u16, Seq<u8>>::empty().remove(PRIMARY_STREAM) =~= Map::<u16, Seq<u8>>::empty());
    assert(Seq::<u8>::empty() + bytes =~= bytes);
}

/// One frame's way through the loop.
pub struct Round {
    /// Size that the client asked for since the last frame, if it did.
    pub request: Option<TargetResolutionPayload>,
    /// Captures overtaken by this one.
    pub skipped: nat,
    /// Whether the capture thread dropped some.
    pub dropped: bool,
    /// Its size.
    pub size: FrameSize,
    /// The frame as it was compressed.
    pub data: Seq<u8>,
    /// Whether it was handed to the transport.
    pub sent: bool,
}

/// State when the frame of a round is planned.
pub open spec fn state_at_plan(before: LoopState, r: Round) -> LoopState {
    match r.request {
        Some(request) => before.requested(request),
        None => before,
    }.captured(r.skipped, r.dropped)
}

/// State after a sequence of rounds.
pub open spec fn state_after(start: LoopState, rounds: Seq<Round>) -> LoopState
    decreases rounds.len(),
{
    if rounds.len() == 0 {
        start
    } else {
        let r = rounds.last();
        state_at_plan(state_after(start, rounds.drop_last()), r).planned(
            r.size,
            r.data.len(),
        ).finished(r.sent, r.size, r.data)
    }
}

/// Whether the client asks for no size in these rounds.
pub open spec fn without_requests(rounds: Seq<Round>) -> bool {
    forall|i: int| 0 <= i < rounds.len() ==> (#[trigger] rounds[i]).request is None
}

/// Anchors come at the start and then every `ANCHOR_INTERVAL` frames, whatever
/// became of the frames between and whatever sizes the client asked for. After
/// the first frame there is always a last size.
pub proof fn law_anchors_are_periodic(downscaling: bool, rounds: Seq<Round>, next: Round)
    ensures
        state_after(LoopState::start(downscaling), rounds).frame_count == rounds.len(),
        rounds.len() % 300 == 0 ==> state_at_plan(
            state_after(LoopState::start(downscaling), rounds),
            next,
        ).anchor_due(next.size),
        state_after(LoopState::start(downscaling), rounds).downscaling == downscaling,
        state_after(LoopState::start(downscaling), rounds).last_size is Some <==> rounds.len() > 0,
    decreases rounds.len(),
{
    if rounds.len() > 0 {
        law_anchors_are_periodic(downscaling, rounds.drop_last(), rounds.last());
    }
}

/// As long as the client asks for no size, there are no other anchors.
pub proof fn law_no_other_anchors_without_requests(
    downscaling: bool,
    rounds: Seq<Round>,
    next: Round,
)
    requires
        without_requests(rounds),
        next.request is None,
    ensures
        state_at_plan(state_after(LoopState::start(downscaling), rounds), next).anchor_due(
            next.size,
        ) <==> rounds.len() % 300 == 0,
        !state_after(LoopState::start(downscaling), rounds).asked,
        state_after(LoopState::start(downscaling), rounds).target is None,
    decreases rounds.len(),
{
    law_anchors_are_periodic(downscaling, rounds, next);
    if rounds.len() > 0 {
        let init = rounds.drop_last();
        assert(without_requests(init)) by {
            assert forall|i: int| 0 <= i < init.len() implies (
            #[trigger] init[i]).request is None by {
                assert(init[i] == rounds[i]);
            }
        }
        assert(rounds.last() == rounds[rounds.len() - 1]);
        law_no_other_anchors_without_requests(downscaling, init, rounds.last());
    }
}

/// A size that the client asks for holds until it asks for another: every frame
/// has it, but for the sides on which it is 0 or more than what was captured.
/// These are as they were captured, so a size of 0 by 0 is native resolution.
pub proof fn law_requested_size_holds(
    before: LoopState,
    request: TargetResolutionPayload,
    rounds: Seq<Round>,
    native_w: u32,
    native_h: u32,
    scaled_w: u32,
    scaled_h: u32,
)
    requires
        without_requests(rounds),
    ensures
        ({
            let size = state_after(before.requested(request), rounds).frame_size(
                native_w,
                native_h,
                scaled_w,
                scaled_h,
            );
            &&& 0 < request.width <= native_w ==> size.width == request.width
            &&& 0 < request.height <= native_h ==> size.height == request.height
            &&& request.width == 0 || native_w < request.width ==> size.width == native_w
            &&& request.height == 0 || native_h < request.height ==> size.height == native_h
            &&& size.scaled <==> size.width != native_w || size.height != native_h
        }),
{
    lemma_target_is_kept(before.requested(request), rounds);
}

proof fn lemma_target_is_kept(start: LoopState, rounds: Seq<Round>)
    requires
        without_requests(rounds),
    ensures
        state_after(start, rounds).target == start.target,
    decreases rounds.len(),
{
    if rounds.len() > 0 {
        let init = rounds.drop_last();
        assert forall|i: int| 0 <= i < init.len() implies (#[trigger] init[i]).request is None by {
            assert(init[i] == rounds[i]);
        }
        assert(rounds.last() == rounds[rounds.len() - 1]);
        lemma_target_is_kept(start, init);
    }
}

/// A new size starts with an anchor: until a frame was sent, frames of another
/// size than the last one before the request are anchors.
pub proof fn law_new_size_starts_with_an_anchor(
    before: LoopState,
    request: TargetResolutionPayload,
    rounds: Seq<Round>,
    next: Round,
)
    requires
        forall|i: int| 0 <= i < rounds.len() ==> !(#[trigger] rounds[i]).sent,
        before.last_size is Some,
        before.last_size != Some((next.size.width, next.size.height)),
    ensures
        state_at_plan(state_after(before.requested(request), rounds), next).anchor_due(next.size),
{
    lemma_waiting(before.requested(request), rounds);
}

/// A request that leaves the size of the frames as it is makes no anchor: frames
/// of the size of the last one before it are anchors only where they would be
/// without it.
pub proof fn law_same_size_makes_no_anchor(
    before: LoopState,
    request: TargetResolutionPayload,
    rounds: Seq<Round>,
    next: Round,
)
    requires
        forall|i: int| 0 <= i < rounds.len() ==> !(#[trigger] rounds[i]).sent,
        before.last_size == Some((next.size.width, next.size.height)),
    ensures
        state_at_plan(state_after(before.requested(request), rounds), next).anchor_due(next.size)
            <==> (before.frame_count + rounds.len()) % 300 == 0,
{
    lemma_waiting(before.requested(request), rounds);
}

proof fn lemma_waiting(start: LoopState, rounds: Seq<Round>)
    requires
        start.asked,
        start.last_size is Some,
        forall|i: int| 0 <= i < rounds.len() ==> !(#[trigger] rounds[i]).sent,
    ensures
        state_after(start, rounds).asked,
        state_after(start, rounds).last_size == start.last_size,
        state_after(start, rounds).frame_count == start.frame_count + rounds.len(),
    decreases rounds.len(),
{
    if rounds.len() > 0 {
        let init = rounds.drop_last();
        assert forall|i: int| 0 <= i < init.len() implies !(#[trigger] init[i]).sent by {
            assert(init[i] == rounds[i]);
        }
        assert(rounds.last() == rounds[rounds.len() - 1]);
        lemma_waiting(start, init);
    }
}

/// Data of the last frame that was sent, if any was.
pub open spec fn last_sent(rounds: Seq<Round>) -> Option<Seq<u8>>
    decreases rounds.len(),
{
    if rounds.len() == 0 {
        None
    } else if rounds.last().sent {
        Some(rounds.last().data)
    } else {
        last_sent(rounds.drop_last())
    }
}

/// Whether the frame of round `i`, if it is an anchor, is as long as the frame
/// that was sent last before it, if one was.
pub open spec fn anchor_keeps_length(start: LoopState, rounds: Seq<Round>, i: int) -> bool {
    let before = rounds.subrange(0, i);
    state_at_plan(state_after(start, before), rounds[i]).anchor_due(rounds[i].size) ==> match last_sent(
        before,
    ) {
        Some(data) => rounds[i].data.len() == data.len(),
        None => true,
    }
}

/// As long as every anchor is as long as the frame sent last before it, the delta
/// base is the last frame that was sent: frames that were dropped leave it alone,
/// and between anchors frames may have any length. Before the first one is sent
/// it is blank.
pub proof fn law_delta_base_is_last_sent(downscaling: bool, rounds: Seq<Round>)
    requires
        forall|i: int|
            0 <= i < rounds.len() ==> #[trigger] anchor_keeps_length(
                LoopState::start(downscaling),
                rounds,
                i,
            ),
    ensures
        ({
            let previous = state_after(LoopState::start(downscaling), rounds).previous;
            match last_sent(rounds) {
                Some(data) => previous == data,
                None => previous == resized(Seq::empty(), previous.len()),
            }
        }),
    decreases rounds.len(),
{
    let start = LoopState::start(downscaling);
    if rounds.len() > 0 {
        let init = rounds.drop_last();
        let n = init.len() as int;
        assert forall|i: int| 0 <= i < n implies #[trigger] anchor_keeps_length(start, init, i) by {
            assert(anchor_keeps_length(start, rounds, i));
            assert(init.subrange(0, i) =~= rounds.subrange(0, i));
            assert(init[i] == rounds[i]);
        }
        law_delta_base_is_last_sent(downscaling, init);
        assert(anchor_keeps_length(start, rounds, n));
        assert(rounds.subrange(0, n) =~= init);
        assert(rounds.last() == rounds[n]);
        let before = state_after(start, init);
        let len = rounds.last().data.len();
        match last_sent(init) {
            Some(data) => {
                if data.len() == len {
                    assert(resized(data, len) =~= data);
                }
            },
            None => {
                assert(resized(before.previous, len) =~= resized(Seq::empty(), len));
            },
        }
    } else {
        assert(resized(Seq::empty(), 0) =~= Seq::<u8>::empty());
    }
}

/// After a frame that was not sent, and whenever captures were lost since the
/// last frame, the next frame covers everything, whatever damage it reports.
pub proof fn law_lost_frames_force_full_damage(
    start: LoopState,
    rounds: Seq<Round>,
    next: Round,
    size: FrameSize,
    damage: Seq<DamageRect>,
    workers: usize,
)
    requires
        next.skipped > 0 || next.dropped || (rounds.len() > 0 && !rounds.last().sent),
    ensures
        ({
            let regions = state_at_plan(state_after(start, rounds), next).regions(
                size,
                damage,
                workers,
            );
            &&& regions == damage::stripes(size.width, size.height, workers)
            &&& forall|px: int, py: int|
                0 <= px < size.width && 0 <= py < size.height ==> #[trigger] damage::covered(
                    regions,
                    px,
                    py,
                )
        }),
{
    lemma_stripes_cover(size, workers);
}

/// Frames that are scaled down are always sent whole: where the server scales
/// frames down and the client asks for no size, and where the client asks for
/// less than what was captured.
pub proof fn law_downscaled_frames_are_whole(
    s: LoopState,
    native_w: u32,
    native_h: u32,
    scaled_w: u32,
    scaled_h: u32,
    damage: Seq<DamageRect>,
    workers: usize,
)
    requires
        match s.target {
            Some(t) => 0 < t.width < native_w || 0 < t.height < native_h,
            None => s.downscaling,
        },
    ensures
        ({
            let size = s.frame_size(native_w, native_h, scaled_w, scaled_h);
            let regions = s.regions(size, damage, workers);
            &&& regions == damage::stripes(size.width, size.height, workers)
            &&& forall|px: int, py: int|
                0 <= px < size.width && 0 <= py < size.height ==> #[trigger] damage::covered(
                    regions,
                    px,
                    py,
                )
        }),
{
    lemma_stripes_cover(s.frame_size(native_w, native_h, scaled_w, scaled_h), workers);
}

proof fn lemma_stripes_cover(size: FrameSize, workers: usize)
    ensures
        forall|px: int, py: int|
            0 <= px < size.width && 0 <= py < size.height ==> #[trigger] damage::covered(
                damage::stripes(size.width, size.height, workers),
                px,
                py,
            ),
{
    assert forall|px: int, py: int|
        0 <= px < size.width && 0 <= py < size.height implies #[trigger] damage::covered(
        damage::stripes(size.width, size.height, workers),
        px,
        py,
    ) by {
        damage::law_stripes_partition_the_frame(size.width, size.height, workers, px, py);
    }
}

/// Whatever the state, no damage is lost: a pixel of the frame that a damage
/// rectangle covers is covered by a region of the plan. A frame is sent whole
/// where it is the first or a later anchor, where its size changes because the
/// client asked for another, where no damage is reported or damage was lost, and
/// where it is scaled. Then each pixel of the frame is in exactly one region, and
/// no region reaches out of it. Otherwise the regions are the damage rectangles,
/// all of them and in order.
pub proof fn law_plan_covers_the_damage(
    s: LoopState,
    size: FrameSize,
    damage: Seq<DamageRect>,
    workers: usize,
    px: int,
    py: int,
)
    ensures
        ({
            let regions = s.regions(size, damage, workers);
            let whole = s.frame_count % 300 == 0 || (s.asked && s.last_size != Some(
                (size.width, size.height),
            )) || damage.len() == 0 || s.need_full_damage || size.scaled;
            let inside = 0 <= px < size.width && 0 <= py < size.height;
            &&& inside && damage::covered(damage, px, py) ==> damage::covered(regions, px, py)
            &&& !whole ==> regions.len() == damage.len() && forall|i: int|
                0 <= i < damage.len() ==> #[trigger] regions[i] == damage[i]
            &&& whole ==> {
                &&& damage::covered(regions, px, py) <==> inside
                &&& forall|i: int, j: int|
                    0 <= i < regions.len() && 0 <= j < regions.len() && (
                    #[trigger] regions[i]).covers(px, py) && (#[trigger] regions[j]).covers(px, py)
                        ==> i == j
            }
        }),
{
    damage::law_stripes_partition_the_frame(size.width, size.height, workers, px, py);
}

/// A whole frame is shared out among the workers: each gets one region, of full
/// width, unless there are fewer rows than workers.
pub proof fn law_whole_frames_are_shared_out(
    s: LoopState,
    size: FrameSize,
    damage: Seq<DamageRect>,
    workers: usize,
    i: int,
)
    requires
        damage.len() == 0 || s.need_full_damage || size.scaled || s.frame_count % 300 == 0,
    ensures
        ({
            let regions = s.regions(size, damage, workers);
            &&& 0 < workers <= size.height ==> regions.len() == workers
            &&& workers == 0 || size.height < workers ==> regions.len() == 1
            &&& 0 <= i < regions.len() ==> regions[i].x == 0 && regions[i].width == size.width
        }),
{
    damage::law_stripes_share_the_rows(size.width, size.height, workers, i);
}

/// As long as frames are sent and none is lost, a frame between two anchors that
/// is not scaled sends its damage and nothing else.
pub proof fn law_undisturbed_frames_send_their_damage(
    start: LoopState,
    rounds: Seq<Round>,
    next: Round,
    size: FrameSize,
    damage: Seq<DamageRect>,
    workers: usize,
)
    requires
        rounds.len() > 0,
        rounds.last().sent,
        next.request is None,
        next.skipped == 0,
        !next.dropped,
        (start.frame_count + rounds.len()) % 300 != 0,
        damage.len() > 0,
        !size.scaled,
    ensures
        ({
            let s = state_at_plan(state_after(start, rounds), next);
            &&& s.regions(size, damage, workers) == damage
            &&& s.next_type(size) == MsgType::FrameUpdate
        }),
{
    lemma_frames_are_counted(start, rounds);
}

proof fn lemma_frames_are_counted(start: LoopState, rounds: Seq<Round>)
    ensures
        state_after(start, rounds).frame_count == start.frame_count + rounds.len(),
    decreases rounds.len(),
{
    if rounds.len() > 0 {
        lemma_frames_are_counted(start, rounds.drop_last());
    }
}

/// A frame is announced as an anchor exactly where it is one. Then the delta base
/// is made as long as the frame, and the bytes that it had are kept as far as
/// they go, with zeros behind them; before any other frame it is left alone.
pub proof fn law_anchors_have_a_base_of_their_length(
    s: LoopState,
    size: FrameSize,
    data_len: nat,
    i: int,
)
    ensures
        ({
            let anchor = s.frame_count % 300 == 0 || (s.asked && s.last_size != Some(
                (size.width, size.height),
            ));
            let base = s.planned(size, data_len).previous;
            &&& s.next_type(size) == if anchor {
                MsgType::AnchorFrame
            } else {
                MsgType::FrameUpdate
            }
            &&& anchor ==> base.len() == data_len
            &&& anchor && 0 <= i < data_len ==> base[i] == if i < s.previous.len() {
                s.previous[i]
            } else {
                0
            }
            &&& !anchor ==> base == s.previous
        }),
{
}

/// Of the frames that are ready, the newest is handled and the others are counted
/// as skipped. The loop ends only where none is ready and none will come; until
/// then it waits.
pub proof fn law_only_stale_frames_are_skipped(drained: u32, feed_finished: bool)
    ensures
        match step_after(drained, feed_finished) {
            LoopStep::Take { skipped } => skipped + 1 == drained,
            LoopStep::Wait { millis } => drained == 0 && !feed_finished && millis == 2,
            LoopStep::End => drained == 0 && feed_finished,
        },
{
}

/// As long as the client asks for no size, frames go out as they were captured,
/// or in the scaled size where the server scales them down.
pub proof fn law_size_without_request(
    downscaling: bool,
    rounds: Seq<Round>,
    native_w: u32,
    native_h: u32,
    scaled_w: u32,
    scaled_h: u32,
)
    requires
        without_requests(rounds),
    ensures
        ({
            let size = state_after(LoopState::start(downscaling), rounds).frame_size(
                native_w,
                native_h,
                scaled_w,
                scaled_h,
            );
            &&& size.width == if downscaling {
                scaled_w
            } else {
                native_w
            }
            &&& size.height == if downscaling {
                scaled_h
            } else {
                native_h
            }
            &&& size.scaled == downscaling
        }),
{
    lemma_target_is_kept(LoopState::start(downscaling), rounds);
    lemma_downscaling_is_kept(LoopState::start(downscaling), rounds);
}

proof fn lemma_downscaling_is_kept(start: LoopState, rounds: Seq<Round>)
    ensures
        state_after(start, rounds).downscaling == start.downscaling,
    decreases rounds.len(),
{
    if rounds.len() > 0 {
        lemma_downscaling_is_kept(start, rounds.drop_last());
    }
}

/// What the other side reads of a packaged frame is what was packaged: the size
/// and the stride, each region with its edges and the length of its blob, and the
/// compressed data.
pub proof fn law_packaged_frame_is_read_back(
    msg_type: MsgType,
    width: u32,
    height: u32,
    stride: u32,
    regions: Seq<DamageRect>,
    sizes: Seq<usize>,
    data: Seq<u8>,
    timestamp_ns: u64,
    i: int,
)
    requires
        0 <= i < regions.len() <= u32::MAX,
    ensures
        ({
            let outcome = multiplexer::feed(
                Receiver { buf: Seq::empty(), partial: Map::empty() },
                packaged(
                    msg_type,
                    width,
                    height,
                    stride,
                    regions,
                    sizes,
                    data,
                    timestamp_ns,
                ),
            );
            let read = outcome.messages[0].payload;
            let meta = FrameMeta::decode(read);
            let region = WireRegion::decode(read.subrange(16 + 20 * i, read.len() as int));
            &&& outcome.error is None
            &&& outcome.messages.len() == 1
            &&& MsgType::spec_decode(outcome.messages[0].header.msg_type) == Ok::<
                MsgType,
                ProtoError,
            >(msg_type)
            &&& outcome.messages[0].header.timestamp_ns == timestamp_ns
            &&& meta.width == width
            &&& meta.height == height
            &&& meta.stride == stride
            &&& meta.num_regions == regions.len()
            &&& region.x == regions[i].x
            &&& region.y == regions[i].y
            &&& region.w == regions[i].width
            &&& region.h == regions[i].height
            &&& sizes[i] <= u32::MAX ==> region.compressed_size == sizes[i]
            &&& read.subrange((16 + 20 * regions.len()) as int, read.len() as int) == data
        }),
{
    law_packaged_frame_arrives(
        msg_type,
        payload::frame_payload(width, height, stride, regions, sizes, data),
        timestamp_ns,
    );
    payload::law_frame_payload_reads_back(width, height, stride, regions, sizes, data, i);
}

/// The chosen filter makes the frame: nearest neighbour takes the source pixel at the
/// corner of each pixel, and the box the mean of those that it covers.
pub proof fn law_chosen_filter_makes_the_frame(
    src: Seq<u8>,
    s: Scaling,
    dx: int,
    dy: int,
    x0: int,
    x1: int,
    y0: int,
    y1: int,
    c: int,
)
    requires
        s.dst_w <= s.src_w,
        s.dst_h <= s.src_h,
        0 <= dx < s.dst_w,
        0 <= dy < s.dst_h,
        0 <= c < 4,
        x0 * s.dst_w <= dx * s.src_w < (x0 + 1) * s.dst_w,
        x1 * s.dst_w <= (dx + 1) * s.src_w < (x1 + 1) * s.dst_w,
        y0 * s.dst_h <= dy * s.src_h < (y0 + 1) * s.dst_h,
        y1 * s.dst_h <= (dy + 1) * s.src_h < (y1 + 1) * s.dst_h,
    ensures
        ({
            let k = (dy * s.dst_w + dx) * 4 + c;
            let near = scaled_frame(src, s, DownscaleFilterArg::Nearest);
            let mean = scaled_frame(src, s, DownscaleFilterArg::Box);
            let n = (x1 - x0) * (y1 - y0);
            let sum = downscale::total(
                downscale::window(src, s.src_stride as int, x0, y0, x1 - x0, y1 - y0, c),
            );
            &&& near.len() == s.dst_w * 4 * s.dst_h
            &&& mean.len() == s.dst_w * 4 * s.dst_h
            &&& near[k] == src[y0 * s.src_stride + x0 * 4 + c]
            &&& mean[k] * n <= sum < (mean[k] + 1) * n
        }),
{
    downscale::law_nearest_takes_the_pixel_at_the_corner(src, s, dx, dy, x0, y0, c);
    downscale::law_box_is_the_mean_of_what_is_covered(src, s, dx, dy, x0, x1, y0, y1, c);
}

/// The size of a frame is remembered where it was sent, and where the client asked for no
/// other: so as long as it asks for none, the last size is that of the last frame.
pub proof fn law_last_size_is_remembered(start: LoopState, downscaling: bool, rounds: Seq<Round>)
    requires
        rounds.len() > 0,
    ensures
        ({
            let size = rounds.last().size;
            &&& rounds.last().sent ==> state_after(start, rounds).last_size == Some(
                (size.width, size.height),
            )
            &&& without_requests(rounds) ==> state_after(
                LoopState::start(downscaling),
                rounds,
            ).last_size == Some((size.width, size.height))
        }),
{
    if without_requests(rounds) {
        let init = rounds.drop_last();
        assert forall|i: int| 0 <= i < init.len() implies (#[trigger] init[i]).request is None by {
            assert(init[i] == rounds[i]);
        }
        assert(rounds.last() == rounds[rounds.len() - 1]);
        law_no_other_anchors_without_requests(downscaling, init, rounds.last());
    }
}

/// Once a frame was sent, an earlier request has no more effect on the anchors: until the
/// client asks again, they come every 300 frames and at no other time.
pub proof fn law_sent_frame_settles_the_size(
    start: LoopState,
    rounds: Seq<Round>,
    later: Seq<Round>,
    next: Round,
)
    requires
        rounds.len() > 0,
        rounds.last().sent,
        without_requests(later),
        next.request is None,
    ensures
        state_at_plan(state_after(state_after(start, rounds), later), next).anchor_due(next.size)
            <==> (start.frame_count + rounds.len() + later.len()) % 300 == 0,
{
    lemma_frames_are_counted(start, rounds);
    lemma_frames_are_counted(state_after(start, rounds), later);
    lemma_not_asked(state_after(start, rounds), later);
}

proof fn lemma_not_asked(start: LoopState, rounds: Seq<Round>)
    requires
        !start.asked,
        without_requests(rounds),
    ensures
        !state_after(start, rounds).asked,
    decreases rounds.len(),
{
    if rounds.len() > 0 {
        let init = rounds.drop_last();
        assert forall|i: int| 0 <= i < init.len() implies (#[trigger] init[i]).request is None by {
            assert(init[i] == rounds[i]);
        }
        assert(rounds.last() == rounds[rounds.len() - 1]);
        lemma_not_asked(start, init);
    }
}

/// A plan holds together: a frame goes out in the queue for anchors exactly where its
/// message says that it is one, an anchor is sent whole, and the regions are those that
/// cover the damage.
pub proof fn law_plan_holds_together(
    s: LoopState,
    size: FrameSize,
    damage: Seq<DamageRect>,
    workers: usize,
    px: int,
    py: int,
)
    ensures
        ({
            let plan = s.plan(size, damage, workers);
            let inside = 0 <= px < size.width && 0 <= py < size.height;
            &&& plan.anchor <==> plan.msg_type == MsgType::AnchorFrame
            &&& !plan.anchor <==> plan.msg_type == MsgType::FrameUpdate
            &&& plan.anchor <==> s.frame_count % 300 == 0 || (s.asked && s.last_size != Some(
                (size.width, size.height),
            ))
            &&& plan.anchor && inside ==> damage::covered(plan.regions, px, py)
            &&& inside && damage::covered(damage, px, py) ==> damage::covered(
                plan.regions,
                px,
                py,
            )
            &&& !plan.anchor && !s.need_full_damage && !size.scaled && damage.len() > 0
                ==> plan.regions == damage
        }),
{
    law_plan_covers_the_damage(s, size, damage, workers, px, py);
}

} // verus!
