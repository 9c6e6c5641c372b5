//! Sliding window of the two most recent frames.

use vstd::prelude::*;

use crate::interpolate::blend::FrameInterpolator;
use crate::interpolate::error::InterpolateError;
use crate::interpolate::frame::{FrameView, GpuFrame};

verus! {

/// What a manager holds besides its backend.
#[verifier::ext_equal]
pub struct Window {
    /// Previous frame.
    pub anchor: Option<FrameView>,
    /// Latest frame.
    pub target: Option<FrameView>,
    /// Real frames received.
    pub frame_count: nat,
    /// Interpolated frames generated.
    pub interpolated_count: nat,
    /// Whether the next frame starts a new scene.
    pub force_reset: bool,
}

impl Window {
    /// Nothing received yet.
    pub open spec fn empty() -> Window {
        Window {
            anchor: None,
            target: None,
            frame_count: 0,
            interpolated_count: 0,
            force_reset: false,
        }
    }

    /// After a real frame: the previous target becomes the anchor, unless a new
    /// scene starts.
    pub open spec fn pushed(self, frame: FrameView) -> Window {
        Window {
            anchor: if self.force_reset {
                None
            } else {
                self.target
            },
            target: Some(frame),
            frame_count: self.frame_count + 1,
            interpolated_count: self.interpolated_count,
            force_reset: false,
        }
    }

    /// After a scene change was announced.
    pub open spec fn reset(self) -> Window {
        Window { force_reset: true, ..self }
    }

    /// Whether there is a pair to interpolate between.
    pub open spec fn has_pair(self) -> bool {
        self.anchor is Some && self.target is Some
    }

    /// The pair to interpolate between: from the first frame to the second.
    pub open spec fn pair(self) -> (FrameView, FrameView) {
        (self.anchor->0, self.target->0)
    }
}

/// View of an optional frame.
pub open spec fn opt_view(f: Option<GpuFrame>) -> Option<FrameView> {
    match f {
        Some(g) => Some(g@),
        None => None,
    }
}

/// A backend's answer as the manager passes it on.
pub open spec fn passed_on(answer: Result<GpuFrame, InterpolateError>) -> Result<
    Option<GpuFrame>,
    InterpolateError,
> {
    match answer {
        Ok(f) => Ok(Some(f)),
        Err(e) => Err(e),
    }
}

/// Manages frame buffering and interpolation between real captured frames.
///
/// Maintains a sliding window of the two most recent frames (anchor and target)
/// and generates interpolated frames between them on demand. Handles anchor
/// frame transitions and error accumulation reset.
pub struct InterpolationManager<B: FrameInterpolator> {
    backend: B,
    /// Previous frame (anchor for interpolation).
    anchor: Option<GpuFrame>,
    /// Latest received frame (target for interpolation).
    target: Option<GpuFrame>,
    /// Number of real frames received.
    frame_count: u64,
    /// Number of interpolated frames generated.
    interpolated_count: u64,
    /// Force anchor reset on next frame (e.g., after scene change).
    force_reset: bool,
}

impl<B: FrameInterpolator> View for InterpolationManager<B> {
    type V = Window;

    closed spec fn view(&self) -> Window {
        Window {
            anchor: opt_view(self.anchor),
            target: opt_view(self.target),
            frame_count: self.frame_count as nat,
            interpolated_count: self.interpolated_count as nat,
            force_reset: self.force_reset,
        }
    }
}

impl<B: FrameInterpolator> InterpolationManager<B> {
    /// The backend that makes the frames.
    pub closed spec fn spec_backend(self) -> B {
        self.backend
    }

    /// Create a new manager with the given interpolation backend.
    #[must_use]
    pub fn new(backend: B) -> (r: InterpolationManager<B>)
        ensures
            r@ == Window::empty(),
            r.spec_backend() == backend,
    {
        InterpolationManager {
            backend,
            anchor: None,
            target: None,
            frame_count: 0,
            interpolated_count: 0,
            force_reset: false,
        }
    }

    /// Push a new real frame into the manager.
    ///
    /// The previous target becomes the anchor, and this frame becomes
    /// the new target. If `force_reset` is set, the anchor is cleared
    /// to avoid interpolating across a scene change.
    pub fn push_frame(&mut self, frame: GpuFrame)
        requires
            old(self)@.frame_count < u64::MAX,
        ensures
            final(self)@ == old(self)@.pushed(frame@),
            final(self).spec_backend() == old(self).spec_backend(),
    {
        if self.force_reset {
            self.anchor = None;
            self.force_reset = false;
        } else {
            self.anchor = self.target.take();
        }
        self.target = Some(frame);
        self.frame_count = self.frame_count + 1;
    }

    /// Generate an interpolated frame at temporal position `t` between
    /// the anchor and target frames.
    ///
    /// Returns `None` if fewer than 2 frames have been pushed (no pair to
    /// interpolate between). Errors of the backend are passed on. Whatever the
    /// backend's own contract says of an interpolation, of what it answers and
    /// of what becomes of the backend, holds of this one.
    pub fn interpolate(&mut self, t: u32) -> (r: Result<Option<GpuFrame>, InterpolateError>)
        requires
            old(self)@.interpolated_count < u64::MAX,
            old(self)@.has_pair() ==> old(self).spec_backend().ready_for(
                old(self)@.pair().0,
                old(self)@.pair().1,
                t,
            ),
        ensures
            !old(self)@.has_pair() ==> r == Ok::<Option<GpuFrame>, InterpolateError>(None),
            !old(self)@.has_pair() ==> *final(self) == *old(self),
            old(self)@.has_pair() ==> match r {
                Ok(Some(f)) => old(self).spec_backend().may_answer(
                    old(self)@.pair().0,
                    old(self)@.pair().1,
                    t,
                    Ok(f),
                ),
                Ok(None) => false,
                Err(e) => old(self).spec_backend().may_answer(
                    old(self)@.pair().0,
                    old(self)@.pair().1,
                    t,
                    Err(e),
                ),
            },
            old(self)@.has_pair() ==> exists|
                backend: &mut B,
                a: &GpuFrame,
                b: &GpuFrame,
                answer: Result<GpuFrame, InterpolateError>,
            |
                {
                    &&& #[trigger] call_ensures(B::interpolate, (backend, a, b, t), answer)
                    &&& *backend == old(self).spec_backend()
                    &&& *final(backend) == final(self).spec_backend()
                    &&& a@ == old(self)@.pair().0
                    &&& b@ == old(self)@.pair().1
                    &&& r == passed_on(answer)
                },
            final(self)@ == (Window {
                interpolated_count: old(self)@.interpolated_count + if r matches Ok(Some(_)) {
                    1nat
                } else {
                    0
                },
                ..old(self)@
            }),
    {
        if let (Some(anchor), Some(target)) = (&self.anchor, &self.target) {
            match self.backend.interpolate(anchor, target, t) {
                Ok(f) => {
                    self.interpolated_count = self.interpolated_count + 1;
                    Ok(Some(f))
                },
                Err(e) => Err(e),
            }
        } else {
            Ok(None)
        }
    }

    /// Check if the manager has a valid frame pair for interpolation.
    #[must_use]
    pub fn can_interpolate(&self) -> (r: bool)
        ensures
            r == self@.has_pair(),
    {
        self.anchor.is_some() && self.target.is_some()
    }

    /// Force an anchor reset on the next `push_frame`.
    ///
    /// Use this after scene changes, seek events, or when the server
    /// sends an anchor/keyframe that breaks continuity with previous frames.
    pub fn reset_anchor(&mut self)
        ensures
            final(self)@ == old(self)@.reset(),
            final(self).spec_backend() == old(self).spec_backend(),
    {
        self.force_reset = true;
    }

    /// Clear all state — both frames and counters.
    pub fn clear(&mut self)
        ensures
            final(self)@ == Window::empty(),
            final(self).spec_backend() == old(self).spec_backend(),
    {
        self.anchor = None;
        self.target = None;
        self.frame_count = 0;
        self.interpolated_count = 0;
        self.force_reset = false;
    }

    /// Number of real frames received.
    #[must_use]
    pub fn frame_count(&self) -> (r: u64)
        ensures
            r == self@.frame_count,
    {
        self.frame_count
    }

    /// Number of interpolated frames generated.
    #[must_use]
    pub fn interpolated_count(&self) -> (r: u64)
        ensures
            r == self@.interpolated_count,
    {
        self.interpolated_count
    }

    /// Name of the active interpolation backend.
    #[must_use]
    pub fn backend_name(&self) -> (r: &'static str)
        ensures
            call_ensures(B::name, (&self.spec_backend(),), r),
    {
        self.backend.name()
    }

    /// Estimated latency of the active backend in milliseconds, as IEEE 754
    /// single-precision bits.
    #[must_use]
    pub fn backend_latency_ms(&self) -> (r: u32)
        ensures
            call_ensures(B::latency_ms, (&self.spec_backend(),), r),
    {
        self.backend.latency_ms()
    }

    /// Timestamp of the anchor frame, if available.
    #[must_use]
    pub fn anchor_timestamp_ns(&self) -> (r: Option<u64>)
        ensures
            r == match self@.anchor {
                Some(f) => Some(f.timestamp_ns),
                None => None,
            },
    {
        match &self.anchor {
            Some(f) => Some(f.timestamp_ns),
            None => None,
        }
    }

    /// Timestamp of the target frame, if available.
    #[must_use]
    pub fn target_timestamp_ns(&self) -> (r: Option<u64>)
        ensures
            r == match self@.target {
                Some(f) => Some(f.timestamp_ns),
                None => None,
            },
    {
        match &self.target {
            Some(f) => Some(f.timestamp_ns),
            None => None,
        }
    }
}

/// One thing that happens to a window.
pub enum WindowEvent {
    /// A real frame arrives.
    Push(FrameView),
    /// A scene change is announced.
    Reset,
}

/// Window after a sequence of events.
pub open spec fn window_after(events: Seq<WindowEvent>) -> Window
    decreases events.len(),
{
    if events.len() == 0 {
        Window::empty()
    } else {
        let before = window_after(events.drop_last());
        match events.last() {
            WindowEvent::Push(f) => before.pushed(f),
            WindowEvent::Reset => before.reset(),
        }
    }
}

/// Two frames in a row are a pair to interpolate between, in the order they
/// came; a scene change between them makes it none.
pub proof fn law_window_is_the_last_two_frames(
    events: Seq<WindowEvent>,
    f: FrameView,
    g: FrameView,
)
    ensures
        ({
            let w = window_after(events.push(WindowEvent::Push(f)).push(WindowEvent::Push(g)));
            w.anchor == Some(f) && w.target == Some(g) && w.has_pair() && w.pair() == (f, g)
        }),
        ({
            let w = window_after(
                events.push(WindowEvent::Push(f)).push(WindowEvent::Reset).push(
                    WindowEvent::Push(g),
                ),
            );
            w.anchor is None && w.target == Some(g) && !w.has_pair()
        }),
{
    let one = events.push(WindowEvent::Push(f));
    let two = one.push(WindowEvent::Push(g));
    let cut = one.push(WindowEvent::Reset);
    let three = cut.push(WindowEvent::Push(g));
    assert(one.drop_last() =~= events);
    assert(two.drop_last() =~= one);
    assert(cut.drop_last() =~= one);
    assert(three.drop_last() =~= cut);
    assert(window_after(one) == window_after(events).pushed(f));
    assert(window_after(two) == window_after(one).pushed(g));
    assert(window_after(cut) == window_after(one).reset());
    assert(window_after(three) == window_after(cut).pushed(g));
}

/// Fewer than two frames are never a pair, and every frame is counted.
pub proof fn law_no_pair_before_the_second_frame(events: Seq<WindowEvent>)
    ensures
        window_after(events).frame_count < 2 ==> !window_after(events).has_pair(),
        window_after(events).frame_count == 0 ==> window_after(events).target is None,
        window_after(events).frame_count <= events.len(),
    decreases events.len(),
{
    if events.len() > 0 {
        law_no_pair_before_the_second_frame(events.drop_last());
    }
}

/// Number of frames that arrive in a sequence of events.
pub open spec fn frames_in(events: Seq<WindowEvent>) -> nat
    decreases events.len(),
{
    if events.len() == 0 {
        0
    } else {
        frames_in(events.drop_last()) + if events.last() is Push {
            1nat
        } else {
            0
        }
    }
}

/// Every frame is counted, none twice, and a scene change is no frame. It concerns only
/// the next frame: the one after that makes a pair with it again. Announcing it leaves
/// the pair that is there.
pub proof fn law_frames_are_counted(events: Seq<WindowEvent>, f: FrameView, g: FrameView)
    ensures
        window_after(events).frame_count == frames_in(events),
        window_after(events).interpolated_count == 0,
        ({
            let w = window_after(events).reset();
            let next = w.pushed(f);
            &&& w.anchor == window_after(events).anchor
            &&& w.target == window_after(events).target
            &&& next.anchor is None
            &&& next.pushed(g).anchor == Some(f)
            &&& next.pushed(g).target == Some(g)
            &&& next.pushed(g).has_pair()
            &&& next.pushed(g).pair() == (f, g)
        }),
    decreases events.len(),
{
    if events.len() > 0 {
        law_frames_are_counted(events.drop_last(), f, g);
    }
}

} // verus!
