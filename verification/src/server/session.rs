//! Course of a server session, without the work it asks for.
//!
//! A session is a state machine: it says what to do, is told how it went, and
//! says what to do next, from the client's handshake to the last clean-up.

use vstd::prelude::*;

use crate::proto::header::MsgType;
use crate::text;

verus! {

/// Why a session fails by its own decision.
#[derive(Debug, Clone, Copy, PartialEq, Eq, Structural)]
pub enum SessionError {
    /// The first message was not a handshake; holds its type byte.
    NotHandshake(u8),
    /// The transport closed before a handshake came.
    ClosedBeforeHandshake,
    /// No Wayland compositor was found.
    NoCompositor,
}

impl SessionError {
    /// Text of the error.
    pub open spec fn spec_message(self) -> Seq<char> {
        match self {
            SessionError::NotHandshake(t) => "expected handshake, got msg_type="@ + text::decimal(
                t as nat,
            ),
            SessionError::ClosedBeforeHandshake => "transport closed before handshake"@,
            SessionError::NoCompositor =>
                "WAYLAND_DISPLAY not found: no running Wayland compositor detected"@,
        }
    }

    /// Human-readable message.
    pub fn message(&self) -> (r: String)
        ensures
            r@ == self.spec_message(),
    {
        match *self {
            SessionError::NotHandshake(t) => {
                let mut r = String::from_str("expected handshake, got msg_type=");
                text::push_decimal(&mut r, t as u64);
                r
            },
            SessionError::ClosedBeforeHandshake => String::from_str(
                "transport closed before handshake",
            ),
            SessionError::NoCompositor => String::from_str(
                "WAYLAND_DISPLAY not found: no running Wayland compositor detected",
            ),
        }
    }
}

/// Why streaming ended.
#[derive(Debug, Clone, Copy, PartialEq, Eq, Structural)]
pub enum EndReason {
    /// SIGINT.
    Interrupted,
    /// The transport closed.
    TransportClosed,
    /// The child process exited.
    ChildExited,
}

/// How the work that was asked for went.
#[derive(Debug, Clone, Copy, PartialEq, Eq, Structural)]
pub enum SessionEvent {
    /// The first message from the client, by its type byte, or none.
    Received(Option<u8>),
    /// Whether a Wayland display is available.
    Display(bool),
    /// Whether the existing windows could be listed.
    Toplevels(bool),
    /// Whether the child process started.
    Launched(bool),
    /// Whether the capture backend could be opened.
    Opened(bool),
    /// Whether the worker threads started.
    Spawned(bool),
    /// Streaming ended.
    Ended(EndReason),
    /// The worker threads are done.
    Joined,
    /// The child process is gone.
    Killed,
}

/// What to do next.
#[derive(Debug, Clone, Copy, PartialEq, Eq, Structural)]
pub enum SessionAction {
    /// Make sure that a Wayland display is known.
    EnsureDisplay,
    /// List the windows that exist before the child starts.
    EnumerateToplevels,
    /// Start the command.
    LaunchChild,
    /// Wait for the child's window and capture it.
    OpenChildWindow,
    /// Wait for the window with the given application id and capture it.
    OpenAppWindow,
    /// Capture the output, not a window.
    OpenFullOutput,
    /// Capture what the arguments name: application, output, or default.
    OpenAsAsked,
    /// Start the capture, input and compress threads.
    SpawnThreads,
    /// Stream until a signal, a disconnect, or the child's exit.
    Stream,
    /// Tell the threads to stop and wait for them.
    StopThreads,
    /// Kill the child and wait for it.
    KillChild,
    /// End the session.
    Exit,
    /// End with this error.
    Fail(SessionError),
    /// End with the error that was reported to the session.
    FailAsReported,
}

/// Where a session stands: what it waits to be told.
#[derive(Debug, Clone, Copy, PartialEq, Eq, Structural)]
pub enum Phase {
    /// The client's handshake.
    AwaitHandshake,
    /// The display check.
    CheckDisplay,
    /// The list of windows.
    Snapshot,
    /// The start of the child; `known` tells whether the windows were listed.
    Launching { known: bool },
    /// The child's window.
    OpeningChild,
    /// A capture backend with nothing to fall back to.
    Opening,
    /// The threads.
    Spawning,
    /// The end of streaming.
    Streaming,
    /// The end of the threads.
    Joining,
    /// The end of the child.
    Killing,
    /// Nothing: the session is over.
    Over,
}

/// How a session was started: whether a command is to be launched, and
/// whether a window is to be found by its application id.
#[verifier::ext_equal]
pub struct Setup {
    pub has_command: bool,
    pub has_app_id: bool,
}

/// Whether an event answers what a phase waits for.
pub open spec fn expected(phase: Phase, event: SessionEvent) -> bool {
    match phase {
        Phase::AwaitHandshake => event is Received,
        Phase::CheckDisplay => event is Display,
        Phase::Snapshot => event is Toplevels,
        Phase::Launching { .. } => event is Launched,
        Phase::OpeningChild => event is Opened,
        Phase::Opening => event is Opened,
        Phase::Spawning => event is Spawned,
        Phase::Streaming => event is Ended,
        Phase::Joining => event is Joined,
        Phase::Killing => event is Killed,
        Phase::Over => false,
    }
}

/// The next phase and what to do in it.
pub open spec fn step(setup: Setup, phase: Phase, event: SessionEvent) -> (Phase, SessionAction) {
    let auto_detect_child = setup.has_command && !setup.has_app_id;
    match (phase, event) {
        (Phase::AwaitHandshake, SessionEvent::Received(Some(t))) => if t
            == MsgType::Handshake.spec_code() {
            (Phase::CheckDisplay, SessionAction::EnsureDisplay)
        } else {
            (Phase::Over, SessionAction::Fail(SessionError::NotHandshake(t)))
        },
        (Phase::AwaitHandshake, SessionEvent::Received(None)) => (
            Phase::Over,
            SessionAction::Fail(SessionError::ClosedBeforeHandshake),
        ),
        (Phase::CheckDisplay, SessionEvent::Display(false)) => (
            Phase::Over,
            SessionAction::Fail(SessionError::NoCompositor),
        ),
        (Phase::CheckDisplay, SessionEvent::Display(true)) => if auto_detect_child {
            (Phase::Snapshot, SessionAction::EnumerateToplevels)
        } else if setup.has_command {
            (Phase::Launching { known: false }, SessionAction::LaunchChild)
        } else {
            (Phase::Opening, SessionAction::OpenAsAsked)
        },
        (Phase::Snapshot, SessionEvent::Toplevels(known)) => (
            Phase::Launching { known },
            SessionAction::LaunchChild,
        ),
        (Phase::Launching { known }, SessionEvent::Launched(true)) => if setup.has_app_id {
            (Phase::Opening, SessionAction::OpenAppWindow)
        } else if known {
            (Phase::OpeningChild, SessionAction::OpenChildWindow)
        } else {
            (Phase::Opening, SessionAction::OpenFullOutput)
        },
        (Phase::OpeningChild, SessionEvent::Opened(false)) => (
            Phase::Opening,
            SessionAction::OpenFullOutput,
        ),
        (Phase::OpeningChild, SessionEvent::Opened(true)) => (
            Phase::Spawning,
            SessionAction::SpawnThreads,
        ),
        (Phase::Opening, SessionEvent::Opened(true)) => (
            Phase::Spawning,
            SessionAction::SpawnThreads,
        ),
        (Phase::Spawning, SessionEvent::Spawned(true)) => (
            Phase::Streaming,
            SessionAction::Stream,
        ),
        (Phase::Streaming, _) => (Phase::Joining, SessionAction::StopThreads),
        (Phase::Joining, _) => if setup.has_command {
            (Phase::Killing, SessionAction::KillChild)
        } else {
            (Phase::Over, SessionAction::Exit)
        },
        (Phase::Killing, _) => (Phase::Over, SessionAction::Exit),
        _ => (Phase::Over, SessionAction::FailAsReported),
    }
}

/// A session in progress.
#[derive(Debug)]
pub struct Session {
    has_command: bool,
    has_app_id: bool,
    phase: Phase,
}

impl Session {
    /// How the session was started.
    pub closed spec fn setup(self) -> Setup {
        Setup { has_command: self.has_command, has_app_id: self.has_app_id }
    }

    /// Where the session stands.
    pub closed spec fn phase(self) -> Phase {
        self.phase
    }

    /// A session whose server handshake was sent and that waits for the client's.
    pub fn new(app_id: Option<&str>, command: &[String]) -> (r: Session)
        ensures
            r.setup() == (Setup {
                has_command: command@.len() > 0,
                has_app_id: app_id is Some,
            }),
            r.phase() == Phase::AwaitHandshake,
    {
        Session {
            has_command: command.len() > 0,
            has_app_id: app_id.is_some(),
            phase: Phase::AwaitHandshake,
        }
    }

    /// Tell the session how its last action went; it answers with the next one.
    pub fn advance(&mut self, event: SessionEvent) -> (r: SessionAction)
        requires
            expected(old(self).phase(), event),
        ensures
            final(self).setup() == old(self).setup(),
            (final(self).phase(), r) == step(old(self).setup(), old(self).phase(), event),
    {
        let (phase, action): (Phase, SessionAction) = match (self.phase, event) {
            (Phase::AwaitHandshake, SessionEvent::Received(Some(t))) => if t
                == MsgType::Handshake.code() {
                (Phase::CheckDisplay, SessionAction::EnsureDisplay)
            } else {
                (Phase::Over, SessionAction::Fail(SessionError::NotHandshake(t)))
            },
            (Phase::AwaitHandshake, SessionEvent::Received(None)) => (
                Phase::Over,
                SessionAction::Fail(SessionError::ClosedBeforeHandshake),
            ),
            (Phase::CheckDisplay, SessionEvent::Display(false)) => (
                Phase::Over,
                SessionAction::Fail(SessionError::NoCompositor),
            ),
            (Phase::CheckDisplay, SessionEvent::Display(true)) => if self.has_command
                && !self.has_app_id {
                (Phase::Snapshot, SessionAction::EnumerateToplevels)
            } else if self.has_command {
                (Phase::Launching { known: false }, SessionAction::LaunchChild)
            } else {
                (Phase::Opening, SessionAction::OpenAsAsked)
            },
            (Phase::Snapshot, SessionEvent::Toplevels(known)) => (
                Phase::Launching { known },
                SessionAction::LaunchChild,
            ),
            (Phase::Launching { known }, SessionEvent::Launched(true)) => if self.has_app_id {
                (Phase::Opening, SessionAction::OpenAppWindow)
            } else if known {
                (Phase::OpeningChild, SessionAction::OpenChildWindow)
            } else {
                (Phase::Opening, SessionAction::OpenFullOutput)
            },
            (Phase::OpeningChild, SessionEvent::Opened(false)) => (
                Phase::Opening,
                SessionAction::OpenFullOutput,
            ),
            (Phase::OpeningChild, SessionEvent::Opened(true)) => (
                Phase::Spawning,
                SessionAction::SpawnThreads,
            ),
            (Phase::Opening, SessionEvent::Opened(true)) => (
                Phase::Spawning,
                SessionAction::SpawnThreads,
            ),
            (Phase::Spawning, SessionEvent::Spawned(true)) => (
                Phase::Streaming,
                SessionAction::Stream,
            ),
            (Phase::Streaming, _) => (Phase::Joining, SessionAction::StopThreads),
            (Phase::Joining, _) => if self.has_command {
                (Phase::Killing, SessionAction::KillChild)
            } else {
                (Phase::Over, SessionAction::Exit)
            },
            (Phase::Killing, _) => (Phase::Over, SessionAction::Exit),
            _ => (Phase::Over, SessionAction::FailAsReported),
        };
        self.phase = phase;
        action
    }

    /// Whether the session is over.
    pub fn is_over(&self) -> (r: bool)
        ensures
            r == (self.phase() == Phase::Over),
    {
        match self.phase {
            Phase::Over => true,
            _ => false,
        }
    }
}

/// Phase after a sequence of events, each answering what was waited for.
pub open spec fn phase_after(setup: Setup, events: Seq<SessionEvent>) -> Phase
    decreases events.len(),
{
    if events.len() == 0 {
        Phase::AwaitHandshake
    } else {
        step(setup, phase_after(setup, events.drop_last()), events.last()).0
    }
}

/// What was asked for, in order.
pub open spec fn actions_of(setup: Setup, events: Seq<SessionEvent>) -> Seq<SessionAction>
    decreases events.len(),
{
    if events.len() == 0 {
        Seq::empty()
    } else {
        actions_of(setup, events.drop_last()).push(
            step(setup, phase_after(setup, events.drop_last()), events.last()).1,
        )
    }
}

/// Whether every event answers what was waited for.
pub open spec fn well_told(setup: Setup, events: Seq<SessionEvent>) -> bool
    decreases events.len(),
{
    events.len() == 0 || {
        &&& well_told(setup, events.drop_last())
        &&& expected(phase_after(setup, events.drop_last()), events.last())
    }
}

/// Number of times that an action was asked for.
pub open spec fn times(actions: Seq<SessionAction>, a: SessionAction) -> nat
    decreases actions.len(),
{
    if actions.len() == 0 {
        0
    } else {
        times(actions.drop_last(), a) + if actions.last() == a {
            1nat
        } else {
            0
        }
    }
}

/// How far a session has come: whether the child was launched and the threads
/// were started by the time a phase is reached.
pub open spec fn launched_by(setup: Setup, phase: Phase) -> nat {
    match phase {
        Phase::AwaitHandshake => 0,
        Phase::CheckDisplay => 0,
        Phase::Snapshot => 0,
        _ => if setup.has_command {
            1
        } else {
            0
        },
    }
}

proof fn lemma_counts(setup: Setup, events: Seq<SessionEvent>)
    requires
        well_told(setup, events),
    ensures
        ({
            let phase = phase_after(setup, events);
            let launched = times(actions_of(setup, events), SessionAction::LaunchChild);
            let killed = times(actions_of(setup, events), SessionAction::KillChild);
            &&& launched <= if setup.has_command {
                1nat
            } else {
                0
            }
            &&& phase != Phase::Over ==> launched == launched_by(setup, phase)
            &&& phase != Phase::Killing && phase != Phase::Over ==> killed == 0
            &&& phase == Phase::Killing ==> killed == 1 && setup.has_command
            &&& killed <= launched
            &&& phase is Snapshot ==> setup.has_command && !setup.has_app_id
            &&& phase is Launching ==> setup.has_command
            &&& phase is OpeningChild ==> setup.has_command && !setup.has_app_id
            &&& events.len() > 0 && phase != Phase::AwaitHandshake ==> (events[0]
                == SessionEvent::Received(Some(MsgType::Handshake.spec_code())) || phase
                == Phase::Over)
        }),
    decreases events.len(),
{
    if events.len() > 0 {
        let init = events.drop_last();
        lemma_counts(setup, init);
        let before = phase_after(setup, init);
        let (phase, action) = step(setup, before, events.last());
        let acts = actions_of(setup, events);
        assert(acts.drop_last() =~= actions_of(setup, init));
        assert(acts.last() == action);
        if init.len() > 0 {
            assert(init[0] == events[0]);
        }
    }
}

/// The command is launched at most once, and only if there is one; it is
/// launched before any window is captured and before streaming starts.
pub proof fn law_child_is_launched_once_and_early(setup: Setup, events: Seq<SessionEvent>)
    requires
        well_told(setup, events),
    ensures
        times(actions_of(setup, events), SessionAction::LaunchChild) <= if setup.has_command {
            1nat
        } else {
            0
        },
        (phase_after(setup, events) is Streaming || phase_after(setup, events) is OpeningChild
            || phase_after(setup, events) is Opening) ==> times(
            actions_of(setup, events),
            SessionAction::LaunchChild,
        ) == if setup.has_command {
            1nat
        } else {
            0
        },
{
    lemma_counts(setup, events);
}

/// Nothing happens before the client's handshake: unless that came first, the
/// session never gets past waiting for it, other than to end.
pub proof fn law_handshake_comes_first(setup: Setup, events: Seq<SessionEvent>)
    requires
        well_told(setup, events),
        events.len() > 0,
        events[0] != SessionEvent::Received(Some(MsgType::Handshake.spec_code())),
    ensures
        phase_after(setup, events) == Phase::Over,
        events.len() == 1,
    decreases events.len(),
{
    if events.len() > 1 {
        let init = events.drop_last();
        assert(init[0] == events[0]);
        law_handshake_comes_first(setup, init);
    } else {
        assert(events.drop_last() =~= Seq::<SessionEvent>::empty());
        assert(phase_after(setup, events.drop_last()) == Phase::AwaitHandshake);
        assert(events.last() == events[0]);
        assert(expected(Phase::AwaitHandshake, events[0]));
    }
}

/// Once streaming has ended, whatever the reason, the threads are stopped, and
/// a child that was launched is killed before the session exits.
pub proof fn law_shutdown_is_complete(setup: Setup, reason: EndReason)
    ensures
        step(setup, Phase::Streaming, SessionEvent::Ended(reason)) == (
            Phase::Joining,
            SessionAction::StopThreads,
        ),
        setup.has_command ==> step(setup, Phase::Joining, SessionEvent::Joined) == (
            Phase::Killing,
            SessionAction::KillChild,
        ) && step(setup, Phase::Killing, SessionEvent::Killed) == (
            Phase::Over,
            SessionAction::Exit,
        ),
        !setup.has_command ==> step(setup, Phase::Joining, SessionEvent::Joined) == (
            Phase::Over,
            SessionAction::Exit,
        ),
{
}

/// A child window that cannot be captured is no reason to fail: the whole
/// output is captured instead. Only where there is nothing left to fall back
/// to does the session fail.
pub proof fn law_missing_child_window_falls_back(setup: Setup)
    ensures
        step(setup, Phase::OpeningChild, SessionEvent::Opened(false)) == (
            Phase::Opening,
            SessionAction::OpenFullOutput,
        ),
        step(setup, Phase::Opening, SessionEvent::Opened(false)) == (
            Phase::Over,
            SessionAction::FailAsReported,
        ),
{
}

/// What is known of a session by what it was told last and asked for last.
proof fn lemma_stand(setup: Setup, events: Seq<SessionEvent>)
    requires
        well_told(setup, events),
    ensures
        actions_of(setup, events).len() == events.len(),
        match phase_after(setup, events) {
            Phase::AwaitHandshake => events.len() == 0,
            Phase::Snapshot => setup.has_command && !setup.has_app_id,
            Phase::Launching { known } => {
                &&& setup.has_command
                &&& events.len() > 0
                &&& !setup.has_app_id ==> events.last() == SessionEvent::Toplevels(known)
            },
            Phase::OpeningChild => {
                &&& setup.has_command && !setup.has_app_id
                &&& events.len() > 0
                &&& actions_of(setup, events).last() == SessionAction::OpenChildWindow
            },
            Phase::Opening => {
                &&& events.len() > 0
                &&& actions_of(setup, events).last() == if !setup.has_command {
                    SessionAction::OpenAsAsked
                } else if setup.has_app_id {
                    SessionAction::OpenAppWindow
                } else {
                    SessionAction::OpenFullOutput
                }
            },
            _ => events.len() > 0,
        },
    decreases events.len(),
{
    if events.len() > 0 {
        lemma_stand(setup, events.drop_last());
    }
}

/// The actions and the phases of the beginning of a session are those of the
/// session.
proof fn lemma_beginning(setup: Setup, events: Seq<SessionEvent>, n: int)
    requires
        well_told(setup, events),
        0 <= n <= events.len(),
    ensures
        well_told(setup, events.subrange(0, n)),
        actions_of(setup, events.subrange(0, n)) == actions_of(setup, events).subrange(0, n),
        actions_of(setup, events).len() == events.len(),
    decreases events.len(),
{
    lemma_stand(setup, events);
    if n == events.len() {
        assert(events.subrange(0, n) =~= events);
        assert(actions_of(setup, events).subrange(0, n) =~= actions_of(setup, events));
    } else {
        let init = events.drop_last();
        lemma_beginning(setup, init, n);
        assert(init.subrange(0, n) =~= events.subrange(0, n));
        assert(actions_of(setup, init).subrange(0, n) =~= actions_of(setup, events).subrange(
            0,
            n,
        ));
    }
}

/// What a session asks for follows from what it was told, what it was told just
/// before that, and what it had asked for: a handshake leads to the display
/// check, a display to the child or to a capture as asked, a started child to
/// its window (by its application id where there is one), an open capture to
/// the threads, and those to streaming. What failed ends the session, but for a
/// child window, in whose place the whole output is captured.
pub proof fn law_each_answer_follows_from_what_was_told(
    setup: Setup,
    events: Seq<SessionEvent>,
    i: int,
)
    requires
        well_told(setup, events),
        0 <= i < events.len(),
    ensures
        ({
            let actions = actions_of(setup, events);
            let answer = actions[i];
            &&& actions.len() == events.len()
            &&& match events[i] {
                SessionEvent::Received(Some(t)) => {
                    &&& i == 0
                    &&& t == 4 ==> answer == SessionAction::EnsureDisplay
                    &&& t != 4 ==> answer == SessionAction::Fail(SessionError::NotHandshake(t))
                },
                SessionEvent::Received(None) => i == 0 && answer == SessionAction::Fail(
                    SessionError::ClosedBeforeHandshake,
                ),
                SessionEvent::Display(true) => {
                    &&& !setup.has_command ==> answer == SessionAction::OpenAsAsked
                    &&& setup.has_command && setup.has_app_id ==> answer
                        == SessionAction::LaunchChild
                    &&& setup.has_command && !setup.has_app_id ==> answer
                        == SessionAction::EnumerateToplevels
                },
                SessionEvent::Display(false) => answer == SessionAction::Fail(
                    SessionError::NoCompositor,
                ),
                SessionEvent::Toplevels(_) => answer == SessionAction::LaunchChild,
                SessionEvent::Launched(true) => {
                    &&& setup.has_command
                    &&& setup.has_app_id ==> answer == SessionAction::OpenAppWindow
                    &&& !setup.has_app_id ==> i > 0 && (events[i - 1] == SessionEvent::Toplevels(
                        true,
                    ) && answer == SessionAction::OpenChildWindow || events[i - 1]
                        == SessionEvent::Toplevels(false) && answer
                        == SessionAction::OpenFullOutput)
                },
                SessionEvent::Launched(false) => answer == SessionAction::FailAsReported,
                SessionEvent::Opened(true) => answer == SessionAction::SpawnThreads,
                SessionEvent::Opened(false) => {
                    &&& i > 0
                    &&& actions[i - 1] == SessionAction::OpenChildWindow ==> answer
                        == SessionAction::OpenFullOutput
                    &&& actions[i - 1] != SessionAction::OpenChildWindow ==> answer
                        == SessionAction::FailAsReported
                },
                SessionEvent::Spawned(true) => answer == SessionAction::Stream,
                SessionEvent::Spawned(false) => answer == SessionAction::FailAsReported,
                SessionEvent::Ended(_) => answer == SessionAction::StopThreads,
                SessionEvent::Joined => answer == if setup.has_command {
                    SessionAction::KillChild
                } else {
                    SessionAction::Exit
                },
                SessionEvent::Killed => setup.has_command && answer == SessionAction::Exit,
            }
        }),
{
    let told = events.subrange(0, i + 1);
    let before = events.subrange(0, i);
    lemma_beginning(setup, events, i + 1);
    lemma_beginning(setup, events, i);
    assert(told.drop_last() =~= before);
    assert(told.last() == events[i]);
    lemma_stand(setup, before);
    lemma_counts(setup, before);
    assert(actions_of(setup, told).last() == actions_of(setup, events)[i]);
    if i > 0 {
        assert(before.last() == events[i - 1]);
        assert(actions_of(setup, before).last() == actions_of(setup, events)[i - 1]);
    }
}

/// The capture that is opened is the one that the arguments ask for. Without a
/// command it is what the application id or the output names, and nothing else;
/// with a command and an application id it is the window with that id, and
/// nothing else. The whole output is opened only for a command without an
/// application id, where the windows could not be listed or the child's window
/// could not be captured; the child's window only where they were listed.
pub proof fn law_capture_is_opened_as_asked(setup: Setup, events: Seq<SessionEvent>, i: int)
    requires
        well_told(setup, events),
        0 <= i < events.len(),
    ensures
        match actions_of(setup, events)[i] {
            SessionAction::OpenAsAsked => !setup.has_command,
            SessionAction::OpenAppWindow => setup.has_command && setup.has_app_id,
            SessionAction::OpenChildWindow => {
                &&& setup.has_command && !setup.has_app_id
                &&& i > 0 && events[i - 1] == SessionEvent::Toplevels(true)
            },
            SessionAction::OpenFullOutput => {
                &&& setup.has_command && !setup.has_app_id
                &&& i > 0
                &&& events[i - 1] == SessionEvent::Toplevels(false) || (events[i]
                    == SessionEvent::Opened(false) && actions_of(setup, events)[i - 1]
                    == SessionAction::OpenChildWindow)
            },
            SessionAction::EnumerateToplevels => setup.has_command && !setup.has_app_id,
            SessionAction::LaunchChild => setup.has_command,
            SessionAction::KillChild => setup.has_command,
            _ => true,
        },
{
    law_each_answer_follows_from_what_was_told(setup, events, i);
    if i > 0 {
        law_each_answer_follows_from_what_was_told(setup, events, i - 1);
    }
    let before = events.subrange(0, i);
    lemma_beginning(setup, events, i);
    lemma_beginning(setup, events, i + 1);
    assert(events.subrange(0, i + 1).drop_last() =~= before);
    assert(events.subrange(0, i + 1).last() == events[i]);
    lemma_stand(setup, before);
    lemma_counts(setup, before);
    if i > 0 {
        assert(before.last() == events[i - 1]);
        assert(actions_of(setup, before).last() == actions_of(setup, events)[i - 1]);
    }
}

/// A session ends exactly when it says so: it is over once it has asked to exit
/// or to fail, and not before, and then it is told nothing more.
pub proof fn law_session_ends_when_it_says_so(setup: Setup, events: Seq<SessionEvent>, i: int)
    requires
        well_told(setup, events),
        0 <= i < events.len(),
    ensures
        ({
            let answer = actions_of(setup, events)[i];
            let ends = answer is Exit || answer is Fail || answer is FailAsReported;
            &&& ends ==> i == events.len() - 1 && phase_after(setup, events) == Phase::Over
            &&& i == events.len() - 1 && !ends ==> phase_after(setup, events) != Phase::Over
        }),
{
    let told = events.subrange(0, i + 1);
    lemma_beginning(setup, events, i + 1);
    assert(actions_of(setup, told).last() == actions_of(setup, events)[i]);
    if i == events.len() - 1 {
        assert(told =~= events);
    } else {
        let more = events.subrange(0, i + 2);
        lemma_beginning(setup, events, i + 2);
        assert(more.drop_last() =~= told);
    }
}

/// The message for a session that starts with something else than a handshake ends with
/// the type byte that came, in decimal.
pub proof fn law_message_names_the_type(t: u8)
    ensures
        ({
            let m = SessionError::NotHandshake(t).spec_message();
            let head = "expected handshake, got msg_type="@;
            let n = head.len() as int;
            &&& m.subrange(0, n) == head
            &&& text::number(m.subrange(n, m.len() as int)) == t
        }),
{
    let m = SessionError::NotHandshake(t).spec_message();
    let head = "expected handshake, got msg_type="@;
    let n = head.len() as int;
    text::law_decimal_stands_for_the_number(t as nat, 0);
    assert(m.subrange(0, n) =~= head);
    assert(m.subrange(n, m.len() as int) =~= text::decimal(t as nat));
}

} // verus!
