//! Choice of the capture backend, and how long to wait for it.

use vstd::prelude::*;

use crate::server::cli::CaptureBackendArg;
use crate::text;

verus! {

/// Errors of screen capture.
#[derive(Debug)]
pub enum CaptureError {
    /// No capture protocol is available.
    NoBackend,
    /// The capture session was closed.
    SessionEnded,
    /// There is no output of this name.
    OutputNotFound(String),
    /// Capturing failed for now.
    CaptureFailed(String),
    /// Another error of the capture backend, in its own words.
    Reported {
        /// What it says.
        text: String,
        /// Whether it says that trying again can help.
        retriable: bool,
    },
}

impl CaptureError {
    /// Whether trying again can help.
    pub open spec fn spec_is_retriable(self) -> bool {
        match self {
            CaptureError::CaptureFailed(_) => true,
            CaptureError::Reported { retriable, .. } => retriable,
            _ => false,
        }
    }

    /// Whether trying again can help.
    pub fn is_retriable(&self) -> (r: bool)
        ensures
            r == self.spec_is_retriable(),
    {
        match self {
            CaptureError::CaptureFailed(_) => true,
            CaptureError::Reported { retriable, .. } => *retriable,
            _ => false,
        }
    }

    /// Text of the error.
    pub open spec fn spec_message(self) -> Seq<char> {
        match self {
            CaptureError::NoBackend => "no suitable capture protocol"@,
            CaptureError::SessionEnded => "capture session ended"@,
            CaptureError::OutputNotFound(name) => "output not found: "@ + name@,
            CaptureError::CaptureFailed(what) => "capture failed: "@ + what@,
            CaptureError::Reported { text, .. } => text@,
        }
    }

    /// Human-readable message.
    pub fn message(&self) -> (r: String)
        ensures
            r@ == self.spec_message(),
    {
        match self {
            CaptureError::NoBackend => String::from_str("no suitable capture protocol"),
            CaptureError::SessionEnded => String::from_str("capture session ended"),
            CaptureError::OutputNotFound(name) => {
                let mut r = String::from_str("output not found: ");
                r.append(name.as_str());
                r
            },
            CaptureError::CaptureFailed(what) => {
                let mut r = String::from_str("capture failed: ");
                r.append(what.as_str());
                r
            },
            CaptureError::Reported { text, .. } => String::from_str(text.as_str()),
        }
    }
}

/// Which backend to open.
#[derive(Debug)]
pub enum CaptureRequest {
    /// Detect a backend that captures the window of an application.
    Toplevel { app_id: String },
    /// Detect a backend that captures a window other than the known ones.
    NewToplevel { known: Vec<String> },
    /// Open the portal; `window` tells whether a window is wanted.
    Portal { window: bool },
    /// Detect the best backend for an output (the default one if unnamed).
    Detect { output: Option<String> },
    /// Open wlr-screencopy on an output.
    WlrScreencopy { output: Option<String> },
    /// Open ext-image-capture on an output.
    ExtImageCapture { output: Option<String> },
}

/// The characters of an optional text.
pub open spec fn opt_text(s: Option<String>) -> Option<Seq<char>> {
    match s {
        Some(t) => Some(t@),
        None => None,
    }
}

/// The characters of an optional text.
pub open spec fn opt_str(s: Option<&str>) -> Option<Seq<char>> {
    match s {
        Some(t) => Some(t@),
        None => None,
    }
}

fn owned(s: Option<&str>) -> (r: Option<String>)
    ensures
        opt_text(r) == opt_str(s),
{
    match s {
        Some(t) => Some(String::from_str(t)),
        None => None,
    }
}

impl CaptureRequest {
    /// What is reported when the backend cannot be opened.
    pub open spec fn spec_context(self) -> Seq<char> {
        match self {
            CaptureRequest::Toplevel { app_id } => "failed to capture toplevel '"@ + app_id@
                + "'"@,
            CaptureRequest::NewToplevel { known } => "failed to detect child window"@,
            CaptureRequest::Portal { window: true } =>
                "failed to create portal capture backend (window)"@,
            CaptureRequest::Portal { window: false } => "failed to create portal capture backend"@,
            CaptureRequest::Detect { output } => "failed to detect capture backend"@,
            CaptureRequest::WlrScreencopy { output } => "failed to create wlr-screencopy backend"@,
            CaptureRequest::ExtImageCapture { output } =>
                "failed to create ext-image-capture backend"@,
        }
    }

    /// What to report when the backend cannot be opened.
    pub fn context(&self) -> (r: String)
        ensures
            r@ == self.spec_context(),
    {
        match self {
            CaptureRequest::Toplevel { app_id } => {
                let mut r = String::from_str("failed to capture toplevel '");
                r.append(app_id.as_str());
                r.append("'");
                r
            },
            CaptureRequest::NewToplevel { known: _ } => String::from_str(
                "failed to detect child window",
            ),
            CaptureRequest::Portal { window } => if *window {
                String::from_str("failed to create portal capture backend (window)")
            } else {
                String::from_str("failed to create portal capture backend")
            },
            CaptureRequest::Detect { output: _ } => String::from_str(
                "failed to detect capture backend",
            ),
            CaptureRequest::WlrScreencopy { output: _ } => String::from_str(
                "failed to create wlr-screencopy backend",
            ),
            CaptureRequest::ExtImageCapture { output: _ } => String::from_str(
                "failed to create ext-image-capture backend",
            ),
        }
    }
}

/// Why no backend can be opened at all.
#[derive(Debug, Clone, Copy, PartialEq, Eq, Structural)]
pub enum CaptureRefusal {
    /// `--app-id` together with wlr-screencopy.
    AppIdNeedsWindowCapture,
    /// A child window together with wlr-screencopy.
    ChildNeedsWindowCapture,
}

impl CaptureRefusal {
    /// Text of the refusal.
    pub open spec fn spec_message(self) -> Seq<char> {
        match self {
            CaptureRefusal::AppIdNeedsWindowCapture =>
                "--app-id requires ext-image-capture or portal backend; wlr-screencopy does not support per-window capture"@,
            CaptureRefusal::ChildNeedsWindowCapture =>
                "per-window capture requires ext-image-capture or portal backend; wlr-screencopy does not support it"@,
        }
    }

    /// Human-readable message.
    pub fn message(&self) -> (r: String)
        ensures
            r@ == self.spec_message(),
    {
        match self {
            CaptureRefusal::AppIdNeedsWindowCapture => String::from_str(
                "--app-id requires ext-image-capture or portal backend; wlr-screencopy does not support per-window capture",
            ),
            CaptureRefusal::ChildNeedsWindowCapture => String::from_str(
                "per-window capture requires ext-image-capture or portal backend; wlr-screencopy does not support it",
            ),
        }
    }
}

/// Whether a decision is the one for these arguments.
pub open spec fn fits_arguments(
    capture_arg: CaptureBackendArg,
    output: Option<Seq<char>>,
    app_id: Option<Seq<char>>,
    r: Result<CaptureRequest, CaptureRefusal>,
) -> bool {
    match (app_id, capture_arg) {
        (Some(_), CaptureBackendArg::WlrScreencopy) => r == Err::<CaptureRequest, _>(
            CaptureRefusal::AppIdNeedsWindowCapture,
        ),
        (Some(_), CaptureBackendArg::Portal) => r == Ok::<_, CaptureRefusal>(
            CaptureRequest::Portal { window: true },
        ),
        (Some(id), _) => r matches Ok(CaptureRequest::Toplevel { app_id }) && app_id@ == id,
        (None, CaptureBackendArg::Auto) => r matches Ok(CaptureRequest::Detect { output: o })
            && opt_text(o) == output,
        (None, CaptureBackendArg::WlrScreencopy) => r matches Ok(
            CaptureRequest::WlrScreencopy { output: o },
        ) && opt_text(o) == output,
        (None, CaptureBackendArg::ExtImageCapture) => r matches Ok(
            CaptureRequest::ExtImageCapture { output: o },
        ) && opt_text(o) == output,
        (None, CaptureBackendArg::Portal) => r == Ok::<_, CaptureRefusal>(
            CaptureRequest::Portal { window: false },
        ),
    }
}

/// Decide which capture backend to open, based on CLI args.
///
/// With `app_id` a window is captured, which wlr-screencopy cannot do;
/// without it an output is.
pub fn create_capture_backend(
    capture_arg: &CaptureBackendArg,
    output: Option<&str>,
    app_id: Option<&str>,
) -> (r: Result<CaptureRequest, CaptureRefusal>)
    ensures
        fits_arguments(*capture_arg, opt_str(output), opt_str(app_id), r),
{
    if let Some(id) = app_id {
        return match capture_arg {
            CaptureBackendArg::WlrScreencopy => Err(CaptureRefusal::AppIdNeedsWindowCapture),
            CaptureBackendArg::Portal => Ok(CaptureRequest::Portal { window: true }),
            CaptureBackendArg::Auto | CaptureBackendArg::ExtImageCapture => Ok(
                CaptureRequest::Toplevel { app_id: String::from_str(id) },
            ),
        };
    }
    match capture_arg {
        CaptureBackendArg::Auto => Ok(CaptureRequest::Detect { output: owned(output) }),
        CaptureBackendArg::WlrScreencopy => Ok(
            CaptureRequest::WlrScreencopy { output: owned(output) },
        ),
        CaptureBackendArg::ExtImageCapture => Ok(
            CaptureRequest::ExtImageCapture { output: owned(output) },
        ),
        CaptureBackendArg::Portal => Ok(CaptureRequest::Portal { window: false }),
    }
}

/// Whether a decision is the one for a child that was started where the windows
/// `known` existed.
pub open spec fn fits_child(
    capture_arg: CaptureBackendArg,
    known: Seq<Seq<char>>,
    r: Result<CaptureRequest, CaptureRefusal>,
) -> bool {
    match capture_arg {
        CaptureBackendArg::WlrScreencopy => r == Err::<CaptureRequest, _>(
            CaptureRefusal::ChildNeedsWindowCapture,
        ),
        CaptureBackendArg::Portal => r == Ok::<_, CaptureRefusal>(
            CaptureRequest::Portal { window: true },
        ),
        _ => r matches Ok(CaptureRequest::NewToplevel { known: k }) && text::texts(k@) == known,
    }
}

/// Decide which capture backend to open for a just-spawned child process.
///
/// The child's window is the first one not among `known_identifiers`.
pub fn create_capture_backend_for_child(
    capture_arg: &CaptureBackendArg,
    known_identifiers: &[String],
) -> (r: Result<CaptureRequest, CaptureRefusal>)
    ensures
        fits_child(*capture_arg, text::texts(known_identifiers@), r),
{
    match capture_arg {
        CaptureBackendArg::WlrScreencopy => Err(CaptureRefusal::ChildNeedsWindowCapture),
        CaptureBackendArg::Portal => Ok(CaptureRequest::Portal { window: true }),
        CaptureBackendArg::Auto | CaptureBackendArg::ExtImageCapture => {
            let mut known: Vec<String> = Vec::new();
            let mut i: usize = 0;
            while i < known_identifiers.len()
                invariant
                    i <= known_identifiers@.len(),
                    known@.len() == i,
                    forall|j: int| 0 <= j < i ==> known@[j]@ == known_identifiers@[j]@,
                decreases known_identifiers.len() - i,
            {
                known.push(String::from_str(known_identifiers[i].as_str()));
                i = i + 1;
            }
            assert(text::texts(known@) =~= text::texts(known_identifiers@));
            Ok(CaptureRequest::NewToplevel { known })
        },
    }
}

/// Why an attempt to open a backend failed.
#[derive(Debug)]
pub enum AttemptError {
    /// Capture said so.
    Capture(CaptureError),
    /// Something else did; the text says what.
    Other(String),
}

impl AttemptError {
    /// Whether trying again is pointless: only what capture itself calls final.
    pub open spec fn spec_is_permanent(self) -> bool {
        self matches AttemptError::Capture(e) && !e.spec_is_retriable()
    }

    /// Whether trying again is pointless.
    pub fn is_permanent(&self) -> (r: bool)
        ensures
            r == self.spec_is_permanent(),
    {
        match self {
            AttemptError::Capture(e) => !e.is_retriable(),
            AttemptError::Other(_) => false,
        }
    }
}

/// What to do after a failed attempt.
#[derive(Debug, Clone, Copy, PartialEq, Eq, Structural)]
pub enum RetryStep {
    /// Report the error as it is.
    GiveUp,
    /// Report the error, in the context of [`not_found_context`].
    Exhausted,
    /// Wait one interval and try again; `announce` asks for a log line first.
    Wait { announce: bool },
}

/// What to do after attempt number `attempt` of `max_retries` failed.
pub open spec fn retry_step(attempt: u32, max_retries: u32, permanent: bool) -> RetryStep {
    if permanent {
        RetryStep::GiveUp
    } else if attempt == max_retries {
        RetryStep::Exhausted
    } else {
        RetryStep::Wait { announce: attempt % 10 == 0 }
    }
}

/// How often a capture backend is tried before the window counts as missing.
pub const MAX_RETRIES: u32 = 50;

/// Time between two attempts, in milliseconds.
pub const RETRY_INTERVAL_MS: u64 = 100;

/// Progress of a retry loop.
#[derive(Debug, Clone, Copy)]
pub struct Retry {
    attempt: u32,
    max_retries: u32,
}

impl Retry {
    /// Attempts that have failed so far.
    pub closed spec fn failed(self) -> u32 {
        self.attempt
    }

    /// Number of attempts allowed.
    pub closed spec fn limit(self) -> u32 {
        self.max_retries
    }

    /// A loop of at most `max_retries` attempts.
    pub fn new(max_retries: u32) -> (r: Retry)
        requires
            max_retries > 0,
        ensures
            r.failed() == 0,
            r.limit() == max_retries,
    {
        Retry { attempt: 0, max_retries }
    }

    /// Record a failed attempt and decide how to go on. Permanent failures
    /// (missing protocol) end the loop at once.
    pub fn on_failure(&mut self, error: &AttemptError) -> (r: RetryStep)
        requires
            old(self).failed() < old(self).limit(),
        ensures
            final(self).failed() == old(self).failed() + 1,
            final(self).limit() == old(self).limit(),
            r == retry_step(final(self).failed(), old(self).limit(), error.spec_is_permanent()),
            r is Wait ==> final(self).failed() < final(self).limit(),
    {
        self.attempt = self.attempt + 1;
        if error.is_permanent() {
            return RetryStep::GiveUp;
        }
        if self.attempt == self.max_retries {
            return RetryStep::Exhausted;
        }
        RetryStep::Wait { announce: self.attempt % 10 == 0 }
    }
}

/// Context of the error once all attempts are used up.
pub fn not_found_context(what: &str) -> (r: String)
    ensures
        r@ == what@ + " not found after 5 s"@,
{
    let mut r = String::from_str(what);
    r.append(" not found after 5 s");
    r
}

/// Number of attempts that a loop makes when attempt `i` fails permanently
/// exactly if `permanent[i]`, and none succeeds.
pub open spec fn attempts_made(permanent: Seq<bool>, max_retries: u32, done: nat) -> nat
    decreases max_retries - done,
{
    if done >= max_retries {
        done
    } else if retry_step((done + 1) as u32, max_retries, permanent[done as int]) is Wait {
        attempts_made(permanent, max_retries, done + 1)
    } else {
        done + 1
    }
}

/// A loop whose attempts all fail makes all of them, unless one fails
/// permanently: that one is the last.
pub proof fn law_retry_ends_at_first_permanent_failure(
    permanent: Seq<bool>,
    max_retries: u32,
    done: nat,
)
    requires
        done < max_retries,
        permanent.len() == max_retries,
    ensures
        ({
            let n = attempts_made(permanent, max_retries, done);
            &&& done < n <= max_retries
            &&& forall|i: int| done <= i < n - 1 ==> !#[trigger] permanent[i]
            &&& n < max_retries ==> permanent[n - 1]
        }),
    decreases max_retries - done,
{
    if retry_step((done + 1) as u32, max_retries, permanent[done as int]) is Wait {
        if done + 1 < max_retries {
            law_retry_ends_at_first_permanent_failure(permanent, max_retries, done + 1);
        }
    }
}

/// Whether the child's window is detected, and whether it is found by its
/// application id.
pub open spec fn capture_mode(has_app_id: bool, has_command: bool) -> (bool, bool) {
    (!has_app_id && has_command, has_app_id && has_command)
}

/// Determine capture mode from CLI arguments.
///
/// Returns `(auto_detect_child, explicit_app_id_launch)`:
/// - `auto_detect_child`: command present, no `--app-id` -> auto-detect child window via toplevel diff.
/// - `explicit_app_id_launch`: command present + `--app-id` -> launch child, find by `app_id`.
/// - Both `false`: no command -> capture by `--app-id`, `--output`, or default output.
pub fn determine_capture_mode(app_id: Option<&str>, command: &[String]) -> (r: (bool, bool))
    ensures
        r == capture_mode(app_id is Some, command@.len() > 0),
{
    let has_command = command.len() > 0;
    let auto_detect_child = app_id.is_none() && has_command;
    let explicit_app_id_launch = app_id.is_some() && has_command;
    (auto_detect_child, explicit_app_id_launch)
}

/// Whether a request is for a window, not for an output.
pub open spec fn captures_window(request: CaptureRequest) -> bool {
    match request {
        CaptureRequest::Toplevel { .. } => true,
        CaptureRequest::NewToplevel { .. } => true,
        CaptureRequest::Portal { window } => window,
        _ => false,
    }
}

/// The capture that is decided on is the one that the arguments name. A window is
/// captured exactly where an application id is given, and by that id unless the user
/// picks the window in the portal. Only wlr-screencopy, which has no windows, is
/// refused then. An output is named as it was given. The backend is the one that was
/// chosen; where none was, it is detected.
pub proof fn law_capture_is_as_asked(
    capture_arg: CaptureBackendArg,
    output: Option<Seq<char>>,
    app_id: Option<Seq<char>>,
    r: Result<CaptureRequest, CaptureRefusal>,
)
    requires
        fits_arguments(capture_arg, output, app_id, r),
    ensures
        r is Err <==> app_id is Some && capture_arg == CaptureBackendArg::WlrScreencopy,
        r matches Err(e) ==> e == CaptureRefusal::AppIdNeedsWindowCapture,
        r matches Ok(request) ==> {
            &&& captures_window(request) <==> app_id is Some
            &&& request is Portal <==> capture_arg == CaptureBackendArg::Portal
            &&& request is WlrScreencopy <==> capture_arg == CaptureBackendArg::WlrScreencopy
            &&& request is ExtImageCapture ==> capture_arg == CaptureBackendArg::ExtImageCapture
            &&& request is Detect ==> capture_arg == CaptureBackendArg::Auto
            &&& match request {
                CaptureRequest::Toplevel { app_id: id } => app_id == Some(id@),
                CaptureRequest::NewToplevel { .. } => false,
                CaptureRequest::Portal { .. } => true,
                CaptureRequest::Detect { output: o } => output == opt_text(o),
                CaptureRequest::WlrScreencopy { output: o } => output == opt_text(o),
                CaptureRequest::ExtImageCapture { output: o } => output == opt_text(o),
            }
        },
{
}

/// For a child a window is captured, never an output: one that is none of the known
/// ones, unless the user picks it in the portal. Only wlr-screencopy is refused.
pub proof fn law_child_capture_is_of_a_new_window(
    capture_arg: CaptureBackendArg,
    known: Seq<Seq<char>>,
    r: Result<CaptureRequest, CaptureRefusal>,
)
    requires
        fits_child(capture_arg, known, r),
    ensures
        r is Err <==> capture_arg == CaptureBackendArg::WlrScreencopy,
        r matches Err(e) ==> e == CaptureRefusal::ChildNeedsWindowCapture,
        r matches Ok(request) ==> {
            &&& captures_window(request)
            &&& request is Portal <==> capture_arg == CaptureBackendArg::Portal
            &&& !(request is Portal) ==> (request matches CaptureRequest::NewToplevel { known: k }
                && text::texts(k@) == known)
        },
{
}

/// A child's window is looked for only where there is a child: it is detected where
/// no application id is given and found by the id where one is, never both.
pub proof fn law_capture_modes_exclude_each_other(has_app_id: bool, has_command: bool)
    ensures
        ({
            let (detect, by_id) = capture_mode(has_app_id, has_command);
            &&& !(detect && by_id)
            &&& (detect || by_id) <==> has_command
            &&& by_id ==> has_app_id
            &&& detect ==> !has_app_id
        }),
{
}

/// A failed attempt ends the loop where it is final or the last one allowed, and
/// only then; a final one is reported as it is. Every tenth wait is announced. All
/// waits together make up the five seconds that the message names.
pub proof fn law_retry_waits_between_attempts(attempt: u32, max_retries: u32, error: AttemptError)
    ensures
        ({
            let last = error matches AttemptError::Capture(e) && match e {
                CaptureError::CaptureFailed(_) => false,
                CaptureError::Reported { retriable, .. } => !retriable,
                _ => true,
            };
            match retry_step(attempt, max_retries, error.spec_is_permanent()) {
                RetryStep::GiveUp => last,
                RetryStep::Exhausted => !last && attempt == max_retries,
                RetryStep::Wait { announce } => {
                    &&& !last && attempt != max_retries
                    &&& announce <==> attempt % 10 == 0
                },
            }
        }),
        MAX_RETRIES * RETRY_INTERVAL_MS == 5000,
{
}

} // verus!
