//! RIFE neural frame interpolation backend.
//!
//! Wraps a RIFE v4.6+ model for high-quality optical-flow frame synthesis.
//! Requires an external inference runtime (ncnn-rs or ONNX Runtime) and
//! a model file on disk.

use vstd::prelude::*;

use crate::interpolate::blend::FrameInterpolator;
use crate::interpolate::error::InterpolateError;
use crate::interpolate::factor;
use crate::interpolate::frame::{FrameView, GpuFrame};
use crate::text;

verus! {

/// What a look at the file system found at the path of a model.
#[derive(Debug)]
pub enum ModelProbe {
    /// Nothing exists there.
    Missing,
    /// Something exists, but its metadata cannot be read, for this reason.
    Unreadable(String),
    /// A file of this many bytes.
    Size(u64),
}

/// A place where a model may be, with what was found there.
#[derive(Debug)]
pub struct ModelCandidate {
    /// Path of the model file.
    pub path: String,
    /// What was found there.
    pub probe: ModelProbe,
}

/// RIFE (Real-Time Intermediate Flow Estimation) neural frame interpolator.
///
/// Uses a pre-trained RIFE model for high-quality optical flow estimation
/// and frame synthesis. Requires an external inference runtime (ncnn or
/// ONNX Runtime) and a model file on disk.
///
/// Expected model path: `$XDG_DATA_HOME/remoteway/models/rife-v4.6.bin`
/// (with corresponding `.param` file for ncnn, or `.onnx` for ONNX Runtime)
#[derive(Debug)]
pub struct RifeInterpolator {
    model_path: String,
}

/// Why a model at `path` cannot be used, if it cannot.
pub open spec fn model_refusal(path: Seq<char>, probe: ModelProbe) -> Option<Seq<char>> {
    match probe {
        ModelProbe::Missing => Some("RIFE model not found: "@ + path),
        ModelProbe::Unreadable(why) => Some("cannot read RIFE model "@ + path + ": "@ + why@),
        ModelProbe::Size(n) => if n == 0 {
            Some("RIFE model is empty: "@ + path)
        } else {
            None
        },
    }
}

/// What is answered for a model at `path`.
pub open spec fn model_answer(
    path: Seq<char>,
    probe: ModelProbe,
    r: Result<RifeInterpolator, InterpolateError>,
) -> bool {
    match model_refusal(path, probe) {
        None => r matches Ok(rife) && rife.spec_path() == path,
        Some(why) => r matches Err(InterpolateError::InitFailed(m)) && m@ == why,
    }
}

/// Index of the first candidate where something exists, or the number of
/// candidates.
pub open spec fn first_existing(candidates: Seq<ModelCandidate>) -> int
    decreases candidates.len(),
{
    if candidates.len() == 0 {
        0
    } else if !(candidates[0].probe is Missing) {
        0
    } else {
        1 + first_existing(candidates.drop_first())
    }
}

/// The paths of the candidates.
pub open spec fn paths(candidates: Seq<ModelCandidate>) -> Seq<Seq<char>> {
    candidates.map_values(|c: ModelCandidate| c.path@)
}

/// What is answered for the candidates.
pub open spec fn default_answer(
    candidates: Seq<ModelCandidate>,
    r: Result<RifeInterpolator, InterpolateError>,
) -> bool {
    let i = first_existing(candidates);
    if i < candidates.len() {
        model_answer(candidates[i].path@, candidates[i].probe, r)
    } else {
        r matches Err(InterpolateError::InitFailed(m)) && m@
            == "RIFE model not found in default locations: "@ + text::joined(
            paths(candidates),
            ", "@,
        )
    }
}

/// `rest` below the directory `base`.
pub open spec fn below(base: Seq<char>, rest: Seq<char>) -> Seq<char> {
    if base.len() == 0 || base.last() == '/' {
        base + rest
    } else {
        base + "/"@ + rest
    }
}

/// Where a model is looked for, given the data directory and the home directory
/// of the user where these are set.
pub open spec fn default_paths(data_home: Option<Seq<char>>, home: Option<Seq<char>>) -> Seq<
    Seq<char>,
> {
    (match data_home {
        Some(d) => seq![below(d, "remoteway/models/rife-v4.6.bin"@)],
        None => Seq::empty(),
    }) + (match home {
        Some(h) => seq![below(h, ".local/share/remoteway/models/rife-v4.6.bin"@)],
        None => Seq::empty(),
    }) + seq!["/usr/share/remoteway/models/rife-v4.6.bin"@]
}

/// View of an optional text.
pub open spec fn opt_text(s: Option<String>) -> Option<Seq<char>> {
    match s {
        Some(t) => Some(t@),
        None => None,
    }
}

fn join(base: &str, rest: &str) -> (r: String)
    ensures
        r@ == below(base@, rest@),
{
    let n: usize = base.unicode_len();
    let mut r = String::from_str(base);
    if n > 0 && base.get_char(n - 1) != '/' {
        r.append("/");
    }
    r.append(rest);
    r
}

/// Return default search paths for the RIFE model file.
pub fn default_model_paths(data_home: &Option<String>, home: &Option<String>) -> (r: Vec<String>)
    ensures
        text::texts(r@) == default_paths(opt_text(*data_home), opt_text(*home)),
{
    let mut paths: Vec<String> = Vec::new();
    if let Some(data_home) = data_home {
        paths.push(join(data_home.as_str(), "remoteway/models/rife-v4.6.bin"));
    }
    if let Some(home) = home {
        paths.push(join(home.as_str(), ".local/share/remoteway/models/rife-v4.6.bin"));
    }
    paths.push(String::from_str("/usr/share/remoteway/models/rife-v4.6.bin"));
    assert(text::texts(paths@) =~= default_paths(opt_text(*data_home), opt_text(*home)));
    paths
}

impl RifeInterpolator {
    /// Path of the model.
    pub closed spec fn spec_path(self) -> Seq<char> {
        self.model_path@
    }

    /// Create a new RIFE interpolator with the given model path.
    ///
    /// `probe` says what is on disk there. Does not load the model until the
    /// first interpolation call.
    ///
    /// # Errors
    ///
    /// Returns [`InterpolateError::InitFailed`] if the model file does not
    /// exist, cannot be read, or is empty.
    pub fn new(model_path: String, probe: &ModelProbe) -> (r: Result<
        RifeInterpolator,
        InterpolateError,
    >)
        ensures
            model_answer(model_path@, *probe, r),
    {
        match probe {
            ModelProbe::Missing => {
                let mut m = String::from_str("RIFE model not found: ");
                m.append(model_path.as_str());
                Err(InterpolateError::InitFailed(m))
            },
            ModelProbe::Unreadable(why) => {
                let mut m = String::from_str("cannot read RIFE model ");
                m.append(model_path.as_str());
                m.append(": ");
                m.append(why.as_str());
                Err(InterpolateError::InitFailed(m))
            },
            ModelProbe::Size(n) => if *n == 0 {
                let mut m = String::from_str("RIFE model is empty: ");
                m.append(model_path.as_str());
                Err(InterpolateError::InitFailed(m))
            } else {
                Ok(RifeInterpolator { model_path })
            },
        }
    }

    /// Try to create a RIFE interpolator from the default model location.
    ///
    /// Takes the first of the candidates where something exists.
    ///
    /// # Errors
    ///
    /// Returns [`InterpolateError::InitFailed`] if no model file is found
    /// in any of the default locations.
    pub fn from_default_path(candidates: &Vec<ModelCandidate>) -> (r: Result<
        RifeInterpolator,
        InterpolateError,
    >)
        ensures
            default_answer(candidates@, r),
    {
        let mut i: usize = 0;
        assert(candidates@.subrange(0, candidates@.len() as int) =~= candidates@);
        while i < candidates.len()
            invariant
                i <= candidates.len(),
                first_existing(candidates@) == i + first_existing(
                    candidates@.subrange(i as int, candidates@.len() as int),
                ),
            decreases candidates.len() - i,
        {
            let ghost rest = candidates@.subrange(i as int, candidates@.len() as int);
            match &candidates[i].probe {
                ModelProbe::Missing => {},
                _ => {
                    return RifeInterpolator::new(
                        String::from_str(candidates[i].path.as_str()),
                        &candidates[i].probe,
                    );
                },
            }
            assert(rest.drop_first() =~= candidates@.subrange(i + 1, candidates@.len() as int));
            i = i + 1;
        }
        let mut m = String::from_str("RIFE model not found in default locations: ");
        let mut names: Vec<String> = Vec::new();
        let mut k: usize = 0;
        while k < candidates.len()
            invariant
                k <= candidates.len(),
                names@.len() == k,
                forall|j: int| 0 <= j < k ==> #[trigger] names@[j]@ == candidates@[j].path@,
            decreases candidates.len() - k,
        {
            names.push(String::from_str(candidates[k].path.as_str()));
            k = k + 1;
        }
        assert(text::texts(names@) =~= paths(candidates@));
        text::push_joined(&mut m, &names, ", ");
        Err(InterpolateError::InitFailed(m))
    }

    /// Get the model file path.
    #[must_use]
    pub fn model_path(&self) -> (r: &String)
        ensures
            r@ == self.spec_path(),
    {
        &self.model_path
    }
}

/// What the RIFE backend answers: without an inference runtime it can only
/// check its input.
pub open spec fn rife_answer(
    path: Seq<char>,
    a: FrameView,
    b: FrameView,
    t: u32,
    r: Result<GpuFrame, InterpolateError>,
) -> bool {
    if !factor::in_unit_range(t) {
        r == Err::<GpuFrame, _>(InterpolateError::InvalidFactor(t))
    } else if !a.same_dimensions(b) {
        r == Err::<GpuFrame, _>(
            InterpolateError::DimensionMismatch(a.width, a.height, b.width, b.height),
        )
    } else {
        r matches Err(InterpolateError::InterpolateFailed(m)) && m@
            == "RIFE inference runtime not linked (model: "@ + path
            + "). Add ncnn-rs or ort dependency to enable neural interpolation."@
    }
}

impl FrameInterpolator for RifeInterpolator {
    open spec fn ready_for(&self, a: FrameView, b: FrameView, t: u32) -> bool {
        true
    }

    open spec fn may_answer(
        &self,
        a: FrameView,
        b: FrameView,
        t: u32,
        r: Result<GpuFrame, InterpolateError>,
    ) -> bool {
        rife_answer(self.spec_path(), a, b, t, r)
    }

    fn interpolate(&mut self, a: &GpuFrame, b: &GpuFrame, t: u32) -> (r: Result<
        GpuFrame,
        InterpolateError,
    >)
        ensures
            final(self).spec_path() == old(self).spec_path(),
    {
        if !factor::is_in_unit_range(t) {
            return Err(InterpolateError::InvalidFactor(t));
        }
        if !a.same_dimensions(b) {
            return Err(
                InterpolateError::DimensionMismatch(a.width, a.height, b.width, b.height),
            );
        }
        // Neural inference is not yet wired up — requires ncnn-rs or ort dependency.
        // When integrated, this would:
        // 1. Convert BGRA frames to RGB float tensors (normalized 0..1)
        // 2. Run RIFE model: input=(frame_a, frame_b, t) → output=interpolated_frame
        // 3. Convert RGB float tensor back to BGRA u8
        let mut m = String::from_str("RIFE inference runtime not linked (model: ");
        m.append(self.model_path.as_str());
        m.append("). Add ncnn-rs or ort dependency to enable neural interpolation.");
        Err(InterpolateError::InterpolateFailed(m))
    }

    /// RIFE v4.6 typically runs at ~5-10ms on modern GPUs via ncnn Vulkan.
    fn latency_ms(&self) -> (r: u32)
        ensures
            r == 0x4100_0000,
    {
        0x4100_0000
    }

    fn name(&self) -> (r: &'static str)
        ensures
            r@ == "rife"@,
    {
        "rife"
    }
}

/// The candidate that is taken is the first one where something exists: nothing
/// exists at any place before it.
pub proof fn law_earlier_places_come_first(candidates: Seq<ModelCandidate>)
    ensures
        0 <= first_existing(candidates) <= candidates.len(),
        first_existing(candidates) < candidates.len() ==> !(candidates[first_existing(
            candidates,
        )].probe is Missing),
        forall|j: int|
            0 <= j < first_existing(candidates) ==> (#[trigger] candidates[j]).probe is Missing,
    decreases candidates.len(),
{
    if candidates.len() > 0 && candidates[0].probe is Missing {
        let rest = candidates.drop_first();
        law_earlier_places_come_first(rest);
        assert forall|j: int| 0 <= j < first_existing(candidates) implies (
        #[trigger] candidates[j]).probe is Missing by {
            if j > 0 {
                assert(candidates[j] == rest[j - 1]);
            }
        }
    }
}

/// A model is looked for in the data directory of the user, then below the home
/// directory, then in that of the system, as far as these are known. Each place is a
/// file below its directory, with exactly one slash between.
pub proof fn law_model_is_looked_for_in_order(
    data_home: Option<Seq<char>>,
    home: Option<Seq<char>>,
    base: Seq<char>,
    rest: Seq<char>,
)
    ensures
        ({
            let p = default_paths(data_home, home);
            let n = p.len() as int;
            &&& n == 1 + (if data_home is Some {
                1int
            } else {
                0
            }) + (if home is Some {
                1int
            } else {
                0
            })
            &&& p[n - 1] == "/usr/share/remoteway/models/rife-v4.6.bin"@
            &&& data_home matches Some(d) ==> p[0] == below(d, "remoteway/models/rife-v4.6.bin"@)
            &&& home matches Some(h) ==> p[n - 2] == below(
                h,
                ".local/share/remoteway/models/rife-v4.6.bin"@,
            )
        }),
        below(base, rest).subrange(0, base.len() as int) == base,
        below(base, rest).subrange(
            below(base, rest).len() - rest.len(),
            below(base, rest).len() as int,
        ) == rest,
        base.len() > 0 && base.last() != '/' ==> below(base, rest).len() == base.len() + 1
            + rest.len() && below(base, rest)[base.len() as int] == '/',
        base.len() == 0 || base.last() == '/' ==> below(base, rest).len() == base.len()
            + rest.len(),
{
    reveal_strlit("/");
    assert(below(base, rest).subrange(0, base.len() as int) =~= base);
    assert(below(base, rest).subrange(
        below(base, rest).len() - rest.len(),
        below(base, rest).len() as int,
    ) =~= rest);
}

/// A model is taken exactly where a file that is not empty can be read.
pub proof fn law_only_usable_models_are_taken(
    path: Seq<char>,
    probe: ModelProbe,
    r: Result<RifeInterpolator, InterpolateError>,
)
    requires
        model_answer(path, probe, r),
    ensures
        r is Ok <==> (probe matches ModelProbe::Size(n) && n > 0),
        r matches Ok(rife) ==> rife.spec_path() == path,
        r matches Err(e) ==> e is InitFailed,
{
}

/// The model that is taken by default is the first that exists. Where that cannot be used,
/// the error is its own, and no later place is tried; where none exists, the error lists
/// the places.
pub proof fn law_first_existing_model_is_taken(
    candidates: Seq<ModelCandidate>,
    r: Result<RifeInterpolator, InterpolateError>,
    i: int,
)
    requires
        default_answer(candidates, r),
        0 <= i < candidates.len(),
        !(candidates[i].probe is Missing),
        forall|j: int| 0 <= j < i ==> (#[trigger] candidates[j]).probe is Missing,
    ensures
        r matches Ok(rife) ==> rife.spec_path() == candidates[i].path@,
        r is Ok <==> (candidates[i].probe matches ModelProbe::Size(n) && n > 0),
{
    law_earlier_places_come_first(candidates);
    let k = first_existing(candidates);
    assert(k == i) by {
        if k < i {
            assert(candidates[k].probe is Missing);
        }
    }
    law_only_usable_models_are_taken(candidates[i].path@, candidates[i].probe, r);
}

/// Without an inference runtime no frame is made: what is wrong with the request is said
/// first, and otherwise that the runtime is missing.
pub proof fn law_no_frame_without_a_runtime(
    path: Seq<char>,
    a: FrameView,
    b: FrameView,
    t: u32,
    r: Result<GpuFrame, InterpolateError>,
)
    requires
        rife_answer(path, a, b, t, r),
    ensures
        r is Err,
        !factor::in_unit_range(t) ==> r == Err::<GpuFrame, _>(InterpolateError::InvalidFactor(t)),
        factor::in_unit_range(t) && (a.width != b.width || a.height != b.height || a.stride
            != b.stride) ==> r == Err::<GpuFrame, _>(
            InterpolateError::DimensionMismatch(a.width, a.height, b.width, b.height),
        ),
        factor::in_unit_range(t) && a.width == b.width && a.height == b.height && a.stride
            == b.stride ==> (r matches Err(InterpolateError::InterpolateFailed(m))
            && text::occurs(m@, path)),
{
    if factor::in_unit_range(t) && a.same_dimensions(b) {
        let m = match r {
            Err(InterpolateError::InterpolateFailed(m)) => m@,
            _ => Seq::empty(),
        };
        let head = "RIFE inference runtime not linked (model: "@;
        let n = head.len() as int;
        assert(m.subrange(n, n + path.len()) =~= path);
    }
}

} // verus!
