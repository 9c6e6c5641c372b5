//! Backend detection and enumeration.
//!
//! Defines `BackendKind` variants and `BackendDetector` for choosing among the
//! interpolation backends that are available at runtime.

use vstd::prelude::*;

use crate::interpolate::error::InterpolateError;
use crate::text;

verus! {

/// Available interpolation backend types, ordered by quality.
#[derive(Debug, Clone, Copy, PartialEq, Eq, Structural)]
pub enum BackendKind {
    /// Per-pixel linear blend (CPU, universal fallback).
    LinearBlend,
    /// AMD FSR 2.x temporal interpolation (requires `fsr2` feature + Vulkan).
    Fsr2,
    /// AMD FSR 3 Frame Generation + FSR SDK upscale (requires `fsr3` feature).
    Fsr3,
    /// FSR2 upscaling + RIFE neural interpolation (requires `fsr2-rife` feature).
    Fsr2Rife,
}

impl BackendKind {
    /// The name as a spec.
    pub open spec fn spec_name(self) -> Seq<char> {
        match self {
            BackendKind::LinearBlend => "linear-blend"@,
            BackendKind::Fsr2 => "fsr2"@,
            BackendKind::Fsr3 => "fsr3"@,
            BackendKind::Fsr2Rife => "fsr2-rife"@,
        }
    }

    /// The kind of a name, or the text of the refusal.
    pub open spec fn spec_parse(s: Seq<char>) -> Result<BackendKind, Seq<char>> {
        if s == "linear-blend"@ {
            Ok(BackendKind::LinearBlend)
        } else if s == "fsr2"@ {
            Ok(BackendKind::Fsr2)
        } else if s == "fsr3"@ {
            Ok(BackendKind::Fsr3)
        } else if s == "fsr2-rife"@ {
            Ok(BackendKind::Fsr2Rife)
        } else {
            Err("unknown backend '"@ + s + "'. Available: fsr3, fsr2, fsr2-rife, linear-blend"@)
        }
    }

    /// Human-readable name.
    #[must_use]
    pub fn name(&self) -> (r: &'static str)
        ensures
            r@ == self.spec_name(),
    {
        match self {
            BackendKind::LinearBlend => "linear-blend",
            BackendKind::Fsr2 => "fsr2",
            BackendKind::Fsr3 => "fsr3",
            BackendKind::Fsr2Rife => "fsr2-rife",
        }
    }

    /// The kind of that name. Any other name is refused, with the names there
    /// are.
    pub fn parse(s: &str) -> (r: Result<BackendKind, String>)
        ensures
            match r {
                Ok(kind) => BackendKind::spec_parse(s@) == Ok::<BackendKind, Seq<char>>(kind),
                Err(e) => BackendKind::spec_parse(s@) == Err::<BackendKind, Seq<char>>(e@),
            },
    {
        if text::same(s, "linear-blend") {
            Ok(BackendKind::LinearBlend)
        } else if text::same(s, "fsr2") {
            Ok(BackendKind::Fsr2)
        } else if text::same(s, "fsr3") {
            Ok(BackendKind::Fsr3)
        } else if text::same(s, "fsr2-rife") {
            Ok(BackendKind::Fsr2Rife)
        } else {
            let mut e = String::from_str("unknown backend '");
            e.append(s);
            e.append("'. Available: fsr3, fsr2, fsr2-rife, linear-blend");
            Err(e)
        }
    }
}

impl std::str::FromStr for BackendKind {
    type Err = String;

    fn from_str(s: &str) -> (r: Result<BackendKind, String>)
        ensures
            match r {
                Ok(kind) => BackendKind::spec_parse(s@) == Ok::<BackendKind, Seq<char>>(kind),
                Err(e) => BackendKind::spec_parse(s@) == Err::<BackendKind, Seq<char>>(e@),
            },
    {
        BackendKind::parse(s)
    }
}

/// Which backends this build and this machine offer.
#[derive(Debug, Clone, Copy)]
pub struct Features {
    /// Built with FSR 2.
    pub fsr2: bool,
    /// Built with FSR 3.
    pub fsr3: bool,
    /// Built with FSR 2 and RIFE.
    pub fsr2_rife: bool,
    /// A Vulkan loader with at least one physical device was found.
    pub vulkan: bool,
}

/// What has to be set up to get a backend.
#[derive(Debug, Clone, Copy, PartialEq, Eq, Structural)]
pub enum BackendSetup {
    /// Nothing: the CPU blend.
    LinearBlend,
    /// The FSR 2 pipelines.
    Fsr2,
    /// The FSR 3 frame generation, for these render and display resolutions.
    Fsr3 { render_w: u32, render_h: u32, display_w: u32, display_h: u32 },
    /// The FSR 2 upscaler and the RIFE model.
    Fsr2Rife,
}

impl BackendSetup {
    /// The kind of backend that the setup gives.
    pub open spec fn spec_kind(self) -> BackendKind {
        match self {
            BackendSetup::LinearBlend => BackendKind::LinearBlend,
            BackendSetup::Fsr2 => BackendKind::Fsr2,
            BackendSetup::Fsr3 { .. } => BackendKind::Fsr3,
            BackendSetup::Fsr2Rife => BackendKind::Fsr2Rife,
        }
    }

    /// The kind of backend that the setup gives.
    #[must_use]
    pub fn kind(&self) -> (r: BackendKind)
        ensures
            r == self.spec_kind(),
    {
        match self {
            BackendSetup::LinearBlend => BackendKind::LinearBlend,
            BackendSetup::Fsr2 => BackendKind::Fsr2,
            BackendSetup::Fsr3 { .. } => BackendKind::Fsr3,
            BackendSetup::Fsr2Rife => BackendKind::Fsr2Rife,
        }
    }

    /// Name of the backend that the setup gives.
    #[must_use]
    pub fn name(&self) -> (r: &'static str)
        ensures
            r@ == self.spec_kind().spec_name(),
    {
        self.kind().name()
    }
}

/// Resolution that frame generation renders at by default.
pub const DEFAULT_RENDER_W: u32 = 1280;

/// Resolution that frame generation renders at by default.
pub const DEFAULT_RENDER_H: u32 = 720;

/// Resolution that frame generation displays at by default.
pub const DEFAULT_DISPLAY_W: u32 = 1920;

/// Resolution that frame generation displays at by default.
pub const DEFAULT_DISPLAY_H: u32 = 1080;

/// Whether a kind of backend was built in.
pub open spec fn enabled(kind: BackendKind, features: Features) -> bool {
    match kind {
        BackendKind::LinearBlend => true,
        BackendKind::Fsr2 => features.fsr2,
        BackendKind::Fsr3 => features.fsr3,
        BackendKind::Fsr2Rife => features.fsr2_rife,
    }
}

/// The setup of a kind of backend.
pub open spec fn setup_of(kind: BackendKind) -> BackendSetup {
    match kind {
        BackendKind::LinearBlend => BackendSetup::LinearBlend,
        BackendKind::Fsr2 => BackendSetup::Fsr2,
        BackendKind::Fsr3 => BackendSetup::Fsr3 {
            render_w: DEFAULT_RENDER_W,
            render_h: DEFAULT_RENDER_H,
            display_w: DEFAULT_DISPLAY_W,
            display_h: DEFAULT_DISPLAY_H,
        },
        BackendKind::Fsr2Rife => BackendSetup::Fsr2Rife,
    }
}

/// The backends that are offered, the best first.
pub open spec fn available(features: Features) -> Seq<BackendKind> {
    (if features.fsr3 && features.vulkan {
        seq![BackendKind::Fsr3]
    } else {
        Seq::empty()
    }) + (if features.fsr2 && features.vulkan {
        seq![BackendKind::Fsr2]
    } else {
        Seq::empty()
    }) + seq![BackendKind::LinearBlend]
}

/// Detects available interpolation backends and selects the best one.
pub struct BackendDetector;

impl BackendDetector {
    /// Detect all available backends on this system.
    ///
    /// Returns backends sorted by quality: fsr3 → fsr2, then CPU fallback (linear-blend).
    /// fsr2-rife is not auto-detected.
    #[must_use]
    pub fn detect_available(features: &Features) -> (r: Vec<BackendKind>)
        ensures
            r@ == available(*features),
    {
        let mut backends: Vec<BackendKind> = Vec::new();
        // 1. AMD FSR 3 — Frame Generation + FSR SDK upscale
        if BackendDetector::check_fsr3(features) {
            backends.push(BackendKind::Fsr3);
        }
        // 2. AMD FSR 2 — Vulkan temporal interpolation
        if BackendDetector::check_fsr2(features) {
            backends.push(BackendKind::Fsr2);
        }
        // Last: CPU fallback (always available).
        backends.push(BackendKind::LinearBlend);
        assert(backends@ =~= available(*features));
        backends
    }

    /// Select the best available backend and say how it is set up.
    pub fn select_best(features: &Features) -> (r: Result<BackendSetup, InterpolateError>)
        ensures
            r == Ok::<BackendSetup, InterpolateError>(setup_of(available(*features)[0])),
    {
        let available = BackendDetector::detect_available(features);
        proof {
            law_best_backend_is_enabled(*features);
        }
        BackendDetector::create_backend(available[0], features)
    }

    /// How a specific backend kind is set up. A kind that was not built in is
    /// refused.
    pub fn create_backend(kind: BackendKind, features: &Features) -> (r: Result<
        BackendSetup,
        InterpolateError,
    >)
        ensures
            match r {
                Ok(setup) => enabled(kind, *features) && setup == setup_of(kind),
                Err(e) => !enabled(kind, *features) && (e matches InterpolateError::InitFailed(m)
                    && m@ == kind.spec_name() + " feature not enabled"@),
            },
    {
        match kind {
            BackendKind::LinearBlend => Ok(BackendSetup::LinearBlend),
            BackendKind::Fsr2 if features.fsr2 => Ok(BackendSetup::Fsr2),
            BackendKind::Fsr3 if features.fsr3 => Ok(
                BackendSetup::Fsr3 {
                    render_w: DEFAULT_RENDER_W,
                    render_h: DEFAULT_RENDER_H,
                    display_w: DEFAULT_DISPLAY_W,
                    display_h: DEFAULT_DISPLAY_H,
                },
            ),
            BackendKind::Fsr2Rife if features.fsr2_rife => Ok(BackendSetup::Fsr2Rife),
            _ => {
                let mut m = String::from_str(kind.name());
                m.append(" feature not enabled");
                Err(InterpolateError::InitFailed(m))
            },
        }
    }

    /// What to set up instead when the FSR 3 setup failed with `error`: FSR 2
    /// where it was built in, else nothing.
    pub fn after_fsr3_failure(features: &Features, error: InterpolateError) -> (r: Result<
        BackendSetup,
        InterpolateError,
    >)
        ensures
            r == if features.fsr2 {
                Ok(BackendSetup::Fsr2)
            } else {
                Err(error)
            },
    {
        if features.fsr2 {
            Ok(BackendSetup::Fsr2)
        } else {
            Err(error)
        }
    }

    fn check_fsr3(features: &Features) -> (r: bool)
        ensures
            r == (features.fsr3 && features.vulkan),
    {
        features.fsr3 && features.vulkan
    }

    fn check_fsr2(features: &Features) -> (r: bool)
        ensures
            r == (features.fsr2 && features.vulkan),
    {
        features.fsr2 && features.vulkan
    }
}

/// Every kind is found again by its name, and no two kinds share one.
pub proof fn law_name_is_parsed_back(kind: BackendKind)
    ensures
        BackendKind::spec_parse(kind.spec_name()) == Ok::<BackendKind, Seq<char>>(kind),
{
    reveal_strlit("linear-blend");
    reveal_strlit("fsr2");
    reveal_strlit("fsr3");
    reveal_strlit("fsr2-rife");
    assert("fsr2"@[3] != "fsr3"@[3]);
    assert("fsr2"@.len() == 4 && "fsr3"@.len() == 4);
    assert("fsr2-rife"@.len() == 9 && "linear-blend"@.len() == 12);
}

/// A name is accepted only where it is the name of the kind that it gives.
pub proof fn law_only_names_are_parsed(s: Seq<char>)
    ensures
        BackendKind::spec_parse(s) matches Ok(kind) ==> s == kind.spec_name(),
{
}

/// The CPU fallback is always offered, and last; every backend that is offered
/// was built in, the first one among them, and FSR 2 with RIFE is never offered.
pub proof fn law_best_backend_is_enabled(features: Features)
    ensures
        available(features).len() > 0,
        available(features).last() == BackendKind::LinearBlend,
        enabled(available(features)[0], features),
        forall|i: int|
            0 <= i < available(features).len() ==> enabled(#[trigger] available(features)[i], features)
                && available(features)[i] != BackendKind::Fsr2Rife,
{
}

/// What is offered follows from the build and the machine: FSR 3 and FSR 2 where they
/// were built in and Vulkan is there, FSR 3 before FSR 2, each once, then the CPU blend.
/// So the best is FSR 3 where it can be had, else FSR 2, else the CPU blend.
pub proof fn law_offers_follow_the_features(features: Features, i: int, j: int)
    ensures
        ({
            let a = available(features);
            let fsr3 = features.fsr3 && features.vulkan;
            let fsr2 = features.fsr2 && features.vulkan;
            &&& a.contains(BackendKind::Fsr3) <==> fsr3
            &&& a.contains(BackendKind::Fsr2) <==> fsr2
            &&& a.contains(BackendKind::LinearBlend)
            &&& !a.contains(BackendKind::Fsr2Rife)
            &&& 0 <= i < j < a.len() ==> a[i] != a[j]
            &&& 0 <= i < a.len() && 0 <= j < a.len() && a[i] == BackendKind::Fsr3 && a[j]
                == BackendKind::Fsr2 ==> i < j
            &&& fsr3 ==> a[0] == BackendKind::Fsr3
            &&& !fsr3 && fsr2 ==> a[0] == BackendKind::Fsr2
            &&& !fsr3 && !fsr2 ==> a[0] == BackendKind::LinearBlend
        }),
{
    let a = available(features);
    assert(a.last() == BackendKind::LinearBlend);
    if features.fsr3 && features.vulkan {
        assert(a[0] == BackendKind::Fsr3);
    }
    if features.fsr2 && features.vulkan {
        assert(a[a.len() - 2] == BackendKind::Fsr2);
    }
}

/// The setup of a kind gives a backend of that kind. FSR 3 renders at 720 lines for
/// 1080.
pub proof fn law_setup_gives_the_kind(kind: BackendKind)
    ensures
        setup_of(kind).spec_kind() == kind,
        setup_of(kind) matches BackendSetup::Fsr3 { render_w, render_h, display_w, display_h }
            ==> render_w == 1280 && render_h == 720 && display_w == 1920 && display_h == 1080,
{
}

/// Each kind goes by its own name.
pub proof fn law_kinds_go_by_their_names()
    ensures
        BackendKind::LinearBlend.spec_name() == "linear-blend"@,
        BackendKind::Fsr2.spec_name() == "fsr2"@,
        BackendKind::Fsr3.spec_name() == "fsr3"@,
        BackendKind::Fsr2Rife.spec_name() == "fsr2-rife"@,
{
}

} // verus!
