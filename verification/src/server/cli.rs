//! Choices that the command line offers.

use vstd::prelude::*;

verus! {

/// Capture backend to use.
#[derive(Clone, Copy, Debug, PartialEq, Eq, Structural)]
pub enum CaptureBackendArg {
    /// Auto-detect best available (ext-image-capture → wlr-screencopy → portal)
    Auto,
    /// wlr-screencopy-unstable-v1 (Hyprland, Sway, wlroots)
    WlrScreencopy,
    /// ext-image-capture-source-v1 (modern Wayland protocol)
    ExtImageCapture,
    /// xdg-desktop-portal Screencast over `PipeWire` via `GStreamer` (GNOME, KDE).
    Portal,
}

/// Algorithm that the compress pipeline runs.
#[derive(Clone, Copy, Debug, PartialEq, Eq, Structural)]
pub enum CompressorKind {
    /// Raw bytes.
    Raw,
    /// LZ4 blocks.
    Lz4,
    /// Zstandard.
    Zstd,
}

/// Compression algorithm.
#[derive(Clone, Copy, Debug, PartialEq, Eq, Structural)]
pub enum CompressArg {
    /// No compression — frames go on the wire as raw bytes. Use on
    /// loopback / fast LAN where LZ4/zstd CPU cost dominates over
    /// bandwidth savings, or to profile whether compression is the
    /// pipeline bottleneck.
    Raw,
    /// Fast LZ4 block compression (default).
    Lz4,
    /// Higher-ratio zstd compression.
    Zstd,
}

impl CompressArg {
    /// Algorithm of a choice.
    pub open spec fn spec_kind(self) -> CompressorKind {
        match self {
            CompressArg::Raw => CompressorKind::Raw,
            CompressArg::Lz4 => CompressorKind::Lz4,
            CompressArg::Zstd => CompressorKind::Zstd,
        }
    }

    /// Project to the runtime [`CompressorKind`] used by the compress
    /// pipeline. Server and client must agree on the same kind via
    /// matching `--compress` flags — there's no in-band negotiation
    /// of the per-region payload format.
    pub fn to_kind(&self) -> (r: CompressorKind)
        ensures
            r == self.spec_kind(),
    {
        match self {
            CompressArg::Raw => CompressorKind::Raw,
            CompressArg::Lz4 => CompressorKind::Lz4,
            CompressArg::Zstd => CompressorKind::Zstd,
        }
    }
}

/// Filter of the server-side downscale.
#[derive(Clone, Copy, Debug, PartialEq, Eq, Structural)]
pub enum DownscaleFilterArg {
    /// Area-weighted average over the source rectangle each destination pixel
    /// covers (proper box filter). Preserves anti-aliasing, hides text strokes
    /// less, and feeds a clean image to the client-side upscaler. The right
    /// default for almost all use cases.
    Box,
    /// Nearest-neighbor: pick a single source pixel per destination pixel.
    /// Cheapest CPU cost but causes severe aliasing — only useful on very
    /// constrained hosts where the box filter cannot keep up with the frame
    /// rate.
    Nearest,
}

} // verus!
