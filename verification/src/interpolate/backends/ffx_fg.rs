//! Data of AMD `FidelityFX` Frame Generation (`ffxFrameInterpolation*`).

use vstd::prelude::*;

use crate::interpolate::error::InterpolateError;
use crate::text;

verus! {

/// `FidelityFX` error code of a success.
pub const FFX_OK: i32 = 0;

pub const FFX_RESOURCE_TYPE_BUFFER: u32 = 0;

pub const FFX_RESOURCE_TYPE_TEXTURE1D: u32 = 1;

pub const FFX_RESOURCE_TYPE_TEXTURE2D: u32 = 2;

pub const FFX_SURFACE_FORMAT_R8G8B8A8_UNORM: u32 = 10;

pub const FFX_SURFACE_FORMAT_R16G16B16A16_FLOAT: u32 = 4;

pub const FFX_SURFACE_FORMAT_R32G32B32A32_FLOAT: u32 = 3;

pub const FFX_SURFACE_FORMAT_R32_FLOAT: u32 = 28;

pub const FFX_SURFACE_FORMAT_R16G16_FLOAT: u32 = 18;

pub const FFX_SURFACE_FORMAT_R8_UNORM: u32 = 25;

pub const FFX_RESOURCE_FLAGS_NONE: u32 = 0;

pub const FFX_RESOURCE_FLAGS_ALIASABLE: u32 = 1;

pub const FFX_RESOURCE_USAGE_READ_ONLY: u32 = 0;

pub const FFX_RESOURCE_USAGE_RENDERTARGET: u32 = 1;

pub const FFX_RESOURCE_USAGE_UAV: u32 = 2;

pub const FFX_RESOURCE_STATE_UNORDERED_ACCESS: u32 = 2;

pub const FFX_RESOURCE_STATE_COMPUTE_READ: u32 = 4;

pub const FFX_RESOURCE_STATE_PIXEL_COMPUTE_READ: u32 = 12;

pub const FFX_RESOURCE_STATE_COPY_SRC: u32 = 16;

pub const FFX_RESOURCE_STATE_COPY_DEST: u32 = 32;

pub const FFX_RESOURCE_STATE_GENERIC_READ: u32 = 20;

pub const FFX_BACKBUFFER_TRANSFER_FUNCTION_SRGB: u32 = 0;

pub const FFX_BACKBUFFER_TRANSFER_FUNCTION_PQ: u32 = 1;

pub const FFX_FRAMEINTERPOLATION_ENABLE_DEPTH_INVERTED: u32 = 1;

pub const FFX_FRAMEINTERPOLATION_ENABLE_DEPTH_INFINITE: u32 = 2;

pub const FFX_FRAMEINTERPOLATION_ENABLE_HDR_COLOR_INPUT: u32 = 4;

pub const FFX_FRAMEINTERPOLATION_ENABLE_JITTER_MOTION_VECTORS: u32 = 8;

pub const FFX_FRAMEINTERPOLATION_ENABLE_DISPLAY_RESOLUTION_MOTION_VECTORS: u32 = 16;

pub const FFX_FRAMEINTERPOLATION_DISPATCH_DRAW_DEBUG_TEAR_LINES: u32 = 1;

pub const FFX_FRAMEINTERPOLATION_DISPATCH_DRAW_DEBUG_VIEW: u32 = 4;

#[derive(Debug, Copy, Clone, PartialEq, Eq, Structural)]
pub struct FfxDimensions2D {
    pub width: u32,
    pub height: u32,
}

#[derive(Debug, Copy, Clone, PartialEq, Eq, Structural)]
pub struct FfxRect2D {
    pub left: i32,
    pub top: i32,
    pub width: i32,
    pub height: i32,
}

#[derive(Debug, Copy, Clone, PartialEq, Eq, Structural)]
pub struct FfxEffectMemoryUsage {
    pub total_usage_in_bytes: u64,
    pub aliasable_usage_in_bytes: u64,
}

impl Default for FfxDimensions2D {
    fn default() -> (r: FfxDimensions2D)
        ensures
            r == (FfxDimensions2D { width: 0, height: 0 }),
    {
        FfxDimensions2D { width: 0, height: 0 }
    }
}

impl Default for FfxRect2D {
    fn default() -> (r: FfxRect2D)
        ensures
            r == (FfxRect2D { left: 0, top: 0, width: 0, height: 0 }),
    {
        FfxRect2D { left: 0, top: 0, width: 0, height: 0 }
    }
}

impl Default for FfxEffectMemoryUsage {
    fn default() -> (r: FfxEffectMemoryUsage)
        ensures
            r == (FfxEffectMemoryUsage { total_usage_in_bytes: 0, aliasable_usage_in_bytes: 0 }),
    {
        FfxEffectMemoryUsage { total_usage_in_bytes: 0, aliasable_usage_in_bytes: 0 }
    }
}

/// Description of a resource.
#[derive(Debug, Copy, Clone, PartialEq, Eq, Structural)]
pub struct FfxResourceDescription {
    pub type_: u32,
    pub format: u32,
    pub width: u32,
    pub height: u32,
    pub depth: u32,
    pub mip_count: u32,
    pub flags: u32,
    pub usage: u32,
}

impl Default for FfxResourceDescription {
    fn default() -> (r: FfxResourceDescription)
        ensures
            r == (FfxResourceDescription {
                type_: FFX_RESOURCE_TYPE_TEXTURE2D,
                format: 0,
                width: 0,
                height: 0,
                depth: 1,
                mip_count: 1,
                flags: FFX_RESOURCE_FLAGS_NONE,
                usage: FFX_RESOURCE_USAGE_READ_ONLY,
            }),
    {
        FfxResourceDescription {
            type_: FFX_RESOURCE_TYPE_TEXTURE2D,
            format: 0,
            width: 0,
            height: 0,
            depth: 1,
            mip_count: 1,
            flags: FFX_RESOURCE_FLAGS_NONE,
            usage: FFX_RESOURCE_USAGE_READ_ONLY,
        }
    }
}

/// A 2D texture of one layer and one mip level, with a usage.
pub open spec fn texture_of(format: u32, width: u32, height: u32, usage: u32) -> FfxResourceDescription {
    FfxResourceDescription {
        type_: FFX_RESOURCE_TYPE_TEXTURE2D,
        format,
        width,
        height,
        depth: 1,
        mip_count: 1,
        flags: FFX_RESOURCE_FLAGS_NONE,
        usage,
    }
}

impl FfxResourceDescription {
    /// Description of a Vulkan image that shaders write and that is drawn to.
    #[must_use]
    pub fn render_target(format: u32, width: u32, height: u32) -> (r: FfxResourceDescription)
        ensures
            r == texture_of(format, width, height, 3),
    {
        assert(2u32 | 1u32 == 3u32) by (bit_vector);
        FfxResourceDescription {
            type_: FFX_RESOURCE_TYPE_TEXTURE2D,
            format,
            width,
            height,
            depth: 1,
            mip_count: 1,
            flags: FFX_RESOURCE_FLAGS_NONE,
            usage: FFX_RESOURCE_USAGE_UAV | FFX_RESOURCE_USAGE_RENDERTARGET,
        }
    }

    /// Description of a Vulkan image that shaders read and write.
    #[must_use]
    pub fn texture(format: u32, width: u32, height: u32) -> (r: FfxResourceDescription)
        ensures
            r == texture_of(format, width, height, FFX_RESOURCE_USAGE_UAV),
    {
        FfxResourceDescription {
            type_: FFX_RESOURCE_TYPE_TEXTURE2D,
            format,
            width,
            height,
            depth: 1,
            mip_count: 1,
            flags: FFX_RESOURCE_FLAGS_NONE,
            usage: FFX_RESOURCE_USAGE_UAV,
        }
    }

    /// Description of a buffer of `elements` numbers that shaders read and write.
    #[must_use]
    pub fn buffer(elements: u32) -> (r: FfxResourceDescription)
        ensures
            r == (FfxResourceDescription {
                type_: FFX_RESOURCE_TYPE_BUFFER,
                format: 0,
                width: elements,
                height: 1,
                depth: 1,
                mip_count: 1,
                flags: FFX_RESOURCE_FLAGS_NONE,
                usage: FFX_RESOURCE_USAGE_UAV,
            }),
    {
        FfxResourceDescription {
            type_: FFX_RESOURCE_TYPE_BUFFER,
            format: 0,
            width: elements,
            height: 1,
            depth: 1,
            mip_count: 1,
            flags: FFX_RESOURCE_FLAGS_NONE,
            usage: FFX_RESOURCE_USAGE_UAV,
        }
    }
}

/// A resource as it is handed to the SDK: its description and its state.
#[derive(Debug, Copy, Clone, PartialEq, Eq, Structural)]
pub struct FfxResourceUse {
    pub description: FfxResourceDescription,
    pub state: u32,
}

/// Bytes of the function table of the Vulkan backend, which the SDK fills in.
pub const FFX_INTERFACE_SIZE: usize = 2048;

/// Function table of the Vulkan backend.
pub struct FfxInterface {
    opaque: [u8; 2048],
}

impl FfxInterface {
    /// The bytes of the table.
    pub closed spec fn spec_bytes(self) -> Seq<u8> {
        self.opaque@
    }

    /// The bytes of the table.
    #[must_use]
    pub fn bytes(&self) -> (r: &[u8; 2048])
        ensures
            r@ == self.spec_bytes(),
    {
        &self.opaque
    }
}

impl Default for FfxInterface {
    fn default() -> (r: FfxInterface)
        ensures
            r.spec_bytes() == Seq::new(2048, |i: int| 0u8),
    {
        let r = FfxInterface { opaque: [0u8; 2048] };
        assert(r.spec_bytes() =~= Seq::new(2048, |i: int| 0u8));
        r
    }
}

/// Description of a frame generation context.
pub struct FfxFrameInterpolationContextDescription {
    pub flags: u32,
    pub max_render_size: FfxDimensions2D,
    pub display_size: FfxDimensions2D,
    pub backend_interface: FfxInterface,
    pub back_buffer_format: u32,
    pub previous_interpolation_source_format: u32,
}

/// Descriptions of the resources that the passes of frame generation share.
#[derive(Debug, Clone, Copy)]
pub struct FfxFrameInterpolationSharedResourceDescriptions {
    pub dilated_depth: FfxResourceDescription,
    pub dilated_motion_vectors: FfxResourceDescription,
    pub reconstructed_prev_nearest_depth: FfxResourceDescription,
}

/// A call of the SDK that can fail.
#[derive(Debug, Clone, Copy, PartialEq, Eq, Structural)]
pub enum FfxCall {
    GetInterface,
    CreateContext,
    SharedDescriptions,
    Prepare,
    Dispatch,
}

impl FfxCall {
    /// Name of the function.
    pub open spec fn spec_name(self) -> Seq<char> {
        match self {
            FfxCall::GetInterface => "ffxGetInterfaceVK"@,
            FfxCall::CreateContext => "ffxFrameInterpolationContextCreate"@,
            FfxCall::SharedDescriptions => "ffxFrameInterpolationGetSharedResourceDescriptions"@,
            FfxCall::Prepare => "ffxFrameInterpolationPrepare"@,
            FfxCall::Dispatch => "ffxFrameInterpolationDispatch"@,
        }
    }

    /// Whether the call belongs to the setup.
    pub open spec fn in_setup(self) -> bool {
        self != FfxCall::Prepare && self != FfxCall::Dispatch
    }
}

/// What a failed call reports and releases.
#[derive(Debug)]
pub struct FfxFailure {
    /// The error to report.
    pub error: InterpolateError,
    /// Whether the frame generation context is destroyed.
    pub destroy_context: bool,
    /// Whether the command buffer that is being recorded is ended and freed.
    pub free_commands: bool,
}

/// Text of a failed call.
pub open spec fn call_message(call: FfxCall, code: i32) -> Seq<char> {
    call.spec_name() + " failed: "@ + text::signed_decimal(code as int)
}

/// What to report and release after a call that returned `code`; nothing where it
/// succeeded.
#[must_use]
pub fn check_call(call: FfxCall, code: i32) -> (r: Option<FfxFailure>)
    ensures
        code == FFX_OK <==> r is None,
        r matches Some(f) ==> {
            &&& if call.in_setup() {
                f.error matches InterpolateError::InitFailed(m) && m@ == call_message(call, code)
            } else {
                f.error matches InterpolateError::InterpolateFailed(m) && m@ == call_message(
                    call,
                    code,
                )
            }
            &&& f.destroy_context == (call == FfxCall::SharedDescriptions)
            &&& f.free_commands == !call.in_setup()
        },
{
    if code == FFX_OK {
        return None;
    }
    let name: &str = match call {
        FfxCall::GetInterface => "ffxGetInterfaceVK",
        FfxCall::CreateContext => "ffxFrameInterpolationContextCreate",
        FfxCall::SharedDescriptions => "ffxFrameInterpolationGetSharedResourceDescriptions",
        FfxCall::Prepare => "ffxFrameInterpolationPrepare",
        FfxCall::Dispatch => "ffxFrameInterpolationDispatch",
    };
    let mut m = String::from_str(name);
    m.append(" failed: ");
    text::push_signed(&mut m, code);
    let setup: bool = call != FfxCall::Prepare && call != FfxCall::Dispatch;
    Some(
        FfxFailure {
            error: if setup {
                InterpolateError::InitFailed(m)
            } else {
                InterpolateError::InterpolateFailed(m)
            },
            destroy_context: call == FfxCall::SharedDescriptions,
            free_commands: !setup,
        },
    )
}

} // verus!
