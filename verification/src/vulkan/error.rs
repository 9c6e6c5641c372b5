//! Errors of the Vulkan foundation.

use vstd::prelude::*;

verus! {

/// What can go wrong with Vulkan.
#[derive(Debug)]
pub enum VulkanError {
    /// The Vulkan loader could not be opened.
    LoaderFailed(String),
    /// The instance, the device or the command pool could not be created.
    InitFailed(String),
    /// There is no physical device.
    NoDevice,
    /// No queue family has the requested capabilities.
    NoSuitableQueue(String),
    /// A device extension that is needed is missing.
    MissingExtension(String),
    /// A Vulkan call returned an error code.
    Call { what: String, code: String },
    /// A buffer or image could not be allocated, mapped or bound.
    Allocation(String),
}

impl VulkanError {
    /// Text of the error.
    pub open spec fn spec_message(self) -> Seq<char> {
        match self {
            VulkanError::LoaderFailed(what) => "Vulkan loader: "@ + what@,
            VulkanError::InitFailed(what) => "Vulkan init: "@ + what@,
            VulkanError::NoDevice => "no Vulkan-capable physical device"@,
            VulkanError::NoSuitableQueue(what) => "no queue family satisfying request: "@ + what@,
            VulkanError::MissingExtension(what) => "required extension missing: "@ + what@,
            VulkanError::Call { what, code } => "Vulkan call failed: "@ + what@ + " ("@ + code@
                + ")"@,
            VulkanError::Allocation(what) => "memory allocation failed: "@ + what@,
        }
    }

    /// Human-readable message.
    pub fn message(&self) -> (r: String)
        ensures
            r@ == self.spec_message(),
    {
        match self {
            VulkanError::LoaderFailed(what) => prefixed("Vulkan loader: ", what),
            VulkanError::InitFailed(what) => prefixed("Vulkan init: ", what),
            VulkanError::NoDevice => String::from_str("no Vulkan-capable physical device"),
            VulkanError::NoSuitableQueue(what) => prefixed(
                "no queue family satisfying request: ",
                what,
            ),
            VulkanError::MissingExtension(what) => prefixed("required extension missing: ", what),
            VulkanError::Call { what, code } => {
                let mut r = prefixed("Vulkan call failed: ", what);
                r.append(" (");
                r.append(code.as_str());
                r.append(")");
                r
            },
            VulkanError::Allocation(what) => prefixed("memory allocation failed: ", what),
        }
    }

    /// The error of a Vulkan call that returned `code`.
    pub fn call(what: &str, code: &str) -> (r: VulkanError)
        ensures
            r matches VulkanError::Call { what: w, code: c } && w@ == what@ && c@ == code@,
    {
        VulkanError::Call { what: String::from_str(what), code: String::from_str(code) }
    }
}

fn prefixed(prefix: &str, what: &String) -> (r: String)
    ensures
        r@ == prefix@ + what@,
{
    let mut r = String::from_str(prefix);
    r.append(what.as_str());
    r
}

} // verus!
