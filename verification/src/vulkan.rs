use vstd::prelude::*;

verus! {

/// Texture formats that the renderer hands to the Vulkan side; every other
/// format is `Other`.
#[derive(Debug, Clone, Copy, PartialEq, Eq, Structural)]
pub enum TextureFormat {
    Bgra8UnormSrgb,
    Rgba8UnormSrgb,
    R8Unorm,
    Rgba8Unorm,
    Bgra8Unorm,
    Other,
}

/// The `VkFormat` number of each format that has one.
pub open spec fn vulkan_format_code(format: TextureFormat) -> Option<u32> {
    match format {
        TextureFormat::Bgra8UnormSrgb => Some(50u32),
        TextureFormat::Rgba8UnormSrgb => Some(43u32),
        TextureFormat::R8Unorm => Some(9u32),
        TextureFormat::Rgba8Unorm => Some(37u32),
        TextureFormat::Bgra8Unorm => Some(44u32),
        TextureFormat::Other => None,
    }
}

/// The `VkFormat` of a texture format (`VK_FORMAT_B8G8R8A8_SRGB` is 50, and
/// so on). Any other format is a programming error that the viewer answers
/// with a panic; it is left out here.
pub fn wgpu_format_to_vulkan(format: TextureFormat) -> (code: u32)
    requires
        vulkan_format_code(format) is Some,
    ensures
        vulkan_format_code(format) == Some(code),
{
    match format {
        TextureFormat::Bgra8UnormSrgb => 50,
        TextureFormat::Rgba8UnormSrgb => 43,
        TextureFormat::R8Unorm => 9,
        TextureFormat::Rgba8Unorm => 37,
        TextureFormat::Bgra8Unorm => 44,
        TextureFormat::Other => 0,
    }
}

/// Distinct supported formats get distinct Vulkan formats.
pub proof fn vulkan_format_codes_distinct(a: TextureFormat, b: TextureFormat)
    requires
        vulkan_format_code(a) is Some,
        vulkan_format_code(b) is Some,
        a != b,
    ensures
        vulkan_format_code(a) != vulkan_format_code(b),
{
}

/// Whether a swapchain offering the Vulkan formats `formats` can present
/// images in `format`.
pub fn swapchain_supports_format(formats: &[u32], format: TextureFormat) -> (supported: bool)
    requires
        vulkan_format_code(format) is Some,
    ensures
        supported == formats@.contains(vulkan_format_code(format)->0),
{
    let code = wgpu_format_to_vulkan(format);
    let mut i: usize = 0;
    while i < formats.len()
        invariant
            i <= formats@.len(),
            vulkan_format_code(format) == Some(code),
            forall|j: int| 0 <= j < i ==> formats@[j] != code,
        decreases formats@.len() - i,
    {
        if formats[i] == code {
            assert(formats@[i as int] == code);
            return true;
        }
        i = i + 1;
    }
    false
}

/// No memory type passed both the type filter and the property check.
#[derive(Debug, Clone, Copy, PartialEq, Eq, Structural)]
pub enum MemoryTypeError {
    NoSuitableMemoryType,
}

/// Whether memory type `i` is allowed by `type_filter` (bit `i` set) and has
/// every property flag of `properties`.
pub open spec fn memory_type_suitable(type_filter: u32, properties: u32, flags: Seq<u32>, i: int) -> bool {
    &&& type_filter & (1u32 << (i as u32)) != 0
    &&& flags[i] & properties == properties
}

/// The first memory type, among the first `memory_type_count` whose property
/// flags are `memory_type_flags`, that the type filter allows and that has
/// all the required properties.
///
/// A count above 32 shifts past the width of the filter, or reads past the
/// 32 memory types a device reports, and is left out.
pub fn find_memory_type_index(
    type_filter: u32,
    properties: u32,
    memory_type_count: u32,
    memory_type_flags: &[u32],
) -> (r: Result<u32, MemoryTypeError>)
    requires
        memory_type_count <= 32,
        memory_type_count <= memory_type_flags@.len(),
    ensures
        match r {
            Ok(i) => i < memory_type_count && memory_type_suitable(
                type_filter,
                properties,
                memory_type_flags@,
                i as int,
            ) && forall|j: int|
                0 <= j < i ==> !memory_type_suitable(type_filter, properties, memory_type_flags@, j),
            Err(e) => e == MemoryTypeError::NoSuitableMemoryType && forall|j: int|
                0 <= j < memory_type_count ==> !memory_type_suitable(
                    type_filter,
                    properties,
                    memory_type_flags@,
                    j,
                ),
        },
{
    let mut i: u32 = 0;
    while i < memory_type_count
        invariant
            i <= memory_type_count <= 32,
            memory_type_count <= memory_type_flags@.len(),
            forall|j: int|
                0 <= j < i ==> !memory_type_suitable(type_filter, properties, memory_type_flags@, j),
        decreases memory_type_count - i,
    {
        if (type_filter & (1u32 << i)) != 0 && (memory_type_flags[i as usize] & properties)
            == properties {
            return Ok(i);
        }
        i = i + 1;
    }
    Err(MemoryTypeError::NoSuitableMemoryType)
}

} // verus!
