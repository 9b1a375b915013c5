use wgpu_3d_viewer::vulkan::{
    find_memory_type_index, swapchain_supports_format, wgpu_format_to_vulkan, MemoryTypeError,
    TextureFormat,
};

#[test]
fn test_vulkan_format_conversion() {
    assert_eq!(wgpu_format_to_vulkan(TextureFormat::Bgra8UnormSrgb), 50);
    assert_eq!(wgpu_format_to_vulkan(TextureFormat::Rgba8UnormSrgb), 43);
    assert_eq!(wgpu_format_to_vulkan(TextureFormat::R8Unorm), 9);
    assert_eq!(wgpu_format_to_vulkan(TextureFormat::Rgba8Unorm), 37);
    assert_eq!(wgpu_format_to_vulkan(TextureFormat::Bgra8Unorm), 44);
}

#[test]
fn vulkan_format_codes_are_distinct() {
    let formats = [
        TextureFormat::Bgra8UnormSrgb,
        TextureFormat::Rgba8UnormSrgb,
        TextureFormat::R8Unorm,
        TextureFormat::Rgba8Unorm,
        TextureFormat::Bgra8Unorm,
    ];
    for (i, a) in formats.iter().enumerate() {
        for (j, b) in formats.iter().enumerate() {
            if i != j {
                assert_ne!(wgpu_format_to_vulkan(*a), wgpu_format_to_vulkan(*b));
            }
        }
    }
}

#[test]
fn swapchain_format_support() {
    let formats = vec![37u32, 50, 44];
    assert!(swapchain_supports_format(&formats, TextureFormat::Bgra8UnormSrgb));
    assert!(!swapchain_supports_format(&formats, TextureFormat::Rgba8UnormSrgb));
    assert!(!swapchain_supports_format(&[], TextureFormat::Bgra8UnormSrgb));
}

const HOST_VISIBLE: u32 = 0x2;
const HOST_COHERENT: u32 = 0x4;
const DEVICE_LOCAL: u32 = 0x1;

#[test]
fn memory_type_first_suitable() {
    let mut flags = [0u32; 32];
    flags[0] = DEVICE_LOCAL;
    flags[1] = HOST_VISIBLE;
    flags[2] = HOST_VISIBLE | HOST_COHERENT;
    flags[3] = DEVICE_LOCAL | HOST_VISIBLE | HOST_COHERENT;
    // All four types allowed: type 2 is the first with both properties.
    assert_eq!(
        find_memory_type_index(0b1111, HOST_VISIBLE | HOST_COHERENT, 4, &flags),
        Ok(2)
    );
    // Type 2 excluded by the filter: type 3 is next.
    assert_eq!(
        find_memory_type_index(0b1011, HOST_VISIBLE | HOST_COHERENT, 4, &flags),
        Ok(3)
    );
    // No properties asked: the first allowed type.
    assert_eq!(find_memory_type_index(0b0100, 0, 4, &flags), Ok(2));
}

#[test]
fn memory_type_none_suitable() {
    let mut flags = [0u32; 32];
    flags[0] = DEVICE_LOCAL;
    flags[1] = HOST_VISIBLE;
    assert_eq!(
        find_memory_type_index(0b11, HOST_VISIBLE | HOST_COHERENT, 2, &flags),
        Err(MemoryTypeError::NoSuitableMemoryType)
    );
    // A suitable type past the reported count is not considered.
    flags[5] = HOST_VISIBLE | HOST_COHERENT;
    assert_eq!(
        find_memory_type_index(0xFFFF_FFFF, HOST_VISIBLE | HOST_COHERENT, 5, &flags),
        Err(MemoryTypeError::NoSuitableMemoryType)
    );
    assert_eq!(
        find_memory_type_index(0xFFFF_FFFF, HOST_VISIBLE | HOST_COHERENT, 32, &flags),
        Ok(5)
    );
    assert_eq!(
        find_memory_type_index(0, 0, 0, &flags),
        Err(MemoryTypeError::NoSuitableMemoryType)
    );
}

#[test]
fn memory_type_last_of_thirty_two() {
    let mut flags = [0u32; 32];
    flags[31] = HOST_VISIBLE;
    assert_eq!(find_memory_type_index(1 << 31, HOST_VISIBLE, 32, &flags), Ok(31));
}
