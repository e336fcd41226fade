//! Texel formats of compute images, and the format a kernel is specialized to.

use vstd::prelude::*;
use crate::compute_exec::status::ComputeSpirvDecline;
use crate::contract::{
    MTL_FORMAT_BGRA8_UNORM, MTL_FORMAT_R16_FLOAT, MTL_FORMAT_R32_FLOAT, MTL_FORMAT_R32_UINT,
    MTL_FORMAT_R8_UNORM, MTL_FORMAT_RG16_FLOAT, MTL_FORMAT_RG8_UNORM, MTL_FORMAT_RGB9E5_FLOAT,
    MTL_FORMAT_RGBA16_FLOAT, MTL_FORMAT_RGBA16_UINT, MTL_FORMAT_RGBA32_FLOAT,
    MTL_FORMAT_RGBA32_UINT, MTL_FORMAT_RGBA8_SINT, MTL_FORMAT_RGBA8_UINT, MTL_FORMAT_RGBA8_UNORM,
    bytes_per_pixel, ld32, little_endian, texel_bytes,
};
use crate::spirv_bind::format::ImageFormat;

verus! {

pub const MTL_FORMAT_R32_SINT: u16 = 54;

/// A texel format of the engine.
#[derive(Clone, Copy, Debug, PartialEq, Eq, Structural)]
pub enum StorageImageFormat {
    Rgba32Float,
    Rgba16Float,
    R16Float,
    Rgba16Uint,
    Rgba8Uint,
    Rgba8Sint,
    Rgba8Unorm,
    Bgra8Unorm,
    Rg16Float,
    R8Unorm,
    Rg8Unorm,
    Rgba32Uint,
    R32Uint,
    R32Sint,
    R32Float,
    Rgb9e5Ufloat,
}

impl StorageImageFormat {
    pub open spec fn texel_size(self) -> u32 {
        match self {
            StorageImageFormat::Rgba32Float => 16,
            StorageImageFormat::Rgba32Uint => 16,
            StorageImageFormat::Rgba16Float => 8,
            StorageImageFormat::Rgba16Uint => 8,
            StorageImageFormat::R16Float => 2,
            StorageImageFormat::Rg8Unorm => 2,
            StorageImageFormat::R8Unorm => 1,
            _ => 4,
        }
    }

    pub fn bytes_per_texel(self) -> (bytes: u32)
        ensures
            bytes == self.texel_size(),
            1 <= bytes <= 16,
    {
        match self {
            StorageImageFormat::Rgba32Float => 16,
            StorageImageFormat::Rgba32Uint => 16,
            StorageImageFormat::Rgba16Float => 8,
            StorageImageFormat::Rgba16Uint => 8,
            StorageImageFormat::R16Float => 2,
            StorageImageFormat::Rg8Unorm => 2,
            StorageImageFormat::R8Unorm => 1,
            _ => 4,
        }
    }
}

/// The engine format that a Metal pixel format is sampled as.
pub open spec fn sampled_format(format: u16) -> Option<StorageImageFormat> {
    if format == MTL_FORMAT_R8_UNORM {
        Some(StorageImageFormat::R8Unorm)
    } else if format == MTL_FORMAT_R16_FLOAT {
        Some(StorageImageFormat::R16Float)
    } else if format == MTL_FORMAT_RG8_UNORM {
        Some(StorageImageFormat::Rg8Unorm)
    } else if format == MTL_FORMAT_R32_UINT {
        Some(StorageImageFormat::R32Uint)
    } else if format == MTL_FORMAT_R32_SINT {
        Some(StorageImageFormat::R32Sint)
    } else if format == MTL_FORMAT_R32_FLOAT {
        Some(StorageImageFormat::R32Float)
    } else if format == MTL_FORMAT_RG16_FLOAT {
        Some(StorageImageFormat::Rg16Float)
    } else if format == MTL_FORMAT_RGBA8_UNORM {
        Some(StorageImageFormat::Rgba8Unorm)
    } else if format == MTL_FORMAT_RGBA8_UINT {
        Some(StorageImageFormat::Rgba8Uint)
    } else if format == MTL_FORMAT_RGBA8_SINT {
        Some(StorageImageFormat::Rgba8Sint)
    } else if format == MTL_FORMAT_BGRA8_UNORM {
        Some(StorageImageFormat::Bgra8Unorm)
    } else if format == MTL_FORMAT_RGB9E5_FLOAT {
        Some(StorageImageFormat::Rgb9e5Ufloat)
    } else if format == MTL_FORMAT_RGBA16_UINT {
        Some(StorageImageFormat::Rgba16Uint)
    } else if format == MTL_FORMAT_RGBA16_FLOAT {
        Some(StorageImageFormat::Rgba16Float)
    } else if format == MTL_FORMAT_RGBA32_UINT {
        Some(StorageImageFormat::Rgba32Uint)
    } else if format == MTL_FORMAT_RGBA32_FLOAT {
        Some(StorageImageFormat::Rgba32Float)
    } else {
        None
    }
}

pub fn mtl_to_engine_sampled(format: u16) -> (engine: Option<StorageImageFormat>)
    ensures
        engine == sampled_format(format),
{
    if format == MTL_FORMAT_R8_UNORM {
        Some(StorageImageFormat::R8Unorm)
    } else if format == MTL_FORMAT_R16_FLOAT {
        Some(StorageImageFormat::R16Float)
    } else if format == MTL_FORMAT_RG8_UNORM {
        Some(StorageImageFormat::Rg8Unorm)
    } else if format == MTL_FORMAT_R32_UINT {
        Some(StorageImageFormat::R32Uint)
    } else if format == MTL_FORMAT_R32_SINT {
        Some(StorageImageFormat::R32Sint)
    } else if format == MTL_FORMAT_R32_FLOAT {
        Some(StorageImageFormat::R32Float)
    } else if format == MTL_FORMAT_RG16_FLOAT {
        Some(StorageImageFormat::Rg16Float)
    } else if format == MTL_FORMAT_RGBA8_UNORM {
        Some(StorageImageFormat::Rgba8Unorm)
    } else if format == MTL_FORMAT_RGBA8_UINT {
        Some(StorageImageFormat::Rgba8Uint)
    } else if format == MTL_FORMAT_RGBA8_SINT {
        Some(StorageImageFormat::Rgba8Sint)
    } else if format == MTL_FORMAT_BGRA8_UNORM {
        Some(StorageImageFormat::Bgra8Unorm)
    } else if format == MTL_FORMAT_RGB9E5_FLOAT {
        Some(StorageImageFormat::Rgb9e5Ufloat)
    } else if format == MTL_FORMAT_RGBA16_UINT {
        Some(StorageImageFormat::Rgba16Uint)
    } else if format == MTL_FORMAT_RGBA16_FLOAT {
        Some(StorageImageFormat::Rgba16Float)
    } else if format == MTL_FORMAT_RGBA32_UINT {
        Some(StorageImageFormat::Rgba32Uint)
    } else if format == MTL_FORMAT_RGBA32_FLOAT {
        Some(StorageImageFormat::Rgba32Float)
    } else {
        None
    }
}

/// A format that images are only ever sampled in.
pub open spec fn sampled_only(format: StorageImageFormat) -> bool {
    format == StorageImageFormat::R32Sint || format == StorageImageFormat::R32Float || format
        == StorageImageFormat::Rgb9e5Ufloat
}

/// The storage format of a Metal pixel format, where it can be stored to.
pub open spec fn storage_format(format: u16) -> Option<StorageImageFormat> {
    match sampled_format(format) {
        Some(engine) => if sampled_only(engine) {
            None
        } else {
            Some(engine)
        },
        None => None,
    }
}

pub fn storage_selector(format: u16) -> (engine: Option<StorageImageFormat>)
    ensures
        engine == storage_format(format),
{
    match mtl_to_engine_sampled(format) {
        Some(StorageImageFormat::R32Sint) => None,
        Some(StorageImageFormat::R32Float) => None,
        Some(StorageImageFormat::Rgb9e5Ufloat) => None,
        Some(engine) => Some(engine),
        None => None,
    }
}

/// A storable format has the texel size of its pixel format.
pub proof fn law_storage_texels_agree(format: u16)
    requires
        storage_format(format) is Some,
    ensures
        texel_bytes(format) == Some(storage_format(format)->0.texel_size()),
{
}

/// The format that a view of a texture is sampled in: the view's own where it has
/// texels of the same size, else none.
pub open spec fn view_format(base: u16, view: Option<u16>) -> Option<u16> {
    match view {
        None => Some(base),
        Some(format) => if texel_bytes(format) is Some && texel_bytes(format) == texel_bytes(
            base,
        ) {
            Some(format)
        } else {
            None
        },
    }
}

pub fn effective_view_sample_format(base: u16, view: Option<u16>) -> (format: Option<u16>)
    ensures
        format == view_format(base, view),
{
    match view {
        None => Some(base),
        Some(format) => match (bytes_per_pixel(format), bytes_per_pixel(base)) {
            (Some(a), Some(b)) => if a == b {
                Some(format)
            } else {
                None
            },
            _ => None,
        },
    }
}

/// The engine format that an image format names; one without texels of its own
/// names none.
pub open spec fn engine_format(format: ImageFormat) -> Option<StorageImageFormat> {
    match format {
        ImageFormat::Rgba32Float => Some(StorageImageFormat::Rgba32Float),
        ImageFormat::Rgba16Float => Some(StorageImageFormat::Rgba16Float),
        ImageFormat::R16Float => Some(StorageImageFormat::R16Float),
        ImageFormat::Rgba16Uint => Some(StorageImageFormat::Rgba16Uint),
        ImageFormat::Rgba8Uint => Some(StorageImageFormat::Rgba8Uint),
        ImageFormat::Rgba8Sint => Some(StorageImageFormat::Rgba8Sint),
        ImageFormat::Rgba8Unorm => Some(StorageImageFormat::Rgba8Unorm),
        ImageFormat::Rg16Float => Some(StorageImageFormat::Rg16Float),
        ImageFormat::R8Unorm => Some(StorageImageFormat::R8Unorm),
        ImageFormat::Rg8Unorm => Some(StorageImageFormat::Rg8Unorm),
        ImageFormat::Rgba32Uint => Some(StorageImageFormat::Rgba32Uint),
        ImageFormat::R32Float => Some(StorageImageFormat::R32Float),
        ImageFormat::R32ui => Some(StorageImageFormat::R32Uint),
        ImageFormat::Unknown => None,
        ImageFormat::Unsupported(_) => None,
    }
}

pub fn spirv_image_format_to_engine_storage(format: ImageFormat) -> (engine: Option<
    StorageImageFormat,
>)
    ensures
        engine == engine_format(format),
{
    match format {
        ImageFormat::Rgba32Float => Some(StorageImageFormat::Rgba32Float),
        ImageFormat::Rgba16Float => Some(StorageImageFormat::Rgba16Float),
        ImageFormat::R16Float => Some(StorageImageFormat::R16Float),
        ImageFormat::Rgba16Uint => Some(StorageImageFormat::Rgba16Uint),
        ImageFormat::Rgba8Uint => Some(StorageImageFormat::Rgba8Uint),
        ImageFormat::Rgba8Sint => Some(StorageImageFormat::Rgba8Sint),
        ImageFormat::Rgba8Unorm => Some(StorageImageFormat::Rgba8Unorm),
        ImageFormat::Rg16Float => Some(StorageImageFormat::Rg16Float),
        ImageFormat::R8Unorm => Some(StorageImageFormat::R8Unorm),
        ImageFormat::Rg8Unorm => Some(StorageImageFormat::Rg8Unorm),
        ImageFormat::Rgba32Uint => Some(StorageImageFormat::Rgba32Uint),
        ImageFormat::R32Float => Some(StorageImageFormat::R32Float),
        ImageFormat::R32ui => Some(StorageImageFormat::R32Uint),
        ImageFormat::Unknown => None,
        ImageFormat::Unsupported(_) => None,
    }
}

/// How a format's numbers read.
#[derive(Clone, Copy, Debug, PartialEq, Eq, Structural)]
pub enum NumericClass {
    /// Float and normalized formats.
    Float,
    Uint,
    Sint,
}

/// The class of an engine format.
pub open spec fn numeric_class(format: StorageImageFormat) -> NumericClass {
    match format {
        StorageImageFormat::Rgba32Uint => NumericClass::Uint,
        StorageImageFormat::Rgba16Uint => NumericClass::Uint,
        StorageImageFormat::Rgba8Uint => NumericClass::Uint,
        StorageImageFormat::R32Uint => NumericClass::Uint,
        StorageImageFormat::Rgba8Sint => NumericClass::Sint,
        StorageImageFormat::R32Sint => NumericClass::Sint,
        _ => NumericClass::Float,
    }
}

fn class_of(format: StorageImageFormat) -> (class: NumericClass)
    ensures
        class == numeric_class(format),
{
    match format {
        StorageImageFormat::Rgba32Uint => NumericClass::Uint,
        StorageImageFormat::Rgba16Uint => NumericClass::Uint,
        StorageImageFormat::Rgba8Uint => NumericClass::Uint,
        StorageImageFormat::R32Uint => NumericClass::Uint,
        StorageImageFormat::Rgba8Sint => NumericClass::Sint,
        StorageImageFormat::R32Sint => NumericClass::Sint,
        _ => NumericClass::Float,
    }
}

/// The image format that stores a surface's own texels. A BGRA surface is stored
/// through the RGBA format of its size.
pub open spec fn native_format(guest: StorageImageFormat) -> ImageFormat {
    match guest {
        StorageImageFormat::Rgba32Float => ImageFormat::Rgba32Float,
        StorageImageFormat::Rgba16Float => ImageFormat::Rgba16Float,
        StorageImageFormat::R16Float => ImageFormat::R16Float,
        StorageImageFormat::Rgba16Uint => ImageFormat::Rgba16Uint,
        StorageImageFormat::Rgba8Uint => ImageFormat::Rgba8Uint,
        StorageImageFormat::Rgba8Sint => ImageFormat::Rgba8Sint,
        StorageImageFormat::Rgba8Unorm => ImageFormat::Rgba8Unorm,
        StorageImageFormat::Bgra8Unorm => ImageFormat::Rgba8Unorm,
        StorageImageFormat::Rg16Float => ImageFormat::Rg16Float,
        StorageImageFormat::R8Unorm => ImageFormat::R8Unorm,
        StorageImageFormat::Rg8Unorm => ImageFormat::Rg8Unorm,
        StorageImageFormat::Rgba32Uint => ImageFormat::Rgba32Uint,
        StorageImageFormat::R32Uint => ImageFormat::R32ui,
        StorageImageFormat::R32Sint => ImageFormat::Unknown,
        StorageImageFormat::R32Float => ImageFormat::R32Float,
        StorageImageFormat::Rgb9e5Ufloat => ImageFormat::Unknown,
    }
}

/// The format that a storage image is specialized to.
///
/// A float or normalized store to a BGRA surface is a color store: it goes
/// through a format-less image where the device can write one, so that the
/// channels land in the surface's order, and else through the swapped RGBA view.
/// Formats of equal size are raw views and stay, except over a single-channel
/// 32-bit surface, whose lane must keep all its bits. Otherwise the surface's own
/// format is taken, if its numbers read as the shader's do.
pub open spec fn specialized_format(
    guest: StorageImageFormat,
    shader: ImageFormat,
    write_without_format: bool,
) -> Result<ImageFormat, &'static str> {
    match engine_format(shader) {
        None => Err("spirv_storage_format_unsupported"),
        Some(engine) => if guest == StorageImageFormat::Bgra8Unorm && numeric_class(engine)
            == NumericClass::Float {
            Ok(
                if write_without_format {
                    ImageFormat::Unknown
                } else {
                    ImageFormat::Rgba8Unorm
                },
            )
        } else if guest.texel_size() == engine.texel_size() && guest
            != StorageImageFormat::R32Uint {
            Ok(shader)
        } else if sampled_only(guest) {
            Err("spirv_sampled_only_format_as_storage")
        } else if numeric_class(guest) != numeric_class(engine) {
            Err("spirv_guest_numeric_class_mismatch")
        } else {
            Ok(native_format(guest))
        },
    }
}

/// Decide the format that a storage image is specialized to.
pub fn specialized_storage_image_format(
    guest: StorageImageFormat,
    shader: ImageFormat,
    write_without_format: bool,
) -> (format: Result<ImageFormat, &'static str>)
    ensures
        format == specialized_format(guest, shader, write_without_format),
{
    let engine = match spirv_image_format_to_engine_storage(shader) {
        Some(engine) => engine,
        None => {
            return Err("spirv_storage_format_unsupported");
        },
    };
    let shader_class = class_of(engine);
    if guest == StorageImageFormat::Bgra8Unorm && shader_class == NumericClass::Float {
        return Ok(
            if write_without_format {
                ImageFormat::Unknown
            } else {
                ImageFormat::Rgba8Unorm
            },
        );
    }
    if guest.bytes_per_texel() == engine.bytes_per_texel() && guest != StorageImageFormat::R32Uint {
        return Ok(shader);
    }
    let native = match guest {
        StorageImageFormat::R32Sint => {
            return Err("spirv_sampled_only_format_as_storage");
        },
        StorageImageFormat::R32Float => {
            return Err("spirv_sampled_only_format_as_storage");
        },
        StorageImageFormat::Rgb9e5Ufloat => {
            return Err("spirv_sampled_only_format_as_storage");
        },
        StorageImageFormat::R32Uint => ImageFormat::R32ui,
        StorageImageFormat::Rgba32Float => ImageFormat::Rgba32Float,
        StorageImageFormat::Rgba16Float => ImageFormat::Rgba16Float,
        StorageImageFormat::R16Float => ImageFormat::R16Float,
        StorageImageFormat::Rgba8Unorm => ImageFormat::Rgba8Unorm,
        StorageImageFormat::Bgra8Unorm => ImageFormat::Rgba8Unorm,
        StorageImageFormat::Rg16Float => ImageFormat::Rg16Float,
        StorageImageFormat::R8Unorm => ImageFormat::R8Unorm,
        StorageImageFormat::Rg8Unorm => ImageFormat::Rg8Unorm,
        StorageImageFormat::Rgba32Uint => ImageFormat::Rgba32Uint,
        StorageImageFormat::Rgba16Uint => ImageFormat::Rgba16Uint,
        StorageImageFormat::Rgba8Uint => ImageFormat::Rgba8Uint,
        StorageImageFormat::Rgba8Sint => ImageFormat::Rgba8Sint,
    };
    if class_of(guest) != shader_class {
        return Err("spirv_guest_numeric_class_mismatch");
    }
    Ok(native)
}

/// A specialized format is one that specialization reads back, and, unless it is
/// format-less, stores texels of the surface's size.
pub proof fn law_specialized_format_fits_the_surface(
    guest: StorageImageFormat,
    shader: ImageFormat,
    write_without_format: bool,
)
    requires
        specialized_format(guest, shader, write_without_format) is Ok,
    ensures
        ({
            let format = specialized_format(guest, shader, write_without_format)->Ok_0;
            &&& format.is_canonical()
            &&& format != ImageFormat::Unknown ==> engine_format(format) is Some && engine_format(
                format,
            )->0.texel_size() == guest.texel_size()
            &&& format == ImageFormat::Unknown ==> guest == StorageImageFormat::Bgra8Unorm
                && write_without_format
        }),
{
}

/// Bytes of a SPIR-V header.
pub const SPIRV_HEADER_LEN: usize = 20;
/// Bytes of a SPIR-V word.
pub const SPIRV_WORD_ALIGNMENT: usize = 4;

/// The words of a little-endian module.
pub open spec fn words_of(bytes: Seq<u8>) -> Seq<u32> {
    Seq::new((bytes.len() / 4) as nat, |i: int| little_endian(bytes, 4 * i, 4) as u32)
}

/// Split a translated kernel into words, or say why it is no module.
pub fn spirv_words_le(bytes: &[u8]) -> (words: Result<Vec<u32>, ComputeSpirvDecline>)
    ensures
        match words {
            Ok(w) => bytes.len() >= SPIRV_HEADER_LEN && bytes.len() % SPIRV_WORD_ALIGNMENT == 0
                && w@ == words_of(bytes@),
            Err(decline) => decline == if bytes.len() < SPIRV_HEADER_LEN {
                ComputeSpirvDecline::HeaderTooShort {
                    len: bytes.len() as usize,
                    minimum: SPIRV_HEADER_LEN,
                }
            } else {
                ComputeSpirvDecline::LengthMisaligned {
                    len: bytes.len() as usize,
                    alignment: SPIRV_WORD_ALIGNMENT,
                }
            } && (bytes.len() < SPIRV_HEADER_LEN || bytes.len() % SPIRV_WORD_ALIGNMENT != 0),
        },
{
    let n: usize = bytes.len();
    if n < SPIRV_HEADER_LEN {
        return Err(
            ComputeSpirvDecline::HeaderTooShort { len: n, minimum: SPIRV_HEADER_LEN },
        );
    }
    if n % SPIRV_WORD_ALIGNMENT != 0 {
        return Err(
            ComputeSpirvDecline::LengthMisaligned { len: n, alignment: SPIRV_WORD_ALIGNMENT },
        );
    }
    let count: usize = n / 4;
    let mut words: Vec<u32> = Vec::new();
    let mut i: usize = 0;
    while i < count
        invariant
            n == bytes.len(),
            count == n / 4,
            i <= count,
            words@ == words_of(bytes@).take(i as int),
        decreases count - i,
    {
        words.push(ld32(bytes, 4 * i));
        i = i + 1;
        assert(words@ =~= words_of(bytes@).take(i as int));
    }
    assert(words@ =~= words_of(bytes@));
    Ok(words)
}

/// The length of a host buffer for a guest size, where the host can address it.
pub fn host_alloc_len(size: u64) -> (len: Option<usize>)
    ensures
        len is Some <==> size <= usize::MAX,
        len is Some ==> len->0 == size,
{
    let len: usize = size as usize;
    if len as u64 == size {
        Some(len)
    } else {
        None
    }
}

} // verus!
