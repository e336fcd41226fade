//! What the texel formats are: their numbers, channels and classes.

use vstd::prelude::*;
use crate::compute_exec::dims_laws::word_at;
use crate::compute_exec::format::{
    StorageImageFormat, engine_format, sampled_format, specialized_format, storage_format,
    view_format, words_of,
};
use crate::contract::{little_endian, texel_bytes};
use crate::spirv_bind::format::ImageFormat;

verus! {

/// What a channel of a texel holds.
pub enum Channel {
    Float,
    Unorm,
    Uint,
    Sint,
    /// Three mantissas and an exponent that they share.
    SharedExponent,
}

/// The channels of a texel: how many, of how many bits, and of what.
pub open spec fn is_made_of(format: StorageImageFormat, n: int, bits: int, of: Channel) -> bool {
    match format {
        StorageImageFormat::Rgba32Float => n == 4 && bits == 32 && of is Float,
        StorageImageFormat::Rgba16Float => n == 4 && bits == 16 && of is Float,
        StorageImageFormat::R16Float => n == 1 && bits == 16 && of is Float,
        StorageImageFormat::Rgba16Uint => n == 4 && bits == 16 && of is Uint,
        StorageImageFormat::Rgba8Uint => n == 4 && bits == 8 && of is Uint,
        StorageImageFormat::Rgba8Sint => n == 4 && bits == 8 && of is Sint,
        StorageImageFormat::Rgba8Unorm => n == 4 && bits == 8 && of is Unorm,
        StorageImageFormat::Bgra8Unorm => n == 4 && bits == 8 && of is Unorm,
        StorageImageFormat::Rg16Float => n == 2 && bits == 16 && of is Float,
        StorageImageFormat::R8Unorm => n == 1 && bits == 8 && of is Unorm,
        StorageImageFormat::Rg8Unorm => n == 2 && bits == 8 && of is Unorm,
        StorageImageFormat::Rgba32Uint => n == 4 && bits == 32 && of is Uint,
        StorageImageFormat::R32Uint => n == 1 && bits == 32 && of is Uint,
        StorageImageFormat::R32Sint => n == 1 && bits == 32 && of is Sint,
        StorageImageFormat::R32Float => n == 1 && bits == 32 && of is Float,
        StorageImageFormat::Rgb9e5Ufloat => n == 1 && bits == 32 && of is SharedExponent,
    }
}

/// The same of a format that a module declares.
pub open spec fn is_declared_as(format: ImageFormat, n: int, bits: int, of: Channel) -> bool {
    match format {
        ImageFormat::Rgba32Float => n == 4 && bits == 32 && of is Float,
        ImageFormat::Rgba16Float => n == 4 && bits == 16 && of is Float,
        ImageFormat::R16Float => n == 1 && bits == 16 && of is Float,
        ImageFormat::Rgba16Uint => n == 4 && bits == 16 && of is Uint,
        ImageFormat::Rgba8Uint => n == 4 && bits == 8 && of is Uint,
        ImageFormat::Rgba8Sint => n == 4 && bits == 8 && of is Sint,
        ImageFormat::Rgba8Unorm => n == 4 && bits == 8 && of is Unorm,
        ImageFormat::Rg16Float => n == 2 && bits == 16 && of is Float,
        ImageFormat::R8Unorm => n == 1 && bits == 8 && of is Unorm,
        ImageFormat::Rg8Unorm => n == 2 && bits == 8 && of is Unorm,
        ImageFormat::Rgba32Uint => n == 4 && bits == 32 && of is Uint,
        ImageFormat::R32Float => n == 1 && bits == 32 && of is Float,
        ImageFormat::R32ui => n == 1 && bits == 32 && of is Uint,
        ImageFormat::Unknown => false,
        ImageFormat::Unsupported(_) => false,
    }
}

/// A texel has the bytes of its channels.
pub proof fn law_texel_is_its_channels(format: StorageImageFormat, n: int, bits: int, of: Channel)
    requires
        is_made_of(format, n, bits, of),
    ensures
        format.texel_size() * 8 == n * bits,
{
    let size = format.texel_size();
    assert(size * 8 == n * bits) by (nonlinear_arith)
        requires
            (n == 4 && bits == 32 && size == 16) || (n == 4 && bits == 16 && size == 8) || (n == 4
                && bits == 8 && size == 4) || (n == 2 && bits == 16 && size == 4) || (n == 2 && bits
                == 8 && size == 2) || (n == 1 && bits == 32 && size == 4) || (n == 1 && bits == 16
                && size == 2) || (n == 1 && bits == 8 && size == 1),
    ;
}

/// A declared format is viewed by the engine in the same channels; one without a name is
/// not viewed.
pub proof fn law_engine_keeps_the_channels(format: ImageFormat, n: int, bits: int, of: Channel)
    ensures
        engine_format(format) is None <==> format is Unknown || format is Unsupported,
        engine_format(format) is Some ==> (is_made_of(engine_format(format)->0, n, bits, of)
            <==> is_declared_as(format, n, bits, of)) && engine_format(format)->0
            != StorageImageFormat::Bgra8Unorm,
{
}

/// The pixel formats by their numbers, as the engine samples them.
pub proof fn law_sampled_formats(format: u16)
    ensures
        ({
            let engine = sampled_format(format);
            &&& engine == Some(StorageImageFormat::R8Unorm) <==> format == 10
            &&& engine == Some(StorageImageFormat::R16Float) <==> format == 25
            &&& engine == Some(StorageImageFormat::Rg8Unorm) <==> format == 30
            &&& engine == Some(StorageImageFormat::R32Uint) <==> format == 53
            &&& engine == Some(StorageImageFormat::R32Sint) <==> format == 54
            &&& engine == Some(StorageImageFormat::R32Float) <==> format == 55
            &&& engine == Some(StorageImageFormat::Rg16Float) <==> format == 65
            &&& engine == Some(StorageImageFormat::Rgba8Unorm) <==> format == 70
            &&& engine == Some(StorageImageFormat::Rgba8Uint) <==> format == 73
            &&& engine == Some(StorageImageFormat::Rgba8Sint) <==> format == 74
            &&& engine == Some(StorageImageFormat::Bgra8Unorm) <==> format == 80
            &&& engine == Some(StorageImageFormat::Rgb9e5Ufloat) <==> format == 93
            &&& engine == Some(StorageImageFormat::Rgba16Uint) <==> format == 113
            &&& engine == Some(StorageImageFormat::Rgba16Float) <==> format == 115
            &&& engine == Some(StorageImageFormat::Rgba32Uint) <==> format == 123
            &&& engine == Some(StorageImageFormat::Rgba32Float) <==> format == 125
            &&& engine is Some ==> texel_bytes(format) == Some(engine->0.texel_size())
        }),
{
}

/// What is sampled can be stored to, in the same format, but for single signed integers,
/// single floats and shared exponents.
pub proof fn law_storable_formats(format: u16)
    ensures
        format == 54 || format == 55 || format == 93 ==> storage_format(format) is None,
        format != 54 && format != 55 && format != 93 ==> storage_format(format) == sampled_format(
            format,
        ),
{
}

/// A view is sampled in its own format where its texels are as large as the texture's,
/// not at all where they are not, and one without a format in the texture's.
pub proof fn law_view_formats(base: u16, view: u16)
    ensures
        view_format(base, None) == Some(base),
        view_format(base, Some(view)) == Some(view) <==> texel_bytes(view) is Some && texel_bytes(
            base,
        ) == texel_bytes(view),
        view_format(base, Some(view)) is None <==> texel_bytes(view) is None || texel_bytes(base)
            != texel_bytes(view),
{
}

/// The channels hold the same sort of number: real, unsigned or signed.
pub open spec fn same_sort(a: Channel, b: Channel) -> bool {
    &&& a is Uint <==> b is Uint
    &&& a is Sint <==> b is Sint
}

/// The format that a kernel's storage image takes for the surface bound to it.
///
/// A surface in BGRA order is written without a format, or as RGBA where the device
/// cannot do that, by a kernel that writes real numbers. Else a kernel's own format
/// stays where its texels are as large as the surface's, unless the surface holds one
/// unsigned word a texel. Where the sizes differ, the surface's own channels are taken,
/// which must hold the same sort of number as the kernel's; some surfaces cannot be
/// stored to.
pub proof fn law_storage_image_takes_the_surfaces_format(
    guest: StorageImageFormat,
    shader: ImageFormat,
    write_without_format: bool,
    n: int,
    bits: int,
    of: Channel,
    gn: int,
    gbits: int,
    gof: Channel,
)
    requires
        is_made_of(guest, gn, gbits, gof),
        is_declared_as(shader, n, bits, of),
    ensures
        ({
            let format = specialized_format(guest, shader, write_without_format);
            let reals = of is Float || of is Unorm;
            let bgra = guest == StorageImageFormat::Bgra8Unorm && reals;
            let own = n * bits == gn * gbits && guest != StorageImageFormat::R32Uint;
            let unstorable = guest == StorageImageFormat::R32Sint || guest
                == StorageImageFormat::R32Float || guest == StorageImageFormat::Rgb9e5Ufloat;
            &&& bgra && write_without_format ==> format == Ok::<ImageFormat, &'static str>(
                ImageFormat::Unknown,
            )
            &&& bgra && !write_without_format ==> format == Ok::<ImageFormat, &'static str>(
                ImageFormat::Rgba8Unorm,
            )
            &&& !bgra && own ==> format == Ok::<ImageFormat, &'static str>(shader)
            &&& !bgra && !own && unstorable ==> format == Err::<ImageFormat, &'static str>(
                "spirv_sampled_only_format_as_storage",
            )
            &&& !bgra && !own && !unstorable && !same_sort(of, gof) ==> format == Err::<
                ImageFormat,
                &'static str,
            >("spirv_guest_numeric_class_mismatch")
            &&& !bgra && !own && !unstorable && same_sort(of, gof) ==> format is Ok
                && is_declared_as(format->Ok_0, gn, gbits, gof)
        }),
{
}

/// A kernel whose storage image has no format that is known here is refused.
pub proof fn law_unnamed_shader_formats_are_refused(
    guest: StorageImageFormat,
    shader: ImageFormat,
    write_without_format: bool,
)
    requires
        shader is Unknown || shader is Unsupported,
    ensures
        specialized_format(guest, shader, write_without_format) == Err::<
            ImageFormat,
            &'static str,
        >("spirv_storage_format_unsupported"),
{
}

/// The words of a module are its bytes by fours, the lowest byte first.
pub proof fn law_words_are_little_endian(bytes: Seq<u8>, i: int)
    requires
        0 <= i < bytes.len() / 4,
    ensures
        words_of(bytes).len() == bytes.len() / 4,
        words_of(bytes)[i] == word_at(bytes, 4 * i),
{
    reveal_with_fuel(little_endian, 5);
}

} // verus!
