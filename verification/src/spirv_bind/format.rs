//! The texel format that a module declares for an image descriptor.

use vstd::prelude::*;
use crate::spirv_bind::index::{
    ModuleIndex, Site, binding_of, index_module, lemma_site_within, pointee_of, site_of,
    type_of_variable,
};
use crate::spirv_bind::stream::{id_bound, module_ok};

verus! {

/// Explicit storage-image texel format declared by `OpTypeImage`.
#[derive(Clone, Copy, Debug, PartialEq, Eq, Structural)]
pub enum ImageFormat {
    Rgba32Float,
    Rgba16Float,
    R16Float,
    Rgba16Uint,
    Rgba8Uint,
    Rgba8Sint,
    Rgba8Unorm,
    Rg16Float,
    R8Unorm,
    Rg8Unorm,
    Rgba32Uint,
    /// Single-channel 32-bit float: what the translator declares for a generic
    /// float write target, whose real texel format is that of the bound surface.
    R32Float,
    /// Single-channel 32-bit uint: a storage image is specialized to it when the
    /// bound surface holds one `u32` per texel, so that the lane keeps all its bits.
    R32ui,
    /// No declared texel format: the image view may be any compatible format.
    Unknown,
    /// An explicit format outside the engine's supported surface.
    Unsupported(u32),
}

impl ImageFormat {
    /// The format that a format operand names.
    pub open spec fn of_raw(raw: u32) -> ImageFormat {
        match raw {
            0 => ImageFormat::Unknown,
            1 => ImageFormat::Rgba32Float,
            2 => ImageFormat::Rgba16Float,
            3 => ImageFormat::R32Float,
            4 => ImageFormat::Rgba8Unorm,
            7 => ImageFormat::Rg16Float,
            9 => ImageFormat::R16Float,
            13 => ImageFormat::Rg8Unorm,
            15 => ImageFormat::R8Unorm,
            23 => ImageFormat::Rgba8Sint,
            30 => ImageFormat::Rgba32Uint,
            31 => ImageFormat::Rgba16Uint,
            32 => ImageFormat::Rgba8Uint,
            33 => ImageFormat::R32ui,
            _ => ImageFormat::Unsupported(raw),
        }
    }

    /// The format operand that a format is written as.
    pub open spec fn to_raw(self) -> u32 {
        match self {
            ImageFormat::Rgba32Float => 1,
            ImageFormat::Rgba16Float => 2,
            ImageFormat::R32Float => 3,
            ImageFormat::Rgba8Unorm => 4,
            ImageFormat::Rg16Float => 7,
            ImageFormat::R16Float => 9,
            ImageFormat::Rg8Unorm => 13,
            ImageFormat::R8Unorm => 15,
            ImageFormat::Rgba8Sint => 23,
            ImageFormat::Rgba32Uint => 30,
            ImageFormat::Rgba16Uint => 31,
            ImageFormat::Rgba8Uint => 32,
            ImageFormat::R32ui => 33,
            ImageFormat::Unknown => 0,
            ImageFormat::Unsupported(raw) => raw,
        }
    }

    /// The format is the one its own operand names: it is not an `Unsupported`
    /// that holds the number of a supported format.
    pub open spec fn is_canonical(self) -> bool {
        ImageFormat::of_raw(self.to_raw()) == self
    }

    pub fn from_raw(raw: u32) -> (format: ImageFormat)
        ensures
            format == ImageFormat::of_raw(raw),
    {
        match raw {
            0 => ImageFormat::Unknown,
            1 => ImageFormat::Rgba32Float,
            2 => ImageFormat::Rgba16Float,
            3 => ImageFormat::R32Float,
            4 => ImageFormat::Rgba8Unorm,
            7 => ImageFormat::Rg16Float,
            9 => ImageFormat::R16Float,
            13 => ImageFormat::Rg8Unorm,
            15 => ImageFormat::R8Unorm,
            23 => ImageFormat::Rgba8Sint,
            30 => ImageFormat::Rgba32Uint,
            31 => ImageFormat::Rgba16Uint,
            32 => ImageFormat::Rgba8Uint,
            33 => ImageFormat::R32ui,
            _ => ImageFormat::Unsupported(raw),
        }
    }

    pub fn raw(self) -> (raw: u32)
        ensures
            raw == self.to_raw(),
    {
        match self {
            ImageFormat::Rgba32Float => 1,
            ImageFormat::Rgba16Float => 2,
            ImageFormat::R32Float => 3,
            ImageFormat::Rgba8Unorm => 4,
            ImageFormat::Rg16Float => 7,
            ImageFormat::R16Float => 9,
            ImageFormat::Rg8Unorm => 13,
            ImageFormat::R8Unorm => 15,
            ImageFormat::Rgba8Sint => 23,
            ImageFormat::Rgba32Uint => 30,
            ImageFormat::Rgba16Uint => 31,
            ImageFormat::Rgba8Uint => 32,
            ImageFormat::R32ui => 33,
            ImageFormat::Unknown => 0,
            ImageFormat::Unsupported(raw) => raw,
        }
    }
}

/// Decoding a format operand and encoding it again gives the operand back, and
/// every supported format survives the other way round.
pub proof fn law_image_format_round_trip(raw: u32, format: ImageFormat)
    ensures
        ImageFormat::of_raw(raw).to_raw() == raw,
        ImageFormat::of_raw(raw).is_canonical(),
        !(format is Unsupported) ==> format.is_canonical(),
{
}

/// The format operand of image type `id`.
pub open spec fn image_raw_of(words: Seq<u32>, id: int) -> Option<u32> {
    match site_of(words, Site::Image, id) {
        Some(at) => Some(words[at + 8]),
        None => None,
    }
}

/// The image type that variable `id` points to: its pointer type and what that
/// points to are both declared below the id bound.
pub open spec fn image_type_of_variable(words: Seq<u32>, id: int) -> Option<u32> {
    match type_of_variable(words, id) {
        Some(pointer) => if (pointer as int) < id_bound(words) {
            match pointee_of(words, pointer as int) {
                Some(image) => if (image as int) < id_bound(words) && site_of(
                    words,
                    Site::Image,
                    image as int,
                ) is Some {
                    Some(image)
                } else {
                    None
                },
                None => None,
            }
        } else {
            None
        },
        None => None,
    }
}

/// The format of the image that variable `id` points to.
pub open spec fn variable_format(words: Seq<u32>, id: int) -> Option<ImageFormat> {
    match image_type_of_variable(words, id) {
        Some(image) => match image_raw_of(words, image as int) {
            Some(raw) => Some(ImageFormat::of_raw(raw)),
            None => None,
        },
        None => None,
    }
}

/// `id` is an image variable at `binding`.
pub open spec fn is_image_at(words: Seq<u32>, binding: u32, id: int) -> bool {
    &&& 0 <= id < id_bound(words)
    &&& binding_of(words, id) == Some(binding)
    &&& variable_format(words, id) is Some
}

/// `id` is the lowest image variable at `binding`.
pub open spec fn is_first_image_at(words: Seq<u32>, binding: u32, id: int) -> bool {
    is_image_at(words, binding, id) && forall|k: int| is_image_at(words, binding, k) ==> id <= k
}

/// The format declared for the image descriptor at `binding`.
pub open spec fn image_format_spec(words: Seq<u32>, binding: u32) -> Option<ImageFormat> {
    if module_ok(words) && exists|id: int| is_first_image_at(words, binding, id) {
        variable_format(words, choose|id: int| is_first_image_at(words, binding, id))
    } else {
        None
    }
}

/// The instruction declaring the image type behind `variable`.
pub(crate) fn find_image(words: &[u32], index: &ModuleIndex, variable: usize) -> (r: Option<usize>)
    requires
        module_ok(words@),
        index.describes(words@),
        variable < id_bound(words@),
    ensures
        match r {
            Some(image) => image_type_of_variable(words@, variable as int) == Some(image as u32)
                && image < id_bound(words@),
            None => image_type_of_variable(words@, variable as int) is None,
        },
{
    proof {
        lemma_site_within(words@, Site::Variable, variable as int);
    }
    assert(words@.len() == words.len());
    let pointer: usize = match index.variables[variable] {
        Some(at) => words[at + 1] as usize,
        None => {
            return None;
        },
    };
    if pointer >= index.pointers.len() {
        return None;
    }
    proof {
        lemma_site_within(words@, Site::Pointer, pointer as int);
    }
    let image: usize = match index.pointers[pointer] {
        Some(at) => words[at + 3] as usize,
        None => {
            return None;
        },
    };
    if image >= index.images.len() {
        return None;
    }
    match index.images[image] {
        Some(_) => Some(image),
        None => None,
    }
}

/// The explicit texel format for one image descriptor binding.
///
/// The format operand is structural; it is independent of debug names and may
/// differ from the bound texture's pixel format when the shader uses a raw view.
pub fn image_format(words: &[u32], wanted_binding: u32) -> (format: Option<ImageFormat>)
    ensures
        format == image_format_spec(words@, wanted_binding),
{
    let index = match index_module(words) {
        Some(index) => index,
        None => {
            return None;
        },
    };
    let n: usize = index.bindings.len();
    let mut id: usize = 0;
    while id < n
        invariant
            module_ok(words@),
            index.describes(words@),
            n == id_bound(words@),
            id <= n,
            forall|k: int| k < id ==> !is_image_at(words@, wanted_binding, k),
        decreases n - id,
    {
        proof {
            lemma_site_within(words@, Site::Binding, id as int);
        }
        assert(words@.len() == words.len());
        let bound_here = match index.bindings[id] {
            Some(at) => words[at + 3] == wanted_binding,
            None => false,
        };
        if bound_here {
            match find_image(words, &index, id) {
                Some(image) => {
                    proof {
                        lemma_site_within(words@, Site::Image, image as int);
                        assert(is_first_image_at(words@, wanted_binding, id as int));
                    }
                    return match index.images[image] {
                        Some(at) => Some(ImageFormat::from_raw(words[at + 8])),
                        None => None,
                    };
                },
                None => {},
            }
        }
        id = id + 1;
    }
    None
}

} // verus!
