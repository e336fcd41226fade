//! SPIR-V set-0 binding analysis and relocation.
//!
//! The translator decorates every stage independently at descriptor set 0:
//! buffers `[0,32)`, textures `[32,64)`, samplers `[64,96)`, and the
//! framebuffer-fetch color inputs `[96,104)`. The engine builds one merged set
//! and rejects duplicate bindings, so fragment bindings are moved to bands of
//! their own, while the color-input band stays where it is.

pub mod access;
pub mod access_laws;
pub mod binding_laws;
pub mod capability;
pub mod edit;
pub mod format;
pub mod format_laws;
pub mod index;
pub mod literal_laws;
pub mod literals;
pub mod reflection;
pub mod reflection_laws;
pub mod relocate;
pub mod retype;
pub mod samplers;
pub mod specialize;
pub mod specialize_laws;
pub mod specialize_model;
pub mod stream;

pub use access::{BufferAccess, StorageImageAccess, buffer_access, storage_image_access};
pub use capability::ensure_storage_write_without_format_capability;
pub use format::{ImageFormat, image_format};
pub use reflection::{
    ImageAccess, ReflectedSampledKind, SampledImageKind, ShaderReflection,
    census_reflection_wellformed, image_access_from_reflection, log_folded_function_constants,
    reflected_sampled_kind, sampled_image_kind_from_reflection, vertex_position_pull_gate,
    vertex_pull_buffer_bindings,
};
pub use relocate::{
    COLOR_INPUT_BINDING_BASE, FRAG_BUFFER_BINDING_OFFSET, FRAG_SAMPLED_RESOURCE_BINDING_OFFSET,
    SAMPLER_BINDING_BASE, TEXTURE_BINDING_BASE, offset_fragment_buffer_bindings,
    offset_fragment_sampled_resource_bindings,
};
pub use samplers::sampler_bindings;
pub use specialize::specialize_image_formats;
pub use specialize_model::ImageFormatSpecializeError;
