//! Reading windows again after the engine lost its residents.
//!
//! A resident may vanish between staging and the run. The guest's pages still hold
//! what was last written back, so the window is read again, and the run retried once.

use vstd::prelude::*;
use crate::compute_exec::request::{SampledImage, StorageImage};
use crate::compute_exec::status::ComputeStatus;
use crate::model::{DeviceState, DeviceView};
use crate::residency::{ComputeStorageResidencyKey, Victims, survivors};

verus! {

/// A window to be read again, in tight rows.
#[derive(Clone, Copy, Debug, PartialEq, Eq, Structural)]
pub struct WindowRead {
    pub key: ComputeStorageResidencyKey,
    pub bpp: u32,
    pub tight: u32,
}

/// The bytes of a window's tight rows.
pub open spec fn window_len(read: WindowRead) -> int {
    read.tight * read.key.height
}

/// The tight row of an image whose rows fill `len` bytes.
pub open spec fn tight_of(key: ComputeStorageResidencyKey, len: int) -> u32 {
    let rows: int = if key.height == 0 {
        1
    } else {
        key.height as int
    };
    (len / rows) as u32
}

/// The bytes of a texel in such a row.
pub open spec fn texel_of(key: ComputeStorageResidencyKey, len: int) -> u32 {
    let width: int = if key.width == 0 {
        1
    } else {
        key.width as int
    };
    (tight_of(key, len) as int / width) as u32
}

/// How a window is read again, where its bytes hold texels at all.
pub open spec fn window_read(key: ComputeStorageResidencyKey, len: int) -> Option<WindowRead> {
    if texel_of(key, len) == 0 {
        None
    } else {
        Some(WindowRead { key, bpp: texel_of(key, len), tight: tight_of(key, len) })
    }
}

fn read_of(key: &ComputeStorageResidencyKey, len: usize) -> (read: Option<WindowRead>)
    ensures
        read == window_read(*key, len as int),
{
    let rows: u64 = if key.height == 0 {
        1
    } else {
        key.height as u64
    };
    let width: u32 = if key.width == 0 {
        1
    } else {
        key.width
    };
    let tight: u32 = #[verifier::truncate] ((len as u64 / rows) as u32);
    let bpp: u32 = tight / width;
    if bpp == 0 {
        None
    } else {
        Some(WindowRead { key: *key, bpp, tight })
    }
}

/// Why a storage image's window cannot be read again, or how it is.
pub open spec fn storage_restage(image: StorageImage) -> Result<
    Option<WindowRead>,
    ComputeStatus,
> {
    if !image.seed_skipped {
        Ok(None)
    } else {
        match image.residency {
            None => Err(ComputeStatus::MetalFailed("compute_restage_skip_without_identity")),
            Some(residency) => if residency.identity.linear_key() {
                Err(ComputeStatus::MetalFailed("compute_restage_linear_lost"))
            } else if residency.identity.heap_key() {
                Err(ComputeStatus::MetalFailed("compute_restage_heap_lost"))
            } else {
                match window_read(residency.identity, image.bytes.len() as int) {
                    None => Err(ComputeStatus::GuestIo("compute_restage_read")),
                    Some(read) => Ok(Some(read)),
                }
            },
        }
    }
}

/// The window is a surface's whose seed was skipped: whatever it still owed the
/// guest is lost with the resident.
pub open spec fn loses_owed(image: StorageImage) -> bool {
    &&& image.seed_skipped
    &&& image.residency is Some
    &&& !image.residency->0.identity.linear_key()
    &&& !image.residency->0.identity.heap_key()
}

/// What is still owed to the guest once an image's resident is given up.
pub open spec fn still_owed(
    owed: Seq<(ComputeStorageResidencyKey, u32)>,
    image: StorageImage,
) -> Seq<(ComputeStorageResidencyKey, u32)> {
    if loses_owed(image) {
        survivors(owed, Victims::One { key: image.residency->0.identity })
    } else {
        owed
    }
}

/// Begin to restage a storage image. The contents of linear and heap windows live
/// in the lost resident alone, which is the end of them. What a surface window owed
/// the guest is forgotten before its older bytes are read.
pub fn begin_restage_storage(state: &mut DeviceState, image: &StorageImage) -> (read: Result<
    Option<WindowRead>,
    ComputeStatus,
>)
    requires
        old(state).wf(),
    ensures
        final(state).wf(),
        read == storage_restage(*image),
        final(state)@ == (DeviceView {
            compute_deferred_flush: still_owed(old(state)@.compute_deferred_flush, *image),
            ..old(state)@
        }),
{
    if !image.seed_skipped {
        return Ok(None);
    }
    let key = match image.residency {
        Some(residency) => residency.identity,
        None => {
            return Err(ComputeStatus::MetalFailed("compute_restage_skip_without_identity"));
        },
    };
    if key.is_linear() {
        return Err(ComputeStatus::MetalFailed("compute_restage_linear_lost"));
    }
    if key.is_heap() {
        return Err(ComputeStatus::MetalFailed("compute_restage_heap_lost"));
    }
    state.compute_deferred_flush.remove_all(Victims::One { key });
    match read_of(&key, image.bytes.len()) {
        Some(read) => Ok(Some(read)),
        None => Err(ComputeStatus::GuestIo("compute_restage_read")),
    }
}

/// Why a sampled image's window cannot be read again, or how it is.
pub open spec fn sampled_restage(image: SampledImage) -> Result<
    Option<WindowRead>,
    ComputeStatus,
> {
    match image.resident_bind {
        None => Ok(None),
        Some(bind) => if bind.key.linear_key() {
            Err(ComputeStatus::MetalFailed("compute_restage_sampled_linear_lost"))
        } else if bind.key.heap_key() {
            Err(ComputeStatus::MetalFailed("compute_restage_sampled_heap_lost"))
        } else {
            match window_read(bind.key, image.bytes.len() as int) {
                None => Err(ComputeStatus::GuestIo("compute_restage_sampled_read")),
                Some(read) => Ok(Some(read)),
            }
        },
    }
}

/// Begin to restage a sampled image.
pub fn begin_restage_sampled(image: &SampledImage) -> (read: Result<
    Option<WindowRead>,
    ComputeStatus,
>)
    ensures
        read == sampled_restage(*image),
{
    let key = match image.resident_bind {
        Some(bind) => bind.key,
        None => {
            return Ok(None);
        },
    };
    if key.is_linear() {
        return Err(ComputeStatus::MetalFailed("compute_restage_sampled_linear_lost"));
    }
    if key.is_heap() {
        return Err(ComputeStatus::MetalFailed("compute_restage_sampled_heap_lost"));
    }
    match read_of(&key, image.bytes.len()) {
        Some(read) => Ok(Some(read)),
        None => Err(ComputeStatus::GuestIo("compute_restage_sampled_read")),
    }
}

/// A restaged storage image no longer relies on a resident, so it is restaged once.
pub proof fn law_restaged_image_needs_no_resident(image: StorageImage, bytes: Vec<u8>)
    ensures
        storage_restage(StorageImage { bytes, seed_skipped: false, ..image }) == Ok::<
            Option<WindowRead>,
            ComputeStatus,
        >(None),
{
}

/// A window staged with whole rows is read again with the geometry it was staged with.
pub proof fn law_restage_recovers_the_geometry(
    key: ComputeStorageResidencyKey,
    bpp: u32,
    len: int,
)
    requires
        key.width > 0,
        key.height > 0,
        bpp > 0,
        key.width * bpp <= u32::MAX,
        len == key.width * bpp * key.height,
    ensures
        window_read(key, len) == Some(
            WindowRead { key, bpp, tight: (key.width * bpp) as u32 },
        ),
{
    let row = key.width * bpp;
    assert(len == row * key.height) by (nonlinear_arith)
        requires
            len == key.width * bpp * key.height,
            row == key.width * bpp,
    ;
    vstd::arithmetic::div_mod::lemma_div_by_multiple(row, key.height as int);
    assert(row == bpp * key.width) by (nonlinear_arith)
        requires
            row == key.width * bpp,
    ;
    vstd::arithmetic::div_mod::lemma_div_by_multiple(bpp as int, key.width as int);
}

} // verus!
