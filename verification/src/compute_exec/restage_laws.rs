//! What is read again of a window whose texels the engine no longer has.

use vstd::prelude::*;
use crate::compute_exec::request::{SampledImage, StorageImage};
use crate::compute_exec::restage::{
    WindowRead, loses_owed, sampled_restage, still_owed, storage_restage, window_len, window_read,
};
use crate::compute_exec::status::ComputeStatus;
use crate::residency::{ComputeStorageResidencyKey, Victims};
use crate::residency_laws::law_removal_splits_the_windows;

verus! {

/// A window is read by whole rows and whole texels: as many bytes for each row as the image
/// has room for, and as many for each texel as such a row has.
pub proof fn law_windows_are_read_by_rows(key: ComputeStorageResidencyKey, len: int)
    requires
        0 <= len < 0x1_0000_0000,
    ensures
        match window_read(key, len) {
            Some(read) => {
                &&& read.key == key
                &&& read.bpp > 0
                &&& key.height > 0 ==> read.tight * key.height <= len < (read.tight + 1)
                    * key.height
                &&& key.height == 0 ==> read.tight == len
                &&& key.width > 0 ==> read.bpp * key.width <= read.tight < (read.bpp + 1)
                    * key.width
                &&& key.width == 0 ==> read.bpp == read.tight
                &&& window_len(read) == read.tight * key.height
            },
            None => key.width > 0 && key.height > 0 ==> len < key.width * key.height,
        },
        window_read(key, len) is Some && key.width > 0 && key.height > 0 ==> len >= key.width
            * key.height,
{
    let rows: int = if key.height == 0 {
        1
    } else {
        key.height as int
    };
    let width: int = if key.width == 0 {
        1
    } else {
        key.width as int
    };
    let tight = len / rows;
    let bpp = tight / width;
    vstd::arithmetic::div_mod::lemma_fundamental_div_mod(len, rows);
    vstd::arithmetic::div_mod::lemma_fundamental_div_mod(tight, width);
    assert(0 <= tight <= len && tight * rows <= len < (tight + 1) * rows) by (nonlinear_arith)
        requires
            rows > 0,
            0 <= len,
            len == rows * tight + len % rows,
            0 <= len % rows < rows,
    ;
    assert(0 <= bpp <= tight && bpp * width <= tight < (bpp + 1) * width) by (nonlinear_arith)
        requires
            width > 0,
            0 <= tight,
            tight == width * bpp + tight % width,
            0 <= tight % width < width,
    ;
    if bpp == 0 {
        assert(len < width * rows) by (nonlinear_arith)
            requires
                len < (tight + 1) * rows,
                tight < (bpp + 1) * width,
                bpp == 0,
                rows > 0,
        ;
    } else {
        assert(len >= width * rows) by (nonlinear_arith)
            requires
                tight * rows <= len,
                bpp >= 1,
                bpp * width <= tight,
                width > 0,
                rows > 0,
        ;
    }
}

/// A storage image that was staged in full needs no reading. One that was not is read again
/// from its own window; a linear or heap texture has none to read, nor has one without an
/// identity.
pub proof fn law_skipped_seeds_are_read_again(image: StorageImage)
    ensures
        !image.seed_skipped ==> storage_restage(image) == Ok::<Option<WindowRead>, ComputeStatus>(
            None,
        ),
        image.seed_skipped && image.residency is None ==> storage_restage(image) == Err::<
            Option<WindowRead>,
            ComputeStatus,
        >(ComputeStatus::MetalFailed("compute_restage_skip_without_identity")),
        image.seed_skipped && image.residency is Some && image.residency->0.identity.mapping_id
            == 0xffff_ffff ==> storage_restage(image) == Err::<Option<WindowRead>, ComputeStatus>(
            ComputeStatus::MetalFailed("compute_restage_linear_lost"),
        ),
        image.seed_skipped && image.residency is Some && image.residency->0.identity.mapping_id
            == 0xffff_fffe ==> storage_restage(image) == Err::<Option<WindowRead>, ComputeStatus>(
            ComputeStatus::MetalFailed("compute_restage_heap_lost"),
        ),
        image.seed_skipped && image.residency is Some && image.residency->0.identity.mapping_id
            < 0xffff_fffe ==> match storage_restage(image) {
            Ok(read) => read is Some && read->0.key == image.residency->0.identity && read
                == window_read(image.residency->0.identity, image.bytes.len() as int),
            Err(status) => status == ComputeStatus::GuestIo("compute_restage_read") && window_read(
                image.residency->0.identity,
                image.bytes.len() as int,
            ) is None,
        },
{
}

/// A sampled image that was to come from a resident is read again from its own window.
pub proof fn law_lost_samples_are_read_again(image: SampledImage)
    ensures
        image.resident_bind is None ==> sampled_restage(image) == Ok::<
            Option<WindowRead>,
            ComputeStatus,
        >(None),
        image.resident_bind is Some && image.resident_bind->0.key.mapping_id == 0xffff_ffff
            ==> sampled_restage(image) == Err::<Option<WindowRead>, ComputeStatus>(
            ComputeStatus::MetalFailed("compute_restage_sampled_linear_lost"),
        ),
        image.resident_bind is Some && image.resident_bind->0.key.mapping_id == 0xffff_fffe
            ==> sampled_restage(image) == Err::<Option<WindowRead>, ComputeStatus>(
            ComputeStatus::MetalFailed("compute_restage_sampled_heap_lost"),
        ),
        image.resident_bind is Some && image.resident_bind->0.key.mapping_id < 0xffff_fffe
            ==> match sampled_restage(image) {
            Ok(read) => read is Some && read->0.key == image.resident_bind->0.key && read
                == window_read(image.resident_bind->0.key, image.bytes.len() as int),
            Err(status) => status == ComputeStatus::GuestIo("compute_restage_sampled_read")
                && window_read(image.resident_bind->0.key, image.bytes.len() as int) is None,
        },
{
}

/// What is owed of the window that is read again is owed no longer; all else still is.
pub proof fn law_reading_again_settles_one_window(
    owed: Seq<(ComputeStorageResidencyKey, u32)>,
    image: StorageImage,
    entry: (ComputeStorageResidencyKey, u32),
)
    ensures
        still_owed(owed, image).contains(entry) <==> owed.contains(entry) && !(image.seed_skipped
            && image.residency is Some && image.residency->0.identity == entry.0
            && entry.0.mapping_id < 0xffff_fffe),
{
    if loses_owed(image) {
        law_removal_splits_the_windows(
            owed,
            Victims::One { key: image.residency->0.identity },
            entry,
        );
    }
}

} // verus!
