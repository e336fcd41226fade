//! Writing a dispatch's outputs back, and who holds them afterwards.

use vstd::prelude::*;
use crate::compute_exec::linear_cache::{LinearCache, LinearWindow, bgra, mirrorable, storable};
use crate::compute_exec::status::ComputeStatus;
use crate::compute_exec::texture::{StagedTexture, StagedView, TextureWriteback, zeroed, zeros};
use crate::mapping::next_generation;
use crate::model::{DeviceState, TaskSpan, write_allowed};

verus! {

/// What is left to do for a texture's writeback.
#[derive(Clone, Copy, Debug, PartialEq, Eq, Structural)]
pub enum WritebackStep {
    /// Nothing.
    Done,
    /// Write tight rows of `tight` bytes, `row_stride` apart, to task memory.
    WriteLinear { gva: u64, row_stride: u64, tight: usize, height: u32 },
    /// Write all tight rows to a mapped surface's window.
    WriteSurface {
        mapping_id: u32,
        surface_offset: u64,
        surface_bpr: u32,
        span_end: u64,
        width: u32,
        height: u32,
        bpp: u32,
        tight: u32,
    },
}

/// The step that a writeback comes to, once the host's copy was stored.
///
/// A linear window outside what the guest mapped has lost its alias, not its
/// texture: the host's copy is all there is to write.
pub open spec fn writeback_step(
    task_id: u32,
    texture: StagedView,
    spans: Seq<TaskSpan>,
) -> Result<WritebackStep, ComputeStatus> {
    match texture.writeback {
        TextureWriteback::Nowhere => Ok(WritebackStep::Done),
        TextureWriteback::Linear {
            texture_ref,
            gva,
            pixel_format,
            row_stride,
            width,
            height,
            bpp,
        } => {
            let window = LinearWindow { gva, pixel_format, width, height, row_stride };
            if width * bpp > row_stride || texture.bytes.len() < width * bpp * height {
                Err(ComputeStatus::GuestIo("compute_wb_tex_linear_layout"))
            } else if !storable(window, texture.bytes) {
                Err(ComputeStatus::GuestIo("compute_wb_tex_linear_cache_store"))
            } else if row_stride * height > u64::MAX {
                Err(ComputeStatus::GuestIo("compute_wb_tex_linear_span_overflow"))
            } else if !write_allowed(spans, task_id, gva, (row_stride * height) as u64) {
                Ok(WritebackStep::Done)
            } else {
                Ok(
                    WritebackStep::WriteLinear {
                        gva,
                        row_stride,
                        tight: (width * bpp) as usize,
                        height,
                    },
                )
            }
        },
        TextureWriteback::Type11 {
            mapping_id,
            surface_offset,
            surface_bpr,
            span_end,
            width,
            height,
            bpp,
        } => Ok(
            WritebackStep::WriteSurface {
                mapping_id,
                surface_offset,
                surface_bpr,
                span_end,
                width,
                height,
                bpp,
                tight: if width * bpp > u32::MAX {
                    u32::MAX
                } else {
                    (width * bpp) as u32
                },
            },
        ),
    }
}

/// A linear writeback stores the host's copy: its layout and its format are good.
pub open spec fn stores_copy(texture: StagedView) -> bool {
    match texture.writeback {
        TextureWriteback::Linear {
            texture_ref,
            gva,
            pixel_format,
            row_stride,
            width,
            height,
            bpp,
        } => {
            &&& width * bpp <= row_stride
            &&& texture.bytes.len() >= width * bpp * height
            &&& storable(
                LinearWindow { gva, pixel_format, width, height, row_stride },
                texture.bytes,
            )
        },
        _ => false,
    }
}

/// The host's copies after a writeback. Only the texture's own entry and color
/// change, and only where the copy is stored.
pub open spec fn is_stored(
    before: LinearCache,
    task_id: u32,
    texture: StagedView,
    after: LinearCache,
) -> bool {
    if !stores_copy(texture) {
        after == before
    } else {
        match texture.writeback {
            TextureWriteback::Linear {
                texture_ref,
                gva,
                pixel_format,
                row_stride,
                width,
                height,
                bpp,
            } => {
                &&& after.served(
                    task_id,
                    texture_ref,
                    LinearWindow { gva, pixel_format, width, height, row_stride },
                ) == Some(texture.bytes)
                &&& after.generation(task_id, texture_ref) == next_generation(
                    before.generation(task_id, texture_ref),
                )
                &&& mirrorable(pixel_format) ==> after.color(texture_ref, width, height) == Some(
                    bgra(pixel_format, texture.bytes),
                )
                &&& !mirrorable(pixel_format) ==> after.colors == before.colors
                &&& forall|t: u32, r: u32|
                    t != task_id || r != texture_ref ==> #[trigger] after.entry(t, r)
                        == before.entry(t, r)
                &&& forall|r: u32, w: u32, h: u32|
                    r != texture_ref ==> #[trigger] after.color(r, w, h) == before.color(r, w, h)
            },
            _ => true,
        }
    }
}

/// Begin writing a texture back: store and mirror the host's copy of a linear
/// one, and say what is left to write.
pub fn writeback_texture(
    state: &DeviceState,
    cache: &mut LinearCache,
    task_id: u32,
    texture: &StagedTexture,
) -> (step: Result<WritebackStep, ComputeStatus>)
    ensures
        step == writeback_step(task_id, texture@, state@.task_spans),
        is_stored(*old(cache), task_id, texture@, *final(cache)),
{
    match texture.writeback {
        TextureWriteback::Nowhere => Ok(WritebackStep::Done),
        TextureWriteback::Linear {
            texture_ref,
            gva,
            pixel_format,
            row_stride,
            width,
            height,
            bpp,
        } => {
            assert(width * bpp <= 0xffff_ffff * 0xffff_ffff) by (nonlinear_arith)
                requires
                    width <= 0xffff_ffff,
                    bpp <= 0xffff_ffff,
            ;
            assert(width * bpp * height <= 0xffff_ffff * 0xffff_ffff * 0xffff_ffff)
                by (nonlinear_arith)
                requires
                    width <= 0xffff_ffff,
                    bpp <= 0xffff_ffff,
                    height <= 0xffff_ffff,
            ;
            let tight: u64 = width as u64 * bpp as u64;
            let required: u128 = tight as u128 * height as u128;
            if tight > row_stride || (texture.bytes.len() as u128) < required {
                return Err(ComputeStatus::GuestIo("compute_wb_tex_linear_layout"));
            }
            let window = LinearWindow { gva, pixel_format, width, height, row_stride };
            if !cache.store_linear_texture(
                task_id,
                texture_ref,
                &window,
                texture.bytes.as_slice(),
            ) {
                return Err(ComputeStatus::GuestIo("compute_wb_tex_linear_cache_store"));
            }
            let ghost stored = *cache;
            cache.mirror_linear_color_cache(
                texture_ref,
                pixel_format,
                width,
                height,
                texture.bytes.as_slice(),
            );
            proof {
                assert forall|t: u32, r: u32| #[trigger] cache.entry(t, r) == stored.entry(t, r) by {
                }
                assert forall|r: u32, w: u32, h: u32|
                    r != texture_ref implies #[trigger] cache.color(r, w, h) == old(cache).color(
                    r,
                    w,
                    h,
                ) by {
                    assert(stored.color(r, w, h) == old(cache).color(r, w, h));
                }
                assert(cache.generation(task_id, texture_ref) == stored.generation(
                    task_id,
                    texture_ref,
                ));
                assert(cache.served(task_id, texture_ref, window) == stored.served(
                    task_id,
                    texture_ref,
                    window,
                ));
            }
            let span: u64 = match row_stride.checked_mul(height as u64) {
                Some(span) => span,
                None => {
                    return Err(ComputeStatus::GuestIo("compute_wb_tex_linear_span_overflow"));
                },
            };
            if !state.gva_write_allowed(task_id, gva, span) {
                return Ok(WritebackStep::Done);
            }
            Ok(WritebackStep::WriteLinear { gva, row_stride, tight: tight as usize, height })
        },
        TextureWriteback::Type11 {
            mapping_id,
            surface_offset,
            surface_bpr,
            span_end,
            width,
            height,
            bpp,
        } => {
            let tight: u32 = match width.checked_mul(bpp) {
                Some(tight) => tight,
                None => u32::MAX,
            };
            Ok(
                WritebackStep::WriteSurface {
                    mapping_id,
                    surface_offset,
                    surface_bpr,
                    span_end,
                    width,
                    height,
                    bpp,
                    tight,
                },
            )
        },
    }
}

/// The outcome of a writeback step, given whether its write succeeded.
pub fn finish_writeback(step: &WritebackStep, wrote: bool) -> (outcome: Result<(), ComputeStatus>)
    ensures
        outcome == match *step {
            WritebackStep::Done => Ok::<(), ComputeStatus>(()),
            WritebackStep::WriteLinear { .. } => if wrote {
                Ok(())
            } else {
                Err(ComputeStatus::GuestIo("compute_wb_tex_linear_guest_write"))
            },
            WritebackStep::WriteSurface { .. } => if wrote {
                Ok(())
            } else {
                Err(ComputeStatus::GuestIo("compute_wb_tex_type11_write"))
            },
        },
        wrote ==> outcome is Ok,
        *step is Done ==> outcome is Ok,
        !wrote && *step is WriteLinear ==> outcome == Err::<(), ComputeStatus>(
            ComputeStatus::GuestIo("compute_wb_tex_linear_guest_write"),
        ),
        !wrote && *step is WriteSurface ==> outcome == Err::<(), ComputeStatus>(
            ComputeStatus::GuestIo("compute_wb_tex_type11_write"),
        ),
{
    match step {
        WritebackStep::Done => Ok(()),
        WritebackStep::WriteLinear { .. } => if wrote {
            Ok(())
        } else {
            Err(ComputeStatus::GuestIo("compute_wb_tex_linear_guest_write"))
        },
        WritebackStep::WriteSurface { .. } => if wrote {
            Ok(())
        } else {
            Err(ComputeStatus::GuestIo("compute_wb_tex_type11_write"))
        },
    }
}

/// One row as it is written to task memory: the tight bytes, then zeros up to the
/// stride.
pub open spec fn row_written(bytes: Seq<u8>, y: int, tight: int, row_stride: int) -> Seq<u8> {
    bytes.subrange(y * tight, y * tight + tight) + zeros(row_stride - tight)
}

/// The row that is written where the span cannot be written in one piece.
pub fn padded_row(bytes: &Vec<u8>, y: usize, tight: usize, row_stride: usize) -> (row: Vec<u8>)
    requires
        y * tight + tight <= bytes.len(),
        tight <= row_stride,
    ensures
        row@ == row_written(bytes@, y as int, tight as int, row_stride as int),
{
    assert(0 <= y * tight <= bytes.len()) by (nonlinear_arith)
        requires
            y >= 0,
            tight >= 0,
            y * tight + tight <= bytes.len(),
    ;
    let start: usize = y * tight;
    let mut row = vstd::slice::slice_to_vec(
        vstd::slice::slice_subrange(bytes.as_slice(), start, start + tight),
    );
    let mut padding = zeroed(row_stride - tight);
    row.append(&mut padding);
    assert(row@ =~= row_written(bytes@, y as int, tight as int, row_stride as int));
    row
}

/// Where row `y` goes and what is written there, where the span cannot be written in
/// one piece; none where its address does not fit.
pub fn linear_row_write(
    bytes: &Vec<u8>,
    gva: u64,
    row_stride: usize,
    tight: usize,
    y: u32,
) -> (write: Option<(u64, Vec<u8>)>)
    requires
        y * tight + tight <= bytes.len(),
        tight <= row_stride,
    ensures
        match write {
            Some((at, row)) => at == gva + y * row_stride && row@ == row_written(
                bytes@,
                y as int,
                tight as int,
                row_stride as int,
            ),
            None => gva + y * row_stride > u64::MAX,
        },
{
    match (y as u64).checked_mul(row_stride as u64) {
        Some(offset) => match gva.checked_add(offset) {
            Some(at) => Some((at, padded_row(bytes, y as usize, tight, row_stride))),
            None => None,
        },
        None => None,
    }
}

/// A row written by itself begins with the texture's own row.
pub proof fn law_row_write_holds_the_row(bytes: Seq<u8>, y: int, tight: int, row_stride: int)
    requires
        0 <= y,
        0 <= tight <= row_stride,
        y * tight + tight <= bytes.len(),
    ensures
        row_written(bytes, y, tight, row_stride).len() == row_stride,
        row_written(bytes, y, tight, row_stride).take(tight) == bytes.subrange(
            y * tight,
            y * tight + tight,
        ),
{
    assert(0 <= y * tight) by (nonlinear_arith)
        requires
            0 <= y,
            0 <= tight,
    ;
    assert(row_written(bytes, y, tight, row_stride).take(tight) =~= bytes.subrange(
        y * tight,
        y * tight + tight,
    ));
}

} // verus!
