//! What the dimensions of a dispatch are, axis by axis.

use vstd::prelude::*;
use crate::compute_exec::command::{ComputeCommand, Kind};
use crate::compute_exec::dims::{
    DispatchDims, TextureExtent, argument_bytes, dispatch_dims, largest, lemma_tiles_cover,
    tiles, workgroups_spec,
};
use crate::compute_exec::status::ComputeStatus;
use crate::contract::little_endian;

verus! {

/// A dispatch in threads runs, on each axis, the least number of workgroups that
/// covers the axis by that axis's threadgroup size. One in threadgroups runs what it
/// says.
pub proof fn law_workgroups_tile_each_axis(dims: DispatchDims)
    requires
        dims.grid_x > 0 && dims.grid_y > 0 && dims.grid_z > 0,
        dims.tg_x > 0 && dims.tg_y > 0 && dims.tg_z > 0,
    ensures
        ({
            let (x, y, z) = workgroups_spec(dims);
            &&& dims.threads ==> x * dims.tg_x >= dims.grid_x > (x - 1) * dims.tg_x
            &&& dims.threads ==> y * dims.tg_y >= dims.grid_y > (y - 1) * dims.tg_y
            &&& dims.threads ==> z * dims.tg_z >= dims.grid_z > (z - 1) * dims.tg_z
            &&& !dims.threads ==> x == dims.grid_x && y == dims.grid_y && z == dims.grid_z
        }),
{
    lemma_axis(dims.grid_x, dims.tg_x);
    lemma_axis(dims.grid_y, dims.tg_y);
    lemma_axis(dims.grid_z, dims.tg_z);
}

proof fn lemma_axis(n: u32, d: u32)
    requires
        n > 0,
        d > 0,
    ensures
        ({
            let q = tiles(n as int, d as int) as u32;
            q * d >= n > (q - 1) * d
        }),
{
    lemma_tiles_cover(n as int, d as int);
    let q = tiles(n as int, d as int);
    assert(0 <= q <= n) by (nonlinear_arith)
        requires
            q >= 0,
            n > (q - 1) * d,
            d > 0,
            n > 0,
    ;
}

/// Four bytes, the lowest first.
pub open spec fn word_at(raw: Seq<u8>, at: int) -> int {
    raw[at] + raw[at + 1] * 0x100 + raw[at + 2] * 0x1_0000 + raw[at + 3] * 0x100_0000
}

pub proof fn lemma_word(raw: Seq<u8>, at: int)
    ensures
        little_endian(raw, at, 4) == word_at(raw, at),
        0 <= word_at(raw, at) <= u32::MAX,
{
    reveal_with_fuel(little_endian, 5);
}

/// Every one of the six numbers is one that the engine can take.
pub open spec fn in_range(gx: int, gy: int, gz: int, tx: int, ty: int, tz: int) -> bool {
    &&& 1 <= gx <= 0xffff_ffff && 1 <= gy <= 0xffff_ffff && 1 <= gz <= 0xffff_ffff
    &&& 1 <= tx <= 0xffff_ffff && 1 <= ty <= 0xffff_ffff && 1 <= tz <= 0xffff_ffff
}

/// The dimensions are these, on each axis its own.
pub open spec fn dims_are(
    dims: Result<DispatchDims, ComputeStatus>,
    gx: int,
    gy: int,
    gz: int,
    tx: int,
    ty: int,
    tz: int,
    threads: bool,
) -> bool {
    match dims {
        Ok(d) => {
            &&& in_range(gx, gy, gz, tx, ty, tz)
            &&& d.grid_x == gx && d.grid_y == gy && d.grid_z == gz
            &&& d.tg_x == tx && d.tg_y == ty && d.tg_z == tz
            &&& d.threads == threads
        },
        Err(status) => status == ComputeStatus::BadGrid("compute_grid_dim_range") && !in_range(
            gx,
            gy,
            gz,
            tx,
            ty,
            tz,
        ),
    }
}

/// A direct dispatch has the dimensions of its command, on each axis its own, and says
/// whether they count threads. It is refused where one of them is zero or too large.
pub proof fn law_direct_dims_are_the_commands(
    command: ComputeCommand,
    target: Option<(u32, u32)>,
    arguments: Result<Seq<u8>, ComputeStatus>,
)
    requires
        command.kind == Kind::DispatchThreads || (command.kind == Kind::DispatchThreadgroups && (
        target is None || !height_is_open(command))),
    ensures
        ({
            let grid = command.grid;
            let tg = command.threads_per_threadgroup;
            dims_are(
                dispatch_dims(command, target, arguments),
                grid.x as int,
                grid.y as int,
                grid.z as int,
                tg.x as int,
                tg.y as int,
                tg.z as int,
                command.kind == Kind::DispatchThreads,
            )
        }),
{
}

/// An indirect dispatch takes three words for the grid; one in threads takes three
/// more for the threadgroup, which else is the command's.
pub proof fn law_indirect_dims_are_the_arguments(
    command: ComputeCommand,
    target: Option<(u32, u32)>,
    raw: Seq<u8>,
)
    requires
        command.kind == Kind::DispatchThreadgroupsIndirect || command.kind
            == Kind::DispatchThreadsIndirect,
    ensures
        ({
            let tg = command.threads_per_threadgroup;
            let dims = dispatch_dims(command, target, Ok(raw));
            &&& command.kind == Kind::DispatchThreadgroupsIndirect ==> argument_bytes(command.kind)
                == Some(12usize) && dims_are(
                dims,
                word_at(raw, 0),
                word_at(raw, 4),
                word_at(raw, 8),
                tg.x as int,
                tg.y as int,
                tg.z as int,
                false,
            )
            &&& command.kind == Kind::DispatchThreadsIndirect ==> argument_bytes(command.kind)
                == Some(24usize) && dims_are(
                dims,
                word_at(raw, 0),
                word_at(raw, 4),
                word_at(raw, 8),
                word_at(raw, 12),
                word_at(raw, 16),
                word_at(raw, 20),
                true,
            )
        }),
{
    lemma_word(raw, 0);
    lemma_word(raw, 4);
    lemma_word(raw, 8);
    lemma_word(raw, 12);
    lemma_word(raw, 16);
    lemma_word(raw, 20);
}

/// Arguments that could not be read refuse an indirect dispatch with their reason, and
/// what is no dispatch has no dimensions.
pub proof fn law_unread_arguments_refuse(
    command: ComputeCommand,
    target: Option<(u32, u32)>,
    status: ComputeStatus,
)
    ensures
        command.kind == Kind::DispatchThreadgroupsIndirect || command.kind
            == Kind::DispatchThreadsIndirect ==> dispatch_dims(command, target, Err(status))
            == Err::<DispatchDims, ComputeStatus>(status),
        !(command.kind is DispatchThreadgroups || command.kind is DispatchThreads
            || command.kind is DispatchThreadgroupsIndirect
            || command.kind is DispatchThreadsIndirect) ==> dispatch_dims(
            command,
            target,
            Err(status),
        ) == Err::<DispatchDims, ComputeStatus>(
            ComputeStatus::Unsupported("resolve_dims_unknown_kind"),
        ) && argument_bytes(command.kind) is None,
{
}

/// The command's height is still open: its grid has one column count, no height and one
/// layer, and its threadgroup one side alone.
pub open spec fn height_is_open(command: ComputeCommand) -> bool {
    &&& command.kind == Kind::DispatchThreadgroups
    &&& 1 <= command.grid.x <= 0x1_0000
    &&& command.grid.y == 0xffff_ffff_ffff_ffff
    &&& command.grid.z == 1
    &&& 1 <= command.threads_per_threadgroup.x <= 1024
    &&& command.threads_per_threadgroup.y == 0
    &&& command.threads_per_threadgroup.z == 1
}

/// Groups of `t` that cover an extent, no more than are needed and at most `0x1_0000`.
pub open spec fn covers_least(groups: int, t: int, extent: int) -> bool {
    &&& 1 <= groups <= 0x1_0000
    &&& groups * t >= extent || groups == 0x1_0000
    &&& groups > 1 ==> (groups - 1) * t < extent
}

/// A dispatch whose height is open is recovered from the texture it writes: square
/// threadgroups of the side it names, as many in each direction as cover the texture.
/// Where the command is another, or no texture is known, nothing is recovered.
pub proof fn law_open_height_is_recovered(command: ComputeCommand, target: (u32, u32))
    requires
        height_is_open(command),
    ensures
        forall|arguments: Result<Seq<u8>, ComputeStatus>|
            #![trigger dispatch_dims(command, Some(target), arguments)]
            {
                let side = command.threads_per_threadgroup.x;
                match dispatch_dims(command, Some(target), arguments) {
                    Ok(d) => {
                        &&& covers_least(d.grid_x as int, side as int, target.0 as int)
                        &&& covers_least(d.grid_y as int, side as int, target.1 as int)
                        &&& d.grid_z == 1 && d.tg_z == 1
                        &&& d.tg_x == side && d.tg_y == side
                        &&& !d.threads
                    },
                    Err(_) => false,
                }
            },
{
    let side = command.threads_per_threadgroup.x as int;
    lemma_covers(target.0 as int, side);
    lemma_covers(target.1 as int, side);
}

proof fn lemma_covers(extent: int, t: int)
    requires
        0 <= extent <= u32::MAX,
        1 <= t <= 1024,
    ensures
        ({
            let q = tiles(extent, t);
            let groups = if q > 0x1_0000 {
                0x1_0000
            } else if q < 1 {
                1
            } else {
                q
            };
            covers_least(groups, t, extent)
        }),
{
    lemma_tiles_cover(extent, t);
    let q = tiles(extent, t);
    if extent == 0 {
        assert(q == 0) by (nonlinear_arith)
            requires
                q == (t - 1) / t,
                t >= 1,
        ;
    } else if q > 0x1_0000 {
        assert((0x1_0000 - 1) * t < extent) by (nonlinear_arith)
            requires
                q > 0x1_0000,
                extent > (q - 1) * t,
                t >= 1,
        ;
    }
}

/// The size of a bound texture: its surface's where both sides are there, else its own.
pub open spec fn has_size(extent: TextureExtent, w: u32, h: u32) -> bool {
    &&& w > 0 && h > 0
    &&& extent.mapping == Some((w, h)) || (extent.linear == Some((w, h)) && match extent.mapping {
        Some((mw, mh)) => mw == 0 || mh == 0,
        None => true,
    })
}

/// The size that a recovery goes by is that of a bound texture. None covers more, and
/// those before it cover less; where there is none, no bound texture has a size.
pub proof fn law_target_is_the_first_largest(extents: Seq<TextureExtent>)
    ensures
        match largest(extents, extents.len() as int) {
            Some((w, h)) => exists|i: int|
                0 <= i < extents.len() && has_size(#[trigger] extents[i], w, h) && (forall|
                    k: int,
                    a: u32,
                    b: u32,
                |
                    0 <= k < extents.len() && #[trigger] has_size(extents[k], a, b) ==> a * b <= w
                        * h && (k < i ==> a * b < w * h)),
            None => forall|k: int, a: u32, b: u32|
                0 <= k < extents.len() ==> !#[trigger] has_size(extents[k], a, b),
        },
{
    lemma_first_largest(extents, extents.len() as int);
}

proof fn lemma_first_largest(extents: Seq<TextureExtent>, n: int)
    requires
        0 <= n <= extents.len(),
    ensures
        match largest(extents, n) {
            Some((w, h)) => exists|i: int|
                0 <= i < n && has_size(#[trigger] extents[i], w, h) && (forall|
                    k: int,
                    a: u32,
                    b: u32,
                |
                    0 <= k < n && #[trigger] has_size(extents[k], a, b) ==> a * b <= w * h && (k
                        < i ==> a * b < w * h)),
            None => forall|k: int, a: u32, b: u32|
                0 <= k < n ==> !#[trigger] has_size(extents[k], a, b),
        },
    decreases n,
{
    if n > 0 {
        lemma_first_largest(extents, n - 1);
        if largest(extents, n) is Some && largest(extents, n) != largest(extents, n - 1) {
            let (w, h) = largest(extents, n)->0;
            assert(has_size(extents[n - 1], w, h));
        }
    }
}

} // verus!
