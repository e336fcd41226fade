//! The grid and threadgroup dimensions of a dispatch.

use vstd::prelude::*;
use crate::compute_exec::command::{ComputeCommand, Kind};
use crate::compute_exec::status::ComputeStatus;
use crate::contract::{ld32, little_endian};

verus! {

/// Bytes of the arguments of an indirect dispatch by threadgroups.
pub const INDIRECT_THREADGROUPS_ARGS_LEN: usize = 12;
/// Bytes of the arguments of an indirect dispatch by threads.
pub const INDIRECT_THREADS_ARGS_LEN: usize = 24;
/// Bytes of the arguments of an indirect stage-in region.
pub const STAGE_IN_INDIRECT_ARGS_LEN: usize = 24;

/// The grid height that says: derive it from the write target.
pub const DEFERRED_GRID_Y_SENTINEL: u64 = 0xffff_ffff_ffff_ffff;
pub const GRID_DIM_MAX: u64 = 0x1_0000;
pub const THREADGROUP_DIM_MAX: u64 = 1024;

/// Grid, threadgroup, and whether the grid counts threads.
#[derive(Clone, Copy, Debug, PartialEq, Eq, Structural)]
pub struct DispatchDims {
    pub grid_x: u32,
    pub grid_y: u32,
    pub grid_z: u32,
    pub tg_x: u32,
    pub tg_y: u32,
    pub tg_z: u32,
    pub threads: bool,
}

/// A geometry of a texture, where it has one.
#[derive(Clone, Copy, Debug, PartialEq, Eq)]
pub struct TextureExtent {
    /// That of the mapped surface behind it, where its geometry is latched.
    pub mapping: Option<(u32, u32)>,
    /// That of its own descriptor, where it has both dimensions.
    pub linear: Option<(u32, u32)>,
}

/// A dimension pair without a zero.
pub open spec fn nonzero(dims: Option<(u32, u32)>) -> Option<(u32, u32)> {
    match dims {
        Some((w, h)) => if w > 0 && h > 0 {
            Some((w, h))
        } else {
            None
        },
        None => None,
    }
}

/// The dimensions that a bound texture counts with: the mapped surface's first.
pub open spec fn extent_dims(extent: TextureExtent) -> Option<(u32, u32)> {
    match nonzero(extent.mapping) {
        Some(dims) => Some(dims),
        None => nonzero(extent.linear),
    }
}

/// The pixels of a dimension pair.
pub open spec fn area(dims: (u32, u32)) -> int {
    dims.0 * dims.1
}

/// The largest of the first `n` textures by area, the first of equals.
pub open spec fn largest(extents: Seq<TextureExtent>, n: int) -> Option<(u32, u32)>
    decreases n,
{
    if n <= 0 {
        None
    } else {
        let best = largest(extents, n - 1);
        match extent_dims(extents[n - 1]) {
            Some(dims) => match best {
                Some(b) => if area(dims) > area(b) {
                    Some(dims)
                } else {
                    best
                },
                None => Some(dims),
            },
            None => best,
        }
    }
}

fn dims_of(extent: &TextureExtent) -> (dims: Option<(u32, u32)>)
    ensures
        dims == extent_dims(*extent),
{
    match extent.mapping {
        Some((w, h)) => {
            if w > 0 && h > 0 {
                return Some((w, h));
            }
        },
        None => {},
    }
    match extent.linear {
        Some((w, h)) => if w > 0 && h > 0 {
            Some((w, h))
        } else {
            None
        },
        None => None,
    }
}

/// The largest bound texture by pixel area: the full-screen write target rather
/// than the small inputs.
pub fn largest_bound_texture_dims(extents: &[TextureExtent]) -> (dims: Option<(u32, u32)>)
    ensures
        dims == largest(extents@, extents.len() as int),
{
    let mut best: Option<(u32, u32)> = None;
    let mut i: usize = 0;
    while i < extents.len()
        invariant
            i <= extents.len(),
            best == largest(extents@, i as int),
        decreases extents.len() - i,
    {
        match dims_of(&extents[i]) {
            Some((w, h)) => {
                let better = match best {
                    Some((bw, bh)) => {
                        assert(w * h <= 0xffff_ffff * 0xffff_ffff && bw * bh <= 0xffff_ffff
                            * 0xffff_ffff) by (nonlinear_arith)
                            requires
                                w <= 0xffff_ffff,
                                h <= 0xffff_ffff,
                                bw <= 0xffff_ffff,
                                bh <= 0xffff_ffff,
                        ;
                        w as u64 * h as u64 > bw as u64 * bh as u64
                    },
                    None => true,
                };
                if better {
                    best = Some((w, h));
                }
            },
            None => {},
        }
        i = i + 1;
    }
    best
}

/// The largest texture is one of the bound ones, and none is larger.
pub proof fn law_largest_is_largest(extents: Seq<TextureExtent>, n: int)
    requires
        0 <= n <= extents.len(),
    ensures
        match largest(extents, n) {
            Some(dims) => {
                &&& exists|i: int|
                    0 <= i < n && extent_dims(#[trigger] extents[i]) == Some(dims)
                &&& forall|i: int|
                    0 <= i < n && extent_dims(#[trigger] extents[i]) is Some ==> area(
                        extent_dims(extents[i])->0,
                    ) <= area(dims)
            },
            None => forall|i: int| 0 <= i < n ==> extent_dims(#[trigger] extents[i]) is None,
        },
    decreases n,
{
    if n > 0 {
        law_largest_is_largest(extents, n - 1);
        if largest(extents, n) is Some && largest(extents, n - 1) != largest(extents, n) {
            assert(extent_dims(extents[n - 1]) == largest(extents, n));
        }
    }
}

/// A grid dimension that the engine can take.
pub open spec fn valid_dim(v: u64) -> bool {
    0 < v <= u32::MAX
}

pub fn u32_dim(v: u64) -> (dim: Result<u32, ComputeStatus>)
    ensures
        dim == if valid_dim(v) {
            Ok::<u32, ComputeStatus>(v as u32)
        } else {
            Err::<u32, ComputeStatus>(ComputeStatus::BadGrid("compute_grid_dim_range"))
        },
{
    if v == 0 || v > 0xffff_ffff {
        Err(ComputeStatus::BadGrid("compute_grid_dim_range"))
    } else {
        Ok(v as u32)
    }
}

/// How many tiles of `d` cover `n`.
pub open spec fn tiles(n: int, d: int) -> int {
    if d == 0 {
        0
    } else {
        (n + d - 1) / d
    }
}

pub fn ceil_div_u64(n: u64, d: u64) -> (count: u64)
    ensures
        count == tiles(n as int, d as int),
{
    if d == 0 {
        return 0;
    }
    let q: u64 = n / d;
    let r: u64 = n % d;
    proof {
        vstd::arithmetic::div_mod::lemma_fundamental_div_mod(n as int, d as int);
        vstd::arithmetic::div_mod::lemma_mod_bound(n as int, d as int);
        if r == 0 {
            assert(n + d - 1 == q * d + (d - 1)) by (nonlinear_arith)
                requires
                    n == d * q + r,
                    r == 0,
            ;
            vstd::arithmetic::div_mod::lemma_fundamental_div_mod_converse(
                n + d - 1,
                d as int,
                q as int,
                d - 1,
            );
        } else {
            assert(n + d - 1 == (q + 1) * d + (r - 1)) by (nonlinear_arith)
                requires
                    n == d * q + r,
            ;
            vstd::arithmetic::div_mod::lemma_fundamental_div_mod_converse(
                n + d - 1,
                d as int,
                q + 1,
                r - 1,
            );
            assert(q < n) by (nonlinear_arith)
                requires
                    n == d * q + r,
                    r > 0,
                    d > 0,
                    q >= 0,
            ;
        }
    }
    if r == 0 {
        q
    } else {
        q + 1
    }
}

/// The tiled grid dimension, within the limit and at least one.
pub open spec fn tiled_dim(extent: u32, tile: u64) -> u32 {
    let count = tiles(extent as int, tile as int);
    if count > GRID_DIM_MAX {
        GRID_DIM_MAX as u32
    } else if count < 1 {
        1
    } else {
        count as u32
    }
}

/// The command asks to derive its grid from the write target.
pub open spec fn is_sentinel(command: ComputeCommand) -> bool {
    &&& command.kind == Kind::DispatchThreadgroups
    &&& 1 <= command.grid.x <= GRID_DIM_MAX
    &&& command.grid.y == DEFERRED_GRID_Y_SENTINEL
    &&& command.grid.z == 1
    &&& 1 <= command.threads_per_threadgroup.x <= THREADGROUP_DIM_MAX
    &&& command.threads_per_threadgroup.y == 0
    &&& command.threads_per_threadgroup.z == 1
}

/// The dimensions derived from the largest bound texture: square threadgroups
/// that tile it.
pub open spec fn recovered(command: ComputeCommand, target: Option<(u32, u32)>) -> Option<
    DispatchDims,
> {
    match target {
        Some((w, h)) => if is_sentinel(command) {
            let t = command.threads_per_threadgroup.x;
            Some(
                DispatchDims {
                    grid_x: tiled_dim(w, t),
                    grid_y: tiled_dim(h, t),
                    grid_z: 1,
                    tg_x: t as u32,
                    tg_y: t as u32,
                    tg_z: 1,
                    threads: false,
                },
            )
        } else {
            None
        },
        None => None,
    }
}

fn tile_grid(extent: u32, tile: u64) -> (dim: u32)
    ensures
        dim == tiled_dim(extent, tile),
{
    let count: u64 = ceil_div_u64(extent as u64, tile);
    if count > GRID_DIM_MAX {
        GRID_DIM_MAX as u32
    } else if count < 1 {
        1
    } else {
        count as u32
    }
}

/// Recover a dispatch whose grid is to be derived. `None` where the command is no
/// such dispatch or no texture supplies the coverage.
pub fn try_recover_sentinel_grid(command: &ComputeCommand, target: Option<(u32, u32)>) -> (dims:
    Option<DispatchDims>)
    ensures
        dims == recovered(*command, target),
{
    let (w, h) = match target {
        Some(dims) => dims,
        None => {
            return None;
        },
    };
    let grid = command.grid;
    let tg = command.threads_per_threadgroup;
    let sentinel = command.kind == Kind::DispatchThreadgroups && 1 <= grid.x && grid.x
        <= GRID_DIM_MAX && grid.y == DEFERRED_GRID_Y_SENTINEL && grid.z == 1 && 1 <= tg.x && tg.x
        <= THREADGROUP_DIM_MAX && tg.y == 0 && tg.z == 1;
    if !sentinel {
        return None;
    }
    let t: u64 = tg.x;
    Some(
        DispatchDims {
            grid_x: tile_grid(w, t),
            grid_y: tile_grid(h, t),
            grid_z: 1,
            tg_x: t as u32,
            tg_y: t as u32,
            tg_z: 1,
            threads: false,
        },
    )
}

/// A recovered grid covers the target in both directions, as far as the grid
/// limit reaches.
pub proof fn law_recovered_grid_covers_the_target(command: ComputeCommand, target: (u32, u32))
    requires
        is_sentinel(command),
    ensures
        ({
            let dims = recovered(command, Some(target))->0;
            &&& dims.grid_x * dims.tg_x >= target.0 || dims.grid_x == GRID_DIM_MAX
            &&& dims.grid_y * dims.tg_y >= target.1 || dims.grid_y == GRID_DIM_MAX
            &&& dims.grid_x >= 1 && dims.grid_y >= 1
        }),
{
    let t = command.threads_per_threadgroup.x;
    lemma_tiled_dim(target.0, t);
    lemma_tiled_dim(target.1, t);
}

proof fn lemma_tiled_dim(extent: u32, tile: u64)
    requires
        1 <= tile <= THREADGROUP_DIM_MAX,
    ensures
        tiled_dim(extent, tile) * tile >= extent || tiled_dim(extent, tile) == GRID_DIM_MAX,
        tiled_dim(extent, tile) >= 1,
{
    lemma_tiles_cover(extent as int, tile as int);
    let count = tiles(extent as int, tile as int);
    if count < 1 {
        assert(count == 0);
        assert(count * tile == 0) by (nonlinear_arith)
            requires
                count == 0,
        ;
    }
}

pub proof fn lemma_tiles_cover(n: int, d: int)
    requires
        n >= 0,
        d > 0,
    ensures
        tiles(n, d) * d >= n,
        n > 0 ==> n > (tiles(n, d) - 1) * d,
        tiles(n, d) >= 0,
{
    vstd::arithmetic::div_mod::lemma_fundamental_div_mod(n + d - 1, d);
    vstd::arithmetic::div_mod::lemma_mod_bound(n + d - 1, d);
    let q = (n + d - 1) / d;
    assert(q * d >= n && n > (q - 1) * d) by (nonlinear_arith)
        requires
            n + d - 1 == d * q + (n + d - 1) % d,
            0 <= (n + d - 1) % d < d,
    ;
    assert(q >= 0) by (nonlinear_arith)
        requires
            q * d >= n,
            n >= 0,
            d > 0,
    ;
}

/// All six dimensions, if each is one that the engine can take.
pub open spec fn checked_dims(
    gx: u64,
    gy: u64,
    gz: u64,
    tx: u64,
    ty: u64,
    tz: u64,
    threads: bool,
) -> Result<DispatchDims, ComputeStatus> {
    if valid_dim(gx) && valid_dim(gy) && valid_dim(gz) && valid_dim(tx) && valid_dim(ty)
        && valid_dim(tz) {
        Ok(
            DispatchDims {
                grid_x: gx as u32,
                grid_y: gy as u32,
                grid_z: gz as u32,
                tg_x: tx as u32,
                tg_y: ty as u32,
                tg_z: tz as u32,
                threads,
            },
        )
    } else {
        Err(ComputeStatus::BadGrid("compute_grid_dim_range"))
    }
}

fn check_dims(gx: u64, gy: u64, gz: u64, tx: u64, ty: u64, tz: u64, threads: bool) -> (dims: Result<
    DispatchDims,
    ComputeStatus,
>)
    ensures
        dims == checked_dims(gx, gy, gz, tx, ty, tz, threads),
{
    match (u32_dim(gx), u32_dim(gy), u32_dim(gz)) {
        (Ok(grid_x), Ok(grid_y), Ok(grid_z)) => match (u32_dim(tx), u32_dim(ty), u32_dim(tz)) {
            (Ok(tg_x), Ok(tg_y), Ok(tg_z)) => Ok(
                DispatchDims { grid_x, grid_y, grid_z, tg_x, tg_y, tg_z, threads },
            ),
            _ => Err(ComputeStatus::BadGrid("compute_grid_dim_range")),
        },
        _ => Err(ComputeStatus::BadGrid("compute_grid_dim_range")),
    }
}

/// Argument `i` of an indirect dispatch.
pub open spec fn argument(bytes: Seq<u8>, i: int) -> u64 {
    little_endian(bytes, 4 * i, 4) as u64
}

/// The arguments that an indirect dispatch of this kind reads, in bytes.
pub open spec fn argument_bytes(kind: Kind) -> Option<usize> {
    match kind {
        Kind::DispatchThreadgroupsIndirect => Some(INDIRECT_THREADGROUPS_ARGS_LEN),
        Kind::DispatchThreadsIndirect => Some(INDIRECT_THREADS_ARGS_LEN),
        _ => None,
    }
}

/// How many argument bytes to read for an indirect dispatch of this kind.
pub fn indirect_args_len(kind: Kind) -> (len: Option<usize>)
    ensures
        len == argument_bytes(kind),
{
    match kind {
        Kind::DispatchThreadgroupsIndirect => Some(INDIRECT_THREADGROUPS_ARGS_LEN),
        Kind::DispatchThreadsIndirect => Some(INDIRECT_THREADS_ARGS_LEN),
        _ => None,
    }
}

/// The dimensions of a dispatch: direct ones from the command, indirect ones from
/// the arguments in the guest's buffer, deferred ones from the write target.
pub open spec fn dispatch_dims(
    command: ComputeCommand,
    target: Option<(u32, u32)>,
    arguments: Result<Seq<u8>, ComputeStatus>,
) -> Result<DispatchDims, ComputeStatus> {
    let grid = command.grid;
    let tg = command.threads_per_threadgroup;
    match command.kind {
        Kind::DispatchThreadgroups => match recovered(command, target) {
            Some(dims) => Ok(dims),
            None => checked_dims(grid.x, grid.y, grid.z, tg.x, tg.y, tg.z, false),
        },
        Kind::DispatchThreads => checked_dims(grid.x, grid.y, grid.z, tg.x, tg.y, tg.z, true),
        Kind::DispatchThreadgroupsIndirect => match arguments {
            Ok(raw) => checked_dims(
                argument(raw, 0),
                argument(raw, 1),
                argument(raw, 2),
                tg.x,
                tg.y,
                tg.z,
                false,
            ),
            Err(status) => Err(status),
        },
        Kind::DispatchThreadsIndirect => match arguments {
            Ok(raw) => checked_dims(
                argument(raw, 0),
                argument(raw, 1),
                argument(raw, 2),
                argument(raw, 3),
                argument(raw, 4),
                argument(raw, 5),
                true,
            ),
            Err(status) => Err(status),
        },
        _ => Err(ComputeStatus::Unsupported("resolve_dims_unknown_kind")),
    }
}

/// An argument read by its view.
pub open spec fn arguments_view(arguments: Result<Vec<u8>, ComputeStatus>) -> Result<
    Seq<u8>,
    ComputeStatus,
> {
    match arguments {
        Ok(raw) => Ok(raw@),
        Err(status) => Err(status),
    }
}

/// Resolve the dimensions of a direct or indirect dispatch.
///
/// `target` is the largest bound texture; `arguments` is what reading the
/// indirect arguments came to, and does not count for a direct dispatch.
pub fn resolve_dispatch_dims(
    command: &ComputeCommand,
    target: Option<(u32, u32)>,
    arguments: &Result<Vec<u8>, ComputeStatus>,
) -> (dims: Result<DispatchDims, ComputeStatus>)
    requires
        match (argument_bytes(command.kind), *arguments) {
            (Some(len), Ok(raw)) => raw.len() == len,
            _ => true,
        },
    ensures
        dims == dispatch_dims(*command, target, arguments_view(*arguments)),
{
    let grid = command.grid;
    let tg = command.threads_per_threadgroup;
    match command.kind {
        Kind::DispatchThreadgroups => match try_recover_sentinel_grid(command, target) {
            Some(dims) => Ok(dims),
            None => check_dims(grid.x, grid.y, grid.z, tg.x, tg.y, tg.z, false),
        },
        Kind::DispatchThreads => check_dims(grid.x, grid.y, grid.z, tg.x, tg.y, tg.z, true),
        Kind::DispatchThreadgroupsIndirect => match arguments {
            Ok(raw) => {
                let raw = raw.as_slice();
                check_dims(
                    ld32(raw, 0) as u64,
                    ld32(raw, 4) as u64,
                    ld32(raw, 8) as u64,
                    tg.x,
                    tg.y,
                    tg.z,
                    false,
                )
            },
            Err(status) => Err(*status),
        },
        Kind::DispatchThreadsIndirect => match arguments {
            Ok(raw) => {
                let raw = raw.as_slice();
                check_dims(
                    ld32(raw, 0) as u64,
                    ld32(raw, 4) as u64,
                    ld32(raw, 8) as u64,
                    ld32(raw, 12) as u64,
                    ld32(raw, 16) as u64,
                    ld32(raw, 20) as u64,
                    true,
                )
            },
            Err(status) => Err(*status),
        },
        _ => Err(ComputeStatus::Unsupported("resolve_dims_unknown_kind")),
    }
}

/// The workgroups that a dispatch runs: a grid of threads is tiled by the
/// threadgroup.
pub open spec fn workgroups_spec(dims: DispatchDims) -> (u32, u32, u32) {
    if dims.threads {
        (
            tiles(dims.grid_x as int, dims.tg_x as int) as u32,
            tiles(dims.grid_y as int, dims.tg_y as int) as u32,
            tiles(dims.grid_z as int, dims.tg_z as int) as u32,
        )
    } else {
        (dims.grid_x, dims.grid_y, dims.grid_z)
    }
}

/// No dimension is zero.
pub open spec fn nonzero_dims(dims: DispatchDims) -> bool {
    &&& dims.grid_x > 0 && dims.grid_y > 0 && dims.grid_z > 0
    &&& dims.tg_x > 0 && dims.tg_y > 0 && dims.tg_z > 0
}

/// The workgroup counts of a dispatch.
pub fn workgroups(dims: &DispatchDims) -> (counts: (u32, u32, u32))
    requires
        nonzero_dims(*dims),
    ensures
        counts == workgroups_spec(*dims),
        counts.0 > 0 && counts.1 > 0 && counts.2 > 0,
        dims.threads ==> {
            &&& counts.0 * dims.tg_x >= dims.grid_x > (counts.0 - 1) * dims.tg_x
            &&& counts.1 * dims.tg_y >= dims.grid_y > (counts.1 - 1) * dims.tg_y
            &&& counts.2 * dims.tg_z >= dims.grid_z > (counts.2 - 1) * dims.tg_z
        },
        !dims.threads ==> counts.0 == dims.grid_x && counts.1 == dims.grid_y && counts.2
            == dims.grid_z,
{
    proof {
        crate::compute_exec::dims_laws::law_workgroups_tile_each_axis(*dims);
    }
    if dims.threads {
        (
            tile_threads(dims.grid_x, dims.tg_x),
            tile_threads(dims.grid_y, dims.tg_y),
            tile_threads(dims.grid_z, dims.tg_z),
        )
    } else {
        (dims.grid_x, dims.grid_y, dims.grid_z)
    }
}

fn tile_threads(grid: u32, tile: u32) -> (count: u32)
    requires
        grid > 0,
        tile > 0,
    ensures
        count == tiles(grid as int, tile as int) as u32,
        count > 0,
{
    let count: u64 = ceil_div_u64(grid as u64, tile as u64);
    proof {
        lemma_tiles_cover(grid as int, tile as int);
        assert(count <= grid) by (nonlinear_arith)
            requires
                count == (grid + tile - 1) / (tile as int),
                tile > 0,
                grid > 0,
        ;
        assert(count > 0) by (nonlinear_arith)
            requires
                count * tile >= grid,
                grid > 0,
                count >= 0,
        ;
    }
    count as u32
}

/// A resolved dispatch has no zero dimension.
pub proof fn law_resolved_dims_are_nonzero(
    command: ComputeCommand,
    target: Option<(u32, u32)>,
    arguments: Result<Seq<u8>, ComputeStatus>,
)
    requires
        dispatch_dims(command, target, arguments) is Ok,
    ensures
        nonzero_dims(dispatch_dims(command, target, arguments)->Ok_0),
{
    if command.kind == Kind::DispatchThreadgroups && recovered(command, target) is Some {
        law_recovered_grid_covers_the_target(command, target->0);
    }
}

} // verus!
