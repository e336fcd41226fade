//! What the guest's numbers and layouts mean.

use vstd::prelude::*;
use crate::contract::{
    DevicePlane, DeviceSurfaceView, SurfaceWindow, device_window, entry_gpa, is_guest_kernel_va,
    packed_row, packed_window, page_bytes, page_start, plane_window, texel_bytes, view_window,
};

verus! {

/// A page of shift `s` has `2^s` bytes: 4 KiB and 16 KiB for the two guests.
pub proof fn law_pages_are_powers_of_two(page_shift: u32)
    requires
        page_shift < 63,
    ensures
        page_bytes(0) == 1,
        page_bytes(12) == 0x1000,
        page_bytes(14) == 0x4000,
        page_bytes((page_shift + 1) as u32) == 2 * page_bytes(page_shift),
{
    assert(1u64 << 0u32 == 1) by (bit_vector);
    assert(1u64 << 12u32 == 0x1000) by (bit_vector);
    assert(1u64 << 14u32 == 0x4000) by (bit_vector);
    let next = (page_shift + 1) as u32;
    assert(1u64 << next == 2 * (1u64 << page_shift)) by (bit_vector)
        requires
            next == page_shift + 1,
            page_shift < 63,
    ;
}

/// A page entry is valid where its lowest bit is set. Its frame number starts at the
/// fifth bit, and the page lies at as many pages into memory.
pub proof fn law_page_entry(entry: u32, page_shift: u32)
    requires
        page_shift <= 32,
    ensures
        entry_gpa(entry, page_shift) is Some <==> entry as int % 2 == 1,
        entry_gpa(entry, page_shift) is Some ==> entry_gpa(entry, page_shift)->0 == (entry as int
            / 16) * page_bytes(page_shift),
{
    assert(entry & 1 != 0 <==> entry % 2 == 1) by (bit_vector);
    assert(entry >> 4 == entry / 16) by (bit_vector);
    let frame = (entry >> 4) as u64;
    assert((frame << page_shift) == frame * (1u64 << page_shift) && frame < 0x1000_0000
        && (1u64 << page_shift) <= 0x1_0000_0000) by (bit_vector)
        requires
            page_shift <= 32,
            frame == (entry >> 4) as u64,
    ;
    let size = page_bytes(page_shift);
    assert(frame * size < 0x1000_0000_0000_0000) by (nonlinear_arith)
        requires
            frame < 0x1000_0000,
            size <= 0x1_0000_0000,
    ;
}

/// The start of the page that an address lies in.
pub proof fn law_page_start(gpa: u64, page: u64)
    requires
        page > 0,
    ensures
        page_start(gpa, page) as int % page as int == 0,
        page_start(gpa, page) <= gpa < page_start(gpa, page) + page,
{
    let r = gpa as int % page as int;
    vstd::arithmetic::div_mod::lemma_fundamental_div_mod(gpa as int, page as int);
    vstd::arithmetic::div_mod::lemma_mod_multiples_basic(gpa as int / page as int, page as int);
    assert((gpa as int / page as int) * page as int == gpa - r) by (nonlinear_arith)
        requires
            gpa as int == page as int * (gpa as int / page as int) + r,
    ;
}

/// Kernel addresses are those of the topmost two tebibytes.
pub proof fn law_kernel_addresses(address: u64)
    ensures
        is_guest_kernel_va(address) <==> 0x1_0000_0000_0000_0000 - address <= 0x200_0000_0000,
{
}

/// The bytes of a texel, by the number of the pixel format.
pub proof fn law_texel_sizes(format: u16)
    ensures
        texel_bytes(format) == Some(1u32) <==> format == 1 || format == 10 || format == 11
            || format == 12 || format == 13 || format == 14,
        texel_bytes(format) == Some(2u32) <==> format == 20 || format == 21 || format == 22
            || format == 23 || format == 24 || format == 25 || format == 30 || format == 31
            || format == 32 || format == 33 || format == 34 || format == 40 || format == 41
            || format == 42 || format == 43,
        texel_bytes(format) == Some(4u32) <==> format == 53 || format == 54 || format == 55
            || format == 60 || format == 61 || format == 62 || format == 63 || format == 64
            || format == 65 || format == 70 || format == 71 || format == 72 || format == 73
            || format == 74 || format == 80 || format == 81 || format == 90 || format == 91
            || format == 92 || format == 93 || format == 94,
        texel_bytes(format) == Some(8u32) <==> format == 103 || format == 104 || format == 105
            || format == 110 || format == 111 || format == 112 || format == 113 || format == 114
            || format == 115,
        texel_bytes(format) == Some(16u32) <==> format == 123 || format == 124 || format == 125,
        texel_bytes(format) is Some ==> {
            let n = texel_bytes(format)->0;
            n == 1 || n == 2 || n == 4 || n == 8 || n == 16
        },
{
}

/// A window's rows are as far apart as it says, and it ends with the last one.
pub open spec fn rows_fill(window: SurfaceWindow, offset: int, row: int, height: int) -> bool {
    &&& window.offset == offset
    &&& window.bytes_per_row == row
    &&& window.end == offset + row * height
}

/// A surface without a descriptor is packed: from its start, each row padded to the next
/// multiple of 128 bytes.
pub proof fn law_packed_window(format: u16, width: u32, height: u32)
    ensures
        ({
            let window = packed_window(format, width, height);
            let tight = width * texel_bytes(format)->0;
            &&& window is Some ==> {
                let row = (window->0).bytes_per_row as int;
                &&& texel_bytes(format) is Some && width > 0 && height > 0
                &&& row % 128 == 0
                &&& tight <= row < tight + 128
                &&& rows_fill(window->0, 0, row, height as int)
            }
            &&& texel_bytes(format) is Some && width > 0 && height > 0 && tight <= 0xffff_ff80
                ==> window is Some
            &&& texel_bytes(format) is None || width == 0 || height == 0 || tight > 0xffff_ff80
                ==> window is None
        }),
{
    law_texel_sizes(format);
    if texel_bytes(format) is Some {
        let bytes = texel_bytes(format)->0;
        let tight = width * bytes;
        let row = packed_row(width as int, bytes as int);
        assert(0 <= tight) by (nonlinear_arith)
            requires
                tight == width * bytes,
        ;
        assert(row % 128 == 0 && tight <= row < tight + 128) by (nonlinear_arith)
            requires
                row == (tight + 127) / 128 * 128,
                tight >= 0,
        ;
        if row <= u32::MAX && height > 0 {
            assert(row * height <= u64::MAX) by (nonlinear_arith)
                requires
                    0 <= row <= u32::MAX,
                    height <= u32::MAX,
            ;
        }
        if tight <= 0xffff_ff80 {
            assert(row <= 0xffff_ff80) by (nonlinear_arith)
                requires
                    row == (tight + 127) / 128 * 128,
                    0 <= tight <= 0xffff_ff80,
            ;
        }
    }
}

/// A plane has the geometry and the texels that are asked for.
pub open spec fn plane_fits(plane: DevicePlane, bytes: u32, width: u32, height: u32) -> bool {
    plane.width == width && plane.height == height && plane.bytes_per_element == bytes
}

/// A surface with planes is seen through the first plane of the geometry and texel size
/// that are asked for: from that plane's offset, in that plane's rows.
pub proof fn law_plane_window(surface: DeviceSurfaceView, format: u16, width: u32, height: u32)
    requires
        texel_bytes(format) is Some,
        width > 0,
        height > 0,
        surface.planes.len() > 0,
    ensures
        ({
            let bytes = texel_bytes(format)->0;
            let window = device_window(surface, format, width, height);
            &&& (forall|i: int|
                0 <= i < surface.planes.len() ==> !plane_fits(
                    #[trigger] surface.planes[i],
                    bytes,
                    width,
                    height,
                )) ==> window is None
            &&& forall|i: int|
                0 <= i < surface.planes.len() && #[trigger] plane_fits(
                    surface.planes[i],
                    bytes,
                    width,
                    height,
                ) && (forall|k: int|
                    0 <= k < i ==> !plane_fits(
                        #[trigger] surface.planes[k],
                        bytes,
                        width,
                        height,
                    )) ==> {
                    let plane = surface.planes[i];
                    let end = plane.offset + plane.bytes_per_row * height;
                    &&& window is Some <==> end <= u64::MAX
                    &&& window is Some ==> rows_fill(
                        window->0,
                        plane.offset as int,
                        plane.bytes_per_row as int,
                        height as int,
                    )
                }
        }),
{
    let bytes = texel_bytes(format)->0;
    let planes = surface.planes;
    if forall|i: int|
        0 <= i < planes.len() ==> !plane_fits(#[trigger] planes[i], bytes, width, height) {
        lemma_no_plane(planes, bytes, width, height);
    }
    assert forall|i: int|
        0 <= i < planes.len() && #[trigger] plane_fits(planes[i], bytes, width, height) && (forall|
            k: int,
        |
            0 <= k < i ==> !plane_fits(
                #[trigger] planes[k],
                bytes,
                width,
                height,
            )) implies plane_window(planes, bytes, width, height)
        == crate::contract::rows_window(planes[i].offset, planes[i].bytes_per_row, height) by {
        lemma_first_plane(planes, bytes, width, height, i);
    }
}

proof fn lemma_no_plane(planes: Seq<DevicePlane>, bytes: u32, width: u32, height: u32)
    requires
        forall|i: int|
            0 <= i < planes.len() ==> !plane_fits(#[trigger] planes[i], bytes, width, height),
    ensures
        plane_window(planes, bytes, width, height) is None,
    decreases planes.len(),
{
    if planes.len() > 0 {
        assert(!plane_fits(planes[0], bytes, width, height));
        let rest = planes.drop_first();
        assert forall|i: int| 0 <= i < rest.len() implies !plane_fits(
            #[trigger] rest[i],
            bytes,
            width,
            height,
        ) by {
            assert(rest[i] == planes[i + 1]);
        }
        lemma_no_plane(rest, bytes, width, height);
    }
}

proof fn lemma_first_plane(
    planes: Seq<DevicePlane>,
    bytes: u32,
    width: u32,
    height: u32,
    i: int,
)
    requires
        0 <= i < planes.len(),
        plane_fits(planes[i], bytes, width, height),
        forall|k: int| 0 <= k < i ==> !plane_fits(#[trigger] planes[k], bytes, width, height),
    ensures
        plane_window(planes, bytes, width, height) == crate::contract::rows_window(
            planes[i].offset,
            planes[i].bytes_per_row,
            height,
        ),
    decreases i,
{
    if i > 0 {
        assert(!plane_fits(planes[0], bytes, width, height));
        let rest = planes.drop_first();
        assert(rest[i - 1] == planes[i]);
        assert forall|k: int| 0 <= k < i - 1 implies !plane_fits(
            #[trigger] rest[k],
            bytes,
            width,
            height,
        ) by {
            assert(rest[k] == planes[k + 1]);
        }
        lemma_first_plane(rest, bytes, width, height, i - 1);
    }
}

/// A surface without planes is seen in its own rows from its start, where a row of the
/// view fits into one of its and the view is no higher than it.
pub proof fn law_planeless_window(
    surface: DeviceSurfaceView,
    format: u16,
    width: u32,
    height: u32,
)
    requires
        surface.planes.len() == 0,
    ensures
        ({
            let window = device_window(surface, format, width, height);
            let bytes = texel_bytes(format)->0;
            &&& window is Some <==> texel_bytes(format) is Some && width > 0 && height > 0
                && surface.bytes_per_row > 0 && width * bytes <= surface.bytes_per_row && height
                <= surface.height
            &&& window is Some ==> rows_fill(
                window->0,
                0,
                surface.bytes_per_row as int,
                height as int,
            )
        }),
{
    let row = surface.bytes_per_row;
    assert(row * height <= u64::MAX) by (nonlinear_arith)
        requires
            row <= u32::MAX,
            height <= u32::MAX,
    ;
}

/// A view goes by the surface's descriptor where that has a window for it, and else is
/// packed.
pub proof fn law_view_window(
    surface: DeviceSurfaceView,
    format: u16,
    width: u32,
    height: u32,
)
    ensures
        view_window(None, format, width, height) == packed_window(format, width, height),
        device_window(surface, format, width, height) is Some ==> view_window(
            Some(surface),
            format,
            width,
            height,
        ) == device_window(surface, format, width, height),
        device_window(surface, format, width, height) is None ==> view_window(
            Some(surface),
            format,
            width,
            height,
        ) == packed_window(format, width, height),
        texel_bytes(format) is None || width == 0 || height == 0 ==> view_window(
            Some(surface),
            format,
            width,
            height,
        ) is None,
{
}

} // verus!
