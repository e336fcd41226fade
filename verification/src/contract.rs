//! The guest contract: little-endian fields, page entries, pixel formats and the
//! byte windows that a surface's texels occupy.

use vstd::prelude::*;

verus! {

/// Little-endian value of bytes `at..at + n`.
pub open spec fn little_endian(bytes: Seq<u8>, at: int, n: nat) -> int
    decreases n,
{
    if n == 0 {
        0
    } else {
        bytes[at] + 256 * little_endian(bytes, at + 1, (n - 1) as nat)
    }
}

/// Load a little-endian `u32` at `at`.
pub fn ld32(bytes: &[u8], at: usize) -> (value: u32)
    requires
        at + 4 <= bytes.len(),
    ensures
        value == little_endian(bytes@, at as int, 4),
{
    proof {
        reveal_with_fuel(little_endian, 5);
    }
    let b0: u32 = bytes[at] as u32;
    let b1: u32 = bytes[at + 1] as u32;
    let b2: u32 = bytes[at + 2] as u32;
    let b3: u32 = bytes[at + 3] as u32;
    b0 + 256 * (b1 + 256 * (b2 + 256 * b3))
}

/// A number held to 64 bits.
pub open spec fn saturated(n: int) -> u64 {
    if n > u64::MAX {
        u64::MAX
    } else {
        n as u64
    }
}

/// A sum, at most the largest number.
pub fn saturating_sum(a: u64, b: u64) -> (sum: u64)
    ensures
        sum == saturated(a + b),
{
    match a.checked_add(b) {
        Some(sum) => sum,
        None => u64::MAX,
    }
}

/// Multiply, held to 64 bits.
pub fn saturating_product(a: u64, b: u64) -> (product: u64)
    ensures
        product == saturated(a * b),
{
    match a.checked_mul(b) {
        Some(product) => product,
        None => u64::MAX,
    }
}

/// Page shift of x86 guests.
pub const PAGE_SHIFT_X86: u32 = 12;
/// Page shift of arm64e guests.
pub const PAGE_SHIFT_ARM64E: u32 = 14;
/// Page size of arm64e guests.
pub const PAGE_SIZE_ARM64E: u64 = 0x4000;
/// Bits of a page-table entry below its page frame number.
pub const PAGE_ENTRY_PFN_SHIFT: u32 = 4;
/// The valid bit of a page-table entry.
pub const PAGE_ENTRY_VALID: u32 = 1;
/// Lowest guest kernel virtual address.
pub const GUEST_KERNEL_VA_BASE: u64 = 0xffff_fe00_0000_0000;
/// Bytes of one object-list entry.
pub const OBJECT_LIST_ENTRY_LEN: u64 = 12;

/// Size of a page.
pub open spec fn page_bytes(page_shift: u32) -> u64 {
    1u64 << page_shift
}

pub proof fn lemma_page_bytes(page_shift: u32)
    requires
        page_shift < 64,
    ensures
        page_bytes(page_shift) > 0,
        page_shift < 32 ==> page_bytes(page_shift) < 0x1_0000_0000,
{
    assert(page_shift < 64 ==> 1u64 << page_shift > 0) by (bit_vector);
    assert(page_shift < 32 ==> 1u64 << page_shift < 0x1_0000_0000) by (bit_vector);
}

pub fn page_size_of(page_shift: u32) -> (size: u64)
    requires
        page_shift < 64,
    ensures
        size == page_bytes(page_shift),
        size > 0,
        page_shift < 32 ==> size < 0x1_0000_0000,
{
    proof {
        lemma_page_bytes(page_shift);
    }
    1u64 << page_shift
}

/// The start of the page that holds `gpa`.
pub open spec fn page_start(gpa: u64, page: u64) -> u64 {
    (gpa - gpa % page) as u64
}

pub fn page_base(gpa: u64, page: u64) -> (base: u64)
    requires
        page > 0,
    ensures
        base == page_start(gpa, page),
{
    proof {
        vstd::arithmetic::div_mod::lemma_mod_decreases(gpa as nat, page as nat);
    }
    gpa - gpa % page
}

/// The guest-physical address that a page-table entry names, if it is valid.
pub open spec fn entry_gpa(entry: u32, page_shift: u32) -> Option<u64> {
    if entry & PAGE_ENTRY_VALID != 0 {
        Some(((entry >> PAGE_ENTRY_PFN_SHIFT) as u64) << page_shift)
    } else {
        None
    }
}

pub fn entry_gpa_shift(entry: u32, page_shift: u32) -> (gpa: Option<u64>)
    requires
        page_shift < 64,
    ensures
        gpa == entry_gpa(entry, page_shift),
{
    if entry & PAGE_ENTRY_VALID != 0 {
        Some(((entry >> PAGE_ENTRY_PFN_SHIFT) as u64) << page_shift)
    } else {
        None
    }
}

/// Whether an address is a guest kernel virtual address.
pub open spec fn is_guest_kernel_va(address: u64) -> bool {
    address >= GUEST_KERNEL_VA_BASE
}

pub fn guest_kernel_va(address: u64) -> (r: bool)
    ensures
        r == is_guest_kernel_va(address),
{
    address >= GUEST_KERNEL_VA_BASE
}

pub const MTL_FORMAT_R8_UNORM: u16 = 10;
pub const MTL_FORMAT_R16_FLOAT: u16 = 25;
pub const MTL_FORMAT_RG8_UNORM: u16 = 30;
pub const MTL_FORMAT_R32_UINT: u16 = 53;
pub const MTL_FORMAT_R32_FLOAT: u16 = 55;
pub const MTL_FORMAT_RG16_FLOAT: u16 = 65;
pub const MTL_FORMAT_RGBA8_UNORM: u16 = 70;
pub const MTL_FORMAT_RGBA8_UNORM_SRGB: u16 = 71;
pub const MTL_FORMAT_RGBA8_UINT: u16 = 73;
pub const MTL_FORMAT_RGBA8_SINT: u16 = 74;
pub const MTL_FORMAT_BGRA8_UNORM: u16 = 80;
pub const MTL_FORMAT_BGRA8_UNORM_SRGB: u16 = 81;
pub const MTL_FORMAT_RGB9E5_FLOAT: u16 = 93;
pub const MTL_FORMAT_RGBA16_UINT: u16 = 113;
pub const MTL_FORMAT_RGBA16_FLOAT: u16 = 115;
pub const MTL_FORMAT_RGBA32_UINT: u16 = 123;
pub const MTL_FORMAT_RGBA32_FLOAT: u16 = 125;

/// Bytes of one texel in an uncompressed Metal pixel format.
pub open spec fn texel_bytes(format: u16) -> Option<u32> {
    if format == 1 || 10 <= format <= 14 {
        Some(1)
    } else if 20 <= format <= 25 || 30 <= format <= 34 || 40 <= format <= 43 {
        Some(2)
    } else if 53 <= format <= 55 || 60 <= format <= 65 || 70 <= format <= 74 || 80 <= format <= 81
        || 90 <= format <= 94 {
        Some(4)
    } else if 103 <= format <= 105 || 110 <= format <= 115 {
        Some(8)
    } else if 123 <= format <= 125 {
        Some(16)
    } else {
        None
    }
}

pub fn bytes_per_pixel(format: u16) -> (bytes: Option<u32>)
    ensures
        bytes == texel_bytes(format),
{
    if format == 1 || (10 <= format && format <= 14) {
        Some(1)
    } else if (20 <= format && format <= 25) || (30 <= format && format <= 34) || (40 <= format
        && format <= 43) {
        Some(2)
    } else if (53 <= format && format <= 55) || (60 <= format && format <= 65) || (70 <= format
        && format <= 74) || (80 <= format && format <= 81) || (90 <= format && format <= 94) {
        Some(4)
    } else if (103 <= format && format <= 105) || (110 <= format && format <= 115) {
        Some(8)
    } else if 123 <= format && format <= 125 {
        Some(16)
    } else {
        None
    }
}

/// Row alignment of a packed surface.
pub const SURFACE_ROW_ALIGN: u64 = 128;

/// A byte window in a surface: where its rows start, how far apart they are, and
/// where the last one ends.
#[derive(Clone, Copy, Debug, PartialEq, Eq, Structural)]
pub struct SurfaceWindow {
    pub offset: u64,
    pub bytes_per_row: u32,
    pub end: u64,
}

/// Bytes of one row, rounded up to the row alignment.
pub open spec fn packed_row(width: int, bytes: int) -> int {
    (width * bytes + 127) / 128 * 128
}

/// The window of a packed surface of the given geometry.
pub open spec fn packed_window(format: u16, width: u32, height: u32) -> Option<SurfaceWindow> {
    match texel_bytes(format) {
        Some(bytes) => {
            let row = packed_row(width as int, bytes as int);
            if width == 0 || height == 0 || row > u32::MAX {
                None
            } else {
                Some(
                    SurfaceWindow {
                        offset: 0,
                        bytes_per_row: row as u32,
                        end: (row * height) as u64,
                    },
                )
            }
        },
        None => None,
    }
}

/// The window of a packed surface: 128-byte aligned rows from the start.
pub fn sample_window(format: u16, width: u32, height: u32) -> (window: Option<SurfaceWindow>)
    ensures
        window == packed_window(format, width, height),
{
    let bytes: u32 = match bytes_per_pixel(format) {
        Some(bytes) => bytes,
        None => {
            return None;
        },
    };
    if width == 0 || height == 0 {
        return None;
    }
    assert(width * bytes <= 0xffff_ffff * 16) by (nonlinear_arith)
        requires
            width <= 0xffff_ffff,
            bytes <= 16,
    ;
    let row: u64 = (width as u64 * bytes as u64 + 127) / 128 * 128;
    if row > 0xffff_ffff {
        return None;
    }
    assert(row * height <= 0xffff_ffff * 0xffff_ffff) by (nonlinear_arith)
        requires
            row <= 0xffff_ffff,
            height <= 0xffff_ffff,
    ;
    Some(SurfaceWindow { offset: 0, bytes_per_row: row as u32, end: row * height as u64 })
}

/// One plane of a surface, as the device descriptor records it.
#[derive(Clone, Copy, Debug, PartialEq, Eq, Structural)]
pub struct DevicePlane {
    pub width: u32,
    pub height: u32,
    pub bytes_per_element: u32,
    pub offset: u64,
    pub bytes_per_row: u32,
}

/// A decoded device descriptor of a surface.
#[derive(Clone, Debug, PartialEq, Eq)]
pub struct DeviceSurface {
    pub alloc_size: u32,
    pub width: u32,
    pub height: u32,
    pub pixel_format: u32,
    pub bytes_per_row: u32,
    pub planes: Vec<DevicePlane>,
}

/// What a device descriptor records.
pub struct DeviceSurfaceView {
    pub alloc_size: u32,
    pub width: u32,
    pub height: u32,
    pub pixel_format: u32,
    pub bytes_per_row: u32,
    pub planes: Seq<DevicePlane>,
}

impl View for DeviceSurface {
    type V = DeviceSurfaceView;

    open spec fn view(&self) -> DeviceSurfaceView {
        DeviceSurfaceView {
            alloc_size: self.alloc_size,
            width: self.width,
            height: self.height,
            pixel_format: self.pixel_format,
            bytes_per_row: self.bytes_per_row,
            planes: self.planes@,
        }
    }
}

impl DeviceSurface {
    /// A copy of the descriptor.
    pub fn duplicate(&self) -> (out: DeviceSurface)
        ensures
            out@ == self@,
    {
        let mut planes: Vec<DevicePlane> = Vec::new();
        let mut i: usize = 0;
        while i < self.planes.len()
            invariant
                i <= self.planes.len(),
                planes@ == self.planes@.take(i as int),
            decreases self.planes.len() - i,
        {
            planes.push(self.planes[i]);
            i = i + 1;
            assert(planes@ =~= self.planes@.take(i as int));
        }
        assert(planes@ =~= self.planes@);
        DeviceSurface {
            alloc_size: self.alloc_size,
            width: self.width,
            height: self.height,
            pixel_format: self.pixel_format,
            bytes_per_row: self.bytes_per_row,
            planes,
        }
    }
}

/// An optional descriptor by its view.
pub open spec fn surface_view(surface: Option<DeviceSurface>) -> Option<DeviceSurfaceView> {
    match surface {
        Some(s) => Some(s@),
        None => None,
    }
}

/// The plane holds texels of `bytes` bytes in the given geometry.
pub open spec fn plane_matches(plane: DevicePlane, bytes: u32, width: u32, height: u32) -> bool {
    plane.width == width && plane.height == height && plane.bytes_per_element == bytes
}

/// The window of rows `bytes_per_row` apart, where it fits 64 bits.
pub open spec fn rows_window(offset: u64, bytes_per_row: u32, height: u32) -> Option<
    SurfaceWindow,
> {
    if offset + bytes_per_row * height <= u64::MAX {
        Some(
            SurfaceWindow {
                offset,
                bytes_per_row,
                end: (offset + bytes_per_row * height) as u64,
            },
        )
    } else {
        None
    }
}

/// The window of the first matching plane.
pub open spec fn plane_window(
    planes: Seq<DevicePlane>,
    bytes: u32,
    width: u32,
    height: u32,
) -> Option<SurfaceWindow>
    decreases planes.len(),
{
    if planes.len() == 0 {
        None
    } else if plane_matches(planes[0], bytes, width, height) {
        rows_window(planes[0].offset, planes[0].bytes_per_row, height)
    } else {
        plane_window(planes.drop_first(), bytes, width, height)
    }
}

/// The window that a device descriptor gives a view: that of the matching plane,
/// or, on a surface without planes, rows at the surface's own stride where the
/// view's rows and height fit it.
pub open spec fn device_window(
    surface: DeviceSurfaceView,
    format: u16,
    width: u32,
    height: u32,
) -> Option<SurfaceWindow> {
    match texel_bytes(format) {
        Some(bytes) => if width == 0 || height == 0 {
            None
        } else if surface.planes.len() > 0 {
            plane_window(surface.planes, bytes, width, height)
        } else if surface.bytes_per_row > 0 && width * bytes <= surface.bytes_per_row && height
            <= surface.height {
            rows_window(0, surface.bytes_per_row, height)
        } else {
            None
        },
        None => None,
    }
}

fn rows(offset: u64, bytes_per_row: u32, height: u32) -> (window: Option<SurfaceWindow>)
    ensures
        window == rows_window(offset, bytes_per_row, height),
{
    assert(bytes_per_row * height <= 0xffff_ffff * 0xffff_ffff) by (nonlinear_arith)
        requires
            bytes_per_row <= 0xffff_ffff,
            height <= 0xffff_ffff,
    ;
    match offset.checked_add(bytes_per_row as u64 * height as u64) {
        Some(end) => Some(SurfaceWindow { offset, bytes_per_row, end }),
        None => None,
    }
}

pub fn sample_window_from_device(
    surface: &DeviceSurface,
    format: u16,
    width: u32,
    height: u32,
) -> (window: Option<SurfaceWindow>)
    ensures
        window == device_window(surface@, format, width, height),
{
    let bytes: u32 = match bytes_per_pixel(format) {
        Some(bytes) => bytes,
        None => {
            return None;
        },
    };
    if width == 0 || height == 0 {
        return None;
    }
    if surface.planes.len() == 0 {
        assert(width * bytes <= 0xffff_ffff * 16) by (nonlinear_arith)
            requires
                width <= 0xffff_ffff,
                bytes <= 16,
        ;
        if surface.bytes_per_row > 0 && width as u64 * bytes as u64 <= surface.bytes_per_row as u64
            && height <= surface.height {
            return rows(0, surface.bytes_per_row, height);
        }
        return None;
    }
    let mut i: usize = 0;
    assert(surface.planes@.skip(0) == surface.planes@);
    while i < surface.planes.len()
        invariant
            i <= surface.planes.len(),
            plane_window(surface.planes@, bytes, width, height) == plane_window(
                surface.planes@.skip(i as int),
                bytes,
                width,
                height,
            ),
            texel_bytes(format) == Some(bytes),
            width != 0 && height != 0,
            surface.planes.len() > 0,
        decreases surface.planes.len() - i,
    {
        let plane = surface.planes[i];
        assert(surface.planes@.skip(i as int)[0] == plane);
        assert(surface.planes@.skip(i as int).drop_first() == surface.planes@.skip(i + 1));
        if plane.width == width && plane.height == height && plane.bytes_per_element == bytes {
            return rows(plane.offset, plane.bytes_per_row, height);
        }
        i = i + 1;
    }
    None
}

/// The window of a view: the device descriptor's where it gives one, else packed.
pub open spec fn view_window(
    surface: Option<DeviceSurfaceView>,
    format: u16,
    width: u32,
    height: u32,
) -> Option<SurfaceWindow> {
    match surface {
        Some(s) => match device_window(s, format, width, height) {
            Some(window) => Some(window),
            None => packed_window(format, width, height),
        },
        None => packed_window(format, width, height),
    }
}

pub fn view_sample_window(
    surface: &Option<DeviceSurface>,
    format: u16,
    width: u32,
    height: u32,
) -> (window: Option<SurfaceWindow>)
    ensures
        window == view_window(surface_view(*surface), format, width, height),
{
    match surface {
        Some(s) => match sample_window_from_device(s, format, width, height) {
            Some(window) => Some(window),
            None => sample_window(format, width, height),
        },
        None => sample_window(format, width, height),
    }
}

} // verus!
