//! The host's copies of linear textures: a compute output outlives the guest's
//! page-table alias of its memory.

use vstd::prelude::*;
use crate::contract::{
    MTL_FORMAT_BGRA8_UNORM, MTL_FORMAT_BGRA8_UNORM_SRGB, MTL_FORMAT_RGBA8_UNORM,
    MTL_FORMAT_RGBA8_UNORM_SRGB, bytes_per_pixel, texel_bytes,
};
use crate::mapping::{bump_generation, next_generation};

verus! {

/// Which window of task memory a linear texture occupies.
#[derive(Clone, Copy, Debug, PartialEq, Eq, Structural)]
pub struct LinearWindow {
    pub gva: u64,
    pub pixel_format: u16,
    pub width: u32,
    pub height: u32,
    pub row_stride: u64,
}

/// A cached linear texture.
#[derive(Clone, Debug, PartialEq, Eq)]
pub struct LinearTexture {
    pub task_id: u32,
    pub texture_ref: u32,
    pub window: LinearWindow,
    /// Tight rows.
    pub bytes: Vec<u8>,
    /// Changes whenever the bytes do.
    pub host_gen: u32,
    /// The engine's generation where its resident is authoritative; zero where
    /// the bytes are.
    pub resident_gen: u32,
}

/// A texture's color in BGRA, for render sampling.
#[derive(Clone, Debug, PartialEq, Eq)]
pub struct ColorTexture {
    pub texture_ref: u32,
    pub width: u32,
    pub height: u32,
    pub bytes: Vec<u8>,
}

/// The host's copies, by task and reference, and their color mirrors.
#[derive(Clone, Debug, PartialEq, Eq)]
pub struct LinearCache {
    pub entries: Vec<LinearTexture>,
    pub colors: Vec<ColorTexture>,
}

/// The position of the first entry of a texture from `i` on.
pub open spec fn entry_from(
    entries: Seq<LinearTexture>,
    i: int,
    task_id: u32,
    texture_ref: u32,
) -> Option<int>
    decreases entries.len() - i,
{
    if i < 0 || i >= entries.len() {
        None
    } else if entries[i].task_id == task_id && entries[i].texture_ref == texture_ref {
        Some(i)
    } else {
        entry_from(entries, i + 1, task_id, texture_ref)
    }
}

/// The position of the first color of a texture from `i` on.
pub open spec fn color_from(colors: Seq<ColorTexture>, i: int, texture_ref: u32) -> Option<int>
    decreases colors.len() - i,
{
    if i < 0 || i >= colors.len() {
        None
    } else if colors[i].texture_ref == texture_ref {
        Some(i)
    } else {
        color_from(colors, i + 1, texture_ref)
    }
}

/// Formats whose color the render path samples from the mirror.
pub open spec fn mirrorable(format: u16) -> bool {
    format == MTL_FORMAT_RGBA8_UNORM || format == MTL_FORMAT_RGBA8_UNORM_SRGB || format
        == MTL_FORMAT_BGRA8_UNORM || format == MTL_FORMAT_BGRA8_UNORM_SRGB
}

pub fn linear_mirrorable(format: u16) -> (r: bool)
    ensures
        r == mirrorable(format),
{
    format == MTL_FORMAT_RGBA8_UNORM || format == MTL_FORMAT_RGBA8_UNORM_SRGB || format
        == MTL_FORMAT_BGRA8_UNORM || format == MTL_FORMAT_BGRA8_UNORM_SRGB
}

/// The format's channels are in RGBA order.
pub open spec fn is_rgba(format: u16) -> bool {
    format == MTL_FORMAT_RGBA8_UNORM || format == MTL_FORMAT_RGBA8_UNORM_SRGB
}

/// Texels with their first and third channels exchanged.
pub open spec fn exchanged(bytes: Seq<u8>) -> Seq<u8> {
    Seq::new(
        bytes.len(),
        |i: int|
            if i % 4 == 0 && i + 2 < bytes.len() {
                bytes[i + 2]
            } else if i % 4 == 2 {
                bytes[i - 2]
            } else {
                bytes[i]
            },
    )
}

/// The color of a mirrorable texture in BGRA.
pub open spec fn bgra(format: u16, bytes: Seq<u8>) -> Seq<u8> {
    if is_rgba(format) {
        exchanged(bytes)
    } else {
        bytes
    }
}

fn to_bgra(format: u16, bytes: &[u8]) -> (out: Vec<u8>)
    ensures
        out@ == bgra(format, bytes@),
{
    let swap = format == MTL_FORMAT_RGBA8_UNORM || format == MTL_FORMAT_RGBA8_UNORM_SRGB;
    let n: usize = bytes.len();
    let mut out: Vec<u8> = Vec::new();
    let mut i: usize = 0;
    while i < n
        invariant
            n == bytes.len(),
            i <= n,
            swap == is_rgba(format),
            out@ == bgra(format, bytes@).take(i as int),
        decreases n - i,
    {
        let lane: usize = i % 4;
        let byte: u8 = if swap && lane == 0 && n - i > 2 {
            bytes[i + 2]
        } else if swap && lane == 2 {
            bytes[i - 2]
        } else {
            bytes[i]
        };
        assert(byte == bgra(format, bytes@)[i as int]);
        out.push(byte);
        i = i + 1;
        assert(out@ =~= bgra(format, bytes@).take(i as int));
    }
    assert(out@ =~= bgra(format, bytes@));
    out
}

/// Exchanging the channels of whole texels twice changes nothing.
pub proof fn law_exchange_twice_is_nothing(bytes: Seq<u8>)
    requires
        bytes.len() % 4 == 0,
    ensures
        exchanged(exchanged(bytes)) == bytes,
{
    assert(exchanged(exchanged(bytes)) =~= bytes);
}

impl LinearCache {
    pub fn new() -> (cache: LinearCache)
        ensures
            cache.entries@.len() == 0,
            cache.colors@.len() == 0,
    {
        LinearCache { entries: Vec::new(), colors: Vec::new() }
    }

    fn find(&self, task_id: u32, texture_ref: u32) -> (found: Option<usize>)
        ensures
            match found {
                Some(i) => i < self.entries.len() && entry_from(
                    self.entries@,
                    0,
                    task_id,
                    texture_ref,
                ) == Some(i as int),
                None => entry_from(self.entries@, 0, task_id, texture_ref) is None,
            },
    {
        let mut i: usize = 0;
        while i < self.entries.len()
            invariant
                i <= self.entries.len(),
                entry_from(self.entries@, 0, task_id, texture_ref) == entry_from(
                    self.entries@,
                    i as int,
                    task_id,
                    texture_ref,
                ),
            decreases self.entries.len() - i,
        {
            if self.entries[i].task_id == task_id && self.entries[i].texture_ref == texture_ref {
                return Some(i);
            }
            i = i + 1;
        }
        None
    }

    /// The entry of a texture.
    pub open spec fn entry(&self, task_id: u32, texture_ref: u32) -> Option<LinearTexture> {
        match entry_from(self.entries@, 0, task_id, texture_ref) {
            Some(i) => Some(self.entries@[i]),
            None => None,
        }
    }

    /// The bytes that a texture's window is served from, where they are cached
    /// and authoritative.
    pub open spec fn served(
        &self,
        task_id: u32,
        texture_ref: u32,
        window: LinearWindow,
    ) -> Option<Seq<u8>> {
        match self.entry(task_id, texture_ref) {
            Some(e) => if e.window == window && e.resident_gen == 0 && storable(
                window,
                e.bytes@,
            ) {
                Some(e.bytes@)
            } else {
                None
            },
            None => None,
        }
    }

    pub fn get_linear_texture(
        &self,
        task_id: u32,
        texture_ref: u32,
        window: &LinearWindow,
    ) -> (bytes: Option<&Vec<u8>>)
        ensures
            match bytes {
                Some(b) => self.served(task_id, texture_ref, *window) == Some(b@),
                None => self.served(task_id, texture_ref, *window) is None,
            },
    {
        match self.find(task_id, texture_ref) {
            Some(i) => {
                let e = &self.entries[i];
                if e.window == *window && e.resident_gen == 0 && fills(window, e.bytes.len()) {
                    Some(&e.bytes)
                } else {
                    None
                }
            },
            None => None,
        }
    }

    /// The engine's generation where its resident is authoritative for the window.
    pub open spec fn resident(
        &self,
        task_id: u32,
        texture_ref: u32,
        window: LinearWindow,
    ) -> Option<u32> {
        match self.entry(task_id, texture_ref) {
            Some(e) => if e.window == window && e.resident_gen != 0 {
                Some(e.resident_gen)
            } else {
                None
            },
            None => None,
        }
    }

    pub fn linear_texture_resident_gen(
        &self,
        task_id: u32,
        texture_ref: u32,
        window: &LinearWindow,
    ) -> (generation: Option<u32>)
        ensures
            generation == self.resident(task_id, texture_ref, *window),
    {
        match self.find(task_id, texture_ref) {
            Some(i) => {
                let e = &self.entries[i];
                if e.window == *window && e.resident_gen != 0 {
                    Some(e.resident_gen)
                } else {
                    None
                }
            },
            None => None,
        }
    }

    /// The generation of a texture's host bytes; zero where none are cached.
    pub open spec fn generation(&self, task_id: u32, texture_ref: u32) -> u32 {
        match self.entry(task_id, texture_ref) {
            Some(e) => e.host_gen,
            None => 0,
        }
    }

    pub fn host_generation(&self, task_id: u32, texture_ref: u32) -> (generation: u32)
        ensures
            generation == self.generation(task_id, texture_ref),
    {
        match self.find(task_id, texture_ref) {
            Some(i) => self.entries[i].host_gen,
            None => 0,
        }
    }

    fn put(&mut self, texture: LinearTexture)
        ensures
            final(self).colors == old(self).colors,
            final(self).entry(texture.task_id, texture.texture_ref) == Some(texture),
            forall|t: u32, r: u32|
                t != texture.task_id || r != texture.texture_ref ==> #[trigger] final(self).entry(
                    t,
                    r,
                ) == old(self).entry(t, r),
    {
        let ghost before = self.entries@;
        let ghost key = (texture.task_id, texture.texture_ref);
        match self.find(texture.task_id, texture.texture_ref) {
            Some(i) => {
                let ghost stored = texture;
                self.entries.set(i, texture);
                proof {
                    lemma_entry_at(before, 0, stored.task_id, stored.texture_ref);
                    assert forall|t: u32, r: u32| true implies #[trigger] entry_from(
                        self.entries@,
                        0,
                        t,
                        r,
                    ) == entry_from(before, 0, t, r) by {
                        lemma_entry_same(before, self.entries@, 0, t, r);
                    }
                    assert forall|t: u32, r: u32|
                        t != stored.task_id || r != stored.texture_ref implies #[trigger] self.entry(
                        t,
                        r,
                    ) == old(self).entry(t, r) by {
                        lemma_entry_at(before, 0, t, r);
                    }
                }
            },
            None => {
                let ghost stored = texture;
                self.entries.push(texture);
                proof {
                    lemma_entry_pushed(before, stored, 0, stored.task_id, stored.texture_ref);
                    assert forall|t: u32, r: u32|
                        t != stored.task_id || r != stored.texture_ref implies #[trigger] self.entry(
                        t,
                        r,
                    ) == old(self).entry(t, r) by {
                        lemma_entry_pushed(before, stored, 0, t, r);
                        lemma_entry_at(before, 0, t, r);
                    }
                }
            },
        }
    }

    /// Store a texture's tight rows. Refused where the format has no texel size
    /// or the bytes are too few for the window.
    pub fn store_linear_texture(
        &mut self,
        task_id: u32,
        texture_ref: u32,
        window: &LinearWindow,
        bytes: &[u8],
    ) -> (stored: bool)
        ensures
            stored == storable(*window, bytes@),
            stored ==> final(self).served(task_id, texture_ref, *window) == Some(bytes@),
            stored ==> final(self).generation(task_id, texture_ref) == next_generation(
                old(self).generation(task_id, texture_ref),
            ),
            stored ==> forall|t: u32, r: u32|
                t != task_id || r != texture_ref ==> #[trigger] final(self).entry(t, r) == old(
                    self,
                ).entry(t, r),
            !stored ==> *final(self) == *old(self),
            final(self).colors == old(self).colors,
    {
        if !fills(window, bytes.len()) {
            return false;
        }
        let host_gen: u32 = bump_generation(self.host_generation(task_id, texture_ref));
        let copy = vstd::slice::slice_to_vec(bytes);
        self.put(
            LinearTexture {
                task_id,
                texture_ref,
                window: *window,
                bytes: copy,
                host_gen,
                resident_gen: 0,
            },
        );
        true
    }

    /// Mark the engine's resident as authoritative for a texture's window. The
    /// host's bytes, if any, are of an older generation and no longer served.
    pub fn note_linear_texture_resident(
        &mut self,
        task_id: u32,
        texture_ref: u32,
        window: &LinearWindow,
        generation: u32,
    ) -> (noted: bool)
        ensures
            noted == (texel_bytes(window.pixel_format) is Some && generation != 0),
            noted ==> final(self).resident(task_id, texture_ref, *window) == Some(generation),
            noted ==> final(self).generation(task_id, texture_ref) == generation,
            noted ==> forall|t: u32, r: u32|
                t != task_id || r != texture_ref ==> #[trigger] final(self).entry(t, r) == old(
                    self,
                ).entry(t, r),
            !noted ==> *final(self) == *old(self),
            final(self).colors == old(self).colors,
    {
        if bytes_per_pixel(window.pixel_format).is_none() || generation == 0 {
            return false;
        }
        self.put(
            LinearTexture {
                task_id,
                texture_ref,
                window: *window,
                bytes: Vec::new(),
                host_gen: generation,
                resident_gen: generation,
            },
        );
        true
    }

    /// Take back a resident's authority over a texture: its contents are lost.
    pub fn forget_resident(&mut self, task_id: u32, texture_ref: u32)
        ensures
            final(self).colors == old(self).colors,
            is_forgotten(*old(self), task_id, texture_ref, *final(self)),
            forall|t: u32, r: u32|
                t != task_id || r != texture_ref ==> #[trigger] final(self).entry(t, r) == old(
                    self,
                ).entry(t, r),
    {
        match self.find(task_id, texture_ref) {
            Some(i) => {
                proof {
                    lemma_entry_at(self.entries@, 0, task_id, texture_ref);
                }
                let window = self.entries[i].window;
                let host_gen: u32 = self.entries[i].host_gen;
                let bytes = vstd::slice::slice_to_vec(self.entries[i].bytes.as_slice());
                self.put(
                    LinearTexture {
                        task_id,
                        texture_ref,
                        window,
                        bytes,
                        host_gen,
                        resident_gen: 0,
                    },
                );
            },
            None => {},
        }
    }

    /// Mirror a texture's color into the render path's BGRA copies.
    pub fn mirror_linear_color_cache(
        &mut self,
        texture_ref: u32,
        pixel_format: u16,
        width: u32,
        height: u32,
        bytes: &[u8],
    )
        ensures
            final(self).entries == old(self).entries,
            mirrorable(pixel_format) ==> final(self).color(texture_ref, width, height) == Some(
                bgra(pixel_format, bytes@),
            ),
            forall|r: u32, w: u32, h: u32|
                r != texture_ref ==> #[trigger] final(self).color(r, w, h) == old(self).color(
                    r,
                    w,
                    h,
                ),
            !mirrorable(pixel_format) ==> *final(self) == *old(self),
    {
        if !linear_mirrorable(pixel_format) {
            return ;
        }
        let color = ColorTexture {
            texture_ref,
            width,
            height,
            bytes: to_bgra(pixel_format, bytes),
        };
        let ghost stored = color;
        let ghost before = self.colors@;
        match self.find_color(texture_ref) {
            Some(i) => {
                self.colors.set(i, color);
                proof {
                    lemma_color_at(before, 0, texture_ref);
                    lemma_color_same(before, self.colors@, 0, texture_ref);
                    assert forall|r: u32, w: u32, h: u32|
                        r != texture_ref implies #[trigger] self.color(r, w, h) == old(self).color(
                        r,
                        w,
                        h,
                    ) by {
                        lemma_color_at(before, 0, r);
                        lemma_color_same(before, self.colors@, 0, r);
                    }
                }
            },
            None => {
                self.colors.push(color);
                proof {
                    lemma_color_pushed(before, stored, 0, texture_ref);
                    assert forall|r: u32, w: u32, h: u32|
                        r != texture_ref implies #[trigger] self.color(r, w, h) == old(self).color(
                        r,
                        w,
                        h,
                    ) by {
                        lemma_color_at(before, 0, r);
                        lemma_color_pushed(before, stored, 0, r);
                    }
                }
            },
        }
    }

    /// The mirrored color of a texture of the given size.
    pub open spec fn color(&self, texture_ref: u32, width: u32, height: u32) -> Option<Seq<u8>> {
        match color_from(self.colors@, 0, texture_ref) {
            Some(i) => {
                let c = self.colors@[i];
                if c.width == width && c.height == height {
                    Some(c.bytes@)
                } else {
                    None
                }
            },
            None => None,
        }
    }

    fn find_color(&self, texture_ref: u32) -> (found: Option<usize>)
        ensures
            match found {
                Some(i) => i < self.colors.len() && color_from(self.colors@, 0, texture_ref)
                    == Some(i as int),
                None => color_from(self.colors@, 0, texture_ref) is None,
            },
    {
        let mut i: usize = 0;
        while i < self.colors.len()
            invariant
                i <= self.colors.len(),
                color_from(self.colors@, 0, texture_ref) == color_from(
                    self.colors@,
                    i as int,
                    texture_ref,
                ),
            decreases self.colors.len() - i,
        {
            if self.colors[i].texture_ref == texture_ref {
                return Some(i);
            }
            i = i + 1;
        }
        None
    }

    pub fn get_texture(&self, texture_ref: u32, width: u32, height: u32) -> (bytes: Option<
        &Vec<u8>,
    >)
        ensures
            match bytes {
                Some(b) => self.color(texture_ref, width, height) == Some(b@),
                None => self.color(texture_ref, width, height) is None,
            },
    {
        match self.find_color(texture_ref) {
            Some(i) => {
                let c = &self.colors[i];
                if c.width == width && c.height == height {
                    Some(&c.bytes)
                } else {
                    None
                }
            },
            None => None,
        }
    }
}

/// A resident lost its authority over a texture: the entry keeps its window, its
/// bytes and their generation.
pub open spec fn is_forgotten(
    before: LinearCache,
    task_id: u32,
    texture_ref: u32,
    after: LinearCache,
) -> bool {
    match (before.entry(task_id, texture_ref), after.entry(task_id, texture_ref)) {
        (Some(was), Some(is)) => {
            &&& is.resident_gen == 0
            &&& is.task_id == was.task_id
            &&& is.texture_ref == was.texture_ref
            &&& is.host_gen == was.host_gen
            &&& is.window == was.window
            &&& is.bytes@ == was.bytes@
        },
        (None, None) => after == before,
        _ => false,
    }
}

/// The bytes fill the window's tight rows.
pub open spec fn storable(window: LinearWindow, bytes: Seq<u8>) -> bool {
    match texel_bytes(window.pixel_format) {
        Some(bpp) => window.width * window.height * bpp <= bytes.len(),
        None => false,
    }
}

fn fills(window: &LinearWindow, len: usize) -> (r: bool)
    ensures
        r == match texel_bytes(window.pixel_format) {
            Some(bpp) => window.width * window.height * bpp <= len,
            None => false,
        },
{
    let bpp: u32 = match bytes_per_pixel(window.pixel_format) {
        Some(bpp) => bpp,
        None => {
            return false;
        },
    };
    let width: u32 = window.width;
    let height: u32 = window.height;
    assert(width * height <= 0xffff_ffff * 0xffff_ffff) by (nonlinear_arith)
        requires
            width <= 0xffff_ffff,
            height <= 0xffff_ffff,
    ;
    assert(width * height * bpp <= 0xffff_ffff * 0xffff_ffff * 16) by (nonlinear_arith)
        requires
            width <= 0xffff_ffff,
            height <= 0xffff_ffff,
            bpp <= 16,
    ;
    let need: u128 = width as u128 * height as u128 * bpp as u128;
    need <= len as u128
}

proof fn lemma_entry_at(entries: Seq<LinearTexture>, i: int, task_id: u32, texture_ref: u32)
    requires
        0 <= i,
    ensures
        match entry_from(entries, i, task_id, texture_ref) {
            Some(k) => i <= k < entries.len() && entries[k].task_id == task_id
                && entries[k].texture_ref == texture_ref,
            None => true,
        },
    decreases entries.len() - i,
{
    if i < entries.len() && !(entries[i].task_id == task_id && entries[i].texture_ref
        == texture_ref) {
        lemma_entry_at(entries, i + 1, task_id, texture_ref);
    }
}

proof fn lemma_entry_same(
    a: Seq<LinearTexture>,
    b: Seq<LinearTexture>,
    i: int,
    task_id: u32,
    texture_ref: u32,
)
    requires
        0 <= i,
        a.len() == b.len(),
        forall|k: int|
            0 <= k < a.len() ==> (#[trigger] a[k]).task_id == b[k].task_id && a[k].texture_ref
                == b[k].texture_ref,
    ensures
        entry_from(a, i, task_id, texture_ref) == entry_from(b, i, task_id, texture_ref),
    decreases a.len() - i,
{
    if i < a.len() {
        assert(a[i].task_id == b[i].task_id);
        lemma_entry_same(a, b, i + 1, task_id, texture_ref);
    }
}

proof fn lemma_entry_pushed(
    entries: Seq<LinearTexture>,
    last: LinearTexture,
    i: int,
    task_id: u32,
    texture_ref: u32,
)
    requires
        0 <= i <= entries.len(),
    ensures
        entry_from(entries.push(last), i, task_id, texture_ref) == match entry_from(
            entries,
            i,
            task_id,
            texture_ref,
        ) {
            Some(k) => Some(k),
            None => if last.task_id == task_id && last.texture_ref == texture_ref {
                Some(entries.len() as int)
            } else {
                None
            },
        },
    decreases entries.len() - i,
{
    let more = entries.push(last);
    if i < entries.len() {
        assert(more[i] == entries[i]);
        lemma_entry_pushed(entries, last, i + 1, task_id, texture_ref);
    } else {
        assert(more[i] == last);
        assert(entry_from(more, i + 1, task_id, texture_ref) is None);
    }
}

proof fn lemma_color_at(colors: Seq<ColorTexture>, i: int, texture_ref: u32)
    requires
        0 <= i,
    ensures
        match color_from(colors, i, texture_ref) {
            Some(k) => i <= k < colors.len() && colors[k].texture_ref == texture_ref,
            None => true,
        },
    decreases colors.len() - i,
{
    if i < colors.len() && colors[i].texture_ref != texture_ref {
        lemma_color_at(colors, i + 1, texture_ref);
    }
}

proof fn lemma_color_same(a: Seq<ColorTexture>, b: Seq<ColorTexture>, i: int, texture_ref: u32)
    requires
        0 <= i,
        a.len() == b.len(),
        forall|k: int| 0 <= k < a.len() ==> (#[trigger] a[k]).texture_ref == b[k].texture_ref,
    ensures
        color_from(a, i, texture_ref) == color_from(b, i, texture_ref),
    decreases a.len() - i,
{
    if i < a.len() {
        assert(a[i].texture_ref == b[i].texture_ref);
        lemma_color_same(a, b, i + 1, texture_ref);
    }
}

proof fn lemma_color_pushed(
    colors: Seq<ColorTexture>,
    last: ColorTexture,
    i: int,
    texture_ref: u32,
)
    requires
        0 <= i <= colors.len(),
    ensures
        color_from(colors.push(last), i, texture_ref) == match color_from(colors, i, texture_ref) {
            Some(k) => Some(k),
            None => if last.texture_ref == texture_ref {
                Some(colors.len() as int)
            } else {
                None
            },
        },
    decreases colors.len() - i,
{
    let more = colors.push(last);
    if i < colors.len() {
        assert(more[i] == colors[i]);
        lemma_color_pushed(colors, last, i + 1, texture_ref);
    } else {
        assert(more[i] == last);
        assert(color_from(more, i + 1, texture_ref) is None);
    }
}

} // verus!
