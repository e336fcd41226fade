//! Reading and writing a surface's bytes through host views of its pages.

use vstd::prelude::*;
use crate::contract::page_bytes;
use crate::fake_host::lemma_page_index;
use crate::host::{
    GuestView, HostOps, PageView, avoids, same_mappings_shown, view_bytes, view_written,
};
use crate::mapper::owed::{lemma_revalidation_owes_no_more, owes_bytes, owes_no_more};
use crate::mapper::resolve::revalidation;
use crate::mapper::views::{
    contig_outcome, ensure_contig_view, flush_retired_views, has_view, lemma_flush_keeps_views,
    lemma_revalidation_keeps_views, mapping_page_gpas, packing, room_without, surface_pages,
    usable_pages, view_ok, views_flushed, views_ok, views_without,
};
use crate::model::{DeviceState, DeviceView};
use crate::observe::{FailLatch, LatchView};
use crate::residency::{Victims, survivors};

verus! {

/// The end of the run of pages in sequence that starts at page `i`.
pub open spec fn run_end(gpas: Seq<u64>, i: int, page: nat) -> int
    decreases gpas.len() - i,
{
    if 0 <= i && i + 1 < gpas.len() && gpas[i] + page == gpas[i + 1] {
        run_end(gpas, i + 1, page)
    } else {
        i + 1
    }
}

/// Pages `i..j` hold some of bytes `lo..hi`.
pub open spec fn run_touched(i: int, j: int, page: nat, lo: int, hi: int) -> bool {
    i * page < hi && lo < j * page
}

/// The host can lay out each run, from page `i` on, that holds some of bytes `lo..hi`.
pub open spec fn runs_pack(
    packable: spec_fn(Seq<u64>, nat) -> bool,
    gpas: Seq<u64>,
    page: nat,
    i: int,
    lo: int,
    hi: int,
) -> bool
    decreases gpas.len() - i,
{
    if i < 0 || i >= gpas.len() {
        true
    } else {
        let j = run_end(gpas, i, page);
        if j <= i || j > gpas.len() {
            true
        } else {
            &&& run_touched(i, j, page, lo, hi) ==> packable(gpas.subrange(i, j), page)
            &&& runs_pack(packable, gpas, page, j, lo, hi)
        }
    }
}

/// The page with which the first touched run starts that the host cannot lay out,
/// from page `i` on; past the last page, where there is none.
pub open spec fn packed_to(
    packable: spec_fn(Seq<u64>, nat) -> bool,
    gpas: Seq<u64>,
    page: nat,
    i: int,
    lo: int,
    hi: int,
) -> int
    decreases gpas.len() - i,
{
    if i < 0 || i >= gpas.len() {
        gpas.len() as int
    } else {
        let j = run_end(gpas, i, page);
        if j <= i || j > gpas.len() {
            gpas.len() as int
        } else if run_touched(i, j, page, lo, hi) && !packable(gpas.subrange(i, j), page) {
            i
        } else {
            packed_to(packable, gpas, page, j, lo, hi)
        }
    }
}

/// Where all runs can be laid out, none ends the access.
pub proof fn lemma_packed_whole(
    packable: spec_fn(Seq<u64>, nat) -> bool,
    gpas: Seq<u64>,
    page: nat,
    i: int,
    lo: int,
    hi: int,
)
    requires
        runs_pack(packable, gpas, page, i, lo, hi),
    ensures
        packed_to(packable, gpas, page, i, lo, hi) == gpas.len(),
    decreases gpas.len() - i,
{
    if 0 <= i < gpas.len() {
        let j = run_end(gpas, i, page);
        if i < j <= gpas.len() {
            lemma_packed_whole(packable, gpas, page, j, lo, hi);
        }
    }
}

/// How many of the `len` bytes from `off` on an access by runs gets to: those before
/// the first run that the host cannot lay out.
pub open spec fn bytes_reached(
    room: bool,
    packable: spec_fn(Seq<u64>, nat) -> bool,
    gpas: Seq<u64>,
    page: nat,
    off: int,
    len: int,
) -> int {
    if room {
        bytes_before(packed_to(packable, gpas, page, 0, off, off + len), page, off, len)
    } else {
        0
    }
}

proof fn lemma_run_end(gpas: Seq<u64>, i: int, page: nat)
    requires
        0 <= i < gpas.len(),
    ensures
        i < run_end(gpas, i, page) <= gpas.len(),
    decreases gpas.len() - i,
{
    if i + 1 < gpas.len() && gpas[i] + page == gpas[i + 1] {
        lemma_run_end(gpas, i + 1, page);
    }
}

fn find_run_end(gpas: &Vec<u64>, i: usize, page: usize) -> (j: usize)
    requires
        i < gpas.len(),
    ensures
        j == run_end(gpas@, i as int, page as nat),
        i < j <= gpas.len(),
{
    let mut j: usize = i + 1;
    let mut more = true;
    while more
        invariant
            i < j <= gpas.len(),
            run_end(gpas@, i as int, page as nat) == run_end(gpas@, j - 1, page as nat),
            !more ==> run_end(gpas@, j - 1, page as nat) == j,
        decreases gpas.len() - j, more as int,
    {
        more = false;
        if j < gpas.len() {
            let follows = match gpas[j - 1].checked_add(page as u64) {
                Some(next) => next == gpas[j],
                None => false,
            };
            if follows {
                j = j + 1;
                more = true;
            }
        }
    }
    j
}

/// Bytes written in two parts are those written in one go.
pub proof fn lemma_written_in_parts(
    ram: Map<int, u8>,
    view: PageView,
    off: int,
    a: Seq<u8>,
    b: Seq<u8>,
)
    ensures
        view_written(view_written(ram, view, off, a), view, off + a.len(), b) == view_written(
            ram,
            view,
            off,
            a + b,
        ),
    decreases b.len(),
{
    if b.len() == 0 {
        assert(a + b =~= a);
    } else {
        lemma_written_in_parts(ram, view, off, a, b.drop_last());
        assert((a + b).drop_last() =~= a + b.drop_last());
        assert((a + b).last() == b.last());
    }
}

/// A run of pages is a window of the whole list.
proof fn lemma_run_address(gpas: Seq<u64>, page: nat, i: int, j: int, o: int)
    requires
        0 <= i <= j <= gpas.len(),
        page > 0,
        0 <= o < (j - i) * page,
    ensures
        (PageView { gpas: gpas.subrange(i, j), page }).address(o) == (PageView {
            gpas,
            page,
        }).address(i * page + o),
{
    lemma_page_index(o, page as int, j - i);
    let q = o / (page as int);
    let r = o % (page as int);
    assert(i * page + o == (i + q) * page + r) by (nonlinear_arith)
        requires
            o == q * page + r,
    ;
    vstd::arithmetic::div_mod::lemma_fundamental_div_mod_converse(
        i * page + o,
        page as int,
        i + q,
        r,
    );
}

/// Writing through a run is writing through the whole list, further on.
proof fn lemma_run_written(
    ram: Map<int, u8>,
    gpas: Seq<u64>,
    page: nat,
    i: int,
    j: int,
    off: int,
    bytes: Seq<u8>,
)
    requires
        0 <= i <= j <= gpas.len(),
        page > 0,
        0 <= off,
        off + bytes.len() <= (j - i) * page,
    ensures
        view_written(ram, PageView { gpas: gpas.subrange(i, j), page }, off, bytes)
            == view_written(ram, PageView { gpas, page }, i * page + off, bytes),
    decreases bytes.len(),
{
    if bytes.len() > 0 {
        lemma_run_written(ram, gpas, page, i, j, off, bytes.drop_last());
        lemma_run_address(gpas, page, i, j, off + bytes.len() - 1);
    }
}

/// A run of pages avoids addresses where the whole list does, further on.
proof fn lemma_run_avoids(
    addresses: Set<int>,
    gpas: Seq<u64>,
    page: nat,
    i: int,
    j: int,
    off: int,
    len: int,
)
    requires
        0 <= i <= j <= gpas.len(),
        page > 0,
        0 <= off,
        off + len <= (j - i) * page,
        avoids(addresses, PageView { gpas, page }, i * page + off, len),
    ensures
        avoids(addresses, PageView { gpas: gpas.subrange(i, j), page }, off, len),
{
    let run = PageView { gpas: gpas.subrange(i, j), page };
    assert forall|o: int| off <= o < off + len implies !addresses.contains(
        #[trigger] run.address(o),
    ) by {
        lemma_run_address(gpas, page, i, j, o);
    }
}

/// Reading through a run is reading through the whole list, further on.
proof fn lemma_run_read(
    ram: Map<int, u8>,
    gpas: Seq<u64>,
    page: nat,
    i: int,
    j: int,
    off: int,
    len: nat,
)
    requires
        0 <= i <= j <= gpas.len(),
        page > 0,
        0 <= off,
        off + len <= (j - i) * page,
    ensures
        view_bytes(ram, PageView { gpas: gpas.subrange(i, j), page }, off, len) == view_bytes(
            ram,
            PageView { gpas, page },
            i * page + off,
            len,
        ),
{
    let run = PageView { gpas: gpas.subrange(i, j), page };
    let whole = PageView { gpas, page };
    assert forall|k: int| 0 <= k < len implies view_bytes(ram, run, off, len)[k] == view_bytes(
        ram,
        whole,
        i * page + off,
        len,
    )[k] by {
        lemma_run_address(gpas, page, i, j, off + k);
    }
    assert(view_bytes(ram, run, off, len) =~= view_bytes(ram, whole, i * page + off, len));
}

/// How many of the bytes from `off` on lie before page `i`.
pub open spec fn bytes_before(i: int, page: nat, off: int, len: int) -> int {
    if i * page <= off {
        0
    } else if i * page >= off + len {
        len
    } else {
        i * page - off
    }
}

/// Write through one view per run of pages in sequence. On a run that the host
/// cannot lay out, what came before it has been written.
fn write_runs<H: HostOps>(
    host: &mut H,
    gpas: &Vec<u64>,
    page: usize,
    off: usize,
    buf: &[u8],
) -> (wrote: bool)
    requires
        page > 0,
        gpas.len() * page <= usize::MAX,
        0 < buf.len(),
        off + buf.len() <= gpas.len() * page,
    ensures
        wrote == (old(host).room() && runs_pack(
            packing(*old(host)),
            gpas@,
            page as nat,
            0,
            off as int,
            off + buf.len(),
        )),
        avoids(
            old(host).guest().structures,
            PageView { gpas: gpas@, page: page as nat },
            off as int,
            buf.len() as int,
        ) ==> same_mappings_shown(old(host).guest(), final(host).guest()),
        final(host).views() == old(host).views(),
        final(host).room() == old(host).room(),
        forall|g: Seq<u64>, p: nat| #[trigger]
            final(host).packable(g, p) == old(host).packable(g, p),
        ({
            let k = bytes_reached(
                old(host).room(),
                packing(*old(host)),
                gpas@,
                page as nat,
                off as int,
                buf.len() as int,
            );
            &&& 0 <= k <= buf.len()
            &&& wrote ==> k == buf.len()
            &&& final(host).ram() == view_written(
                old(host).ram(),
                PageView { gpas: gpas@, page: page as nat },
                off as int,
                buf@.take(k),
            )
        }),
{
    let n: usize = gpas.len();
    let len: usize = buf.len();
    let end: usize = off + len;
    let ghost whole = PageView { gpas: gpas@, page: page as nat };
    let ghost start = host.ram();
    let ghost pack = packing(*host);
    let mut i: usize = 0;
    assert(buf@.take(0) =~= Seq::<u8>::empty());
    assert(host.ram() == view_written(start, whole, off as int, buf@.take(0)));
    assert(0 * page == 0) by (nonlinear_arith);
    assert(bytes_before(0, page as nat, off as int, len as int) == 0);
    while i < n
        invariant
            i <= n,
            n == gpas.len(),
            len == buf.len(),
            len > 0,
            end == off + len,
            page > 0,
            n * page <= usize::MAX,
            end <= n * page,
            whole == (PageView { gpas: gpas@, page: page as nat }),
            start == old(host).ram(),
            pack == packing(*old(host)),
            host.views() == old(host).views(),
            avoids(old(host).guest().structures, whole, off as int, len as int)
                ==> same_mappings_shown(old(host).guest(), host.guest()),
            forall|g: Seq<u64>, p: nat| #[trigger]
                host.packable(g, p) == old(host).packable(g, p),
            host.ram() == view_written(
                start,
                whole,
                off as int,
                buf@.take(bytes_before(i as int, page as nat, off as int, len as int)),
            ),
            old(host).room() ==> host.room(),
            !old(host).room() ==> !host.room() && bytes_before(
                i as int,
                page as nat,
                off as int,
                len as int,
            ) == 0,
            runs_pack(pack, gpas@, page as nat, 0, off as int, end as int) == runs_pack(
                pack,
                gpas@,
                page as nat,
                i as int,
                off as int,
                end as int,
            ),
            packed_to(pack, gpas@, page as nat, 0, off as int, end as int) == packed_to(
                pack,
                gpas@,
                page as nat,
                i as int,
                off as int,
                end as int,
            ),
        decreases n - i,
    {
        let j: usize = find_run_end(gpas, i, page);
        proof {
            assert(i * page <= n * page && j * page <= n * page && i * page < j * page)
                by (nonlinear_arith)
                requires
                    i < j <= n,
                    page > 0,
            ;
        }
        let run_lo: usize = i * page;
        let run_hi: usize = j * page;
        let lo: usize = if off > run_lo {
            off
        } else {
            run_lo
        };
        let hi: usize = if end < run_hi {
            end
        } else {
            run_hi
        };
        let ghost k0 = bytes_before(i as int, page as nat, off as int, len as int);
        let ghost k1 = bytes_before(j as int, page as nat, off as int, len as int);
        if lo < hi {
            let run = vstd::slice::slice_subrange(gpas.as_slice(), i, j);
            assert(run@ == gpas@.subrange(i as int, j as int));
            let ghost before = host.ram();
            let base: usize = match host.map_pages(run, page) {
                Some(base) => base,
                None => {
                    assert(!old(host).room() || !pack(
                        gpas@.subrange(i as int, j as int),
                        page as nat,
                    ));
                    return false;
                },
            };
            let from: usize = lo - off;
            let count: usize = hi - lo;
            proof {
                assert((j - i) * page == run_hi - run_lo) by (nonlinear_arith)
                    requires
                        run_lo == i * page,
                        run_hi == j * page,
                ;
                let view = host.views()[base];
                assert(view.size() == (j - i) * page);
            }
            proof {
                let kept = old(host).guest().structures;
                if avoids(kept, whole, off as int, len as int) {
                    assert(avoids(kept, whole, lo as int, count as int));
                    lemma_run_avoids(
                        kept,
                        gpas@,
                        page as nat,
                        i as int,
                        j as int,
                        lo - run_lo,
                        count as int,
                    );
                }
            }
            host.write_view(base, lo - run_lo, buf, from, count);
            proof {
                let part = buf@.subrange(from as int, from + count);
                lemma_run_written(
                    before,
                    gpas@,
                    page as nat,
                    i as int,
                    j as int,
                    lo - run_lo,
                    part,
                );
                assert(k0 == from);
                assert(k1 == from + count);
                lemma_written_in_parts(start, whole, off as int, buf@.take(k0), part);
                assert(buf@.take(k0) + part =~= buf@.take(k1));
            }
            host.unmap_pages(base, run_hi - run_lo);
            assert(host.views() =~= old(host).views());
        } else {
            assert(k0 == k1);
        }
        i = j;
    }
    proof {
        lemma_packed_whole(pack, gpas@, page as nat, 0, off as int, end as int);
        assert(bytes_before(n as int, page as nat, off as int, len as int) == len);
        assert(host.ram() == view_written(start, whole, off as int, buf@.take(len as int)));
    }
    true
}

/// Read through one view per run of pages in sequence. On a run that the host cannot
/// lay out, what came before it has been read; tells whether that is all.
fn read_runs<H: HostOps>(
    host: &mut H,
    gpas: &Vec<u64>,
    page: usize,
    off: usize,
    len: usize,
) -> (bytes: (Vec<u8>, bool))
    requires
        page > 0,
        gpas.len() * page <= usize::MAX,
        0 < len,
        off + len <= gpas.len() * page,
    ensures
        bytes.1 == (old(host).room() && runs_pack(
            packing(*old(host)),
            gpas@,
            page as nat,
            0,
            off as int,
            off + len,
        )),
        final(host).views() == old(host).views(),
        final(host).room() == old(host).room(),
        final(host).ram() == old(host).ram(),
        final(host).guest() == old(host).guest(),
        forall|g: Seq<u64>, p: nat| #[trigger]
            final(host).packable(g, p) == old(host).packable(g, p),
        ({
            let k = bytes_reached(
                old(host).room(),
                packing(*old(host)),
                gpas@,
                page as nat,
                off as int,
                len as int,
            );
            &&& 0 <= k <= len
            &&& bytes.1 ==> k == len
            &&& bytes.0@ == view_bytes(
                old(host).ram(),
                PageView { gpas: gpas@, page: page as nat },
                off as int,
                k as nat,
            )
        }),
{
    let n: usize = gpas.len();
    let end: usize = off + len;
    let ghost whole = PageView { gpas: gpas@, page: page as nat };
    let ghost ram = host.ram();
    let ghost pack = packing(*host);
    let mut bytes: Vec<u8> = Vec::new();
    let mut i: usize = 0;
    assert(bytes@ =~= view_bytes(ram, whole, off as int, 0));
    assert(0 * page == 0) by (nonlinear_arith);
    assert(bytes_before(0, page as nat, off as int, len as int) == 0);
    while i < n
        invariant
            i <= n,
            n == gpas.len(),
            len > 0,
            end == off + len,
            page > 0,
            n * page <= usize::MAX,
            end <= n * page,
            whole == (PageView { gpas: gpas@, page: page as nat }),
            ram == old(host).ram(),
            host.ram() == ram,
            host.guest() == old(host).guest(),
            pack == packing(*old(host)),
            host.views() == old(host).views(),
            forall|g: Seq<u64>, p: nat| #[trigger]
                host.packable(g, p) == old(host).packable(g, p),
            bytes@ == view_bytes(
                ram,
                whole,
                off as int,
                bytes_before(i as int, page as nat, off as int, len as int) as nat,
            ),
            old(host).room() ==> host.room(),
            !old(host).room() ==> !host.room() && bytes_before(
                i as int,
                page as nat,
                off as int,
                len as int,
            ) == 0,
            runs_pack(pack, gpas@, page as nat, 0, off as int, end as int) == runs_pack(
                pack,
                gpas@,
                page as nat,
                i as int,
                off as int,
                end as int,
            ),
            packed_to(pack, gpas@, page as nat, 0, off as int, end as int) == packed_to(
                pack,
                gpas@,
                page as nat,
                i as int,
                off as int,
                end as int,
            ),
        decreases n - i,
    {
        let j: usize = find_run_end(gpas, i, page);
        proof {
            assert(i * page <= n * page && j * page <= n * page && i * page < j * page)
                by (nonlinear_arith)
                requires
                    i < j <= n,
                    page > 0,
            ;
        }
        let run_lo: usize = i * page;
        let run_hi: usize = j * page;
        let lo: usize = if off > run_lo {
            off
        } else {
            run_lo
        };
        let hi: usize = if end < run_hi {
            end
        } else {
            run_hi
        };
        let ghost k0 = bytes_before(i as int, page as nat, off as int, len as int);
        let ghost k1 = bytes_before(j as int, page as nat, off as int, len as int);
        if lo < hi {
            let run = vstd::slice::slice_subrange(gpas.as_slice(), i, j);
            assert(run@ == gpas@.subrange(i as int, j as int));
            let base: usize = match host.map_pages(run, page) {
                Some(base) => base,
                None => {
                    assert(!old(host).room() || !pack(
                        gpas@.subrange(i as int, j as int),
                        page as nat,
                    ));
                    return (bytes, false);
                },
            };
            let count: usize = hi - lo;
            proof {
                assert((j - i) * page == run_hi - run_lo) by (nonlinear_arith)
                    requires
                        run_lo == i * page,
                        run_hi == j * page,
                ;
                let view = host.views()[base];
                assert(view.size() == (j - i) * page);
            }
            let mut part = host.read_view(base, lo - run_lo, count);
            proof {
                lemma_run_read(
                    ram,
                    gpas@,
                    page as nat,
                    i as int,
                    j as int,
                    lo - run_lo,
                    count as nat,
                );
                assert(k0 == lo - off);
                assert(k1 == k0 + count);
                assert(view_bytes(ram, whole, off as int, k0 as nat) + view_bytes(
                    ram,
                    whole,
                    lo as int,
                    count as nat,
                ) =~= view_bytes(ram, whole, off as int, k1 as nat));
            }
            bytes.append(&mut part);
            host.unmap_pages(base, run_hi - run_lo);
            assert(host.views() =~= old(host).views());
        } else {
            assert(k0 == k1);
        }
        i = j;
    }
    proof {
        lemma_packed_whole(pack, gpas@, page as nat, 0, off as int, end as int);
        assert(bytes_before(n as int, page as nat, off as int, len as int) == len);
    }
    (bytes, true)
}

/// Writing through a view takes no memory away.
proof fn lemma_written_grows(ram: Map<int, u8>, view: PageView, off: int, bytes: Seq<u8>)
    ensures
        ram.dom().subset_of(view_written(ram, view, off, bytes).dom()),
    decreases bytes.len(),
{
    if bytes.len() > 0 {
        lemma_written_grows(ram, view, off, bytes.drop_last());
    }
}

/// The views stay in order when memory grows.
proof fn lemma_views_ok_grows(
    state: DeviceView,
    views: Map<usize, PageView>,
    ram: Map<int, u8>,
    more: Map<int, u8>,
)
    requires
        views_ok(state, views, ram),
        ram.dom().subset_of(more.dom()),
    ensures
        views_ok(state, views, more),
{
    assert forall|id: u32| #[trigger] has_view(state, id) implies view_ok(
        state,
        id,
        views,
        more,
    ) by {
        assert(view_ok(state, id, views, ram));
    }
}

/// Whether the views are in order rests on the mappings and the waiting views alone.
proof fn lemma_views_ok_same(
    state: DeviceView,
    other: DeviceView,
    views: Map<usize, PageView>,
    ram: Map<int, u8>,
)
    requires
        views_ok(state, views, ram),
        other.mappings == state.mappings,
        other.retired_views == state.retired_views,
        other.page_shift == state.page_shift,
    ensures
        views_ok(other, views, ram),
{
    assert forall|id: u32| #[trigger] has_view(other, id) == has_view(state, id) by {}
    assert forall|id: u32| #[trigger] has_view(other, id) implies view_ok(
        other,
        id,
        views,
        ram,
    ) by {
        assert(has_view(state, id));
        assert(surface_pages(other, id) == surface_pages(state, id));
    }
    assert forall|a: u32, b: u32| #[trigger] has_view(other, a) && #[trigger] has_view(other, b)
        && a != b implies other.mappings[a].contig_ptr != other.mappings[b].contig_ptr by {
        assert(has_view(state, a) && has_view(state, b));
    }
    assert forall|i: int, id: u32|
        #![trigger other.retired_views[i], has_view(other, id)]
        0 <= i < other.retired_views.len() && has_view(other, id) implies other.retired_views[i].0
        != other.mappings[id].contig_ptr by {
        assert(has_view(state, id));
        assert(state.retired_views[i].0 != state.mappings[id].contig_ptr);
    }
}

/// The view holds all of the `len` bytes from `off` on.
pub open spec fn covered(view: Option<(usize, usize)>, off: u64, len: int) -> bool {
    view is Some && off + len <= (view->0).1
}

/// How an access to `len` bytes from `off` on goes: through the mapping's
/// contiguous view where it has one that holds them, else through a view per run
/// of its pages. It succeeds where the pages are usable and hold the bytes, and
/// the host can lay the touched runs out; `count` bytes are reached.
pub open spec fn access_path(
    before: DeviceView,
    latch: LatchView,
    guest: GuestView,
    views: Map<usize, PageView>,
    room: bool,
    packable: spec_fn(Seq<u64>, nat) -> bool,
    mapping_id: u32,
    off: u64,
    len: int,
    done: bool,
    count: int,
    after: DeviceView,
    latch_after: LatchView,
    views_after: Map<usize, PageView>,
    room_after: bool,
) -> bool {
    exists|
        view: Option<(usize, usize)>,
        middle: DeviceView,
        noted: LatchView,
        left: Map<usize, PageView>,
        free: bool,
    |
        #![trigger contig_outcome(before, latch, guest, views, room, packable, mapping_id, view, middle, noted, left, free)]
        contig_outcome(
            before,
            latch,
            guest,
            views,
            room,
            packable,
            mapping_id,
            view,
            middle,
            noted,
            left,
            free,
        ) && if covered(view, off, len) {
            done && count == len && after == middle && latch_after == noted && views_after == left
                && room_after == free
        } else {
            run_path(
                middle,
                noted,
                guest,
                left,
                free,
                packable,
                mapping_id,
                off,
                len,
                done,
                count,
                after,
                latch_after,
                views_after,
                room_after,
            )
        }
}

/// How an access through runs of pages goes.
pub open spec fn run_path(
    before: DeviceView,
    latch: LatchView,
    guest: GuestView,
    views: Map<usize, PageView>,
    room: bool,
    packable: spec_fn(Seq<u64>, nat) -> bool,
    mapping_id: u32,
    off: u64,
    len: int,
    done: bool,
    count: int,
    after: DeviceView,
    latch_after: LatchView,
    views_after: Map<usize, PageView>,
    room_after: bool,
) -> bool {
    let r = revalidation(before, latch, guest, mapping_id);
    let page = page_bytes(before.page_shift) as nat;
    let pages = usable_pages(r.state, mapping_id);
    &&& latch_after == r.latch
    &&& if r.miss is None && pages is Some && off + len <= pages->0.len() * page
        && pages->0.len() * page <= usize::MAX {
        let list = r.state.retired_views;
        let n = list.len() as int;
        &&& after == views_flushed(r.state)
        &&& views_after == views_without(views, list, n)
        &&& room_after == room_without(room, views, list, n)
        &&& count == bytes_reached(room_after, packable, pages->0, page, off as int, len)
        &&& done == (room_after && runs_pack(
            packable,
            pages->0,
            page,
            0,
            off as int,
            off + len,
        ))
    } else {
        !done && count == 0 && after == r.state && views_after == views && room_after == room
    }
}

/// The page list behind an access by runs, with the waiting views given back.
fn open_runs<H: HostOps>(
    state: &mut DeviceState,
    host: &mut H,
    latch: &mut FailLatch,
    mapping_id: u32,
    off: u64,
    len: usize,
) -> (pages: Option<(Vec<u64>, usize)>)
    requires
        old(state).wf(),
        views_ok(old(state)@, old(host).views(), old(host).ram()),
    ensures
        final(state).wf(),
        views_ok(final(state)@, final(host).views(), final(host).ram()),
        final(host).ram() == old(host).ram(),
        final(host).guest() == old(host).guest(),
        forall|g: Seq<u64>, p: nat| #[trigger]
            final(host).packable(g, p) == old(host).packable(g, p),
        final(state)@.compute_storage_residency == old(state)@.compute_storage_residency,
        owes_no_more(old(state)@, final(state)@),
        match pages {
            Some((gpas, page)) => {
                &&& page == page_bytes(old(state)@.page_shift)
                &&& page > 0
                &&& gpas.len() * page <= usize::MAX
                &&& off + len <= gpas.len() * page
                &&& surface_pages(final(state)@, mapping_id) == (PageView {
                    gpas: gpas@,
                    page: page as nat,
                })
                &&& forall|done: bool, count: int|
                    count == bytes_reached(
                        final(host).room(),
                        packing(*old(host)),
                        gpas@,
                        page as nat,
                        off as int,
                        len as int,
                    ) && done == (final(host).room() && runs_pack(
                        packing(*old(host)),
                        gpas@,
                        page as nat,
                        0,
                        off as int,
                        off + len,
                    )) ==> #[trigger] run_path(
                        old(state)@,
                        old(latch)@,
                        old(host).guest(),
                        old(host).views(),
                        old(host).room(),
                        packing(*old(host)),
                        mapping_id,
                        off,
                        len as int,
                        done,
                        count,
                        final(state)@,
                        final(latch)@,
                        final(host).views(),
                        final(host).room(),
                    )
            },
            None => run_path(
                old(state)@,
                old(latch)@,
                old(host).guest(),
                old(host).views(),
                old(host).room(),
                packing(*old(host)),
                mapping_id,
                off,
                len as int,
                false,
                0,
                final(state)@,
                final(latch)@,
                final(host).views(),
                final(host).room(),
            ),
        },
{
    proof {
        lemma_revalidation_owes_no_more(state@, latch@, host.guest(), mapping_id);
        lemma_revalidation_keeps_views(
            state@,
            latch@,
            host.guest(),
            mapping_id,
            host.views(),
            host.ram(),
        );
    }
    let gpas = match mapping_page_gpas(state, host, latch, mapping_id) {
        Some(gpas) => gpas,
        None => {
            return None;
        },
    };
    let page: usize = state.page_size() as usize;
    let span: usize = match gpas.len().checked_mul(page) {
        Some(span) => span,
        None => {
            return None;
        },
    };
    if off > span as u64 || len > span - off as usize {
        return None;
    }
    proof {
        lemma_flush_keeps_views(state@, host.views(), host.ram());
    }
    flush_retired_views(state, host);
    Some((gpas, page))
}

/// The state once the residency of every window that meets the bytes is forgotten.
pub open spec fn overwritten(state: DeviceView, mapping_id: u32, off: u64, len: int) -> DeviceView {
    DeviceView {
        compute_storage_residency: survivors(
            state.compute_storage_residency,
            Victims::Meeting { mapping_id, lo: off, hi: crate::contract::saturated(off + len) },
        ),
        ..state
    }
}

/// Write bytes at a mapping's linear offset.
///
/// Nothing is owed to the bytes any longer (see
/// [`crate::mapper::flush_intersecting`]), so that this write goes on top of what was.
/// The residency of every window that meets
/// the bytes is forgotten: the guest's copy is no longer the engine's.
///
/// Tells whether all bytes were written; else some of them, from the first on,
/// may have been.
pub fn write_mapping_bytes<H: HostOps>(
    state: &mut DeviceState,
    host: &mut H,
    latch: &mut FailLatch,
    mapping_id: u32,
    off: u64,
    buf: &[u8],
) -> (wrote: bool)
    requires
        old(state).wf(),
        views_ok(old(state)@, old(host).views(), old(host).ram()),
        buf.len() > 0 ==> !owes_bytes(
            old(state)@,
            mapping_id,
            off,
            crate::contract::saturated(off + buf.len()),
        ),
    ensures
        final(state).wf(),
        views_ok(final(state)@, final(host).views(), final(host).ram()),
        owes_no_more(old(state)@, final(state)@),
        forall|g: Seq<u64>, p: nat| #[trigger]
            final(host).packable(g, p) == old(host).packable(g, p),
        avoids(
            old(host).guest().structures,
            surface_pages(final(state)@, mapping_id),
            off as int,
            buf.len() as int,
        ) ==> same_mappings_shown(old(host).guest(), final(host).guest()),
        buf.len() == 0 ==> wrote && final(state)@ == old(state)@ && final(host).guest() == old(
            host,
        ).guest() && final(latch)@ == old(latch)@
            && final(host).ram() == old(host).ram() && final(host).views() == old(host).views()
            && final(host).room() == old(host).room(),
        buf.len() > 0 ==> exists|k: int|
            0 <= k <= buf.len() && (wrote ==> k == buf.len()) && final(host).ram() == view_written(
                old(host).ram(),
                surface_pages(final(state)@, mapping_id),
                off as int,
                buf@.take(k),
            ) && #[trigger] access_path(
                overwritten(old(state)@, mapping_id, off, buf.len() as int),
                old(latch)@,
                old(host).guest(),
                old(host).views(),
                old(host).room(),
                packing(*old(host)),
                mapping_id,
                off,
                buf.len() as int,
                wrote,
                k,
                final(state)@,
                final(latch)@,
                final(host).views(),
                final(host).room(),
            ),
{
    let len: usize = buf.len();
    let ghost start = host.ram();
    if len == 0 {
        return true;
    }
    state.invalidate_storage_residency_window(mapping_id, off, off.saturating_add(len as u64));
    let ghost before = overwritten(old(state)@, mapping_id, off, len as int);
    proof {
        assert(state@ == before);
        lemma_views_ok_same(old(state)@, state@, host.views(), start);
    }
    let view = ensure_contig_view(state, host, latch, mapping_id);
    match view {
        Some((base, size)) => {
            if off <= size as u64 && len <= size - off as usize {
                assert(view_ok(state@, mapping_id, host.views(), host.ram()));
                host.write_view(base, off as usize, buf, 0, len);
                proof {
                    assert(buf@.subrange(0, len as int) =~= buf@.take(len as int));
                    lemma_written_grows(
                        start,
                        surface_pages(state@, mapping_id),
                        off as int,
                        buf@.take(len as int),
                    );
                    lemma_views_ok_grows(state@, host.views(), start, host.ram());
                    assert(covered(view, off, len as int));
                    assert(access_path(
                        before,
                        old(latch)@,
                        old(host).guest(),
                        old(host).views(),
                        old(host).room(),
                        packing(*old(host)),
                        mapping_id,
                        off,
                        len as int,
                        true,
                        len as int,
                        state@,
                        latch@,
                        host.views(),
                        host.room(),
                    ));
                }
                return true;
            }
        },
        None => {},
    }
    assert(!covered(view, off, len as int));
    assert(packing(*host) =~= packing(*old(host)));
    let (gpas, page) = match open_runs(state, host, latch, mapping_id, off, len) {
        Some(pages) => pages,
        None => {
            proof {
                assert(buf@.take(0) =~= Seq::<u8>::empty());
                assert(view_written(
                    start,
                    surface_pages(state@, mapping_id),
                    off as int,
                    buf@.take(0),
                ) == start);
                assert(access_path(
                    before,
                    old(latch)@,
                    old(host).guest(),
                    old(host).views(),
                    old(host).room(),
                    packing(*old(host)),
                    mapping_id,
                    off,
                    len as int,
                    false,
                    0,
                    state@,
                    latch@,
                    host.views(),
                    host.room(),
                ));
            }
            return false;
        },
    };
    assert(packing(*host) =~= packing(*old(host)));
    let ghost k = bytes_reached(
        host.room(),
        packing(*host),
        gpas@,
        page as nat,
        off as int,
        len as int,
    );
    let wrote = write_runs(host, &gpas, page, off as usize, buf);
    proof {
        lemma_written_grows(start, surface_pages(state@, mapping_id), off as int, buf@.take(k));
        lemma_views_ok_grows(state@, host.views(), start, host.ram());
        assert(access_path(
            before,
            old(latch)@,
            old(host).guest(),
            old(host).views(),
            old(host).room(),
            packing(*old(host)),
            mapping_id,
            off,
            len as int,
            wrote,
            k,
            state@,
            latch@,
            host.views(),
            host.room(),
        ));
    }
    wrote
}

/// Read bytes at a mapping's linear offset.
///
/// Nothing is owed to the bytes any longer (see
/// [`crate::mapper::flush_intersecting`]), so that what is read is the newest. Tells whether the buffer was filled; else some of it,
/// from the first byte on, may have been.
pub fn read_mapping_bytes<H: HostOps>(
    state: &mut DeviceState,
    host: &mut H,
    latch: &mut FailLatch,
    mapping_id: u32,
    off: u64,
    buf: &mut [u8],
) -> (read: bool)
    requires
        old(state).wf(),
        views_ok(old(state)@, old(host).views(), old(host).ram()),
        old(buf)@.len() > 0 ==> !owes_bytes(
            old(state)@,
            mapping_id,
            off,
            crate::contract::saturated(off + old(buf)@.len()),
        ),
    ensures
        final(state).wf(),
        views_ok(final(state)@, final(host).views(), final(host).ram()),
        owes_no_more(old(state)@, final(state)@),
        final(host).ram() == old(host).ram(),
        final(host).guest() == old(host).guest(),
        forall|g: Seq<u64>, p: nat| #[trigger]
            final(host).packable(g, p) == old(host).packable(g, p),
        final(buf)@.len() == old(buf)@.len(),
        old(buf)@.len() == 0 ==> read && final(state)@ == old(state)@ && final(latch)@ == old(
            latch,
        )@ && final(host).views() == old(host).views() && final(host).room() == old(host).room(),
        old(buf)@.len() > 0 ==> exists|k: int|
            0 <= k <= old(buf)@.len() && (read ==> k == old(buf)@.len()) && final(buf)@
                == view_bytes(
                old(host).ram(),
                surface_pages(final(state)@, mapping_id),
                off as int,
                k as nat,
            ) + old(buf)@.skip(k) && #[trigger] access_path(
                old(state)@,
                old(latch)@,
                old(host).guest(),
                old(host).views(),
                old(host).room(),
                packing(*old(host)),
                mapping_id,
                off,
                old(buf)@.len() as int,
                read,
                k,
                final(state)@,
                final(latch)@,
                final(host).views(),
                final(host).room(),
            ),
{
    let len: usize = buf.len();
    if len == 0 {
        return true;
    }
    let view = ensure_contig_view(state, host, latch, mapping_id);
    match view {
        Some((base, size)) => {
            if off <= size as u64 && len <= size - off as usize {
                assert(view_ok(state@, mapping_id, host.views(), host.ram()));
                let bytes = host.read_view(base, off as usize, len);
                assert(covered(view, off, len as int));
                fill(buf, &bytes);
                assert(access_path(
                    old(state)@,
                    old(latch)@,
                    old(host).guest(),
                    old(host).views(),
                    old(host).room(),
                    packing(*old(host)),
                    mapping_id,
                    off,
                    len as int,
                    true,
                    len as int,
                    state@,
                    latch@,
                    host.views(),
                    host.room(),
                ));
                return true;
            }
        },
        None => {},
    }
    assert(!covered(view, off, len as int));
    assert(packing(*host) =~= packing(*old(host)));
    let (gpas, page) = match open_runs(state, host, latch, mapping_id, off, len) {
        Some(pages) => pages,
        None => {
            proof {
                let none = view_bytes(
                    host.ram(),
                    surface_pages(state@, mapping_id),
                    off as int,
                    0,
                );
                assert(none + buf@.skip(0) =~= buf@);
                assert(access_path(
                    old(state)@,
                    old(latch)@,
                    old(host).guest(),
                    old(host).views(),
                    old(host).room(),
                    packing(*old(host)),
                    mapping_id,
                    off,
                    len as int,
                    false,
                    0,
                    state@,
                    latch@,
                    host.views(),
                    host.room(),
                ));
            }
            return false;
        },
    };
    assert(packing(*host) =~= packing(*old(host)));
    let ghost k = bytes_reached(
        host.room(),
        packing(*host),
        gpas@,
        page as nat,
        off as int,
        len as int,
    );
    let (bytes, read) = read_runs(host, &gpas, page, off as usize, len);
    fill(buf, &bytes);
    assert(access_path(
        old(state)@,
        old(latch)@,
        old(host).guest(),
        old(host).views(),
        old(host).room(),
        packing(*old(host)),
        mapping_id,
        off,
        len as int,
        read,
        k,
        state@,
        latch@,
        host.views(),
        host.room(),
    ));
    read
}

/// Copy bytes over the start of a buffer.
fn fill(buf: &mut [u8], bytes: &Vec<u8>)
    requires
        bytes.len() <= old(buf)@.len(),
    ensures
        final(buf)@ == bytes@ + old(buf)@.skip(bytes.len() as int),
{
    let mut i: usize = 0;
    while i < bytes.len()
        invariant
            i <= bytes.len() <= buf@.len(),
            buf@.len() == old(buf)@.len(),
            forall|k: int| 0 <= k < i ==> buf@[k] == bytes@[k],
            forall|k: int| i <= k < buf@.len() ==> buf@[k] == old(buf)@[k],
        decreases bytes.len() - i,
    {
        buf[i] = bytes[i];
        i = i + 1;
    }
    assert(buf@ =~= bytes@ + old(buf)@.skip(bytes.len() as int));
}

/// From this many microseconds on an access by runs is slow.
pub const MAPPING_RUN_IMPORT_SLOW_US: u64 = 1_000;

pub fn mapping_run_import_is_slow(elapsed_us: u64) -> (slow: bool)
    ensures
        slow == (elapsed_us >= MAPPING_RUN_IMPORT_SLOW_US),
        slow <==> elapsed_us >= 1000,
{
    elapsed_us >= MAPPING_RUN_IMPORT_SLOW_US
}

/// No two pages of a view overlap.
pub open spec fn pages_apart(view: PageView) -> bool {
    forall|i: int, j: int|
        #![trigger view.gpas[i], view.gpas[j]]
        0 <= i < j < view.gpas.len() ==> view.gpas[i] + view.page <= view.gpas[j] || view.gpas[j]
            + view.page <= view.gpas[i]
}

/// Distinct bytes of a view whose pages do not overlap are distinct in memory.
proof fn lemma_addresses_apart(view: PageView, a: int, b: int)
    requires
        pages_apart(view),
        view.page > 0,
        0 <= a < b < view.size(),
    ensures
        view.address(a) != view.address(b),
{
    lemma_page_index(a, view.page as int, view.gpas.len() as int);
    lemma_page_index(b, view.page as int, view.gpas.len() as int);
    let p = view.page as int;
    if a / p < b / p {
        assert(view.gpas[a / p] + view.page <= view.gpas[b / p] || view.gpas[b / p] + view.page
            <= view.gpas[a / p]);
    } else if b / p < a / p {
        assert((a / p) * p >= (b / p) * p + p) by (nonlinear_arith)
            requires
                b / p < a / p,
                p > 0,
        ;
    }
}

/// A write changes no byte of the view outside its range.
proof fn lemma_written_elsewhere(
    ram: Map<int, u8>,
    view: PageView,
    off: int,
    bytes: Seq<u8>,
    o: int,
)
    requires
        pages_apart(view),
        view.page > 0,
        0 <= off,
        off + bytes.len() <= view.size(),
        0 <= o < view.size(),
        o < off || off + bytes.len() <= o,
    ensures
        view_written(ram, view, off, bytes)[view.address(o)] == ram[view.address(o)],
    decreases bytes.len(),
{
    if bytes.len() > 0 {
        lemma_written_elsewhere(ram, view, off, bytes.drop_last(), o);
        let last = off + bytes.len() - 1;
        if o < last {
            lemma_addresses_apart(view, o, last);
        } else {
            lemma_addresses_apart(view, last, o);
        }
    }
}

/// Bytes that are to go to one place in memory are equal.
pub open spec fn bytes_agree(view: PageView, off: int, bytes: Seq<u8>) -> bool {
    forall|a: int, b: int|
        #![trigger bytes[a], bytes[b]]
        0 <= a < b < bytes.len() && view.address(off + a) == view.address(off + b) ==> bytes[a]
            == bytes[b]
}

proof fn lemma_written_byte(ram: Map<int, u8>, view: PageView, off: int, bytes: Seq<u8>, k: int)
    requires
        bytes_agree(view, off, bytes),
        0 <= k < bytes.len(),
    ensures
        view_written(ram, view, off, bytes)[view.address(off + k)] == bytes[k],
    decreases bytes.len(),
{
    let last = bytes.len() - 1;
    if k < last {
        let rest = bytes.drop_last();
        assert forall|a: int, b: int|
            #![trigger rest[a], rest[b]]
            0 <= a < b < rest.len() && view.address(off + a) == view.address(
                off + b,
            ) implies rest[a] == rest[b] by {
            assert(bytes[a] == rest[a] && bytes[b] == rest[b]);
        }
        lemma_written_byte(ram, view, off, rest, k);
        assert(rest[k] == bytes[k] && bytes.last() == bytes[last]);
    }
}

/// What was written is read back, unless two of the bytes went to one place in
/// memory and differ.
pub proof fn law_bytes_read_back(ram: Map<int, u8>, view: PageView, off: int, bytes: Seq<u8>)
    requires
        bytes_agree(view, off, bytes),
    ensures
        view_bytes(view_written(ram, view, off, bytes), view, off, bytes.len()) == bytes,
{
    let after = view_written(ram, view, off, bytes);
    assert forall|k: int| 0 <= k < bytes.len() implies view_bytes(
        after,
        view,
        off,
        bytes.len(),
    )[k] == bytes[k] by {
        lemma_written_byte(ram, view, off, bytes, k);
    }
    assert(view_bytes(after, view, off, bytes.len()) =~= bytes);
}

/// A read of what was written gives it back, and a read of any other bytes of the
/// surface gives what was there before.
pub proof fn law_read_gives_back_write(
    ram: Map<int, u8>,
    view: PageView,
    off: int,
    bytes: Seq<u8>,
    other: int,
    len: nat,
)
    requires
        pages_apart(view),
        view.page > 0,
        0 <= off,
        off + bytes.len() <= view.size(),
        0 <= other,
        other + len <= view.size(),
    ensures
        view_bytes(view_written(ram, view, off, bytes), view, off, bytes.len()) == bytes,
        other + len <= off || off + bytes.len() <= other ==> view_bytes(
            view_written(ram, view, off, bytes),
            view,
            other,
            len,
        ) == view_bytes(ram, view, other, len),
{
    let after = view_written(ram, view, off, bytes);
    assert forall|a: int, b: int|
        #![trigger bytes[a], bytes[b]]
        0 <= a < b < bytes.len() && view.address(off + a) == view.address(off + b) implies bytes[a]
        == bytes[b] by {
        lemma_addresses_apart(view, off + a, off + b);
    }
    law_bytes_read_back(ram, view, off, bytes);
    if other + len <= off || off + bytes.len() <= other {
        assert forall|k: int| 0 <= k < len implies view_bytes(after, view, other, len)[k]
            == view_bytes(ram, view, other, len)[k] by {
            lemma_written_elsewhere(ram, view, off, bytes, other + k);
        }
        assert(view_bytes(after, view, other, len) =~= view_bytes(ram, view, other, len));
    }
}

} // verus!
