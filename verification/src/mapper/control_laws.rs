//! Which pages are the device's and its tasks' own.

use vstd::prelude::*;
use crate::contract::{page_bytes, page_start, view_window};
use crate::mapper::pages::{
    claims, control_claim, covers_geom, frame, highest_ref, list_claim, list_page, live_end,
    live_pages, plan_changes, ring_claim, rings_claim, task_claim, tasks_claim,
};
use crate::mapping::MappingView;
use crate::model::DeviceView;

verus! {

/// Some page of the list is the one that the address lies in.
pub open spec fn in_listed_page(gpas: Seq<u64>, page: int, address: int) -> bool {
    exists|i: int| 0 <= i < gpas.len() && (#[trigger] gpas[i]) as int / page == address / page
}

/// The address lies in a page that the device or a task has for itself, and what for.
pub open spec fn is_control(state: DeviceView, address: int, why: &'static str) -> bool {
    let page = page_bytes(state.page_shift) as int;
    ||| why == "gfx_root" && state.gfx.root_page > 0 && address == state.gfx.root_page * page
    ||| why == "root_fifo" && state.gfx.fifo_base_page > 0 && address == state.gfx.fifo_base_page
        * page
    ||| why == "iosfc_ring" && state.iosfc.ring_base > 0 && address == state.iosfc.ring_base as int
        / page * page
    ||| why == "child_fifo" && exists|r: int, i: int|
        0 <= r < state.child_rings.len() && 0 <= i < state.child_rings[r].len() && address == (
        #[trigger] state.child_rings[r][i]) as int / page * page
    ||| why == "task_directory" && exists|t: int|
        0 <= t < state.tasks.len() && #[trigger] state.tasks[t].active
            && state.tasks[t].directory_pfn > 0 && address == state.tasks[t].directory_pfn * page
    ||| why == "task_object_list" && exists|t: int, k: int, i: int|
        0 <= t < state.tasks.len() && 0 <= k < state.objects.len() && 0 <= i
            && #[trigger] is_list_page(state, t, k, i, address)
}

/// The address is page `i` of task `t`'s object list, and a word of the entry of its
/// registered object `k`, or of one before that, lies there: entries have 12 bytes.
pub open spec fn is_list_page(state: DeviceView, t: int, k: int, i: int, address: int) -> bool {
    let page = page_bytes(state.page_shift) as int;
    &&& state.tasks[t].active
    &&& state.tasks[t].object_list_pfn > 0
    &&& state.objects[k].0 == t
    &&& address == state.tasks[t].object_list_pfn * page + i * page
    &&& i * page < (state.objects[k].1 + 1) * 12
}

pub proof fn lemma_frame(pfn: u32, page_shift: u32)
    requires
        page_shift < 32,
    ensures
        frame(pfn, page_shift) == pfn * page_bytes(page_shift),
        page_bytes(page_shift) > 0,
        page_bytes(page_shift) <= 0x8000_0000,
        frame(pfn, page_shift) < 0x8000_0000_0000_0000,
{
    let wide = pfn as u64;
    assert((wide << page_shift) == wide * (1u64 << page_shift) && (1u64 << page_shift) > 0 && (1u64
        << page_shift) <= 0x8000_0000 && (wide << page_shift) < 0x8000_0000_0000_0000)
        by (bit_vector)
        requires
            page_shift < 32,
            wide <= 0xffff_ffff,
    ;
    let size = page_bytes(page_shift);
    assert(wide * size < 0x8000_0000_0000_0000) by (nonlinear_arith)
        requires
            wide <= 0xffff_ffff,
            size <= 0x8000_0000,
            size > 0,
    ;
}

proof fn lemma_start(gpa: u64, page: u64)
    requires
        page > 0,
    ensures
        page_start(gpa, page) == gpa as int / page as int * page as int,
{
    vstd::arithmetic::div_mod::lemma_fundamental_div_mod(gpa as int, page as int);
    let q = gpa as int / page as int;
    assert(q * page as int == page as int * q) by (nonlinear_arith);
}

proof fn lemma_claims(gpas: Seq<u64>, page: u64, gpa: u64)
    requires
        page > 0,
    ensures
        claims(gpas, page, gpa) <==> in_listed_page(gpas, page as int, gpa as int),
{
    lemma_start(gpa, page);
    let p = page as int;
    let q = gpa as int / p;
    if claims(gpas, page, gpa) {
        let i = choose|i: int|
            0 <= i < gpas.len() && page_start(#[trigger] gpas[i], page) == page_start(gpa, page);
        lemma_start(gpas[i], page);
        let r = gpas[i] as int / p;
        assert(r == q) by (nonlinear_arith)
            requires
                r * p == q * p,
                p > 0,
        ;
    }
    if in_listed_page(gpas, p, gpa as int) {
        let i = choose|i: int|
            0 <= i < gpas.len() && (#[trigger] gpas[i]) as int / p == gpa as int / p;
        lemma_start(gpas[i], page);
        assert(page_start(gpas[i], page) == page_start(gpa, page));
    }
}

/// Rounding an address down to its page leaves it in that page.
proof fn lemma_rounded(a: int, p: int)
    requires
        p > 0,
        a >= 0,
    ensures
        (a / p * p) / p == a / p,
{
    vstd::arithmetic::div_mod::lemma_div_by_multiple(a / p, p);
}

proof fn lemma_ring(ring: Seq<u64>, i: int, gpas: Seq<u64>, page: u64)
    requires
        page > 0,
        0 <= i,
    ensures
        match ring_claim(ring, i, gpas, page) {
            Some(base) => exists|k: int|
                i <= k < ring.len() && base == (#[trigger] ring[k]) as int / page as int
                    * page as int && in_listed_page(gpas, page as int, ring[k] as int),
            None => forall|k: int|
                i <= k < ring.len() ==> !in_listed_page(
                    gpas,
                    page as int,
                    (#[trigger] ring[k]) as int,
                ),
        },
    decreases ring.len() - i,
{
    if i < ring.len() {
        lemma_claims(gpas, page, ring[i]);
        lemma_start(ring[i], page);
        lemma_ring(ring, i + 1, gpas, page);
    }
}

proof fn lemma_rings(rings: Seq<Seq<u64>>, r: int, gpas: Seq<u64>, page: u64)
    requires
        page > 0,
        0 <= r,
    ensures
        match rings_claim(rings, r, gpas, page) {
            Some(base) => exists|s: int, k: int|
                r <= s < rings.len() && 0 <= k < rings[s].len() && base == (
                #[trigger] rings[s][k]) as int / page as int * page as int && in_listed_page(
                    gpas,
                    page as int,
                    rings[s][k] as int,
                ),
            None => forall|s: int, k: int|
                r <= s < rings.len() && 0 <= k < rings[s].len() ==> !in_listed_page(
                    gpas,
                    page as int,
                    (#[trigger] rings[s][k]) as int,
                ),
        },
    decreases rings.len() - r,
{
    if r < rings.len() {
        lemma_ring(rings[r], 0, gpas, page);
        lemma_rings(rings, r + 1, gpas, page);
        match ring_claim(rings[r], 0, gpas, page) {
            Some(base) => {
                let k = choose|k: int|
                    0 <= k < rings[r].len() && base == (#[trigger] rings[r][k]) as int
                        / page as int * page as int && in_listed_page(
                        gpas,
                        page as int,
                        rings[r][k] as int,
                    );
                assert(base == rings[r][k] as int / page as int * page as int);
            },
            None => {},
        }
    }
}

proof fn lemma_highest<T>(objects: Seq<(u32, u32, T)>, n: int, task: u32)
    requires
        0 <= n <= objects.len(),
    ensures
        match highest_ref(objects, n, task) {
            Some(high) => (exists|k: int|
                0 <= k < n && (#[trigger] objects[k]).0 == task && objects[k].1 == high) && forall|
                k: int,
            | 0 <= k < n && (#[trigger] objects[k]).0 == task ==> objects[k].1 <= high,
            None => forall|k: int| 0 <= k < n ==> (#[trigger] objects[k]).0 != task,
        },
    decreases n,
{
    if n > 0 {
        lemma_highest(objects, n - 1, task);
        if objects[n - 1].0 == task {
            assert(highest_ref(objects, n, task) is Some);
            if highest_ref(objects, n, task) != highest_ref(objects, n - 1, task) {
                assert(objects[n - 1].1 == highest_ref(objects, n, task)->0);
            }
        }
    }
}

proof fn lemma_pages(high: u32, page: u64, i: int)
    requires
        0 < page <= 0x8000_0000,
        0 <= i,
    ensures
        i < live_pages(live_end(Some(high)), page) <==> i * page < (high + 1) * 12,
{
    let end = live_end(Some(high)) as int;
    let p = page as int;
    assert(end == (high + 1) * 12);
    assert(end + p - 1 <= u64::MAX);
    let q = (end + p - 1) / p;
    vstd::arithmetic::div_mod::lemma_fundamental_div_mod(end + p - 1, p);
    vstd::arithmetic::div_mod::lemma_mod_bound(end + p - 1, p);
    assert(0 <= q <= u64::MAX) by (nonlinear_arith)
        requires
            end + p - 1 == p * q + (end + p - 1) % p,
            0 <= (end + p - 1) % p < p,
            0 <= end,
            end + p - 1 <= u64::MAX,
            p > 0,
    ;
    assert(i < q <==> i * p < end) by (nonlinear_arith)
        requires
            end + p - 1 == p * q + (end + p - 1) % p,
            0 <= (end + p - 1) % p < p,
            0 <= end,
            p > 0,
            i >= 0,
    ;
}

proof fn lemma_list(first: u64, i: int, count: int, gpas: Seq<u64>, page: u64)
    requires
        0 < page <= 0x8000_0000,
        0 <= i,
        count <= 0x10_0000_0000,
        first < 0x8000_0000_0000_0000,
        count * page <= 0x4000_0000_0000_0000,
    ensures
        match list_claim(first, i, count, gpas, page) {
            Some(base) => exists|k: int|
                i <= k < count && base == #[trigger] (first + k * page) && in_listed_page(
                    gpas,
                    page as int,
                    base as int,
                ),
            None => forall|k: int|
                i <= k < count ==> !in_listed_page(
                    gpas,
                    page as int,
                    #[trigger] (first + k * page),
                ),
        },
    decreases count - i,
{
    if i < count {
        assert(0 <= i * page <= 0x4000_0000_0000_0000) by (nonlinear_arith)
            requires
                0 <= i < count,
                count * page <= 0x4000_0000_0000_0000,
                page > 0,
        ;
        assert(list_page(first, i, page) == first + i * page);
        lemma_claims(gpas, page, list_page(first, i, page));
        lemma_list(first, i + 1, count, gpas, page);
    }
}

proof fn lemma_task(state: DeviceView, t: int, gpas: Seq<u64>)
    requires
        0 <= t < state.tasks.len() <= u32::MAX,
        state.page_shift < 32,
    ensures
        match task_claim(state, t, gpas) {
            Some((base, why)) => is_control(state, base as int, why) && in_listed_page(
                gpas,
                page_bytes(state.page_shift) as int,
                base as int,
            ),
            None => {
                let page = page_bytes(state.page_shift) as int;
                &&& state.tasks[t].active && state.tasks[t].directory_pfn > 0 ==> !in_listed_page(
                    gpas,
                    page,
                    state.tasks[t].directory_pfn * page,
                )
                &&& forall|k: int, i: int, address: int|
                    0 <= k < state.objects.len() && 0 <= i && #[trigger] is_list_page(
                        state,
                        t,
                        k,
                        i,
                        address,
                    ) ==> !in_listed_page(gpas, page, address)
            },
        },
{
    let task = state.tasks[t];
    let page = page_bytes(state.page_shift);
    lemma_frame(task.directory_pfn, state.page_shift);
    lemma_frame(task.object_list_pfn, state.page_shift);
    lemma_claims(gpas, page, frame(task.directory_pfn, state.page_shift));
    lemma_highest(state.objects, state.objects.len() as int, t as u32);
    let high = highest_ref(state.objects, state.objects.len() as int, t as u32);
    let end = live_end(high);
    let count = live_pages(end, page) as int;
    let first = frame(task.object_list_pfn, state.page_shift);
    assert(end <= 0x1_0000_0000 * 12);
    assert(count <= 0x10_0000_0000 && count * page <= 0x4000_0000_0000_0000) by {
        let p = page as int;
        let e = end as int;
        assert(e + p - 1 <= u64::MAX);
        let q = (e + p - 1) / p;
        vstd::arithmetic::div_mod::lemma_fundamental_div_mod(e + p - 1, p);
        vstd::arithmetic::div_mod::lemma_mod_bound(e + p - 1, p);
        assert(q <= e + p - 1 && q * p <= e + p - 1 && q >= 0) by (nonlinear_arith)
            requires
                e + p - 1 == p * q + (e + p - 1) % p,
                0 <= (e + p - 1) % p < p,
                e >= 0,
                p > 0,
        ;
        assert(q <= 0x10_0000_0000);
    }
    lemma_list(first, 0, count, gpas, page);
    if task.active && task.directory_pfn != 0 && claims(
        gpas,
        page,
        frame(task.directory_pfn, state.page_shift),
    ) {
        assert(state.tasks[t].active);
    } else if task.active && task.object_list_pfn != 0 {
        match list_claim(first, 0, count, gpas, page) {
            Some(base) => {
                let i = choose|i: int|
                    0 <= i < count && base == #[trigger] (first + i * page) && in_listed_page(
                        gpas,
                        page as int,
                        base as int,
                    );
                if high is None {
                    assert(live_end(None) == 0);
                    assert((page as int - 1) / page as int == 0) by (nonlinear_arith)
                        requires
                            page > 0,
                    ;
                }
                let k = choose|k: int|
                    0 <= k < state.objects.len() && (#[trigger] state.objects[k]).0 == t as u32
                        && state.objects[k].1 == high->0;
                lemma_pages(high->0, page, i);
                assert(is_list_page(state, t, k, i, base as int));
            },
            None => {
                assert forall|k: int, i: int, address: int|
                    0 <= k < state.objects.len() && 0 <= i && #[trigger] is_list_page(
                        state,
                        t,
                        k,
                        i,
                        address,
                    ) implies !in_listed_page(gpas, page as int, address) by {
                    assert(state.objects[k].0 == t as u32);
                    lemma_pages(high->0, page, i);
                    assert(address == first + i * page);
                }
            },
        }
    }
}

proof fn lemma_tasks(state: DeviceView, t: int, gpas: Seq<u64>)
    requires
        0 <= t,
        state.tasks.len() <= u32::MAX,
        state.page_shift < 32,
    ensures
        match tasks_claim(state, t, gpas) {
            Some((base, why)) => is_control(state, base as int, why) && in_listed_page(
                gpas,
                page_bytes(state.page_shift) as int,
                base as int,
            ),
            None => {
                let page = page_bytes(state.page_shift) as int;
                &&& forall|u: int|
                    t <= u < state.tasks.len() && #[trigger] state.tasks[u].active
                        && state.tasks[u].directory_pfn > 0 ==> !in_listed_page(
                        gpas,
                        page,
                        state.tasks[u].directory_pfn * page,
                    )
                &&& forall|u: int, k: int, i: int, address: int|
                    t <= u < state.tasks.len() && 0 <= k < state.objects.len() && 0 <= i
                        && #[trigger] is_list_page(state, u, k, i, address) ==> !in_listed_page(
                        gpas,
                        page,
                        address,
                    )
            },
        },
    decreases state.tasks.len() - t,
{
    if t < state.tasks.len() {
        lemma_task(state, t, gpas);
        lemma_tasks(state, t + 1, gpas);
    }
}

/// A page list collides with the device's own pages where one of its pages is the root
/// page, the root queue's page, the surface ring's page, a page of a child queue, the
/// directory of an active task, or a page of its object list up to the last registered
/// object. What is found is such a page, under its name.
pub proof fn law_control_pages(state: DeviceView, gpas: Seq<u64>)
    requires
        state.page_shift < 32,
        state.tasks.len() <= u32::MAX,
    ensures
        ({
            let page = page_bytes(state.page_shift) as int;
            match control_claim(state, gpas) {
                Some((base, why)) => is_control(state, base as int, why) && in_listed_page(
                    gpas,
                    page,
                    base as int,
                ),
                None => forall|address: int, why: &'static str| #[trigger]
                    is_control(state, address, why) ==> !in_listed_page(gpas, page, address),
            }
        }),
{
    let page = page_bytes(state.page_shift);
    let p = page as int;
    lemma_frame(state.gfx.root_page, state.page_shift);
    lemma_frame(state.gfx.fifo_base_page, state.page_shift);
    lemma_claims(gpas, page, frame(state.gfx.root_page, state.page_shift));
    lemma_claims(gpas, page, frame(state.gfx.fifo_base_page, state.page_shift));
    lemma_claims(gpas, page, state.iosfc.ring_base);
    lemma_start(state.iosfc.ring_base, page);
    lemma_rounded(state.iosfc.ring_base as int, p);
    lemma_rings(state.child_rings, 0, gpas, page);
    lemma_tasks(state, 0, gpas);
    assert forall|r: int, i: int|
        0 <= r < state.child_rings.len() && 0 <= i < state.child_rings[r].len() implies ((
    #[trigger] state.child_rings[r][i]) as int / p * p) / p == state.child_rings[r][i] as int / p by {
        lemma_rounded(state.child_rings[r][i] as int, p);
    }
    match control_claim(state, gpas) {
        Some(_) => {},
        None => {
            assert forall|address: int, why: &'static str| #[trigger]
                is_control(state, address, why) implies !in_listed_page(gpas, p, address) by {
                if exists|r: int, i: int|
                    0 <= r < state.child_rings.len() && 0 <= i < state.child_rings[r].len()
                        && address == (#[trigger] state.child_rings[r][i]) as int / p * p {
                    let (r, i) = choose|r: int, i: int|
                        0 <= r < state.child_rings.len() && 0 <= i < state.child_rings[r].len()
                            && address == (#[trigger] state.child_rings[r][i]) as int / p * p;
                    assert(!in_listed_page(gpas, p, state.child_rings[r][i] as int));
                }
            }
        },
    }
}

/// A condemned mapping's pages change where the table differs from what was condemned,
/// another's where it differs from what it has.
pub proof fn law_when_pages_change(condemned: Seq<u32>, current: Seq<u32>, plan: Seq<u32>)
    ensures
        !plan_changes(None, current, plan) <==> current =~= plan,
        !plan_changes(Some(condemned), current, plan) <==> condemned =~= plan,
{
}

/// Pages cover a mapping where there are any and, once its geometry is known, they reach
/// to the end of its window. A format that is missing counts as 80.
pub proof fn law_covering_pages(m: MappingView, page_shift: u32)
    ensures
        ({
            let format = if m.format == 0 {
                80u16
            } else {
                m.format
            };
            let window = view_window(m.device, format, m.width, m.height);
            let bytes = m.page_entries.len() * page_bytes(page_shift);
            let known = m.has_geom && m.width > 0 && m.height > 0;
            &&& m.page_entries.len() == 0 ==> !covers_geom(m, page_shift)
            &&& m.page_entries.len() > 0 && !known ==> covers_geom(m, page_shift)
            &&& known && window is None ==> !covers_geom(m, page_shift)
            &&& m.page_entries.len() > 0 && known && window is Some ==> (covers_geom(m, page_shift)
                <==> bytes >= (window->0).end)
        }),
{
    let n = m.page_entries.len() as int;
    let p = page_bytes(page_shift) as int;
    if n > 0 {
        assert(n * p >= p) by (nonlinear_arith)
            requires
                n > 0,
                p >= 0,
        ;
    }
}

} // verus!
