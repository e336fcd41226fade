//! Which guest pages a surface may own: no two live surfaces share one, and no
//! surface owns a page of the device's transport or of a task's structures.

use std::collections::HashSet;
use vstd::prelude::*;
use crate::contract::{
    OBJECT_LIST_ENTRY_LEN, page_base, page_bytes, page_size_of, page_start, saturated,
    saturating_product, view_sample_window, view_window, MTL_FORMAT_BGRA8_UNORM,
};
use crate::mapping::MappingView;
use crate::model::{DeviceState, DeviceView, collect_gpas};
use crate::observe::{FailLatch, SurfaceAlias};

verus! {

/// A valid entry of the list names a page that starts at `base`.
pub open spec fn lists_page(gpas: Seq<u64>, page: u64, base: u64) -> bool {
    exists|i: int| 0 <= i < gpas.len() && page_start(#[trigger] gpas[i], page) == base
}

/// Live surfaces `id` and `owner` both own the page at `base`.
pub open spec fn surfaces_collide(state: DeviceView, id: u32, owner: u32, base: u64) -> bool {
    let page = page_bytes(state.page_shift);
    &&& owner != id
    &&& state.mappings.dom().contains(id)
    &&& state.mappings.dom().contains(owner)
    &&& state.mappings[id].mapped
    &&& state.mappings[owner].mapped
    &&& lists_page(state.pages_of(id), page, base)
    &&& lists_page(state.pages_of(owner), page, base)
}

/// Some live surface shares a page with `id`.
pub open spec fn surface_collision(state: DeviceView, id: u32) -> bool {
    exists|owner: u32, base: u64| surfaces_collide(state, id, owner, base)
}

/// The first page of `theirs`, from `i` on, that `mine` lists too, by its start.
pub open spec fn shared_page(mine: Seq<u64>, theirs: Seq<u64>, page: u64, i: int) -> Option<u64>
    decreases theirs.len() - i,
{
    if i < 0 || i >= theirs.len() {
        None
    } else if lists_page(mine, page, page_start(theirs[i], page)) {
        Some(page_start(theirs[i], page))
    } else {
        shared_page(mine, theirs, page, i + 1)
    }
}

/// A surface with `owner`'s id is live and shares a page with `id`.
pub open spec fn shares_with(state: DeviceView, id: u32, owner: u32) -> bool {
    exists|base: u64| surfaces_collide(state, id, owner, base)
}

/// The surface of the lowest id that shares a page with `id`.
pub open spec fn lowest_sharer(state: DeviceView, id: u32, owner: u32) -> bool {
    shares_with(state, id, owner) && forall|other: u32| #[trigger]
        shares_with(state, id, other) ==> owner <= other
}

/// A page that `id` shares with another live surface, and that surface: the one of
/// the lowest id, and its first such page.
pub open spec fn alias_of(state: DeviceView, id: u32) -> Option<(u64, u32)> {
    if surface_collision(state, id) {
        let owner = choose|owner: u32| lowest_sharer(state, id, owner);
        Some(
            (
                shared_page(
                    state.pages_of(id),
                    state.pages_of(owner),
                    page_bytes(state.page_shift),
                    0,
                )->0,
                owner,
            ),
        )
    } else {
        None
    }
}

/// The page starts of a list, as a set to look up in.
fn page_set(gpas: &Vec<u64>, page: u64) -> (set: HashSet<u64>)
    requires
        page > 0,
    ensures
        forall|base: u64| #[trigger] set@.contains(base) <==> lists_page(gpas@, page, base),
{
    broadcast use vstd::std_specs::hash::group_hash_axioms;

    let mut set: HashSet<u64> = HashSet::new();
    let mut i: usize = 0;
    while i < gpas.len()
        invariant
            page > 0,
            i <= gpas.len(),
            forall|base: u64| #[trigger]
                set@.contains(base) <==> exists|k: int|
                    0 <= k < i && page_start(#[trigger] gpas[k], page) == base,
        decreases gpas.len() - i,
    {
        let ghost before = set@;
        let base: u64 = page_base(gpas[i], page);
        set.insert(base);
        proof {
            assert forall|b: u64| #[trigger] set@.contains(b) <==> exists|k: int|
                0 <= k < i + 1 && page_start(#[trigger] gpas[k], page) == b by {
                assert(before.contains(b) <==> exists|k: int|
                    0 <= k < i && page_start(#[trigger] gpas[k], page) == b);
                if b == base {
                    assert(page_start(gpas[i as int], page) == b);
                }
            }
        }
        i = i + 1;
    }
    set
}

/// The first page start of the list that the set holds.
fn find_page(
    gpas: &Vec<u64>,
    page: u64,
    set: &HashSet<u64>,
    Ghost(mine): Ghost<Seq<u64>>,
) -> (found: Option<u64>)
    requires
        page > 0,
        forall|base: u64| #[trigger] set@.contains(base) <==> lists_page(mine, page, base),
    ensures
        found == shared_page(mine, gpas@, page, 0),
        match found {
            Some(base) => lists_page(mine, page, base) && lists_page(gpas@, page, base),
            None => forall|base: u64| #[trigger]
                lists_page(mine, page, base) ==> !lists_page(gpas@, page, base),
        },
{
    broadcast use vstd::std_specs::hash::group_hash_axioms;

    let mut i: usize = 0;
    while i < gpas.len()
        invariant
            page > 0,
            i <= gpas.len(),
            forall|base: u64| #[trigger] set@.contains(base) <==> lists_page(mine, page, base),
            shared_page(mine, gpas@, page, 0) == shared_page(mine, gpas@, page, i as int),
            forall|k: int| 0 <= k < i ==> !set@.contains(page_start(#[trigger] gpas[k], page)),
        decreases gpas.len() - i,
    {
        let base: u64 = page_base(gpas[i], page);
        if set.contains(&base) {
            assert(page_start(gpas[i as int], page) == base);
            return Some(base);
        }
        i = i + 1;
    }
    assert forall|base: u64| #[trigger] lists_page(mine, page, base) implies !lists_page(
        gpas@,
        page,
        base,
    ) by {
        assert(set@.contains(base));
    }
    None
}

/// A page that `id` shares with another live surface, and that surface.
///
/// Two live surfaces must never own one guest page: one of them holds a wrong
/// page, and a write through it lands in memory that is not its own.
pub fn first_surface_page_collision(state: &DeviceState, mapping_id: u32) -> (found: Option<
    (u64, u32),
>)
    requires
        state.wf(),
    ensures
        found == alias_of(state@, mapping_id),
        match found {
            Some((base, owner)) => surfaces_collide(state@, mapping_id, owner, base),
            None => !surface_collision(state@, mapping_id),
        },
{
    let page: u64 = state.page_size();
    let mine = match state.mappings.get(&mapping_id) {
        Some(m) => {
            if !m.mapped {
                return None;
            }
            collect_gpas(&m.page_entries, state.page_shift)
        },
        None => {
            return None;
        },
    };
    let set = page_set(&mine, page);
    let mut best: Option<(u64, u32)> = None;
    let mut i: usize = 0;
    while i < state.mappings.ids.len()
        invariant
            state.wf(),
            page == page_bytes(state.page_shift),
            page > 0,
            i <= state.mappings.ids.len(),
            state@.mappings.dom().contains(mapping_id),
            state@.mappings[mapping_id].mapped,
            mine@ == state@.pages_of(mapping_id),
            forall|base: u64| #[trigger] set@.contains(base) <==> lists_page(mine@, page, base),
            match best {
                Some((base, owner)) => {
                    &&& surfaces_collide(state@, mapping_id, owner, base)
                    &&& shared_page(mine@, state@.pages_of(owner), page, 0) == Some(base)
                    &&& forall|k: int|
                        0 <= k < i && #[trigger] shares_with(
                            state@,
                            mapping_id,
                            state.mappings.ids[k],
                        ) ==> owner <= state.mappings.ids[k]
                },
                None => forall|k: int|
                    0 <= k < i ==> !(#[trigger] shares_with(
                        state@,
                        mapping_id,
                        state.mappings.ids[k],
                    )),
            },
        decreases state.mappings.ids.len() - i,
    {
        let owner: u32 = state.mappings.ids[i];
        let other = &state.mappings.entries[i];
        proof {
            state.mappings.lemma_slot(i as int);
        }
        let lower = match best {
            Some((_, lowest)) => owner < lowest,
            None => true,
        };
        if owner != mapping_id && other.mapped && lower {
            let gpas = collect_gpas(&other.page_entries, state.page_shift);
            match find_page(&gpas, page, &set, Ghost(mine@)) {
                Some(base) => {
                    assert(surfaces_collide(state@, mapping_id, owner, base));
                    best = Some((base, owner));
                },
                None => {
                    assert(!shares_with(state@, mapping_id, owner));
                },
            }
        } else if owner == mapping_id || !other.mapped {
            assert(!shares_with(state@, mapping_id, owner));
        }
        i = i + 1;
    }
    proof {
        assert forall|owner: u32| #[trigger] shares_with(state@, mapping_id, owner) implies exists|
            k: int,
        | 0 <= k < state.mappings.ids.len() && #[trigger] state.mappings.ids[k] == owner by {
            let base = choose|base: u64| surfaces_collide(state@, mapping_id, owner, base);
            let k = choose|k: int| crate::mapping::slot_of(state.mappings.ids@, k, owner);
            assert(crate::mapping::slot_of(state.mappings.ids@, k, owner));
            assert(state.mappings.ids[k] == owner);
        }
        match best {
            Some((base, owner)) => {
                assert(shares_with(state@, mapping_id, owner));
                assert(lowest_sharer(state@, mapping_id, owner));
                let picked = choose|o: u32| lowest_sharer(state@, mapping_id, o);
                assert(lowest_sharer(state@, mapping_id, picked));
                assert(picked == owner);
            },
            None => {
                if surface_collision(state@, mapping_id) {
                    let (owner, base) = choose|owner: u32, base: u64|
                        surfaces_collide(state@, mapping_id, owner, base);
                    assert(shares_with(state@, mapping_id, owner));
                }
            },
        }
    }
    best
}

/// The state once a page alias was found on a mapping: its owed windows and its
/// pages are gone, so that the next writer has to resolve again.
pub open spec fn failed_closed(state: DeviceView, mapping_id: u32) -> DeviceView {
    state.without_windows(mapping_id).invalidated(mapping_id)
}

/// The alias that was found on a mapping, as it is logged.
pub open spec fn alias_found(state: DeviceView, mapping_id: u32, path: &'static str) -> SurfaceAlias {
    let (gpa, owner) = alias_of(state, mapping_id)->0;
    SurfaceAlias {
        mapping_id,
        owner,
        gpa,
        mine_pages: state.mappings[mapping_id].page_entries.len() as usize,
        path,
    }
}

/// Note a page alias and fail closed.
pub fn fail_closed_surface_page_collision(
    state: &mut DeviceState,
    latch: &mut FailLatch,
    alias: SurfaceAlias,
)
    requires
        old(state).wf(),
    ensures
        final(state).wf(),
        final(state)@ == failed_closed(old(state)@, alias.mapping_id),
        final(latch)@ == old(latch)@.alias_noted(alias),
{
    let _ = latch.note_surface_page_collision(alias);
    state.drop_windows(alias.mapping_id);
    let _ = state.invalidate_mapping_pages(alias.mapping_id);
}

/// Fail closed where the mapping shares a page with another live surface; tells
/// whether it does.
pub(crate) fn fail_on_alias(
    state: &mut DeviceState,
    latch: &mut FailLatch,
    mapping_id: u32,
    path: &'static str,
) -> (failed: bool)
    requires
        old(state).wf(),
    ensures
        final(state).wf(),
        failed == surface_collision(old(state)@, mapping_id),
        failed ==> final(state)@ == failed_closed(old(state)@, mapping_id) && final(latch)@ == old(
            latch,
        )@.alias_noted(alias_found(old(state)@, mapping_id, path)),
        !failed ==> final(state)@ == old(state)@ && final(latch)@ == old(latch)@,
{
    let (gpa, owner) = match first_surface_page_collision(state, mapping_id) {
        Some(found) => found,
        None => {
            return false;
        },
    };
    assert(surfaces_collide(state@, mapping_id, owner, gpa));
    let mine_pages: usize = match state.mappings.get(&mapping_id) {
        Some(m) => m.page_entries.len(),
        None => 0,
    };
    fail_closed_surface_page_collision(
        state,
        latch,
        SurfaceAlias { mapping_id, owner, gpa, mine_pages, path },
    );
    true
}

/// A mapping that failed closed shares no page with any surface.
pub proof fn law_failing_closed_ends_the_alias(state: DeviceView, mapping_id: u32)
    ensures
        !surface_collision(failed_closed(state, mapping_id), mapping_id),
{
    let after = failed_closed(state, mapping_id);
    if surface_collision(after, mapping_id) {
        let (owner, base) = choose|owner: u32, base: u64|
            surfaces_collide(after, mapping_id, owner, base);
        assert(after.mappings[mapping_id].page_entries.len() == 0);
        assert(after.pages_of(mapping_id).len() == 0);
    }
}

/// Whether an adopted page plan changes the mapping's pages: a condemned slot
/// compares with the list that the delete stashed.
pub open spec fn plan_changes(
    condemned: Option<Seq<u32>>,
    current: Seq<u32>,
    plan: Seq<u32>,
) -> bool {
    match condemned {
        Some(old) => old != plan,
        None => current != plan,
    }
}

fn same_entries(a: &[u32], b: &[u32]) -> (same: bool)
    ensures
        same == (a@ == b@),
{
    if a.len() != b.len() {
        return false;
    }
    let mut i: usize = 0;
    while i < a.len()
        invariant
            i <= a.len(),
            a.len() == b.len(),
            forall|k: int| 0 <= k < i ==> a@[k] == b@[k],
        decreases a.len() - i,
    {
        if a[i] != b[i] {
            return false;
        }
        i = i + 1;
    }
    assert(a@ =~= b@);
    true
}

/// An optional list by its view.
pub open spec fn slice_view(entries: Option<&[u32]>) -> Option<Seq<u32>> {
    match entries {
        Some(e) => Some(e@),
        None => None,
    }
}

/// What adopting a freshly resolved page plan means for a mapping slot: whether
/// its pages changed, whether a condemned backing really died, and whether the
/// delete was stale and the same incarnation lives on.
pub fn plan_adoption_decision(
    condemned: Option<&[u32]>,
    current: &[u32],
    plan: &[u32],
) -> (decision: (bool, bool, bool))
    ensures
        decision.0 == plan_changes(slice_view(condemned), current@, plan@),
        decision.1 == (condemned is Some && decision.0),
        decision.2 == (condemned is Some && !decision.0),
        condemned is Some ==> (decision.0 <==> condemned->0@ != plan@),
        condemned is None ==> (decision.0 <==> current@ != plan@),
        condemned is None ==> !decision.1 && !decision.2,
        !(decision.1 && decision.2),
{
    let changed = match condemned {
        Some(old) => !same_entries(old, plan),
        None => !same_entries(current, plan),
    };
    (changed, condemned.is_some() && changed, condemned.is_some() && !changed)
}

/// The format that a surface is sampled in: BGRA where none is latched.
pub open spec fn latched_format(format: u16) -> u16 {
    if format != 0 {
        format
    } else {
        MTL_FORMAT_BGRA8_UNORM
    }
}

/// The larger of two sizes.
pub open spec fn larger(a: int, b: int) -> int {
    if a >= b {
        a
    } else {
        b
    }
}

/// The page list covers the mapping's sample window, or at least one page; any
/// list will do while no geometry is latched.
pub open spec fn covers_geom(m: MappingView, page_shift: u32) -> bool {
    &&& m.page_entries.len() > 0
    &&& m.has_geom && m.width != 0 && m.height != 0 ==> match view_window(
        m.device,
        latched_format(m.format),
        m.width,
        m.height,
    ) {
        Some(window) => m.page_entries.len() * page_bytes(page_shift) >= larger(
            window.end as int,
            page_bytes(page_shift) as int,
        ),
        None => false,
    }
}

/// Whether the cached page list covers the sample window of the latched geometry.
///
/// An early resolve may run before the geometry is known and leave a list that is
/// too short; then it has to be resolved again.
pub fn pages_cover_geom(state: &DeviceState, mapping_id: u32) -> (covers: bool)
    requires
        state.wf(),
    ensures
        covers == (state@.mappings.dom().contains(mapping_id) && covers_geom(
            state@.mappings[mapping_id],
            state.page_shift,
        )),
{
    let m = match state.mappings.get(&mapping_id) {
        Some(m) => m,
        None => {
            return false;
        },
    };
    if m.page_entries.len() == 0 {
        return false;
    }
    if !m.has_geom || m.width == 0 || m.height == 0 {
        return true;
    }
    let format: u16 = if m.format != 0 {
        m.format
    } else {
        MTL_FORMAT_BGRA8_UNORM
    };
    let end: u64 = match view_sample_window(&m.device, format, m.width, m.height) {
        Some(window) => window.end,
        None => {
            return false;
        },
    };
    let page: u128 = page_size_of(state.page_shift) as u128;
    let count: u128 = m.page_entries.len() as u128;
    assert(count * page <= 0xffff_ffff_ffff_ffff * 0xffff_ffff_ffff_ffff) by (nonlinear_arith)
        requires
            count <= 0xffff_ffff_ffff_ffff,
            page <= 0xffff_ffff_ffff_ffff,
    ;
    let covered: u128 = count * page;
    covered >= end as u128 && covered >= page
}

/// The page of `gpa` is one of the listed ones.
pub open spec fn claims(gpas: Seq<u64>, page: u64, gpa: u64) -> bool {
    lists_page(gpas, page, page_start(gpa, page))
}

/// The address of a page frame.
pub open spec fn frame(pfn: u32, page_shift: u32) -> u64 {
    (pfn as u64) << page_shift
}

/// The first listed page among the ring pages from `i` on.
pub open spec fn ring_claim(ring: Seq<u64>, i: int, gpas: Seq<u64>, page: u64) -> Option<u64>
    decreases ring.len() - i,
{
    if i < 0 || i >= ring.len() {
        None
    } else if claims(gpas, page, ring[i]) {
        Some(page_start(ring[i], page))
    } else {
        ring_claim(ring, i + 1, gpas, page)
    }
}

/// The first listed page among the rings from `r` on.
pub open spec fn rings_claim(rings: Seq<Seq<u64>>, r: int, gpas: Seq<u64>, page: u64) -> Option<u64>
    decreases rings.len() - r,
{
    if r < 0 || r >= rings.len() {
        None
    } else {
        match ring_claim(rings[r], 0, gpas, page) {
            Some(base) => Some(base),
            None => rings_claim(rings, r + 1, gpas, page),
        }
    }
}

/// The highest reference that a task registered, among the first `n` objects.
pub open spec fn highest_ref<T>(objects: Seq<(u32, u32, T)>, n: int, task_id: u32) -> Option<u32>
    decreases n,
{
    if n <= 0 {
        None
    } else {
        let rest = highest_ref(objects, n - 1, task_id);
        let (task, object_ref, _) = objects[n - 1];
        if task == task_id {
            match rest {
                Some(high) => if high >= object_ref {
                    Some(high)
                } else {
                    Some(object_ref)
                },
                None => Some(object_ref),
            }
        } else {
            rest
        }
    }
}

/// Bytes of a task's object list that registered objects reach into.
pub open spec fn live_end(high: Option<u32>) -> u64 {
    match high {
        Some(object_ref) => ((object_ref + 1) * OBJECT_LIST_ENTRY_LEN) as u64,
        None => 0,
    }
}

/// Pages that the live part of an object list takes.
pub open spec fn live_pages(end: u64, page: u64) -> u64 {
    (saturated(end + page - 1) as int / page as int) as u64
}

/// The address of page `i` of an object list.
pub open spec fn list_page(first: u64, i: int, page: u64) -> u64 {
    saturated(first + saturated(i * page))
}

/// The first listed page among those of an object list from `i` on.
pub open spec fn list_claim(first: u64, i: int, count: int, gpas: Seq<u64>, page: u64) -> Option<
    u64,
>
    decreases count - i,
{
    if i >= count {
        None
    } else if claims(gpas, page, list_page(first, i, page)) {
        Some(list_page(first, i, page))
    } else {
        list_claim(first, i + 1, count, gpas, page)
    }
}

/// The listed page that a task's own structures take, with its owner's name: the
/// page directory, then the live part of the object list.
pub open spec fn task_claim(
    state: DeviceView,
    t: int,
    gpas: Seq<u64>,
) -> Option<(u64, &'static str)> {
    let page = page_bytes(state.page_shift);
    let task = state.tasks[t];
    if !task.active {
        None
    } else if task.directory_pfn != 0 && claims(
        gpas,
        page,
        frame(task.directory_pfn, state.page_shift),
    ) {
        Some((frame(task.directory_pfn, state.page_shift), "task_directory"))
    } else if task.object_list_pfn != 0 {
        let end = live_end(highest_ref(state.objects, state.objects.len() as int, t as u32));
        match list_claim(
            frame(task.object_list_pfn, state.page_shift),
            0,
            live_pages(end, page) as int,
            gpas,
            page,
        ) {
            Some(gpa) => Some((gpa, "task_object_list")),
            None => None,
        }
    } else {
        None
    }
}

/// The first such claim among the tasks from `t` on.
pub open spec fn tasks_claim(state: DeviceView, t: int, gpas: Seq<u64>) -> Option<
    (u64, &'static str),
>
    decreases state.tasks.len() - t,
{
    if t < 0 || t >= state.tasks.len() {
        None
    } else {
        match task_claim(state, t, gpas) {
            Some(claim) => Some(claim),
            None => tasks_claim(state, t + 1, gpas),
        }
    }
}

/// The first page that the device or a task needs for itself, in the order:
/// graphics root, root queue, mapper ring, child queues, task structures.
pub open spec fn control_claim(state: DeviceView, gpas: Seq<u64>) -> Option<(u64, &'static str)> {
    let page = page_bytes(state.page_shift);
    let root = frame(state.gfx.root_page, state.page_shift);
    let fifo = frame(state.gfx.fifo_base_page, state.page_shift);
    if state.gfx.root_page != 0 && claims(gpas, page, root) {
        Some((root, "gfx_root"))
    } else if state.gfx.fifo_base_page != 0 && claims(gpas, page, fifo) {
        Some((fifo, "root_fifo"))
    } else if state.iosfc.ring_base != 0 && claims(gpas, page, state.iosfc.ring_base) {
        Some((page_start(state.iosfc.ring_base, page), "iosfc_ring"))
    } else {
        match rings_claim(state.child_rings, 0, gpas, page) {
            Some(base) => Some((base, "child_fifo")),
            None => tasks_claim(state, 0, gpas),
        }
    }
}

fn does_claim(set: &HashSet<u64>, page: u64, gpa: u64, Ghost(gpas): Ghost<Seq<u64>>) -> (r: bool)
    requires
        page > 0,
        forall|base: u64| #[trigger] set@.contains(base) <==> lists_page(gpas, page, base),
    ensures
        r == claims(gpas, page, gpa),
{
    broadcast use vstd::std_specs::hash::group_hash_axioms;

    set.contains(&page_base(gpa, page))
}

fn find_highest_ref(state: &DeviceState, task_id: u32) -> (high: Option<u32>)
    ensures
        high == highest_ref(state@.objects, state@.objects.len() as int, task_id),
{
    let mut high: Option<u32> = None;
    let mut i: usize = 0;
    while i < state.objects.len()
        invariant
            i <= state.objects.len(),
            high == highest_ref(state@.objects, i as int, task_id),
        decreases state.objects.len() - i,
    {
        let (task, object_ref, _) = state.objects[i];
        if task == task_id {
            high = match high {
                Some(h) => if h >= object_ref {
                    Some(h)
                } else {
                    Some(object_ref)
                },
                None => Some(object_ref),
            };
        }
        i = i + 1;
    }
    high
}

fn find_list_claim(
    set: &HashSet<u64>,
    first: u64,
    count: u64,
    page: u64,
    Ghost(gpas): Ghost<Seq<u64>>,
) -> (found: Option<u64>)
    requires
        page > 0,
        forall|base: u64| #[trigger] set@.contains(base) <==> lists_page(gpas, page, base),
    ensures
        found == list_claim(first, 0, count as int, gpas, page),
{
    let mut i: u64 = 0;
    while i < count
        invariant
            page > 0,
            i <= count,
            forall|base: u64| #[trigger] set@.contains(base) <==> lists_page(gpas, page, base),
            list_claim(first, 0, count as int, gpas, page) == list_claim(
                first,
                i as int,
                count as int,
                gpas,
                page,
            ),
        decreases count - i,
    {
        let gpa: u64 = first.saturating_add(saturating_product(i, page));
        if does_claim(set, page, gpa, Ghost(gpas)) {
            return Some(gpa);
        }
        i = i + 1;
    }
    None
}

fn find_task_claim(
    state: &DeviceState,
    t: usize,
    set: &HashSet<u64>,
    Ghost(gpas): Ghost<Seq<u64>>,
) -> (found: Option<(u64, &'static str)>)
    requires
        state.wf(),
        t < state.tasks.len(),
        forall|base: u64| #[trigger]
            set@.contains(base) <==> lists_page(gpas, page_bytes(state.page_shift), base),
    ensures
        found == task_claim(state@, t as int, gpas),
{
    let page: u64 = state.page_size();
    let shift: u32 = state.page_shift;
    let task = state.tasks[t];
    if !task.active {
        return None;
    }
    if task.directory_pfn != 0 {
        let gpa: u64 = (task.directory_pfn as u64) << shift;
        if does_claim(set, page, gpa, Ghost(gpas)) {
            return Some((gpa, "task_directory"));
        }
    }
    if task.object_list_pfn != 0 {
        let first: u64 = (task.object_list_pfn as u64) << shift;
        let end: u64 = match find_highest_ref(state, t as u32) {
            Some(object_ref) => (object_ref as u64 + 1) * OBJECT_LIST_ENTRY_LEN,
            None => 0,
        };
        let count: u64 = end.saturating_add(page - 1) / page;
        return match find_list_claim(set, first, count, page, Ghost(gpas)) {
            Some(gpa) => Some((gpa, "task_object_list")),
            None => None,
        };
    }
    None
}

fn find_ring_claim(
    state: &DeviceState,
    set: &HashSet<u64>,
    Ghost(gpas): Ghost<Seq<u64>>,
) -> (found: Option<u64>)
    requires
        state.wf(),
        forall|base: u64| #[trigger]
            set@.contains(base) <==> lists_page(gpas, page_bytes(state.page_shift), base),
    ensures
        found == rings_claim(state@.child_rings, 0, gpas, page_bytes(state.page_shift)),
{
    let page: u64 = state.page_size();
    let ghost rings = state@.child_rings;
    let mut r: usize = 0;
    while r < state.child_rings.len()
        invariant
            page == page_bytes(state.page_shift),
            page > 0,
            r <= state.child_rings.len(),
            rings == state@.child_rings,
            forall|base: u64| #[trigger] set@.contains(base) <==> lists_page(gpas, page, base),
            rings_claim(rings, 0, gpas, page) == rings_claim(rings, r as int, gpas, page),
        decreases state.child_rings.len() - r,
    {
        let ring = &state.child_rings[r].page_gpas;
        assert(rings[r as int] == ring@);
        let mut i: usize = 0;
        while i < ring.len()
            invariant
                page > 0,
                i <= ring.len(),
                r < state.child_rings.len(),
                rings == state@.child_rings,
                rings[r as int] == ring@,
                forall|base: u64| #[trigger]
                    set@.contains(base) <==> lists_page(gpas, page, base),
                rings_claim(rings, 0, gpas, page) == rings_claim(rings, r as int, gpas, page),
                ring_claim(ring@, 0, gpas, page) == ring_claim(ring@, i as int, gpas, page),
                page == page_bytes(state.page_shift),
            decreases ring.len() - i,
        {
            if does_claim(set, page, ring[i], Ghost(gpas)) {
                return Some(page_base(ring[i], page));
            }
            i = i + 1;
        }
        r = r + 1;
    }
    None
}

/// The first page of the list that is live transport or task structure, with
/// its owner's name.
///
/// A surface must never alias such a page. Of an object list only the part that
/// registered references reach into is reserved: the advertised capacity is the
/// guest's headroom, not a claim that all of it is populated.
pub fn first_control_page_collision(state: &DeviceState, gpas: &Vec<u64>) -> (found: Option<
    (u64, &'static str),
>)
    requires
        state.wf(),
    ensures
        found == control_claim(state@, gpas@),
{
    let page: u64 = state.page_size();
    let shift: u32 = state.page_shift;
    let set = page_set(gpas, page);
    if state.gfx.root_page != 0 {
        let gpa: u64 = (state.gfx.root_page as u64) << shift;
        if does_claim(&set, page, gpa, Ghost(gpas@)) {
            return Some((gpa, "gfx_root"));
        }
    }
    if state.gfx.fifo_base_page != 0 {
        let gpa: u64 = (state.gfx.fifo_base_page as u64) << shift;
        if does_claim(&set, page, gpa, Ghost(gpas@)) {
            return Some((gpa, "root_fifo"));
        }
    }
    if state.iosfc.ring_base != 0 && does_claim(&set, page, state.iosfc.ring_base, Ghost(gpas@)) {
        return Some((page_base(state.iosfc.ring_base, page), "iosfc_ring"));
    }
    match find_ring_claim(state, &set, Ghost(gpas@)) {
        Some(base) => {
            return Some((base, "child_fifo"));
        },
        None => {},
    }
    let mut t: usize = 0;
    while t < state.tasks.len()
        invariant
            state.wf(),
            t <= state.tasks.len(),
            forall|base: u64| #[trigger]
                set@.contains(base) <==> lists_page(gpas@, page_bytes(state.page_shift), base),
            control_claim(state@, gpas@) == tasks_claim(state@, t as int, gpas@),
        decreases state.tasks.len() - t,
    {
        match find_task_claim(state, t, &set, Ghost(gpas@)) {
            Some(claim) => {
                return Some(claim);
            },
            None => {},
        }
        t = t + 1;
    }
    None
}

} // verus!
