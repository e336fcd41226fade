use reims_vgpu::contract::{
    MTL_FORMAT_BGRA8_UNORM, PAGE_ENTRY_PFN_SHIFT, PAGE_ENTRY_VALID, PAGE_SHIFT_ARM64E,
    PAGE_SHIFT_X86, PAGE_SIZE_ARM64E,
};
use reims_vgpu::fake_host::{FakeHost, MapperObject};
use reims_vgpu::host::{MapperInternalFields, MemError, Status};
use reims_vgpu::mapper::capture::{
    MAPPER_CAPTURE_REG_MAPPER_DEVICE, MAPPER_CAPTURE_REG_MAPPING_INTERNAL,
    MAPPER_CAPTURE_REG_REQUEST_TYPE, MAPPER_REQUEST_MAP, MAPPER_REQUEST_UNMAP, MapperDecline,
    refusal_reason,
};
use reims_vgpu::mapper::io::{MAPPING_RUN_IMPORT_SLOW_US, mapping_run_import_is_slow};
use reims_vgpu::mapper::pages::{
    fail_closed_surface_page_collision, first_control_page_collision, first_surface_page_collision,
    plan_adoption_decision,
};
use reims_vgpu::mapper::resolve::{REVALIDATE_SLOW_US, revalidate_timing_is_slow};
use reims_vgpu::mapper::{
    apply_capture, capture_at_producer, ensure_contig_view, ensure_resolved_for_scanout,
    pages_cover_geom, read_mapping_bytes, resolve_mapping_backing, revalidate_mapping_pages,
    revalidate_mapping_reason, write_mapping_bytes,
};
use reims_vgpu::model::{DeviceId, DeviceState, ObjectEntry};
use reims_vgpu::observe::{Emit, FailLatch, SurfaceAlias};

#[test]
fn page_table_revalidation_slow_proxy_threshold_is_explicit() {
    assert!(!revalidate_timing_is_slow(REVALIDATE_SLOW_US - 1));
    assert!(revalidate_timing_is_slow(REVALIDATE_SLOW_US));
}

#[test]
fn fragmented_run_import_slow_proxy_threshold_is_explicit() {
    assert!(!mapping_run_import_is_slow(MAPPING_RUN_IMPORT_SLOW_US - 1));
    assert!(mapping_run_import_is_slow(MAPPING_RUN_IMPORT_SLOW_US));
}

#[test]
fn revalidate_fail_closed_without_internal_and_empty_pages() {
    let mut state = DeviceState::new(DeviceId(1), PAGE_SHIFT_X86);
    let host = FakeHost::new();
    state.map_surface(2);
    // Mapped but no MappingInternal and no pages → not writable.
    assert!(!revalidate_mapping_pages(&mut state, &host, &mut FailLatch::new(), 2));
}

#[test]
fn revalidate_reason_disambiguates_the_miss() {
    let mut state = DeviceState::new(DeviceId(1), PAGE_SHIFT_X86);
    let host = FakeHost::new();
    // Unknown id → the mapping was never created / already forgotten.
    assert_eq!(
        revalidate_mapping_reason(&mut state, &host, &mut FailLatch::new(), 7),
        Some("revalidate_gone")
    );
    // Mapped but no MappingInternal and no page list → the benign
    // (re)wire-gap window, NOT a live-table resolve failure. Must carry its
    // own slug so a real content drop is never masked by this case.
    state.map_surface(2);
    assert_eq!(
        revalidate_mapping_reason(&mut state, &host, &mut FailLatch::new(), 2),
        Some("revalidate_no_pages")
    );
    // A resolvable static page list → success (None).
    state.map_surface(4);
    state.mappings.get_mut(&4).unwrap().page_entries =
        vec![(0x100 << PAGE_ENTRY_PFN_SHIFT) | PAGE_ENTRY_VALID];
    assert_eq!(revalidate_mapping_reason(&mut state, &host, &mut FailLatch::new(), 4), None);
}

#[test]
fn surface_page_collision_detects_only_distinct_live_alias() {
    let mut state = DeviceState::new(DeviceId(1), PAGE_SHIFT_X86);
    let entry = |pfn: u32| (pfn << PAGE_ENTRY_PFN_SHIFT) | PAGE_ENTRY_VALID;
    let gpa = |pfn: u64| pfn << PAGE_SHIFT_X86;
    // Two distinct live surfaces on disjoint pages → no collision.
    state.map_surface(10);
    state.map_surface(20);
    state.mappings.get_mut(&10).unwrap().page_entries = vec![entry(0x100), entry(0x101)];
    state.mappings.get_mut(&20).unwrap().page_entries = vec![entry(0x200), entry(0x201)];
    assert_eq!(first_surface_page_collision(&state, 10), None);
    assert_eq!(first_surface_page_collision(&state, 20), None);
    // Surface 20 rewires onto a page surface 10 still owns → collision,
    // reported against the other owner (10) at the shared GPA.
    state.mappings.get_mut(&20).unwrap().page_entries = vec![entry(0x101), entry(0x201)];
    assert_eq!(
        first_surface_page_collision(&state, 20),
        Some((gpa(0x101), 10))
    );
    // A surface never collides with itself.
    assert_eq!(
        first_surface_page_collision(&state, 10),
        Some((gpa(0x101), 20))
    );
    // If the other owner is unmapped, the alias is legitimate (handoff) →
    // no collision.
    state.unmap_surface(10);
    assert_eq!(first_surface_page_collision(&state, 20), None);
    // Empty / unmapped self → None.
    state.mappings.get_mut(&20).unwrap().page_entries.clear();
    assert_eq!(first_surface_page_collision(&state, 20), None);
}

#[test]
fn reprieve_with_aliasing_peer_is_a_detected_collision() {
    // The condemn/reprieve corruptor precondition: a mapping's backing was
    // deleted (condemn stashed its pages), the guest handed the SAME
    // physical pages to another live surface, but this mapping's page table
    // still resolves to them — so the resolve fingerprints identical and
    // REPRIEVES (pages_changed == false, no map_generation bump). The rewire
    // wrong-PFN guard is gated on pages_changed and would never run; the
    // reprieve-path guard must catch it. This asserts both halves the branch
    // composes fire together on that exact state.
    let mut state = DeviceState::new(DeviceId(1), PAGE_SHIFT_X86);
    let entry = |pfn: u32| (pfn << PAGE_ENTRY_PFN_SHIFT) | PAGE_ENTRY_VALID;
    let gpa = |pfn: u64| pfn << PAGE_SHIFT_X86;

    // Mapping 3: condemned, its stashed pages == the plan it re-adopts.
    state.map_surface(3);
    {
        let m = state.mappings.get_mut(&3).unwrap();
        m.mapped = true;
        m.page_entries = vec![entry(0x300), entry(0x301)];
        m.map_generation = 4;
    }
    assert!(state.condemn_surface_backing(3));
    // The re-walked plan matches the condemned fingerprint → reprieve.
    let condemned = state.mappings.get(&3).unwrap().condemned_entries.clone();
    let plan = vec![entry(0x300), entry(0x301)];
    let (pages_changed, incarnation_changed, reprieved) =
        plan_adoption_decision(condemned.as_deref(), &[], &plan);
    assert!(
        reprieved,
        "same plan as condemned fingerprint must reprieve"
    );
    assert!(!pages_changed, "reprieve must not see a page change");
    assert!(!incarnation_changed);

    // Re-adopt the plan (as the resolve would) and stand up a DIFFERENT live
    // surface (20) that now also owns page 0x301 — the guest recycled it.
    {
        let m = state.mappings.get_mut(&3).unwrap();
        m.page_entries = plan.clone();
        m.condemned_entries = None;
    }
    state.map_surface(20);
    {
        let m = state.mappings.get_mut(&20).unwrap();
        m.mapped = true;
        m.page_entries = vec![entry(0x301), entry(0x999)];
    }
    // The reprieve-path guard's detector fires: mapping 3's re-adopted page
    // 0x301 is also owned by live surface 20 — the wrong-PFN write vector the
    // rewire-only guard would have missed (pages_changed was false).
    assert_eq!(
        first_surface_page_collision(&state, 3),
        Some((gpa(0x301), 20))
    );
}

#[test]
fn surface_page_collision_invalidates_mapping_fail_closed() {
    let mut state = DeviceState::new(DeviceId(1), PAGE_SHIFT_X86);
    let entry = |pfn: u32| (pfn << PAGE_ENTRY_PFN_SHIFT) | PAGE_ENTRY_VALID;
    let gpa = |pfn: u64| pfn << PAGE_SHIFT_X86;
    const MID: u32 = 0x0CA;
    const OWNER: u32 = 0x0BE;

    state.map_surface(MID);
    {
        let m = state.mappings.get_mut(&MID).unwrap();
        m.mapped = true;
        m.map_generation = 7;
        m.page_entries = vec![entry(0x777), entry(0x778)];
        m.page_table_kva = 0xABC0;
    }
    state.map_surface(OWNER);
    {
        let m = state.mappings.get_mut(&OWNER).unwrap();
        m.mapped = true;
        m.page_entries = vec![entry(0x778)];
    }

    let (shared_gpa, owner) =
        first_surface_page_collision(&state, MID).expect("must detect alias");
    assert_eq!((shared_gpa, owner), (gpa(0x778), OWNER));

    fail_closed_surface_page_collision(
        &mut state,
        &mut FailLatch::new(),
        SurfaceAlias {
            mapping_id: MID,
            owner,
            gpa: shared_gpa,
            mine_pages: 2,
            path: "test",
        },
    );
    let m = state.mappings.get(&MID).unwrap();
    assert!(m.mapped, "surface stays mapped but unresolved");
    assert!(
        m.page_entries.is_empty(),
        "known-bad page plan must be cleared"
    );
    assert_eq!(m.page_table_kva, 0);
    assert_eq!(
        m.map_generation, 8,
        "generation bump makes any deferred writeback fail closed"
    );
    assert_eq!(first_surface_page_collision(&state, MID), None);
}

#[test]
fn revalidate_accepts_static_page_list_without_internal() {
    let mut state = DeviceState::new(DeviceId(1), PAGE_SHIFT_X86);
    let host = FakeHost::new();
    state.map_surface(4);
    {
        let m = state.mappings.get_mut(&4).unwrap();
        m.page_entries = vec![(0x100 << PAGE_ENTRY_PFN_SHIFT) | PAGE_ENTRY_VALID];
    }
    assert!(revalidate_mapping_pages(&mut state, &host, &mut FailLatch::new(), 4));
}

#[test]
fn mapping_io_still_rejects_non_ram_page_at_map_boundary() {
    let mut state = DeviceState::new(DeviceId(1), PAGE_SHIFT_X86);
    let mut host = FakeHost::new();
    host.strict_linux_map = true;
    let mid = 6;
    assert!(state.map_surface(mid));
    {
        let m = state.mappings.get_mut(&mid).unwrap();
        m.page_entries = vec![(0x7f000 << PAGE_ENTRY_PFN_SHIFT) | PAGE_ENTRY_VALID];
    }
    let mut byte = [0u8; 1];
    assert!(!read_mapping_bytes(&mut state, &mut host, &mut FailLatch::new(), mid, 0, &mut byte,
    ));
    assert!(!write_mapping_bytes(&mut state, &mut host, &mut FailLatch::new(), mid, 0, &[1],));
}

#[test]
fn invalidate_mapping_pages_bumps_map_generation_and_clears() {
    let mut state = DeviceState::new(DeviceId(1), PAGE_SHIFT_X86);
    state.map_surface(5);
    {
        let m = state.mappings.get_mut(&5).unwrap();
        m.page_entries = vec![1];
        m.contig_ptr = 0xdead;
        m.contig_len = 4096;
    }
    let gen0 = state.mappings.get(&5).unwrap().map_generation;
    assert!(state.invalidate_mapping_pages(5));
    let m = state.mappings.get(&5).unwrap();
    assert!(m.page_entries.is_empty());
    assert_eq!(m.contig_ptr, 0);
    assert!(m.map_generation != gen0);
    assert_eq!(state.retired_views, vec![(0xdead, 4096)]);
}

/// Product Linux: full page list is non-packed → ensure_contig_view fails;
/// write_mapping_bytes still lands bytes via maximal packed runs.
#[test]
fn multi_import_fragmented_mapping_write() {
    let mut state = DeviceState::new(DeviceId(1), PAGE_SHIFT_X86);
    let mut host = FakeHost::new();
    host.strict_linux_map = true;
    let page = 1u64 << PAGE_SHIFT_X86;
    // Two non-adjacent guest pages (gap in GPA → not one packed map_pages).
    let gpa0 = 0x1000_0000u64;
    let gpa1 = 0x2000_0000u64;
    host.map_range(gpa0, page as usize, 0);
    host.map_range(gpa1, page as usize, 0);
    let pfn0 = (gpa0 >> PAGE_SHIFT_X86) as u32;
    let pfn1 = (gpa1 >> PAGE_SHIFT_X86) as u32;
    let mid = 9u32;
    state.map_surface(mid);
    {
        let m = state.mappings.get_mut(&mid).unwrap();
        m.page_entries = vec![
            (pfn0 << PAGE_ENTRY_PFN_SHIFT) | PAGE_ENTRY_VALID,
            (pfn1 << PAGE_ENTRY_PFN_SHIFT) | PAGE_ENTRY_VALID,
        ];
    }
    assert!(
        ensure_contig_view(&mut state, &mut host, &mut FailLatch::new(), mid).is_none(),
        "fragmented list must not pack under strict_linux_map"
    );
    let payload = b"FRAG-MULTI-IMPORT-OK!!!!"; // 24 bytes
    assert!(write_mapping_bytes(&mut state, &mut host, &mut FailLatch::new(), mid, 0, payload));
    // Second page offset = page_size.
    let mut hi = [0u8; 8];
    assert!(read_mapping_bytes(&mut state, &mut host, &mut FailLatch::new(), mid, page, &mut hi
    ));
    // Write only touched page 0; page 1 still zero.
    assert_eq!(hi, [0u8; 8]);
    let mut lo = [0u8; 24];
    assert!(read_mapping_bytes(&mut state, &mut host, &mut FailLatch::new(), mid, 0, &mut lo));
    assert_eq!(&lo[..], &payload[..]);
    // Cross-page write spanning the gap.
    let cross = vec![0xABu8; 16];
    let off = page - 8;
    assert!(write_mapping_bytes(&mut state, &mut host, &mut FailLatch::new(), mid, off, &cross));
    let mut check = [0u8; 16];
    assert!(read_mapping_bytes(&mut state, &mut host, &mut FailLatch::new(), mid, off, &mut check
    ));
    assert_eq!(check, [0xABu8; 16]);
}




#[test]
fn plan_adoption_decision_incarnation_semantics() {
    // No condemn: plain pages-changed compare against the live entries.
    assert_eq!(
        plan_adoption_decision(None, &[1, 2], &[1, 2]),
        (false, false, false)
    );
    assert_eq!(
        plan_adoption_decision(None, &[1, 2], &[1, 3]),
        (true, false, false)
    );
    // Condemned + identical plan = stale delete reprieve: the SAME
    // incarnation lives on — no bump, no drop (black-band class).
    assert_eq!(
        plan_adoption_decision(Some(&[1, 2]), &[], &[1, 2]),
        (false, false, true)
    );
    // Condemned + different plan = the backing really died and the id
    // was re-used: bump + drop the old incarnation's windows.
    assert_eq!(
        plan_adoption_decision(Some(&[1, 2]), &[], &[7, 8]),
        (true, true, false)
    );
    // The live (cleared) entries never mask the fingerprint compare.
    assert_eq!(
        plan_adoption_decision(Some(&[1, 2]), &[7, 8], &[1, 2]),
        (false, false, true)
    );
}

#[test]
fn resolve_fail_latch_dedups_per_mapping_and_rearms_on_clear() {
    // Flood guard for the per-present `resolve_mapping_backing` path: a
    // genuinely-broken mapping must log each reason once, re-arm when it
    // resolves, and never bleed across mappings.
    let mid = 0xF00D_0001u32;
    let other = 0xF00D_0002u32;
    let mut latch = FailLatch::new();
    latch.clear(mid);
    latch.clear(other);
    assert!(latch.note(mid, "iosurface_validate_mapping_id_mismatch"));
    assert!(latch.contains(mid, "iosurface_validate_mapping_id_mismatch"));
    // The same reason again is not fresh.
    assert!(!latch.note(mid, "iosurface_validate_mapping_id_mismatch"));
    // A different reason on the same mapping is tracked independently.
    latch.note(mid, "iosurface_mapper_internal_owner_read");
    assert!(latch.contains(mid, "iosurface_mapper_internal_owner_read"));
    // A different mapping is untouched by mid's failures.
    assert!(!latch.contains(other, "iosurface_validate_mapping_id_mismatch"));
    // Clearing mid re-arms both its reasons but leaves `other` alone.
    latch.note(other, "iosurface_validate_mapping_id_mismatch");
    latch.clear(mid);
    assert!(!latch.contains(mid, "iosurface_validate_mapping_id_mismatch"));
    assert!(!latch.contains(mid, "iosurface_mapper_internal_owner_read"));
    assert!(latch.contains(other, "iosurface_validate_mapping_id_mismatch"));
    latch.clear(other);
}

#[test]
fn mapper_declines_are_exact_and_log_safe() {
    let declines = [
        MapperDecline::CaptureMapperXregRead(MemError::XregUnavailable),
        MapperDecline::CaptureRequestTypeXregRead(MemError::XregUnavailable),
        MapperDecline::CaptureInternalXregRead(MemError::XregUnavailable),
        MapperDecline::CaptureRequestTypeMismatch,
        MapperDecline::CaptureInternalZero,
        MapperDecline::CaptureInternalKvaInvalid,
        MapperDecline::CaptureMapperKvaInvalid,
        MapperDecline::DeviceDescriptorRead(MemError::Unmapped),
    ];
    let mut slugs = std::collections::HashSet::new();
    for decline in declines {
        let slug = decline.slug();
        assert!(slug.starts_with("mapper_"));
        assert!(
            slug.bytes()
                .all(|byte| byte.is_ascii_lowercase() || byte.is_ascii_digit() || byte == b'_'),
            "not log-safe: {slug}"
        );
        assert!(slugs.insert(slug), "duplicate mapper decline: {slug}");
    }
    assert_eq!(
        Emit::new(
            "mapper_capture_fail",
            MapperDecline::CaptureRequestTypeMismatch.slug(),
        )
        .fields(&MapperDecline::CaptureRequestTypeMismatch.fields())
        .field("mapping", 9)
        .render(),
        "mapper_capture_fail reason=mapper_capture_request_type_mismatch mapping=9"
    );
}

#[test]
fn mapper_boundary_preserves_the_iosurface_check_reason() {
    let status = Status::ErrInternalRead("iosurface_mapper_internal_mapping_id_read");
    assert_eq!(
        refusal_reason(&status),
        "iosurface_mapper_internal_mapping_id_read"
    );
    assert_eq!(
        Emit::new("mapper_resolve_fail", status.refusal().unwrap())
            .text("class", status.class())
            .field("mapping", 4)
            .render(),
        "mapper_resolve_fail reason=iosurface_mapper_internal_mapping_id_read \
         class=internal_read mapping=4"
    );
}

/// arm64e kernel VA base used by the contract.
const KVA: u64 = 0xfffffe00_10000000;

fn mapper_object(internal: u64, owner: u64, mapping_id: u32) -> MapperObject {
    MapperObject {
        internal,
        owner,
        fields: MapperInternalFields {
            mapping_id,
            page_field_48: 0,
            page_field_50: 0,
            page_count: 1,
        },
        device: None,
        table_kva: 0,
        entries: Vec::new(),
    }
}

#[test]
fn capture_validates_identity_and_ring() {
    let mut state = DeviceState::new(DeviceId(1), PAGE_SHIFT_ARM64E);
    let mut host = FakeHost::new();
    let ring = 0x7000_0000u64;
    state.iosfc.ring_base = ring;

    // producer=1 → entry 0: MAP mapping_id=7
    let mut entry = [0u8; 16];
    entry[0..4].copy_from_slice(&MAPPER_REQUEST_MAP.to_le_bytes());
    entry[4..8].copy_from_slice(&7u32.to_le_bytes());
    host.put_bytes(ring, &entry);

    let internal = KVA;
    let mapper = KVA + 0x1000;
    // The mapping object's identity: owned by the mapper, for id 7.
    host.objects.push(mapper_object(internal, mapper, 7));

    host.set_xreg(MAPPER_CAPTURE_REG_MAPPER_DEVICE, mapper);
    host.set_xreg(MAPPER_CAPTURE_REG_REQUEST_TYPE, MAPPER_REQUEST_MAP as u64);
    host.set_xreg(MAPPER_CAPTURE_REG_MAPPING_INTERNAL, internal);

    let cap = capture_at_producer(&state, &host, &mut FailLatch::new(), 1).expect("capture");
    assert_eq!(cap.producer, 1);
    assert_eq!(cap.mapping_internal, internal);
    assert!(apply_capture(&mut state, &cap, 7));
    assert_eq!(state.mappings.get(&7).unwrap().mapping_internal, internal);
}

#[test]
fn capture_handoff_mismatch_is_fail_visible_and_latched() {
    // A decoded MAP request whose captured handoff registers disagree with
    // the ring (wrong request-type in the xreg) is a genuine capture miss:
    // the mapping never attaches → downstream black. It must return None,
    // latch its reason once (no per-publish flood), and re-arm on clear.
    let mut state = DeviceState::new(DeviceId(1), PAGE_SHIFT_ARM64E);
    let mut host = FakeHost::new();
    let ring = 0x7100_0000u64;
    state.iosfc.ring_base = ring;

    // producer=1 → entry 0: MAP mapping_id=9
    let mut entry = [0u8; 16];
    entry[0..4].copy_from_slice(&MAPPER_REQUEST_MAP.to_le_bytes());
    entry[4..8].copy_from_slice(&9u32.to_le_bytes());
    host.put_bytes(ring, &entry);

    let internal = KVA;
    // xreg request-type disagrees with the ring's MAP → handoff mismatch.
    host.set_xreg(MAPPER_CAPTURE_REG_MAPPER_DEVICE, 0);
    host.set_xreg(MAPPER_CAPTURE_REG_REQUEST_TYPE, MAPPER_REQUEST_UNMAP as u64);
    host.set_xreg(MAPPER_CAPTURE_REG_MAPPING_INTERNAL, internal);

    let mut latch = FailLatch::new();
    assert!(capture_at_producer(&state, &host, &mut latch, 1).is_none());
    assert!(latch.contains(9, "mapper_capture_request_type_mismatch"));
    // A second identical publish must not add a duplicate (still one entry).
    assert!(capture_at_producer(&state, &host, &mut latch, 1).is_none());
    assert!(!latch.note(9, "mapper_capture_request_type_mismatch"));
    // A clean resolve of the same mapping re-arms the capture reason.
    latch.clear(9);
    assert!(!latch.contains(9, "mapper_capture_request_type_mismatch"));
}

#[test]
fn resolve_builds_page_entries() {
    let mut state = DeviceState::new(DeviceId(1), PAGE_SHIFT_ARM64E);
    let mut host = FakeHost::new();
    let internal = KVA;
    let mapper = KVA + 0x1000;
    let table = KVA + 0x3000;
    let pfn = 0x1e88c_u32;
    let page_gpa = (pfn as u64) << PAGE_SHIFT_ARM64E;
    let entry = (pfn << PAGE_ENTRY_PFN_SHIFT) | PAGE_ENTRY_VALID;

    let mut object = mapper_object(internal, mapper, 3);
    object.table_kva = table;
    object.entries = vec![entry];
    host.objects.push(object);
    // one page of guest RAM for the surface
    host.map_range(page_gpa, PAGE_SIZE_ARM64E as usize, 0x55);

    state.mapper_device_kva = mapper;
    assert!(state.attach_mapping_internal(3, internal));
    assert!(resolve_mapping_backing(&mut state, &host, &mut FailLatch::new(), 3));
    let m = state.mappings.get(&3).unwrap();
    assert_eq!(m.page_entries.len(), 1);
    assert_eq!(m.page_entries[0], entry);
}

fn assert_revalidate_error_preserves_cached_page_plan(err: MemError) {
    let mut state = DeviceState::new(DeviceId(1), PAGE_SHIFT_ARM64E);
    let entry = (0x444u32 << PAGE_ENTRY_PFN_SHIFT) | PAGE_ENTRY_VALID;
    assert!(state.attach_mapping_internal(3, KVA));
    assert!(state.set_mapping_geom(
        3,
        64,
        64,
        MTL_FORMAT_BGRA8_UNORM
    ));
    {
        let m = state.mappings.get_mut(&3).unwrap();
        m.mapped = true;
        m.page_entries = vec![entry];
        m.page_table_kva = KVA + 0x3000;
    }

    let mut host = FakeHost::new();
    host.kva_error = Some(err);
    assert_eq!(revalidate_mapping_reason(&mut state, &host, &mut FailLatch::new(), 3), None);
    let m = state.mappings.get(&3).unwrap();
    assert_eq!(m.page_entries, vec![entry]);
    assert_eq!(m.page_table_kva, KVA + 0x3000);
}

#[test]
fn revalidate_no_cpu_preserves_cached_page_plan() {
    assert_revalidate_error_preserves_cached_page_plan(MemError::NoCpu);
}

#[test]
fn revalidate_unmapped_read_preserves_cached_page_plan() {
    assert_revalidate_error_preserves_cached_page_plan(MemError::Unmapped);
}

/// qemu-shim: early page resolve + late geom must re-expand the table.
/// IOSurface PAGE_SIZE is 16 KiB (arm64e). 1440×1080 BGRA needs
/// ALIGN_UP(1440×4,128)×1080 = 6 220 800 bytes ≈ 380 pages; a 1-page stale
/// table must not cover (dual-mid Store after mode switch).
#[test]
fn pages_cover_geom_false_when_table_shorter_than_span() {
    let mut state = DeviceState::new(DeviceId(1), PAGE_SHIFT_ARM64E);
    assert!(state.attach_mapping_internal(8, KVA));
    {
        let m = state.mappings.get_mut(&8).unwrap();
        m.mapped = true;
        // Stale early resolve: single PAGE_SIZE before geom latched.
        m.page_entries = vec![0x11; 1];
    }
    assert!(state.set_mapping_geom(
        8,
        1440,
        1080,
        MTL_FORMAT_BGRA8_UNORM
    ));
    assert!(
        !pages_cover_geom(&state, 8),
        "1×16KiB page cannot cover 1440×1080 BGRA sample window"
    );
    let host = FakeHost::new();
    let _ = ensure_resolved_for_scanout(&mut state, &host, &mut FailLatch::new(), 8);
    assert!(!pages_cover_geom(&state, 8));
}

#[test]
fn pages_cover_geom_true_for_full_table() {
    let mut state = DeviceState::new(DeviceId(1), PAGE_SHIFT_ARM64E);
    assert!(state.attach_mapping_internal(3, KVA));
    assert!(state.set_mapping_geom(
        3,
        64,
        64,
        MTL_FORMAT_BGRA8_UNORM
    ));
    // 64×64 BGRA packed bpr 256 → 16 KiB → 1×16KiB page covers.
    {
        let m = state.mappings.get_mut(&3).unwrap();
        m.mapped = true;
        m.page_entries = vec![0x22; 1];
    }
    assert!(pages_cover_geom(&state, 3));
}

/// 249² Favourites-class tiles fit in 16×16KiB pages; short-table proxy is
/// desktop dual-mid, not tile size alone.
#[test]
fn pages_cover_geom_249_tile_fits_in_sixteen_16k_pages() {
    let mut state = DeviceState::new(DeviceId(1), PAGE_SHIFT_ARM64E);
    assert!(state.attach_mapping_internal(8, KVA));
    {
        let m = state.mappings.get_mut(&8).unwrap();
        m.mapped = true;
        m.page_entries = vec![0x11; 16];
    }
    assert!(state.set_mapping_geom(
        8,
        249,
        249,
        MTL_FORMAT_BGRA8_UNORM
    ));
    assert!(
        pages_cover_geom(&state, 8),
        "live Favourites pages=16 is enough for 249² BGRA at 16KiB pages"
    );
}

#[test]
fn render_pages_reject_known_device_and_task_control_pages() {
    let mut state = DeviceState::new(DeviceId(1), PAGE_SHIFT_X86);
    state.gfx.root_page = 0x120;
    state.child_rings[2].page_gpas = vec![0x330_000];
    assert!(state.define_task(1, 0x4000_0000, 0x440));
    assert!(state.set_object_list(1, 0x550, 1024));
    // ref=341 is the lowest ref whose 12-byte entry lands in the object
    // list's second page (0x550000 + 0x1000): offset 341*12=4092..4104
    // crosses the 4096 page boundary. Registering it is what makes
    // 0x551_000 live — see the reservation test below for the case where
    // nothing is registered.
    assert!(state.insert_object(1, 341, ObjectEntry::default()));

    assert_eq!(
        first_control_page_collision(&state, &vec![0x120_000]),
        Some((0x120_000, "gfx_root"))
    );
    assert_eq!(
        first_control_page_collision(&state, &vec![0x330_000]),
        Some((0x330_000, "child_fifo"))
    );
    assert_eq!(
        first_control_page_collision(&state, &vec![0x440_000]),
        Some((0x440_000, "task_directory"))
    );
    assert_eq!(
        first_control_page_collision(&state, &vec![0x551_000]),
        Some((0x551_000, "task_object_list"))
    );
    assert_eq!(first_control_page_collision(&state, &vec![0x660_000]), None);
}

/// The reservation tracks `state.objects`, the host's live registry, not the
/// guest's advertised ceiling: surfaces inside the advertised but unpopulated
/// range are no collision.
#[test]
fn object_list_reservation_tracks_live_refs_not_advertised_capacity() {
    let mut state = DeviceState::new(DeviceId(1), PAGE_SHIFT_X86);
    assert!(state.define_task(1, 0x4000_0000, 0));
    // The guest's advertised ceiling.
    assert!(state.set_object_list(1, 0x1, 1_048_576));

    // No object registered yet: nothing in the advertised range is live,
    // so a real surface anywhere in it — even one page in — must not
    // collide.
    assert_eq!(first_control_page_collision(&state, &vec![0x2_000]), None);

    // Registering ref=0 makes only its own page live.
    assert!(state.insert_object(1, 0, ObjectEntry::default()));
    assert_eq!(
        first_control_page_collision(&state, &vec![0x1_000]),
        Some((0x1_000, "task_object_list"))
    );
    // A page far past the one live entry is still free.
    assert_eq!(first_control_page_collision(&state, &vec![0x100_000]), None);
}
