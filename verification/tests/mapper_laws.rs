//! What holds of the mapper across its operations, on concrete devices.

use reims_vgpu::contract::{
    DeviceSurface, MTL_FORMAT_BGRA8_UNORM, PAGE_ENTRY_PFN_SHIFT, PAGE_ENTRY_VALID,
    PAGE_SHIFT_ARM64E, PAGE_SHIFT_X86, sample_window, sample_window_from_device,
};
use reims_vgpu::fake_host::{FakeHost, MapperObject};
use reims_vgpu::host::{HostMemory, MapperInternalFields, MemError, Status};
use reims_vgpu::mapper::capture::{
    CaptureOutcome, MAPPER_CAPTURE_REG_MAPPER_DEVICE, MAPPER_CAPTURE_REG_MAPPING_INTERNAL,
    MAPPER_CAPTURE_REG_REQUEST_TYPE, MAPPER_REQUEST_MAP, MAPPER_REQUEST_UNMAP, MapperDecline,
    capture_outcome, mapper_read,
};
use reims_vgpu::mapper::pages::{
    fail_closed_surface_page_collision, first_surface_page_collision,
};
use reims_vgpu::mapper::{
    apply_capture, ensure_contig_view, fields_ok, flush_intersecting, flush_retired_views, mapping_page_gpas,
    read_mapping_bytes, read_request_at_producer, resolve_mapping_backing,
    revalidate_mapping_reason, write_mapping_bytes,
};
use reims_vgpu::model::{DeviceId, DeviceState, MAX_MAPPINGS, MapperCapture};
use reims_vgpu::observe::{Emit, FailLatch, SurfaceAlias, same_text};
use reims_vgpu::residency::ComputeStorageResidencyKey;

const KVA: u64 = 0xfffffe00_10000000;
const MAPPER: u64 = KVA + 0x1000;
const RING: u64 = 0x7000_0000;

fn entry(pfn: u32) -> u32 {
    (pfn << PAGE_ENTRY_PFN_SHIFT) | PAGE_ENTRY_VALID
}

fn object(mapping_id: u32, entries: Vec<u32>) -> MapperObject {
    MapperObject {
        internal: KVA,
        owner: MAPPER,
        fields: MapperInternalFields {
            mapping_id,
            page_field_48: 0,
            page_field_50: 0,
            page_count: entries.len() as u64,
        },
        device: None,
        table_kva: KVA + 0x3000,
        entries,
    }
}

/// A ring with one request, and registers that bear it out.
fn published(request: u32, mapping_id: u32) -> (DeviceState, FakeHost) {
    let mut state = DeviceState::new(DeviceId(1), PAGE_SHIFT_ARM64E);
    let mut host = FakeHost::new();
    state.iosfc.ring_base = RING;
    let mut bytes = [0u8; 16];
    bytes[0..4].copy_from_slice(&request.to_le_bytes());
    bytes[4..8].copy_from_slice(&mapping_id.to_le_bytes());
    host.put_bytes(RING, &bytes);
    host.objects.push(object(mapping_id, vec![]));
    host.set_xreg(MAPPER_CAPTURE_REG_MAPPER_DEVICE, MAPPER);
    host.set_xreg(MAPPER_CAPTURE_REG_REQUEST_TYPE, request as u64);
    host.set_xreg(MAPPER_CAPTURE_REG_MAPPING_INTERNAL, KVA);
    (state, host)
}

fn reason(state: &DeviceState, host: &FakeHost) -> &'static str {
    match capture_outcome(state, host, 1) {
        CaptureOutcome::Refused(_, refusal) => refusal.slug(),
        other => panic!("expected a refusal, got {other:?}"),
    }
}

#[test]
fn each_capture_check_refuses_under_its_own_name() {
    let (state, host) = published(MAPPER_REQUEST_MAP, 7);
    assert!(matches!(
        capture_outcome(&state, &host, 1),
        CaptureOutcome::Captured(_)
    ));
    assert_eq!(read_request_at_producer(&host, RING, 1), Ok((1, 7)));
    assert_eq!(
        read_request_at_producer(&host, RING, 0),
        Err(MemError::BadArgs)
    );
    assert_eq!(
        read_request_at_producer(&host, RING, 9),
        Err(MemError::Unmapped)
    );
    // Not published, or no request of the mapper's.
    assert_eq!(capture_outcome(&state, &host, 0), CaptureOutcome::NotReady);
    assert_eq!(capture_outcome(&state, &host, 2), CaptureOutcome::NotReady);
    let (state, host) = published(9, 7);
    assert_eq!(capture_outcome(&state, &host, 1), CaptureOutcome::NotReady);
    let (state, host) = published(MAPPER_REQUEST_MAP, MAX_MAPPINGS);
    assert_eq!(capture_outcome(&state, &host, 1), CaptureOutcome::NotReady);

    let (state, mut host) = published(MAPPER_REQUEST_MAP, 7);
    host.xregs.clear();
    assert_eq!(reason(&state, &host), "mapper_capture_mapper_xreg_read");
    host.set_xreg(MAPPER_CAPTURE_REG_MAPPER_DEVICE, MAPPER);
    assert_eq!(
        reason(&state, &host),
        "mapper_capture_request_type_xreg_read"
    );
    host.set_xreg(MAPPER_CAPTURE_REG_REQUEST_TYPE, MAPPER_REQUEST_UNMAP as u64);
    assert_eq!(reason(&state, &host), "mapper_capture_internal_xreg_read");
    host.set_xreg(MAPPER_CAPTURE_REG_MAPPING_INTERNAL, 0);
    assert_eq!(
        reason(&state, &host),
        "mapper_capture_request_type_mismatch"
    );
    host.set_xreg(MAPPER_CAPTURE_REG_REQUEST_TYPE, MAPPER_REQUEST_MAP as u64);
    assert_eq!(reason(&state, &host), "mapper_capture_internal_zero");
    host.set_xreg(MAPPER_CAPTURE_REG_MAPPING_INTERNAL, 0x1234);
    assert_eq!(reason(&state, &host), "mapper_capture_internal_kva_invalid");
    host.set_xreg(MAPPER_CAPTURE_REG_MAPPING_INTERNAL, KVA);
    host.set_xreg(MAPPER_CAPTURE_REG_MAPPER_DEVICE, 0x1234);
    assert_eq!(reason(&state, &host), "mapper_capture_mapper_kva_invalid");
    // The object's own checks keep their names.
    host.set_xreg(MAPPER_CAPTURE_REG_MAPPER_DEVICE, MAPPER + 8);
    assert_eq!(
        reason(&state, &host),
        "iosurface_mapper_internal_owner_mismatch"
    );
    host.set_xreg(MAPPER_CAPTURE_REG_MAPPER_DEVICE, MAPPER);
    host.objects[0].fields.mapping_id = 8;
    assert_eq!(
        reason(&state, &host),
        "iosurface_validate_mapping_id_mismatch"
    );
    assert!(!fields_ok(&host.objects[0].fields, 7));
    let decline = MapperDecline::DeviceDescriptorRead(MemError::NoCpu);
    assert_eq!(decline.fields()[0].1, "host_mem_no_cpu");
    assert_eq!(
        Emit::new("mapper", decline.slug())
            .fields(&decline.fields())
            .render(),
        "mapper reason=mapper_device_descriptor_read host_reason=host_mem_no_cpu"
    );
}

#[test]
fn the_mapper_reads_kernel_addresses_through_the_processor() {
    let mut host = FakeHost::new();
    host.put_bytes(0x1000, &[1, 2, 3]);
    assert_eq!(mapper_read(&host, 0x1000, 3), Ok(vec![1, 2, 3]));
    assert_eq!(host.read_gpa(0x1001, 2), Ok(vec![2, 3]));
    host.kva_error = Some(MemError::NoCpu);
    assert_eq!(mapper_read(&host, KVA, 3), Err(MemError::NoCpu));
}

#[test]
fn attaching_the_same_object_twice_is_once() {
    let mut state = DeviceState::new(DeviceId(1), PAGE_SHIFT_ARM64E);
    let capture = MapperCapture {
        producer: 1,
        mapper_device_kva: MAPPER,
        request_type: MAPPER_REQUEST_MAP,
        mapping_internal: KVA,
    };
    assert!(apply_capture(&mut state, &capture, 3));
    assert_eq!(state.mapper_device_kva, MAPPER);
    state.mappings.get_mut(&3).unwrap().page_entries = vec![entry(5)];
    let generation = state.mappings.get(&3).unwrap().map_generation;
    assert!(apply_capture(&mut state, &capture, 3));
    let m = state.mappings.get(&3).unwrap();
    assert_eq!(m.page_entries, vec![entry(5)]);
    assert_eq!(m.map_generation, generation);
    // Another object is another surface.
    let other = MapperCapture {
        mapping_internal: KVA + 0x100,
        ..capture
    };
    assert!(apply_capture(&mut state, &other, 3));
    let m = state.mappings.get(&3).unwrap();
    assert!(m.page_entries.is_empty());
    assert_ne!(m.map_generation, generation);
    // And unmapping forgets it.
    let unmap = MapperCapture {
        request_type: MAPPER_REQUEST_UNMAP,
        ..capture
    };
    assert!(apply_capture(&mut state, &unmap, 3));
    assert!(!state.mappings.get(&3).unwrap().mapped);
    assert!(!apply_capture(&mut state, &unmap, 4));
}

/// A device whose mapping 3 resolves to the given pages.
fn resolving(entries: Vec<u32>) -> (DeviceState, FakeHost) {
    let mut state = DeviceState::new(DeviceId(1), PAGE_SHIFT_X86);
    let mut host = FakeHost::new();
    for e in &entries {
        host.map_range(((e >> PAGE_ENTRY_PFN_SHIFT) as u64) << 12, 0x1000, 0);
    }
    host.objects.push(object(3, entries));
    state.mapper_device_kva = MAPPER;
    assert!(state.attach_mapping_internal(3, KVA));
    (state, host)
}

fn owed_key() -> ComputeStorageResidencyKey {
    ComputeStorageResidencyKey {
        mapping_id: 3,
        map_generation: 1,
        surface_offset: 0,
        surface_bpr: 16,
        span_end: 32,
        width: 4,
        height: 2,
        pixel_format: 80,
        texture_ref: 0,
    }
}

#[test]
fn a_reprieved_mapping_keeps_its_incarnation() {
    let (mut state, mut host) = resolving(vec![entry(0x30), entry(0x31)]);
    let mut latch = FailLatch::new();
    assert!(resolve_mapping_backing(&mut state, &host, &mut latch, 3));
    let generation = state.mappings.get(&3).unwrap().map_generation;
    state.compute_deferred_flush.insert(owed_key(), 5);
    assert!(state.condemn_surface_backing(3));
    assert!(state.mappings.get(&3).unwrap().page_entries.is_empty());
    assert!(resolve_mapping_backing(&mut state, &host, &mut latch, 3));
    let m = state.mappings.get(&3).unwrap();
    assert_eq!(m.map_generation, generation);
    assert_eq!(m.page_entries.len(), 2);
    assert_eq!(m.condemned_entries, None);
    assert_eq!(state.compute_deferred_flush.get(&owed_key()), Some(5));
    // Condemned and resolved to other pages: another incarnation, which owes nothing.
    assert!(state.condemn_surface_backing(3));
    host.objects[0].entries = vec![entry(0x40), entry(0x41)];
    assert!(resolve_mapping_backing(&mut state, &host, &mut latch, 3));
    assert_ne!(state.mappings.get(&3).unwrap().map_generation, generation);
    assert_eq!(state.compute_deferred_flush.get(&owed_key()), None);
}

#[test]
fn adopted_pages_are_nobody_elses() {
    let (mut state, host) = resolving(vec![entry(0x30), entry(0x31)]);
    assert!(state.map_surface(20));
    state.mappings.get_mut(&20).unwrap().page_entries = vec![entry(0x31)];
    let mut latch = FailLatch::new();
    assert!(!resolve_mapping_backing(&mut state, &host, &mut latch, 3));
    assert_eq!(first_surface_page_collision(&state, 3), None);
    assert!(state.mappings.get(&3).unwrap().page_entries.is_empty());
    // One line per alias, though the mapping fails closed again.
    let alias = SurfaceAlias {
        mapping_id: 3,
        owner: 20,
        gpa: 0x31000,
        mine_pages: 2,
        path: "rewire",
    };
    assert_eq!(latch.take_fresh_aliases(), vec![alias]);
    assert!(!resolve_mapping_backing(&mut state, &host, &mut latch, 3));
    assert!(latch.take_fresh_aliases().is_empty());
    assert!(!latch.note_surface_page_collision(alias));
    assert!(latch.note_surface_page_collision(SurfaceAlias {
        gpa: 0x32000,
        ..alias
    }));
    // Of several owners the lowest is named, with its first page.
    let (mut state, host) = resolving(vec![entry(0x30), entry(0x31)]);
    for (id, pages) in [(20, vec![entry(0x30)]), (7, vec![entry(0x31), entry(0x30)])] {
        assert!(state.map_surface(id));
        state.mappings.get_mut(&id).unwrap().page_entries = pages;
    }
    assert!(!resolve_mapping_backing(&mut state, &host, &mut latch, 3));
    let fresh = latch.take_fresh_aliases();
    assert_eq!((fresh.len(), fresh[1].owner, fresh[1].gpa), (2, 7, 0x31000));
    fail_closed_surface_page_collision(
        &mut state,
        &mut latch,
        SurfaceAlias {
            mapping_id: 20,
            ..alias
        },
    );
    assert!(state.mappings.get(&20).unwrap().page_entries.is_empty());
}

#[test]
fn a_second_resolve_changes_nothing() {
    let (mut state, host) = resolving(vec![entry(0x30), entry(0x31)]);
    let mut latch = FailLatch::new();
    assert!(resolve_mapping_backing(&mut state, &host, &mut latch, 3));
    let facts = |state: &DeviceState| {
        let m = state.mappings.get(&3).unwrap();
        (m.page_entries.clone(), m.page_table_kva, m.map_generation, m.contig_ptr)
    };
    let first = facts(&state);
    assert!(resolve_mapping_backing(&mut state, &host, &mut latch, 3));
    assert_eq!(facts(&state), first);
    assert!(state.retired_views.is_empty());
}

#[test]
fn owed_windows_are_taken_before_an_access() {
    let (mut state, mut host) = resolving(vec![entry(0x30)]);
    let mut latch = FailLatch::new();
    let apart = ComputeStorageResidencyKey {
        surface_offset: 64,
        span_end: 96,
        ..owed_key()
    };
    state.compute_deferred_flush.insert(owed_key(), 1);
    state.compute_deferred_flush.insert(apart, 2);
    state.render_deferred_flush.insert(owed_key(), 3);
    let owed = flush_intersecting(&mut state, 3, 31, 33);
    assert_eq!(owed.compute, vec![(owed_key(), 1)]);
    assert_eq!(owed.render, vec![(owed_key(), 3)]);
    assert_eq!(state.compute_deferred_flush.get(&apart), Some(2));
    // What was taken is landed, and then read.
    assert!(write_mapping_bytes(
        &mut state, &mut host, &mut latch, 3, 0, &[5; 32]
    ));
    let mut back = [0u8; 2];
    assert!(read_mapping_bytes(
        &mut state, &mut host, &mut latch, 3, 31, &mut back
    ));
    assert_eq!(back, [5, 0]);
    assert_eq!(flush_intersecting(&mut state, 3, 31, 33).compute, vec![]);
}

#[test]
fn an_unresolvable_mapping_is_named_once() {
    let (mut state, mut host) = resolving(vec![entry(0x30)]);
    host.objects[0].fields.mapping_id = 4;
    let mut latch = FailLatch::new();
    assert!(!resolve_mapping_backing(&mut state, &host, &mut latch, 3));
    assert!(latch.contains(3, "iosurface_validate_mapping_id_mismatch"));
    assert_eq!(
        latch.take_fresh(),
        vec![(3, "iosurface_validate_mapping_id_mismatch")]
    );
    assert!(!resolve_mapping_backing(&mut state, &host, &mut latch, 3));
    assert!(latch.take_fresh().is_empty());
    // It never had a table: nothing was lost yet.
    assert_eq!(
        revalidate_mapping_reason(&mut state, &host, &mut latch, 3),
        Some("revalidate_no_pages")
    );
    // A clean resolve arms the latch again.
    host.objects[0].fields.mapping_id = 3;
    assert!(resolve_mapping_backing(&mut state, &host, &mut latch, 3));
    assert!(!latch.contains(3, "iosurface_validate_mapping_id_mismatch"));
    // A live table that turns bad takes its pages along.
    host.objects[0].fields.mapping_id = 4;
    assert_eq!(
        revalidate_mapping_reason(&mut state, &host, &mut latch, 3),
        Some("revalidate_resolve_fail")
    );
    assert!(state.mappings.get(&3).unwrap().page_entries.is_empty());
    assert!(state.unmap_surface(3));
    assert_eq!(
        revalidate_mapping_reason(&mut state, &host, &mut latch, 3),
        Some("revalidate_unmapped")
    );
    assert_eq!(Status::Passed.refusal(), None);
}

#[test]
fn a_read_gives_back_the_write() {
    // Packed pages go through one view, scattered ones run by run.
    for entries in [
        vec![entry(0x30), entry(0x31), entry(0x32)],
        vec![entry(0x30), entry(0x50), entry(0x51)],
    ] {
        let (mut state, mut host) = resolving(entries);
        host.strict_linux_map = true;
        let mut latch = FailLatch::new();
        let payload: Vec<u8> = (0..6000).map(|i| i as u8).collect();
        assert!(write_mapping_bytes(
            &mut state, &mut host, &mut latch, 3, 0x801, &payload
        ));
        let mut back = vec![0u8; payload.len()];
        assert!(read_mapping_bytes(
            &mut state, &mut host, &mut latch, 3, 0x801, &mut back
        ));
        assert_eq!(back, payload);
        // Beside it nothing changed, and past the end there is nothing.
        let mut before = [9u8; 1];
        assert!(read_mapping_bytes(
            &mut state, &mut host, &mut latch, 3, 0x800, &mut before
        ));
        assert_eq!(before, [0]);
        assert!(!read_mapping_bytes(
            &mut state, &mut host, &mut latch, 3, 0x3000, &mut before
        ));
        assert!(!write_mapping_bytes(
            &mut state, &mut host, &mut latch, 3, 0x2fff, &[1, 2]
        ));
    }
}

#[test]
fn an_access_stops_at_the_run_that_cannot_be_mapped() {
    let (mut state, mut host) = resolving(vec![entry(0x30), entry(0x50)]);
    host.strict_linux_map = true;
    host.memory.remove(&0x50000);
    let mut latch = FailLatch::new();
    assert!(!write_mapping_bytes(
        &mut state, &mut host, &mut latch, 3, 0xffe, &[1, 2, 3, 4]
    ));
    let mut back = [9u8; 4];
    assert!(!read_mapping_bytes(
        &mut state, &mut host, &mut latch, 3, 0xffe, &mut back
    ));
    // Both got to the end of the first run.
    assert_eq!(back, [1, 2, 9, 9]);
}

#[test]
fn a_write_takes_the_residency_of_what_it_meets() {
    let (mut state, mut host) = resolving(vec![entry(0x30)]);
    let mut latch = FailLatch::new();
    let apart = ComputeStorageResidencyKey {
        surface_offset: 64,
        span_end: 96,
        ..owed_key()
    };
    state.compute_storage_residency.insert(owed_key(), 1);
    state.compute_storage_residency.insert(apart, 2);
    assert!(write_mapping_bytes(
        &mut state,
        &mut host,
        &mut latch,
        3,
        31,
        &[7, 7]
    ));
    assert_eq!(state.compute_storage_residency.get(&owed_key()), None);
    assert_eq!(state.compute_storage_residency.get(&apart), Some(2));
}

#[test]
fn views_are_kept_until_their_pages_go() {
    let (mut state, mut host) = resolving(vec![entry(0x30), entry(0x31)]);
    let mut latch = FailLatch::new();
    let (base, len) = ensure_contig_view(&mut state, &mut host, &mut latch, 3).unwrap();
    assert_eq!(len, 0x2000);
    assert_eq!(
        ensure_contig_view(&mut state, &mut host, &mut latch, 3),
        Some((base, len))
    );
    assert_eq!(
        mapping_page_gpas(&mut state, &host, &mut latch, 3),
        Some(vec![0x30000, 0x31000])
    );
    assert!(state.invalidate_mapping_pages(3));
    assert_eq!(state.retired_views, vec![(base, len)]);
    flush_retired_views(&mut state, &mut host);
    assert!(state.retired_views.is_empty());
    assert!(host.slots.iter().all(Option::is_none));
}

#[test]
fn surfaces_on_control_pages_are_not_usable() {
    let (mut state, mut host) = resolving(vec![entry(0x30), entry(0x31)]);
    state.gfx.root_page = 0x31;
    let mut latch = FailLatch::new();
    assert!(mapping_page_gpas(&mut state, &host, &mut latch, 3).is_none());
    let mut byte = [0u8; 1];
    assert!(!read_mapping_bytes(
        &mut state, &mut host, &mut latch, 3, 0, &mut byte
    ));
}

#[test]
fn windows_follow_the_descriptor_or_are_packed() {
    // 64 BGRA texels fill 256 bytes; 65 round up to the next 128.
    let window = sample_window(MTL_FORMAT_BGRA8_UNORM, 64, 4).unwrap();
    assert_eq!((window.bytes_per_row, window.end), (256, 1024));
    let window = sample_window(MTL_FORMAT_BGRA8_UNORM, 65, 4).unwrap();
    assert_eq!((window.bytes_per_row, window.end), (384, 1536));
    let surface = DeviceSurface {
        alloc_size: 0x4000,
        width: 65,
        height: 4,
        pixel_format: 0,
        bytes_per_row: 512,
        planes: vec![],
    };
    let window = sample_window_from_device(&surface, MTL_FORMAT_BGRA8_UNORM, 65, 4).unwrap();
    assert_eq!((window.bytes_per_row, window.end), (512, 2048));
    assert!(sample_window_from_device(&surface, MTL_FORMAT_BGRA8_UNORM, 65, 5).is_none());
}

#[test]
fn texts_are_compared_as_texts() {
    assert!(same_text("mapper", "mapper"));
    assert!(!same_text("mapper", "mappers"));
    assert!(!same_text("mapper", "mappeR"));
}
