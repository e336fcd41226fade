//! What a captured hand-off is, register by register.

use vstd::prelude::*;
use crate::compute_exec::dims_laws::word_at;
use crate::contract::little_endian;
use crate::host::{GuestView, MemError, Status};
use crate::mapper::capture::{
    CaptureOutcome, CaptureRefusal, MapperDecline, capture_applied, capture_spec, published_offset,
    request_of,
};
use crate::model::{DeviceView, MapperCapture};

verus! {

/// The entry before the producer's, 16 bytes from the start of the ring on, reads as
/// these bytes.
pub open spec fn entry_reads(ring_base: u64, guest: GuestView, producer: u32, bytes: Seq<u8>) -> bool {
    &&& producer >= 1
    &&& ring_base >= 1
    &&& (guest.gpa)((ring_base + 16 * (producer - 1)) as u64, 16) == Ok::<Seq<u8>, MemError>(bytes)
}

/// The entry asks to map (1) or unmap (2) one of `0x4000` mappings.
pub open spec fn entry_asks(bytes: Seq<u8>) -> bool {
    (word_at(bytes, 0) == 1 || word_at(bytes, 0) == 2) && word_at(bytes, 4) < 0x4000
}

/// An address of the guest's kernel.
pub open spec fn kernel_address(address: u64) -> bool {
    address >= 0xffff_fe00_0000_0000
}

proof fn lemma_request(bytes: Seq<u8>)
    ensures
        request_of(bytes).0 == word_at(bytes, 0),
        request_of(bytes).1 == word_at(bytes, 4),
{
    reveal_with_fuel(little_endian, 5);
}

/// A publication is captured where the ring's entry asks for a mapping, register 21
/// holds the same request, register 22 the kernel address of a mapping object, register
/// 19 nothing or the kernel address of its owner, and the object bears the mapping out.
/// The capture holds those registers. Nothing else is captured.
pub proof fn law_capture_holds_the_registers(
    ring_base: u64,
    guest: GuestView,
    producer: u32,
    bytes: Seq<u8>,
    owner: u64,
    request: u64,
    object: u64,
)
    requires
        entry_reads(ring_base, guest, producer, bytes),
        entry_asks(bytes),
        (guest.xreg)(19) == Ok::<u64, MemError>(owner),
        (guest.xreg)(21) == Ok::<u64, MemError>(request),
        (guest.xreg)(22) == Ok::<u64, MemError>(object),
    ensures
        ({
            let outcome = capture_spec(ring_base, guest, producer);
            let id = word_at(bytes, 4) as u32;
            let found = (guest.identity)(object, owner);
            let fits = request as int % 0x1_0000_0000 == word_at(bytes, 0) && kernel_address(object)
                && (owner == 0 || kernel_address(owner));
            let valid = found is Ok && (guest.validation)(id, found->Ok_0) == Status::Passed;
            &&& outcome is Captured <==> fits && valid
            &&& outcome is Captured ==> {
                let capture = outcome->Captured_0;
                &&& capture.producer == producer
                &&& capture.mapper_device_kva == owner
                &&& capture.request_type == word_at(bytes, 0)
                &&& capture.mapping_internal == object
            }
            &&& !fits || !valid ==> outcome is Refused && outcome->Refused_0 == id
            &&& request as int % 0x1_0000_0000 != word_at(bytes, 0) ==> outcome->Refused_1
                == CaptureRefusal::Decline(MapperDecline::CaptureRequestTypeMismatch)
            &&& request as int % 0x1_0000_0000 == word_at(bytes, 0) && object == 0
                ==> outcome->Refused_1 == CaptureRefusal::Decline(
                MapperDecline::CaptureInternalZero,
            )
            &&& request as int % 0x1_0000_0000 == word_at(bytes, 0) && object > 0
                && !kernel_address(object) ==> outcome->Refused_1 == CaptureRefusal::Decline(
                MapperDecline::CaptureInternalKvaInvalid,
            )
            &&& request as int % 0x1_0000_0000 == word_at(bytes, 0) && kernel_address(object)
                && owner > 0 && !kernel_address(owner) ==> outcome->Refused_1
                == CaptureRefusal::Decline(MapperDecline::CaptureMapperKvaInvalid)
            &&& fits && found is Err ==> outcome->Refused_1 == CaptureRefusal::Contract(
                found->Err_0,
            )
            &&& fits && found is Ok && !valid ==> outcome->Refused_1 == CaptureRefusal::Contract(
                (guest.validation)(id, found->Ok_0),
            )
        }),
{
    lemma_request(bytes);
    assert(published_offset(producer) == 16 * (producer - 1));
    assert((request as u32) as u64 == request % 0x1_0000_0000u64) by (bit_vector);
}

/// A register that cannot be read refuses the publication by its name, the owner's first
/// and the object's last.
pub proof fn law_unread_registers_refuse(
    ring_base: u64,
    guest: GuestView,
    producer: u32,
    bytes: Seq<u8>,
)
    requires
        entry_reads(ring_base, guest, producer, bytes),
        entry_asks(bytes),
    ensures
        ({
            let outcome = capture_spec(ring_base, guest, producer);
            let id = word_at(bytes, 4) as u32;
            let owner = (guest.xreg)(19);
            let request = (guest.xreg)(21);
            let object = (guest.xreg)(22);
            &&& owner is Err ==> outcome == CaptureOutcome::Refused(
                id,
                CaptureRefusal::Decline(MapperDecline::CaptureMapperXregRead(owner->Err_0)),
            )
            &&& owner is Ok && request is Err ==> outcome == CaptureOutcome::Refused(
                id,
                CaptureRefusal::Decline(MapperDecline::CaptureRequestTypeXregRead(request->Err_0)),
            )
            &&& owner is Ok && request is Ok && object is Err ==> outcome
                == CaptureOutcome::Refused(
                id,
                CaptureRefusal::Decline(MapperDecline::CaptureInternalXregRead(object->Err_0)),
            )
        }),
{
    lemma_request(bytes);
    assert(published_offset(producer) == 16 * (producer - 1));
}

/// Nothing is captured before anything is published, without a ring, where the entry
/// cannot be read, or where it asks for something else.
pub proof fn law_nothing_to_capture(
    ring_base: u64,
    guest: GuestView,
    producer: u32,
    bytes: Seq<u8>,
)
    ensures
        producer == 0 || ring_base == 0 ==> capture_spec(ring_base, guest, producer) is NotReady,
        producer >= 1 && ring_base >= 1 && (guest.gpa)(
            (ring_base + 16 * (producer - 1)) as u64,
            16,
        ) is Err ==> capture_spec(ring_base, guest, producer) is NotReady,
        entry_reads(ring_base, guest, producer, bytes) && !entry_asks(bytes) ==> capture_spec(
            ring_base,
            guest,
            producer,
        ) is NotReady,
{
    lemma_request(bytes);
    assert(published_offset(producer) == 16 * (producer - 1));
}

/// A captured unmap (2) ends the mapping: it is not mapped, has no object and no pages,
/// its incarnation is over and its view waits to be given back.
pub proof fn law_captured_unmap(state: DeviceView, capture: MapperCapture, id: u32)
    requires
        capture.request_type == 2,
        state.mappings.dom().contains(id),
    ensures
        ({
            let after = capture_applied(state, capture, id);
            let old_m = state.mappings[id];
            let m = after.mappings[id];
            &&& !m.mapped
            &&& m.mapping_internal == 0
            &&& m.page_entries.len() == 0
            &&& m.page_table_kva == 0
            &&& m.condemned_entries is None
            &&& m.contig_ptr == 0
            &&& m.map_generation != old_m.map_generation
            &&& old_m.contig_ptr > 0 ==> after.retired_views.len() > 0
                && after.retired_views.last() == (old_m.contig_ptr, old_m.contig_len)
            &&& after.compute_deferred_flush == state.compute_deferred_flush
            &&& after.mapper_device_kva == state.mapper_device_kva
            &&& forall|i: int|
                0 <= i < after.render_deferred_flush.len() ==> (
                #[trigger] after.render_deferred_flush[i]).0.mapping_id != id
        }),
{
    lemma_render_windows(state, id);
}

proof fn lemma_render_windows(state: DeviceView, id: u32)
    ensures
        forall|i: int|
            0 <= i < state.without_render_windows(id).render_deferred_flush.len() ==> (
            #[trigger] state.without_render_windows(id).render_deferred_flush[i]).0.mapping_id
                != id,
{
    let victims = crate::residency::Victims::OfMapping { mapping_id: id };
    let kept = |e: (crate::residency::ComputeStorageResidencyKey, u32)| !victims.takes(e.0);
    let left = state.render_deferred_flush.filter(kept);
    assert(state.without_render_windows(id).render_deferred_flush == left);
    assert forall|i: int| 0 <= i < left.len() implies (#[trigger] left[i]).0.mapping_id != id by {
        state.render_deferred_flush.lemma_filter_pred(kept, i);
    }
}

/// A captured map (1) attaches the object. An object that is new to the mapping starts
/// it afresh: no pages, no geometry, no descriptor, a new incarnation, and no render
/// window owed. The object it has already changes nothing of it.
pub proof fn law_captured_map(state: DeviceView, capture: MapperCapture, id: u32)
    requires
        capture.request_type == 1,
        id < 0x4000,
    ensures
        ({
            let after = capture_applied(state, capture, id);
            let known = state.mappings.dom().contains(id);
            let old_m = state.mappings[id];
            let m = after.mappings[id];
            let same = known && old_m.mapped && old_m.mapping_internal == capture.mapping_internal;
            &&& after.mappings.dom().contains(id)
            &&& m.mapped
            &&& m.mapping_internal == capture.mapping_internal
            &&& capture.mapper_device_kva > 0 ==> after.mapper_device_kva
                == capture.mapper_device_kva
            &&& capture.mapper_device_kva == 0 ==> after.mapper_device_kva
                == state.mapper_device_kva
            &&& same ==> m == old_m && after.retired_views == state.retired_views
                && after.render_deferred_flush == state.render_deferred_flush
            &&& !same ==> {
                &&& m.page_entries.len() == 0
                &&& m.page_table_kva == 0
                &&& !m.has_geom
                &&& m.width == 0 && m.height == 0 && m.format == 0
                &&& m.device is None
                &&& m.condemned_entries is None
                &&& m.contig_ptr == 0
                &&& known ==> m.map_generation != old_m.map_generation
                &&& known && old_m.contig_ptr > 0 ==> after.retired_views.len() > 0
                    && after.retired_views.last() == (old_m.contig_ptr, old_m.contig_len)
            }
            &&& !known || old_m.mapping_internal != capture.mapping_internal ==> forall|i: int|
                0 <= i < after.render_deferred_flush.len() ==> (
                #[trigger] after.render_deferred_flush[i]).0.mapping_id != id
            &&& after.compute_deferred_flush == state.compute_deferred_flush
        }),
{
    lemma_render_windows(state, id);
}

/// A capture of neither sort, or of a mapping that cannot be, attaches nothing, and
/// another mapping is never touched.
pub proof fn law_capture_touches_one_mapping(
    state: DeviceView,
    capture: MapperCapture,
    id: u32,
    other: u32,
)
    requires
        other != id,
    ensures
        ({
            let after = capture_applied(state, capture, id);
            &&& capture.request_type != 1 && capture.request_type != 2 ==> after == state
            &&& id >= 0x4000 && capture.request_type == 1 ==> after.mappings == state.mappings
            &&& after.mappings.dom().contains(other) == state.mappings.dom().contains(other)
            &&& state.mappings.dom().contains(other) ==> after.mappings[other]
                == state.mappings[other]
            &&& after.compute_storage_residency == state.compute_storage_residency
        }),
{
}

/// How a declined hand-off is named, and which read it failed by.
pub proof fn law_declines_are_named(decline: MapperDecline, error: MemError)
    ensures
        decline == MapperDecline::CaptureMapperXregRead(error) ==> decline.slug_spec()
            == "mapper_capture_mapper_xreg_read" && decline.host_error() == Some(error),
        decline == MapperDecline::CaptureRequestTypeXregRead(error) ==> decline.slug_spec()
            == "mapper_capture_request_type_xreg_read" && decline.host_error() == Some(error),
        decline == MapperDecline::CaptureInternalXregRead(error) ==> decline.slug_spec()
            == "mapper_capture_internal_xreg_read" && decline.host_error() == Some(error),
        decline == MapperDecline::DeviceDescriptorRead(error) ==> decline.slug_spec()
            == "mapper_device_descriptor_read" && decline.host_error() == Some(error),
        decline is CaptureRequestTypeMismatch ==> decline.slug_spec()
            == "mapper_capture_request_type_mismatch" && decline.host_error() is None,
        decline is CaptureInternalZero ==> decline.slug_spec() == "mapper_capture_internal_zero"
            && decline.host_error() is None,
        decline is CaptureInternalKvaInvalid ==> decline.slug_spec()
            == "mapper_capture_internal_kva_invalid" && decline.host_error() is None,
        decline is CaptureMapperKvaInvalid ==> decline.slug_spec()
            == "mapper_capture_mapper_kva_invalid" && decline.host_error() is None,
        CaptureRefusal::Decline(decline).slug_spec() == decline.slug_spec(),
{
}

/// A refused check is named by its own reason.
pub proof fn law_refused_checks_are_named(status: Status)
    ensures
        status.refusal_spec() is Some ==> CaptureRefusal::Contract(status).slug_spec()
            == status.refusal_spec()->0,
        status.refusal_spec() is None ==> CaptureRefusal::Contract(status).slug_spec() == "ok",
{
}

} // verus!
