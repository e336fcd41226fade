//! Capturing a mapping request at its publication.

use vstd::prelude::*;
use vstd::string::StringExecFns;
use crate::contract::{guest_kernel_va, is_guest_kernel_va, ld32, little_endian};
use crate::host::{
    GuestView, HostMemory, HostOps, MapperInternalFields, MemError, Status, read_gives,
};
use crate::model::{DeviceState, DeviceView, MAX_MAPPINGS, MapperCapture};
use crate::observe::FailLatch;
use crate::text::fields_view;

verus! {

pub const MAPPER_REQUEST_MAP: u32 = 1;
pub const MAPPER_REQUEST_UNMAP: u32 = 2;
/// Bytes of one request in the mapper ring.
pub const MAPPER_REQUEST_ENTRY_LEN: usize = 16;
/// Registers that hold the hand-off at publication.
pub const MAPPER_CAPTURE_REG_MAPPER_DEVICE: u32 = 19;
pub const MAPPER_CAPTURE_REG_REQUEST_TYPE: u32 = 21;
pub const MAPPER_CAPTURE_REG_MAPPING_INTERNAL: u32 = 22;

/// Why the mapper declined, where the reason is its own.
#[derive(Clone, Copy, Debug, PartialEq, Eq, Structural)]
pub enum MapperDecline {
    CaptureMapperXregRead(MemError),
    CaptureRequestTypeXregRead(MemError),
    CaptureInternalXregRead(MemError),
    CaptureRequestTypeMismatch,
    CaptureInternalZero,
    CaptureInternalKvaInvalid,
    CaptureMapperKvaInvalid,
    DeviceDescriptorRead(MemError),
}

impl MapperDecline {
    pub open spec fn slug_spec(self) -> &'static str {
        match self {
            MapperDecline::CaptureMapperXregRead(_) => "mapper_capture_mapper_xreg_read",
            MapperDecline::CaptureRequestTypeXregRead(_) => "mapper_capture_request_type_xreg_read",
            MapperDecline::CaptureInternalXregRead(_) => "mapper_capture_internal_xreg_read",
            MapperDecline::CaptureRequestTypeMismatch => "mapper_capture_request_type_mismatch",
            MapperDecline::CaptureInternalZero => "mapper_capture_internal_zero",
            MapperDecline::CaptureInternalKvaInvalid => "mapper_capture_internal_kva_invalid",
            MapperDecline::CaptureMapperKvaInvalid => "mapper_capture_mapper_kva_invalid",
            MapperDecline::DeviceDescriptorRead(_) => "mapper_device_descriptor_read",
        }
    }

    /// The name of the check that declined.
    pub fn slug(&self) -> (slug: &'static str)
        ensures
            slug == self.slug_spec(),
    {
        match self {
            MapperDecline::CaptureMapperXregRead(_) => "mapper_capture_mapper_xreg_read",
            MapperDecline::CaptureRequestTypeXregRead(_) => "mapper_capture_request_type_xreg_read",
            MapperDecline::CaptureInternalXregRead(_) => "mapper_capture_internal_xreg_read",
            MapperDecline::CaptureRequestTypeMismatch => "mapper_capture_request_type_mismatch",
            MapperDecline::CaptureInternalZero => "mapper_capture_internal_zero",
            MapperDecline::CaptureInternalKvaInvalid => "mapper_capture_internal_kva_invalid",
            MapperDecline::CaptureMapperKvaInvalid => "mapper_capture_mapper_kva_invalid",
            MapperDecline::DeviceDescriptorRead(_) => "mapper_device_descriptor_read",
        }
    }

    pub open spec fn host_error(self) -> Option<MemError> {
        match self {
            MapperDecline::CaptureMapperXregRead(error) => Some(error),
            MapperDecline::CaptureRequestTypeXregRead(error) => Some(error),
            MapperDecline::CaptureInternalXregRead(error) => Some(error),
            MapperDecline::DeviceDescriptorRead(error) => Some(error),
            _ => None,
        }
    }

    /// The host's own reason, where the host could not read.
    pub fn fields(&self) -> (fields: Vec<(&'static str, String)>)
        ensures
            fields_view(fields@) == match self.host_error() {
                Some(error) => seq![("host_reason"@, error.slug_spec()@)],
                None => seq![],
            },
    {
        let error = match self {
            MapperDecline::CaptureMapperXregRead(error) => *error,
            MapperDecline::CaptureRequestTypeXregRead(error) => *error,
            MapperDecline::CaptureInternalXregRead(error) => *error,
            MapperDecline::DeviceDescriptorRead(error) => *error,
            _ => {
                let none: Vec<(&'static str, String)> = Vec::new();
                assert(fields_view(none@) =~= seq![]);
                return none;
            },
        };
        let mut fields: Vec<(&'static str, String)> = Vec::new();
        fields.push(("host_reason", String::from_str(error.slug())));
        assert(fields_view(fields@) =~= seq![("host_reason"@, error.slug_spec()@)]);
        fields
    }
}

/// Read memory that the mapper points into: kernel addresses through the
/// processor's translation, others as guest-physical.
pub fn mapper_read<H: HostOps>(host: &H, address: u64, len: usize) -> (bytes: Result<
    Vec<u8>,
    MemError,
>)
    ensures
        read_gives(
            bytes,
            if is_guest_kernel_va(address) {
                (host.guest().kva)(address, len as nat)
            } else {
                (host.guest().gpa)(address, len as nat)
            },
            len as nat,
        ),
{
    if guest_kernel_va(address) {
        host.read_kva(address, len)
    } else {
        host.read_gpa(address, len)
    }
}

/// Why a decoded request was not captured.
#[derive(Clone, Copy, Debug, PartialEq, Eq)]
pub enum CaptureRefusal {
    Decline(MapperDecline),
    /// A check on the guest's mapping object refused.
    Contract(Status),
}

impl CaptureRefusal {
    pub open spec fn slug_spec(self) -> &'static str {
        match self {
            CaptureRefusal::Decline(decline) => decline.slug_spec(),
            CaptureRefusal::Contract(status) => refusal_or_ok(status),
        }
    }

    pub fn slug(&self) -> (slug: &'static str)
        ensures
            slug == self.slug_spec(),
    {
        match self {
            CaptureRefusal::Decline(decline) => decline.slug(),
            CaptureRefusal::Contract(status) => refusal_reason(status),
        }
    }
}

/// The refusal's name; a passed status has none and reads "ok".
pub open spec fn refusal_or_ok(status: Status) -> &'static str {
    match status.refusal_spec() {
        Some(slug) => slug,
        None => "ok",
    }
}

/// The name of the check that refused.
pub fn refusal_reason(status: &Status) -> (slug: &'static str)
    ensures
        slug == refusal_or_ok(*status),
        status.refusal_spec() is Some ==> Some(slug) == status.refusal_spec(),
{
    match status.refusal() {
        Some(slug) => slug,
        None => "ok",
    }
}

/// What looking at a publication came to.
#[derive(Clone, Copy, Debug, PartialEq, Eq)]
pub enum CaptureOutcome {
    /// Nothing to capture: no publication, no ring, or no mapping request.
    NotReady,
    /// A mapping request whose hand-off does not bear it out.
    Refused(u32, CaptureRefusal),
    Captured(MapperCapture),
}

/// The ring offset of the entry that a producer index published.
pub open spec fn published_offset(producer: u32) -> int {
    (producer - 1) * MAPPER_REQUEST_ENTRY_LEN
}

/// The request in the ring: its type and its mapping id.
pub open spec fn request_of(bytes: Seq<u8>) -> (u32, u32) {
    (little_endian(bytes, 0, 4) as u32, little_endian(bytes, 4, 4) as u32)
}

/// The hand-off of a request for `mapping_id`, checked step by step: the
/// registers are readable, agree with the ring, and point to a mapping object of
/// the right identity.
pub open spec fn handoff_outcome(
    guest: GuestView,
    producer: u32,
    request_type: u32,
    mapping_id: u32,
) -> CaptureOutcome {
    match (guest.xreg)(MAPPER_CAPTURE_REG_MAPPER_DEVICE) {
        Err(error) => CaptureOutcome::Refused(
            mapping_id,
            CaptureRefusal::Decline(MapperDecline::CaptureMapperXregRead(error)),
        ),
        Ok(mapper) => match (guest.xreg)(MAPPER_CAPTURE_REG_REQUEST_TYPE) {
            Err(error) => CaptureOutcome::Refused(
                mapping_id,
                CaptureRefusal::Decline(MapperDecline::CaptureRequestTypeXregRead(error)),
            ),
            Ok(rtype) => match (guest.xreg)(MAPPER_CAPTURE_REG_MAPPING_INTERNAL) {
                Err(error) => CaptureOutcome::Refused(
                    mapping_id,
                    CaptureRefusal::Decline(MapperDecline::CaptureInternalXregRead(error)),
                ),
                Ok(internal) => register_outcome(
                    guest,
                    producer,
                    request_type,
                    mapping_id,
                    mapper,
                    rtype as u32,
                    internal,
                ),
            },
        },
    }
}

/// The hand-off once its registers were read.
pub open spec fn register_outcome(
    guest: GuestView,
    producer: u32,
    request_type: u32,
    mapping_id: u32,
    mapper: u64,
    rtype: u32,
    internal: u64,
) -> CaptureOutcome {
    let declined = |decline: MapperDecline|
        CaptureOutcome::Refused(mapping_id, CaptureRefusal::Decline(decline));
    if rtype != request_type {
        declined(MapperDecline::CaptureRequestTypeMismatch)
    } else if internal == 0 {
        declined(MapperDecline::CaptureInternalZero)
    } else if !is_guest_kernel_va(internal) {
        declined(MapperDecline::CaptureInternalKvaInvalid)
    } else if mapper != 0 && !is_guest_kernel_va(mapper) {
        declined(MapperDecline::CaptureMapperKvaInvalid)
    } else {
        match (guest.identity)(internal, mapper) {
            Err(status) => CaptureOutcome::Refused(mapping_id, CaptureRefusal::Contract(status)),
            Ok(fields) => match (guest.validation)(mapping_id, fields) {
                Status::Passed => CaptureOutcome::Captured(
                    MapperCapture {
                        producer,
                        mapper_device_kva: mapper,
                        request_type: rtype,
                        mapping_internal: internal,
                    },
                ),
                status => CaptureOutcome::Refused(mapping_id, CaptureRefusal::Contract(status)),
            },
        }
    }
}

/// What a publication at `producer` comes to.
pub open spec fn capture_spec(ring_base: u64, guest: GuestView, producer: u32) -> CaptureOutcome {
    if producer == 0 || ring_base == 0 {
        CaptureOutcome::NotReady
    } else {
        match (guest.gpa)(
            (ring_base + published_offset(producer)) as u64,
            MAPPER_REQUEST_ENTRY_LEN as nat,
        ) {
            Err(_) => CaptureOutcome::NotReady,
            Ok(bytes) => {
                let (request_type, mapping_id) = request_of(bytes);
                if request_type != MAPPER_REQUEST_MAP && request_type != MAPPER_REQUEST_UNMAP {
                    CaptureOutcome::NotReady
                } else if mapping_id >= MAX_MAPPINGS {
                    CaptureOutcome::NotReady
                } else {
                    handoff_outcome(guest, producer, request_type, mapping_id)
                }
            },
        }
    }
}

fn check_registers<H: HostOps>(
    host: &H,
    producer: u32,
    request_type: u32,
    mapping_id: u32,
    mapper: u64,
    rtype: u32,
    internal: u64,
) -> (outcome: CaptureOutcome)
    ensures
        outcome == register_outcome(
            host.guest(),
            producer,
            request_type,
            mapping_id,
            mapper,
            rtype,
            internal,
        ),
{
    if rtype != request_type {
        return CaptureOutcome::Refused(
            mapping_id,
            CaptureRefusal::Decline(MapperDecline::CaptureRequestTypeMismatch),
        );
    }
    if internal == 0 {
        return CaptureOutcome::Refused(
            mapping_id,
            CaptureRefusal::Decline(MapperDecline::CaptureInternalZero),
        );
    }
    if !guest_kernel_va(internal) {
        return CaptureOutcome::Refused(
            mapping_id,
            CaptureRefusal::Decline(MapperDecline::CaptureInternalKvaInvalid),
        );
    }
    if mapper != 0 && !guest_kernel_va(mapper) {
        return CaptureOutcome::Refused(
            mapping_id,
            CaptureRefusal::Decline(MapperDecline::CaptureMapperKvaInvalid),
        );
    }
    let fields = match host.read_mapper_identity(internal, mapper) {
        Ok(fields) => fields,
        Err(status) => {
            return CaptureOutcome::Refused(mapping_id, CaptureRefusal::Contract(status));
        },
    };
    match host.validate_mapper_internal(mapping_id, &fields) {
        Status::Passed => CaptureOutcome::Captured(
            MapperCapture {
                producer,
                mapper_device_kva: mapper,
                request_type: rtype,
                mapping_internal: internal,
            },
        ),
        status => CaptureOutcome::Refused(mapping_id, CaptureRefusal::Contract(status)),
    }
}

/// Look at a publication without latching anything.
pub fn capture_outcome<H: HostOps>(state: &DeviceState, host: &H, producer: u32) -> (outcome:
    CaptureOutcome)
    requires
        state.iosfc.ring_base + published_offset(producer) <= u64::MAX,
    ensures
        outcome == capture_spec(state.iosfc.ring_base, host.guest(), producer),
{
    if producer == 0 || state.iosfc.ring_base == 0 {
        return CaptureOutcome::NotReady;
    }
    let (request_type, mapping_id) = match read_request_at_producer(
        host,
        state.iosfc.ring_base,
        producer,
    ) {
        Ok(request) => request,
        Err(_) => {
            return CaptureOutcome::NotReady;
        },
    };
    if request_type != MAPPER_REQUEST_MAP && request_type != MAPPER_REQUEST_UNMAP {
        return CaptureOutcome::NotReady;
    }
    if mapping_id >= MAX_MAPPINGS {
        return CaptureOutcome::NotReady;
    }
    let mapper: u64 = match host.read_xreg(MAPPER_CAPTURE_REG_MAPPER_DEVICE) {
        Ok(value) => value,
        Err(error) => {
            return CaptureOutcome::Refused(
                mapping_id,
                CaptureRefusal::Decline(MapperDecline::CaptureMapperXregRead(error)),
            );
        },
    };
    let rtype: u64 = match host.read_xreg(MAPPER_CAPTURE_REG_REQUEST_TYPE) {
        Ok(value) => value,
        Err(error) => {
            return CaptureOutcome::Refused(
                mapping_id,
                CaptureRefusal::Decline(MapperDecline::CaptureRequestTypeXregRead(error)),
            );
        },
    };
    let internal: u64 = match host.read_xreg(MAPPER_CAPTURE_REG_MAPPING_INTERNAL) {
        Ok(value) => value,
        Err(error) => {
            return CaptureOutcome::Refused(
                mapping_id,
                CaptureRefusal::Decline(MapperDecline::CaptureInternalXregRead(error)),
            );
        },
    };
    check_registers(
        host,
        producer,
        request_type,
        mapping_id,
        mapper,
        #[verifier::truncate]
        (rtype as u32),
        internal,
    )
}

/// Capture the mapper hand-off while still on the publishing processor.
///
/// A request that was decoded but that the hand-off registers do not bear out is
/// latched by its reason, once per mapping and reason; a publication that is not
/// a mapping request is passed over silently.
pub fn capture_at_producer<H: HostOps>(
    state: &DeviceState,
    host: &H,
    latch: &mut FailLatch,
    producer: u32,
) -> (capture: Option<MapperCapture>)
    requires
        state.iosfc.ring_base + published_offset(producer) <= u64::MAX,
    ensures
        match capture_spec(state.iosfc.ring_base, host.guest(), producer) {
            CaptureOutcome::NotReady => capture is None && final(latch)@ == old(latch)@,
            CaptureOutcome::Refused(mapping_id, refusal) => capture is None && final(latch)@ == old(
                latch,
            )@.noted(mapping_id, refusal.slug_spec()@),
            CaptureOutcome::Captured(c) => capture == Some(c) && final(latch)@ == old(latch)@,
        },
{
    match capture_outcome(state, host, producer) {
        CaptureOutcome::NotReady => None,
        CaptureOutcome::Refused(mapping_id, refusal) => {
            let _ = latch.note(mapping_id, refusal.slug());
            None
        },
        CaptureOutcome::Captured(capture) => Some(capture),
    }
}

/// The request in the ring at a producer index.
pub fn read_request_at_producer<M: HostMemory>(
    host: &M,
    ring_base: u64,
    producer: u32,
) -> (request: Result<(u32, u32), MemError>)
    requires
        ring_base + published_offset(producer) <= u64::MAX,
    ensures
        request == if producer == 0 {
            Err::<(u32, u32), MemError>(MemError::BadArgs)
        } else {
            match (host.guest().gpa)(
                (ring_base + published_offset(producer)) as u64,
                MAPPER_REQUEST_ENTRY_LEN as nat,
            ) {
                Ok(bytes) => Ok(request_of(bytes)),
                Err(error) => Err(error),
            }
        },
{
    if producer == 0 {
        return Err(MemError::BadArgs);
    }
    let offset: u64 = (producer as u64 - 1) * 16;
    match host.read_gpa(ring_base + offset, MAPPER_REQUEST_ENTRY_LEN) {
        Ok(bytes) => Ok((ld32(bytes.as_slice(), 0), ld32(bytes.as_slice(), 4))),
        Err(error) => Err(error),
    }
}

/// The state after a capture was applied to `mapping_id`.
pub open spec fn capture_applied(
    state: DeviceView,
    capture: MapperCapture,
    mapping_id: u32,
) -> DeviceView {
    if capture.request_type == MAPPER_REQUEST_UNMAP {
        state.without_render_windows(mapping_id).unmapped(mapping_id)
    } else if capture.request_type != MAPPER_REQUEST_MAP {
        state
    } else {
        let known = if capture.mapper_device_kva != 0 {
            DeviceView { mapper_device_kva: capture.mapper_device_kva, ..state }
        } else {
            state
        };
        let cleaned = if known.mappings.dom().contains(mapping_id)
            && known.mappings[mapping_id].mapping_internal == capture.mapping_internal {
            known
        } else {
            known.without_render_windows(mapping_id)
        };
        if mapping_id < MAX_MAPPINGS {
            cleaned.attached(mapping_id, capture.mapping_internal)
        } else {
            cleaned
        }
    }
}

/// Apply a capture to the mapping named by the drained ring entry.
///
/// An unmap releases the owed render windows of the surface and unmaps it. A map
/// attaches the mapping object; one that differs from what is attached is a new
/// surface, whose old owed windows are released first.
pub fn apply_capture(state: &mut DeviceState, capture: &MapperCapture, mapping_id: u32) -> (applied:
    bool)
    requires
        old(state).wf(),
    ensures
        final(state).wf(),
        final(state)@ == capture_applied(old(state)@, *capture, mapping_id),
        applied == if capture.request_type == MAPPER_REQUEST_UNMAP {
            old(state)@.mappings.dom().contains(mapping_id)
        } else {
            capture.request_type == MAPPER_REQUEST_MAP && mapping_id < MAX_MAPPINGS
        },
{
    if capture.request_type == MAPPER_REQUEST_UNMAP {
        state.drop_render_deferred_windows(mapping_id);
        return state.unmap_surface(mapping_id);
    }
    if capture.request_type != MAPPER_REQUEST_MAP {
        return false;
    }
    if capture.mapper_device_kva != 0 {
        state.mapper_device_kva = capture.mapper_device_kva;
    }
    let changed = match state.mappings.get(&mapping_id) {
        Some(m) => m.mapping_internal != capture.mapping_internal,
        None => true,
    };
    if changed {
        state.drop_render_deferred_windows(mapping_id);
    }
    state.attach_mapping_internal(mapping_id, capture.mapping_internal)
}

/// Whether the fields are those of the mapping.
pub fn fields_ok(fields: &MapperInternalFields, mapping_id: u32) -> (same: bool)
    ensures
        same == (fields.mapping_id == mapping_id),
{
    fields.mapping_id == mapping_id
}

} // verus!
