//! The compute path's refusals.

use vstd::prelude::*;
use vstd::string::StringExecFns;
use crate::observe::{Emit, fields_text, refusal_text};
use crate::text::{decimal, decimal_text, fields_view};

verus! {

/// What the Metal backend refused for.
#[derive(Clone, Copy, Debug, PartialEq, Eq)]
pub enum MetalFault {
    /// The arguments it was given.
    Args,
    /// Something that failed while it ran.
    Execute,
}

/// A refusal of the Metal backend: what for, the name of the check, and what it
/// measured, where it did.
#[derive(Clone, Copy, Debug, PartialEq, Eq)]
pub struct MetalStatus {
    pub fault: MetalFault,
    pub slug: &'static str,
    pub field: Option<(&'static str, u64)>,
}

impl MetalStatus {
    pub open spec fn fault_spec(self) -> &'static str {
        match self.fault {
            MetalFault::Args => "args",
            MetalFault::Execute => "execute",
        }
    }

    /// The fields of the refusal's line.
    pub open spec fn fields_spec(self) -> Seq<(Seq<char>, Seq<char>)> {
        let class = seq![("class"@, self.fault_spec()@)];
        match self.field {
            Some((name, value)) => class.push((name@, decimal(value as nat))),
            None => class,
        }
    }

    pub fn fields(&self) -> (fields: Vec<(&'static str, String)>)
        ensures
            fields_view(fields@) == self.fields_spec(),
    {
        let mut fields: Vec<(&'static str, String)> = Vec::new();
        let fault = match self.fault {
            MetalFault::Args => "args",
            MetalFault::Execute => "execute",
        };
        fields.push(("class", String::from_str(fault)));
        match self.field {
            Some((name, value)) => {
                fields.push((name, decimal_text(value)));
            },
            None => {},
        }
        assert(fields_view(fields@) =~= self.fields_spec());
        fields
    }
}

/// What a compute command came to. A refusal carries the name of the check that
/// refused; its variant is what decides the caller's recovery.
#[derive(Clone, Copy, Debug, PartialEq, Eq)]
pub enum ComputeStatus {
    Completed,
    /// The backend's own refusal, handed on whole.
    MetalBackend(MetalStatus),
    MissingPipeline(&'static str),
    MissingMtlb(&'static str),
    MissingBuffer(&'static str),
    MissingTexture(&'static str),
    MissingSampler(&'static str),
    BadGrid(&'static str),
    GuestIo(&'static str),
    MetalFailed(&'static str),
    NoMetal(&'static str),
    Unsupported(&'static str),
}

impl ComputeStatus {
    pub open spec fn refusal_spec(self) -> Option<&'static str> {
        match self {
            ComputeStatus::Completed => None,
            ComputeStatus::MetalBackend(status) => Some(status.slug),
            ComputeStatus::MissingPipeline(slug) => Some(slug),
            ComputeStatus::MissingMtlb(slug) => Some(slug),
            ComputeStatus::MissingBuffer(slug) => Some(slug),
            ComputeStatus::MissingTexture(slug) => Some(slug),
            ComputeStatus::MissingSampler(slug) => Some(slug),
            ComputeStatus::BadGrid(slug) => Some(slug),
            ComputeStatus::GuestIo(slug) => Some(slug),
            ComputeStatus::MetalFailed(slug) => Some(slug),
            ComputeStatus::NoMetal(slug) => Some(slug),
            ComputeStatus::Unsupported(slug) => Some(slug),
        }
    }

    /// The name of the check that refused; success has none.
    pub fn refusal(&self) -> (slug: Option<&'static str>)
        ensures
            slug == self.refusal_spec(),
    {
        match self {
            ComputeStatus::Completed => None,
            ComputeStatus::MetalBackend(status) => Some(status.slug),
            ComputeStatus::MissingPipeline(slug) => Some(*slug),
            ComputeStatus::MissingMtlb(slug) => Some(*slug),
            ComputeStatus::MissingBuffer(slug) => Some(*slug),
            ComputeStatus::MissingTexture(slug) => Some(*slug),
            ComputeStatus::MissingSampler(slug) => Some(*slug),
            ComputeStatus::BadGrid(slug) => Some(*slug),
            ComputeStatus::GuestIo(slug) => Some(*slug),
            ComputeStatus::MetalFailed(slug) => Some(*slug),
            ComputeStatus::NoMetal(slug) => Some(*slug),
            ComputeStatus::Unsupported(slug) => Some(*slug),
        }
    }

    pub open spec fn class_spec(self) -> &'static str {
        match self {
            ComputeStatus::Completed => "ok",
            ComputeStatus::MetalBackend(status) => match status.fault {
                MetalFault::Args => "metal_args",
                MetalFault::Execute => "metal_execute",
            },
            ComputeStatus::MissingPipeline(_) => "missing_pipeline",
            ComputeStatus::MissingMtlb(_) => "missing_mtlb",
            ComputeStatus::MissingBuffer(_) => "missing_buffer",
            ComputeStatus::MissingTexture(_) => "missing_texture",
            ComputeStatus::MissingSampler(_) => "missing_sampler",
            ComputeStatus::BadGrid(_) => "bad_grid",
            ComputeStatus::GuestIo(_) => "guest_io",
            ComputeStatus::MetalFailed(_) => "metal_failed",
            ComputeStatus::NoMetal(_) => "no_metal",
            ComputeStatus::Unsupported(_) => "unsupported",
        }
    }

    /// The name of the variant.
    pub fn class(&self) -> (class: &'static str)
        ensures
            class == self.class_spec(),
    {
        match self {
            ComputeStatus::Completed => "ok",
            ComputeStatus::MetalBackend(status) => match status.fault {
                MetalFault::Args => "metal_args",
                MetalFault::Execute => "metal_execute",
            },
            ComputeStatus::MissingPipeline(_) => "missing_pipeline",
            ComputeStatus::MissingMtlb(_) => "missing_mtlb",
            ComputeStatus::MissingBuffer(_) => "missing_buffer",
            ComputeStatus::MissingTexture(_) => "missing_texture",
            ComputeStatus::MissingSampler(_) => "missing_sampler",
            ComputeStatus::BadGrid(_) => "bad_grid",
            ComputeStatus::GuestIo(_) => "guest_io",
            ComputeStatus::MetalFailed(_) => "metal_failed",
            ComputeStatus::NoMetal(_) => "no_metal",
            ComputeStatus::Unsupported(_) => "unsupported",
        }
    }

    /// The name of the check that refused, or "ok".
    pub fn reason(&self) -> (slug: &'static str)
        ensures
            slug == match self.refusal_spec() {
                Some(slug) => slug,
                None => "ok",
            },
    {
        match self.refusal() {
            Some(slug) => slug,
            None => "ok",
        }
    }

    /// The fields of a refusal's line: the class next to the reason. The backend's
    /// refusal has its own, and how the caller recovers.
    pub open spec fn fields_spec(self) -> Seq<(Seq<char>, Seq<char>)> {
        match self {
            ComputeStatus::MetalBackend(status) => status.fields_spec().push(
                ("recovery"@, "metal_failed"@),
            ),
            _ => seq![("class"@, self.class_spec()@)],
        }
    }

    pub fn fields(&self) -> (fields: Vec<(&'static str, String)>)
        ensures
            fields_view(fields@) == self.fields_spec(),
    {
        match self {
            ComputeStatus::MetalBackend(status) => {
                let mut fields = status.fields();
                let ghost before = fields@;
                fields.push(("recovery", String::from_str("metal_failed")));
                assert(fields_view(fields@) =~= fields_view(before).push(
                    ("recovery"@, "metal_failed"@),
                ));
                fields
            },
            _ => {
                let mut fields: Vec<(&'static str, String)> = Vec::new();
                fields.push(("class", String::from_str(self.class())));
                assert(fields_view(fields@) =~= seq![("class"@, self.class_spec()@)]);
                fields
            },
        }
    }

    /// Start the log line of a refusal. A success has no line.
    pub fn emit(&self, event: &str) -> (emit: Option<Emit>)
        ensures
            emit is Some <==> self.refusal_spec() is Some,
            emit is Some ==> emit->0@ == refusal_text(event@, self.refusal_spec()->0@)
                + fields_text(self.fields_spec()),
    {
        match self.refusal() {
            Some(slug) => Some(Emit::new(event, slug).fields(&self.fields())),
            None => None,
        }
    }
}

/// Why translated kernel bytes are not a module.
#[derive(Clone, Copy, Debug, PartialEq, Eq, Structural)]
pub enum ComputeSpirvDecline {
    HeaderTooShort { len: usize, minimum: usize },
    LengthMisaligned { len: usize, alignment: usize },
}

impl ComputeSpirvDecline {
    pub open spec fn slug_spec(self) -> &'static str {
        match self {
            ComputeSpirvDecline::HeaderTooShort { .. } => "compute_spirv_header_too_short",
            ComputeSpirvDecline::LengthMisaligned { .. } => "compute_spirv_length_misaligned",
        }
    }

    pub fn slug(&self) -> (slug: &'static str)
        ensures
            slug == self.slug_spec(),
    {
        match self {
            ComputeSpirvDecline::HeaderTooShort { .. } => "compute_spirv_header_too_short",
            ComputeSpirvDecline::LengthMisaligned { .. } => "compute_spirv_length_misaligned",
        }
    }

    pub open spec fn fields_spec(self) -> Seq<(Seq<char>, Seq<char>)> {
        match self {
            ComputeSpirvDecline::HeaderTooShort { len, minimum } => seq![
                ("len"@, decimal(len as nat)),
                ("minimum"@, decimal(minimum as nat)),
            ],
            ComputeSpirvDecline::LengthMisaligned { len, alignment } => seq![
                ("len"@, decimal(len as nat)),
                ("alignment"@, decimal(alignment as nat)),
            ],
        }
    }

    pub fn fields(&self) -> (fields: Vec<(&'static str, String)>)
        ensures
            fields_view(fields@) == self.fields_spec(),
    {
        let mut fields: Vec<(&'static str, String)> = Vec::new();
        match self {
            ComputeSpirvDecline::HeaderTooShort { len, minimum } => {
                fields.push(("len", decimal_text(*len as u64)));
                fields.push(("minimum", decimal_text(*minimum as u64)));
            },
            ComputeSpirvDecline::LengthMisaligned { len, alignment } => {
                fields.push(("len", decimal_text(*len as u64)));
                fields.push(("alignment", decimal_text(*alignment as u64)));
            },
        }
        assert(fields_view(fields@) =~= self.fields_spec());
        fields
    }

    /// The decline as text: its reason and its fields.
    pub fn to_text(&self) -> (text: String)
        ensures
            text@ == "reason="@ + self.slug_spec()@ + fields_text(self.fields_spec()),
    {
        let mut line = String::new();
        line.append("reason=");
        line.append(self.slug());
        let emit = Emit { line }.fields(&self.fields());
        assert(emit@ =~= "reason="@ + self.slug_spec()@ + fields_text(self.fields_spec()));
        emit.render()
    }
}

} // verus!
