//! Verified core of a paravirtual GPU: SPIR-V binding analysis and rewriting,
//! guest surface mapping, and compute dispatch planning.

pub mod compute_exec;
pub mod contract;
pub mod contract_laws;
pub mod fake_host;
pub mod host;
pub mod host_laws;
pub mod mapper;
pub mod mapping;
pub mod model;
pub mod model_laws;
pub mod observe;
pub mod observe_laws;
pub mod residency;
pub mod residency_laws;
pub mod spirv_bind;
pub mod text;
