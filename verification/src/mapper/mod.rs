//! Surface mapper: capture of the guest's mapping hand-off, page-table and
//! geometry resolve, and access to a surface's bytes.
//!
//! Capture runs while the publishing processor still holds the hand-off in its
//! registers. Resolve builds a mapping's page list and geometry from the guest
//! driver's mapping object and device descriptor.

pub mod access_laws;
pub mod capture;
pub mod capture_laws;
pub mod control_laws;
pub mod io;
pub mod io_laws;
pub mod laws;
pub mod owed;
pub mod page_laws;
pub mod pages;
pub mod resolve;
pub mod resolve_laws;
pub mod views;

pub use capture::{apply_capture, capture_at_producer, fields_ok, read_request_at_producer};
pub use io::{read_mapping_bytes, write_mapping_bytes};
pub use owed::flush_intersecting;
pub use pages::pages_cover_geom;
pub use resolve::{
    ensure_resolved_for_scanout, resolve_mapping_backing, revalidate_mapping_pages,
    revalidate_mapping_reason,
};
pub use views::{ensure_contig_view, flush_retired_views, mapping_page_gpas};
