//! Resolution of kernel packet-drop-reason enumerations from BTF type
//! metadata: extraction of integer-to-name member tables, reconciliation of
//! the core enumeration with optional subsystem extensions under a fixed
//! precedence order, and rendering of the resulting table as a single lookup,
//! a raw listing, or one of two monitoring-script bodies.

pub mod extract;
pub mod format;
pub mod merge;
pub mod table;
