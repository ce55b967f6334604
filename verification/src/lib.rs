//! Witness-side machinery of a plookup-style lookup argument for a
//! PLONK-family proving system: permissible-value tables for supported binary
//! operations, and validated, atomic accumulation of per-gate wire
//! assignments that must be provable members of those tables.

pub mod error;
pub mod field_element;
pub mod lookup_table;
pub mod multiset;
pub mod witness_table;

pub use error::Error;
pub use field_element::FieldElement;
pub use lookup_table::selector_add;
pub use lookup_table::selector_xor;
pub use lookup_table::LookupTable;
pub use multiset::MultiSet;
pub use witness_table::WitnessTable;
