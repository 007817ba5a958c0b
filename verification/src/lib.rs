//! Column width arrangement for fixed-width text tables.
//!
//! Given a table description (ordered columns with natural content sizes,
//! padding and optional sizing constraints, an optional target total width,
//! and border flags), the arrangement pass decides the width allotted to
//! every column: constraints are honored exactly, and leftover or deficit
//! space is distributed deterministically.

pub mod arrangement;
pub mod style;
pub mod table;
