//! Pure helpers: text handling, identifier quoting, SQL classification,
//! pagination and value conversion.

pub mod identifiers;
pub mod pagination;
pub mod sql;
pub mod text;
pub mod values;
