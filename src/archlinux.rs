//! The mirror catalog: the records of the status feed as they come, and
//! the same records grouped by country.

pub mod external;
pub mod internal;
