//! Extraction of airport records from the first table of an HTML page.

pub mod dom;
pub mod extract;
pub mod record;
pub mod text;
