//! Verified core of `f1_data`: request building, response extraction and concatenation, and the
//! parsing of the time formats used by the jolpica-f1 (formerly Ergast) Formula 1 API.

pub mod api;
pub mod concat;
pub mod error;
pub mod get;
pub mod id;
pub mod resource;
pub mod response;
pub mod text;
pub mod time;
