pub mod api;
pub mod extract;
pub mod extractors;
pub mod fuzzy;
pub mod strutil;
pub mod types;
pub mod youtube;
