//! A sortable listing of community game mods, and the job that fetches the
//! upstream mods manifest.

pub mod date;
pub mod fetch;
pub mod listing;
pub mod view;
