//! Verified core of an exporter for albums and tracks of an audio site: the
//! addresses it asks for, what the answers mean, the aria2 input file, and the
//! decisions of its window.

pub mod fetcher;
pub mod json;
pub mod text;
pub mod ui;
