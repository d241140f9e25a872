//! In-memory logic of a media file explorer that enriches images with
//! AI-generated descriptions: configuration defaults for the local vision
//! model, the metadata index, the searchable document format, parsing of
//! model output and the filtering and formatting used by the result views.
use vstd::prelude::*;

pub mod text;
pub mod metadata;
pub mod keyed;
pub mod engine;
pub mod document;
pub mod config;
pub mod vision;
pub mod media;
pub mod display;
pub mod order;
pub mod records;
pub mod navigation;
pub mod search;
pub mod chat;
pub mod generated;
pub mod scan;
pub mod layout;
pub mod rows;
pub mod counters;
pub mod preview;
pub mod thumbs;
pub mod json;
pub mod loader;
pub mod generation;

verus! {

} // verus!
