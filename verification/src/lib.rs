//! Renders structured (bunyan-style) log records — one JSON object per
//! line — into human-readable text: a multi-section "long" layout, compact
//! single-line variants, raw re-serialized JSON, or an inspection dump.
//!
//! The rendering engine, the per-line filtering and recovery pipeline, and
//! the record model are verified; reading lines and writing to a sink are
//! left to the caller.

pub mod dispatch;
pub mod laws;
pub mod level;
pub mod long;
pub mod outside;
pub mod record;
pub mod render;
pub mod res;
pub mod text;
pub mod value;
