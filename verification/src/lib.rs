//! Font-fallback text segmentation and metrics.
//!
//! The crate lays a run of characters out left to right: it picks a font for
//! each character through a caller-supplied [`source::FontSource`], computes
//! each character's advance width from font-unit metrics, merges consecutive
//! characters that share a font into one write action, and returns the
//! resulting action list together with the bounding box of the laid-out text.

pub mod action;
pub mod laws;
pub mod layouter;
pub mod size;
pub mod source;
pub mod style;
