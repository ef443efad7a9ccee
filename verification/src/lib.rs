//! Core of a markdown rendering pipeline, decoupled from any concrete UI
//! toolkit: a rendering-context protocol that a markdown event stream
//! drives, a registry of custom components with typed attribute parsing,
//! source-position attribution for every interactive node, and the render
//! pass that folds parse events into one view tree.

pub mod context;
pub mod element;
pub mod kinds;
pub mod parse;
pub mod pass;
pub mod props;
pub mod range;
pub mod registry;
pub mod tag;
