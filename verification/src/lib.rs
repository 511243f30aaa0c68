//! `ponchi`: the verified core of a local-only, hand-drawn-style diagram
//! generator.

pub mod ieee;
pub mod strings;
pub mod scene;
pub mod layout;
pub mod input;
pub mod render;
pub mod server;
pub mod raster;
pub mod cli;
pub mod backend;
pub mod report;
