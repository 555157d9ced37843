//! Renderers for the artifacts a layout produces: the linker script
//! itself and the companion reset-module text.

pub mod link;
pub mod reset;
