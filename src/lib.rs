//! Configuration and lifecycle logic of a modular runtime host: the JSON
//! configuration model and its deep merge, the merge of a parent's rendered
//! module configuration into an out-of-process module's own, the rendering
//! of that configuration and of the modules' launch settings, the module
//! registry's order and the runtime's phases.

pub mod json;
pub mod logging;
pub mod config;
pub mod oop;
pub mod render;
pub mod spawn;
pub mod run;
pub mod file_parser;
pub mod codec;
pub mod lifecycle;
pub mod registry;
