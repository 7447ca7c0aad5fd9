//! Building blocks of a module build orchestrator: the module record, flavour
//! expansion, identifier resolution, path derivation, modulefile rendering and
//! the shell command plans that drive downloads, builds and installs.

pub mod builders;
pub mod callbacks;
pub mod config;
pub mod downloaders;
pub mod file_manager;
pub mod flavours;
pub mod loader;
pub mod module;
pub mod pipeline;
pub mod modulefile;
pub mod pump;
pub mod resolver;
pub mod shell;
pub mod text;
