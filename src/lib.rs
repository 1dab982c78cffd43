//! A toolchain plugin for Go: the remote version catalog, the naming of
//! release archives, the install pipeline's decisions, the default package
//! list and the environment that an installed toolchain contributes.

pub mod catalog;
pub mod install;
pub mod packages;
pub mod platform;
pub mod plugin;
pub mod text;
