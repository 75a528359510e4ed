//! DevKit: the logic of a developer-environment installer.
pub mod cli;
pub mod download;
pub mod env;
pub mod env_laws;
pub mod error;
pub mod installers;
pub mod json;
pub mod paths;
pub mod platform;
pub mod plugin;
pub mod plugin_utils;
pub mod plugins;
pub mod registry;
pub mod scan;
pub mod text;
pub mod theme;
pub mod version;
