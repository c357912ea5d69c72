//! A registry for plugins that live in dynamic libraries.
//!
//! The registry owns both the mapped libraries and the plugin objects whose
//! code lies inside them, and keeps every library mapped for as long as a
//! plugin that came out of it is alive.
pub mod discovery;
pub mod errors;
pub mod lifecycle;
pub mod loader;
pub mod plugin;
pub mod plugin_manager;

pub use errors::{ErrorKind, PluginError};
pub use lifecycle::{Event, RegistryView};
pub use loader::{factory_symbol, Created, Opened};
pub use plugin::Plugin;
pub use plugin_manager::PluginManager;
