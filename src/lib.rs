pub mod host;
pub mod registry;
pub mod proxy;
pub mod watcher;
