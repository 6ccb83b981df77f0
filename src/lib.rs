//! Leader-key application launcher: key-label normalization, the chord state
//! machine, and the controller that keeps OS hotkey registrations in step
//! with it; with the rendering of the usage report and the description of
//! the login agent.
pub mod args;
pub mod chord;
pub mod config;
pub mod facility;
pub mod hotkey_manager;
pub mod keys;
pub mod launchd_manager;
pub mod usage;

pub use config::Config;
pub use hotkey_manager::HotKeyManager;
pub use launchd_manager::LaunchdManager;
