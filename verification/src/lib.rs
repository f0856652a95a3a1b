//! Verified core of the TuZi Switch desktop app's development-cache manager
//! and Codex language switch: checking cache roots, routing tool caches,
//! scanning and cleaning managed caches, keeping the user's global
//! environment with an exact backup, and editing Codex's locale setting.

pub mod text;
pub mod paths;
pub mod settings;
pub mod cache_root;
pub mod global_env;
pub mod registry_backup;
pub mod cache_scan;
pub mod cache_routing;
pub mod codex_locale;
