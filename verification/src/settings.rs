//! The development-cache settings that the cache logic reads.

use vstd::prelude::*;

verus! {

/// Where development caches go and which tools are routed there.
#[derive(Debug, Clone)]
pub struct DevelopmentCacheSettings {
    /// Whether routing is switched on at all.
    pub enabled: bool,
    /// The directory the user picked; the managed root lies below it.
    pub root_dir: Option<String>,
    /// Route `TEMP`, `TMP` and `TMPDIR`.
    pub route_temp: bool,
    /// Route the npm, Yarn and pnpm caches.
    pub route_node: bool,
    /// Route the pip and uv caches.
    pub route_python: bool,
    /// Remove a session's directory when the session ends.
    pub cleanup_on_session_end: bool,
    /// Also write the routing into the user's global environment (Windows).
    pub global_mode: bool,
    /// How long a completed session is kept before it counts as expired.
    pub retention_hours: u32,
}

impl Default for DevelopmentCacheSettings {
    fn default() -> (s: Self)
        ensures
            !s.enabled,
            s.root_dir is None,
            s.route_temp,
            s.route_node,
            s.route_python,
            s.cleanup_on_session_end,
            !s.global_mode,
            s.retention_hours == 24,
    {
        DevelopmentCacheSettings {
            enabled: false,
            root_dir: None,
            route_temp: true,
            route_node: true,
            route_python: true,
            cleanup_on_session_end: true,
            global_mode: false,
            retention_hours: 24,
        }
    }
}

} // verus!
