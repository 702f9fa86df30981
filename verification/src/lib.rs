//! Coordination core of a multi-window markdown viewer: the file-watch
//! multiplexer, the debounced window-metrics updater and the two-phase tab
//! transfer between windows, together with the per-window state they act on.

pub mod app_state;
pub mod calculations;
pub mod config;
pub mod explorer;
pub mod history;
pub mod icon;
pub mod ids;
pub mod metrics;
pub mod paths;
pub mod pinned_json;
pub mod pinned_search;
pub mod scan;
pub mod screen;
pub mod scripts;
pub mod search;
pub mod sidebar;
pub mod tabs;
pub mod text;
pub mod theme;
pub mod transfer;
pub mod watcher;
pub mod window;
pub mod window_title;
