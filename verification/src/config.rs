//! Settings that say how a new window starts.

use crate::text::opt_text;
use crate::theme::Theme;
use vstd::prelude::*;

verus! {

/// Behavior when the application starts.
#[derive(Debug, Clone, Copy, PartialEq, Eq, Structural)]
pub enum StartupBehavior {
    /// Use the default setting.
    Default,
    /// Use the setting of the window that was closed last.
    LastClosed,
}

/// Behavior when a new window is opened.
#[derive(Debug, Clone, Copy, PartialEq, Eq, Structural)]
pub enum NewWindowBehavior {
    /// Use the default setting.
    Default,
    /// Use the setting of the window that was focused last.
    LastFocused,
}

impl Default for StartupBehavior {
    fn default() -> (behavior: Self)
        ensures
            behavior == StartupBehavior::Default,
    {
        StartupBehavior::Default
    }
}

impl Default for NewWindowBehavior {
    fn default() -> (behavior: Self)
        ensures
            behavior == NewWindowBehavior::Default,
    {
        NewWindowBehavior::Default
    }
}

/// Settings for the root directory.
#[derive(Debug, PartialEq)]
pub struct DirectoryConfig {
    /// The directory to open by default.
    pub default_directory: Option<String>,
    pub on_startup: StartupBehavior,
    pub on_new_window: NewWindowBehavior,
}

impl Clone for DirectoryConfig {
    fn clone(&self) -> (copy: Self)
        ensures
            opt_text(copy.default_directory) == opt_text(self.default_directory),
            copy.on_startup == self.on_startup,
            copy.on_new_window == self.on_new_window,
    {
        DirectoryConfig {
            default_directory: match &self.default_directory {
                Some(directory) => Some(directory.clone()),
                None => None,
            },
            on_startup: self.on_startup,
            on_new_window: self.on_new_window,
        }
    }
}

impl Default for DirectoryConfig {
    fn default() -> (config: Self)
        ensures
            config.default_directory is None,
            config.on_startup == StartupBehavior::Default,
            config.on_new_window == NewWindowBehavior::Default,
    {
        DirectoryConfig {
            default_directory: None,
            on_startup: StartupBehavior::Default,
            on_new_window: NewWindowBehavior::Default,
        }
    }
}

/// Settings for the theme.
#[derive(Debug, Clone, Copy, PartialEq, Eq, Structural)]
pub struct ThemeConfig {
    /// The theme preference to start with.
    pub default_theme: Theme,
    pub on_startup: StartupBehavior,
    pub on_new_window: NewWindowBehavior,
}

impl Default for ThemeConfig {
    fn default() -> (config: Self)
        ensures
            config == (ThemeConfig {
                default_theme: Theme::Auto,
                on_startup: StartupBehavior::Default,
                on_new_window: NewWindowBehavior::Default,
            }),
    {
        ThemeConfig {
            default_theme: Theme::Auto,
            on_startup: StartupBehavior::Default,
            on_new_window: NewWindowBehavior::Default,
        }
    }
}

/// The unit of a window dimension.
#[derive(Debug, Clone, Copy, PartialEq, Eq, Structural)]
pub enum WindowDimensionUnit {
    Pixels,
    Percent,
}

/// How the position of a new window is found.
#[derive(Debug, Clone, Copy, PartialEq, Eq, Structural)]
pub enum WindowPositionMode {
    /// At configured coordinates.
    Coordinates,
    /// At the mouse cursor.
    Mouse,
}

/// How far a new window is moved away from the one before it.
#[derive(Debug, Clone, Copy, PartialEq, Eq, Structural)]
pub struct WindowPositionOffset {
    pub x: i32,
    pub y: i32,
}

} // verus!
