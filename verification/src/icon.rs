//! The icons of the user interface and their names in the icon sprite.

use vstd::prelude::*;
use vstd::string::StringExecFns;

verus! {

/// An icon of the user interface.
#[derive(Clone, Copy, PartialEq, Eq, Debug, Structural)]
pub enum IconName {
    Sun,
    Moon,
    SunMoon,
    ChevronLeft,
    ChevronRight,
    ChevronDown,
    File,
    Folder,
    FolderOpen,
    Command,
    Click,
    FileUpload,
    Close,
    Add,
    Sidebar,
    Eye,
    EyeOff,
    AlertTriangle,
    AlertCircle,
    ArrowsDiagonal,
    ArrowsMove,
    Refresh,
    Login,
    Server,
    Copy,
    Check,
    Gear,
    InfoCircle,
    BrandGithub,
    Bug,
}

/// The name of an icon in the sprite.
pub open spec fn icon_name(icon: IconName) -> Seq<char> {
    match icon {
        IconName::Sun => "sun"@,
        IconName::Moon => "moon"@,
        IconName::SunMoon => "sun-moon"@,
        IconName::ChevronLeft => "chevron-left"@,
        IconName::ChevronRight => "chevron-right"@,
        IconName::ChevronDown => "chevron-down"@,
        IconName::File => "file"@,
        IconName::Folder => "folder"@,
        IconName::FolderOpen => "folder-open"@,
        IconName::Command => "command"@,
        IconName::Click => "click"@,
        IconName::FileUpload => "file-upload"@,
        IconName::Close => "x"@,
        IconName::Add => "plus"@,
        IconName::Sidebar => "layout-sidebar"@,
        IconName::Eye => "eye"@,
        IconName::EyeOff => "eye-off"@,
        IconName::AlertTriangle => "alert-triangle"@,
        IconName::AlertCircle => "alert-circle"@,
        IconName::ArrowsDiagonal => "arrows-diagonal"@,
        IconName::ArrowsMove => "arrows-move"@,
        IconName::Refresh => "refresh"@,
        IconName::Login => "login"@,
        IconName::Server => "server"@,
        IconName::Copy => "copy"@,
        IconName::Check => "check"@,
        IconName::Gear => "settings"@,
        IconName::InfoCircle => "info-circle"@,
        IconName::BrandGithub => "brand-github"@,
        IconName::Bug => "bug"@,
    }
}

impl IconName {
    /// The icon's name in the sprite.
    pub fn name(&self) -> (name: &'static str)
        ensures
            name@ == icon_name(*self),
    {
        match self {
            IconName::Sun => "sun",
            IconName::Moon => "moon",
            IconName::SunMoon => "sun-moon",
            IconName::ChevronLeft => "chevron-left",
            IconName::ChevronRight => "chevron-right",
            IconName::ChevronDown => "chevron-down",
            IconName::File => "file",
            IconName::Folder => "folder",
            IconName::FolderOpen => "folder-open",
            IconName::Command => "command",
            IconName::Click => "click",
            IconName::FileUpload => "file-upload",
            IconName::Close => "x",
            IconName::Add => "plus",
            IconName::Sidebar => "layout-sidebar",
            IconName::Eye => "eye",
            IconName::EyeOff => "eye-off",
            IconName::AlertTriangle => "alert-triangle",
            IconName::AlertCircle => "alert-circle",
            IconName::ArrowsDiagonal => "arrows-diagonal",
            IconName::ArrowsMove => "arrows-move",
            IconName::Refresh => "refresh",
            IconName::Login => "login",
            IconName::Server => "server",
            IconName::Copy => "copy",
            IconName::Check => "check",
            IconName::Gear => "settings",
            IconName::InfoCircle => "info-circle",
            IconName::BrandGithub => "brand-github",
            IconName::Bug => "bug",
        }
    }

    /// The id under which the sprite holds the icon: `tabler-` and the
    /// icon's name.
    pub fn sprite_id(&self) -> (id: String)
        ensures
            id@ == "tabler-"@ + icon_name(*self),
    {
        "tabler-".to_owned().concat(self.name())
    }
}

} // verus!
