use arto::config::{
    DirectoryConfig, NewWindowBehavior, StartupBehavior, ThemeConfig, WindowDimensionUnit,
    WindowPositionMode, WindowPositionOffset,
};
use arto::icon::IconName;
use arto::paths::{
    extension_of_name, file_name, file_name_or, has_markdown_extension, is_markdown_file,
};
use arto::scripts::{clipboard_script, escape_template, navigate_script, set_pinned_script};
use arto::search::{char_index_to_byte_index, split_context};
use arto::tabs::TabContent;
use arto::theme::{resolve_theme, ResolvedTheme, SystemMode, Theme};
use arto::window_title::{extract_filename, generate_window_title};

#[test]
fn markdown_files_are_recognised_by_extension() {
    assert!(is_markdown_file("/docs/readme.md"));
    assert!(is_markdown_file("notes.markdown"));
    assert!(is_markdown_file("/a.b/c.d.md"));
    assert!(!is_markdown_file("/docs/readme.MD"));
    assert!(!is_markdown_file("/docs/readme.txt"));
    assert!(!is_markdown_file("/docs/readme"));
    assert!(!is_markdown_file("/docs/.md"));
    assert!(!is_markdown_file("/docs.md/readme"));
    assert!(!is_markdown_file("/"));
    assert!(!is_markdown_file(""));
    assert!(!is_markdown_file("/docs/.."));
    assert!(is_markdown_file("/docs/readme.md/"));
}

#[test]
fn extensions_of_names() {
    assert_eq!(extension_of_name("a.md"), Some(String::from("md")));
    assert_eq!(extension_of_name("a.tar.gz"), Some(String::from("gz")));
    assert_eq!(extension_of_name("a."), Some(String::new()));
    assert_eq!(extension_of_name(".hidden"), None);
    assert_eq!(extension_of_name(".hidden.md"), Some(String::from("md")));
    assert_eq!(extension_of_name("plain"), None);
    assert_eq!(extension_of_name(""), None);
    assert_eq!(extension_of_name(".."), None);
    assert_eq!(extension_of_name("..."), Some(String::new()));
    assert_eq!(extension_of_name("é.ü"), Some(String::from("ü")));
    assert!(has_markdown_extension("x.markdown"));
    assert!(!has_markdown_extension("markdown"));
    assert!(!has_markdown_extension("x.mdx"));
}

#[test]
fn file_names_of_paths() {
    assert_eq!(file_name_or("/docs/readme.md", "none"), "readme.md");
    assert_eq!(file_name_or("/docs/dir/", "none"), "dir");
    assert_eq!(file_name_or("readme.md", "none"), "readme.md");
    assert_eq!(file_name_or("/", "none"), "none");
    assert_eq!(file_name_or("/docs/..", "none"), "none");
    assert_eq!(extract_filename("/docs/读我.md"), "读我.md");
    assert_eq!(extract_filename(""), "Unknown");
}

#[test]
fn window_titles() {
    assert_eq!(
        generate_window_title(&TabContent::File(String::from("/docs/readme.md"))),
        "Arto - readme.md"
    );
    assert_eq!(
        generate_window_title(&TabContent::File(String::from("/"))),
        "Arto - Unknown"
    );
    assert_eq!(
        generate_window_title(&TabContent::Inline(String::from("# Hi"))),
        "Arto - Welcome"
    );
    assert_eq!(generate_window_title(&TabContent::Preferences), "Arto - Preferences");
    assert_eq!(
        generate_window_title(&TabContent::FileError(
            String::from("/docs/bin.dat"),
            String::from("binary")
        )),
        "Arto - bin.dat (Error)"
    );
    assert_eq!(generate_window_title(&TabContent::Empty), "Arto");
}

#[test]
fn context_is_split_at_character_indices() {
    assert_eq!(
        split_context("hello world", 6, 11),
        (String::from("hello "), String::from("world"), String::new())
    );
    assert_eq!(
        split_context("héllo wörld", 1, 4),
        (String::from("h"), String::from("éll"), String::from("o wörld"))
    );
    assert_eq!(
        split_context("日本語のテキスト", 2, 3),
        (String::from("日本"), String::from("語"), String::from("のテキスト"))
    );
    assert_eq!(
        split_context("abc", 0, 0),
        (String::new(), String::new(), String::from("abc"))
    );
    assert_eq!(
        split_context("abc", 1, 100),
        (String::from("a"), String::from("bc"), String::new())
    );
    assert_eq!(
        split_context("abc", 50, 100),
        (String::from("abc"), String::new(), String::new())
    );
    assert_eq!(
        split_context("abc", 100, 50),
        (String::from("abc"), String::new(), String::new())
    );
    assert_eq!(
        split_context("", 0, 0),
        (String::new(), String::new(), String::new())
    );
}

#[test]
fn themes_are_read_from_names() {
    assert_eq!(Theme::from("light"), Theme::Light);
    assert_eq!(Theme::from("dark"), Theme::Dark);
    assert_eq!(Theme::from("auto"), Theme::Auto);
    assert_eq!(Theme::from("Light"), Theme::Auto);
    assert_eq!(Theme::from(""), Theme::Auto);
    assert_eq!(Theme::default(), Theme::Auto);
    for theme in [Theme::Auto, Theme::Light, Theme::Dark] {
        assert_eq!(Theme::from(theme.name()), theme);
    }
}

#[test]
fn themes_resolve_against_the_system() {
    assert_eq!(resolve_theme(Theme::Light, Some(SystemMode::Dark)), ResolvedTheme::Light);
    assert_eq!(resolve_theme(Theme::Dark, Some(SystemMode::Light)), ResolvedTheme::Dark);
    assert_eq!(resolve_theme(Theme::Dark, None), ResolvedTheme::Dark);
    assert_eq!(resolve_theme(Theme::Auto, Some(SystemMode::Light)), ResolvedTheme::Light);
    assert_eq!(resolve_theme(Theme::Auto, Some(SystemMode::Dark)), ResolvedTheme::Dark);
    assert_eq!(
        resolve_theme(Theme::Auto, Some(SystemMode::Unspecified)),
        ResolvedTheme::Light
    );
    assert_eq!(resolve_theme(Theme::Auto, None), ResolvedTheme::Light);
}

#[test]
fn configuration_defaults() {
    assert_eq!(StartupBehavior::default(), StartupBehavior::Default);
    assert_eq!(NewWindowBehavior::default(), NewWindowBehavior::Default);
    assert_ne!(StartupBehavior::Default, StartupBehavior::LastClosed);
    assert_ne!(NewWindowBehavior::Default, NewWindowBehavior::LastFocused);
    let directory = DirectoryConfig::default();
    assert_eq!(directory.default_directory, None);
    assert_eq!(directory.on_startup, StartupBehavior::Default);
    assert_eq!(directory.on_new_window, NewWindowBehavior::Default);
    assert_eq!(directory.clone(), directory);
    let theme = ThemeConfig::default();
    assert_eq!(theme.default_theme, Theme::Auto);
    assert_eq!(theme.on_startup, StartupBehavior::Default);
    assert_eq!(theme.on_new_window, NewWindowBehavior::Default);
    assert_ne!(WindowDimensionUnit::Pixels, WindowDimensionUnit::Percent);
    assert_ne!(WindowPositionMode::Coordinates, WindowPositionMode::Mouse);
    assert_eq!(WindowPositionOffset { x: 20, y: 20 }.x, 20);
}

#[test]
fn icon_names() {
    assert_eq!(IconName::Sun.name(), "sun");
    assert_eq!(IconName::SunMoon.name(), "sun-moon");
    assert_eq!(IconName::Close.name(), "x");
    assert_eq!(IconName::Add.name(), "plus");
    assert_eq!(IconName::Sidebar.name(), "layout-sidebar");
    assert_eq!(IconName::Gear.name(), "settings");
    assert_eq!(IconName::BrandGithub.name(), "brand-github");
    assert_eq!(IconName::Bug.sprite_id(), "tabler-bug");
    assert_eq!(IconName::ChevronDown.sprite_id(), "tabler-chevron-down");
}

#[test]
fn byte_offsets_of_characters() {
    assert_eq!(char_index_to_byte_index("hello", 0), 0);
    assert_eq!(char_index_to_byte_index("hello", 3), 3);
    assert_eq!(char_index_to_byte_index("hello", 5), 5);
    assert_eq!(char_index_to_byte_index("hello", 99), 5);
    // One, two, three and four bytes per character.
    let mixed = "aé日😀z";
    assert_eq!(char_index_to_byte_index(mixed, 0), 0);
    assert_eq!(char_index_to_byte_index(mixed, 1), 1);
    assert_eq!(char_index_to_byte_index(mixed, 2), 3);
    assert_eq!(char_index_to_byte_index(mixed, 3), 6);
    assert_eq!(char_index_to_byte_index(mixed, 4), 10);
    assert_eq!(char_index_to_byte_index(mixed, 5), 11);
    assert_eq!(char_index_to_byte_index(mixed, 6), mixed.len());
    assert_eq!(char_index_to_byte_index("", 0), 0);
    for (index, (offset, _)) in mixed.char_indices().enumerate() {
        assert_eq!(char_index_to_byte_index(mixed, index), offset);
    }
}

#[test]
fn scripts_for_the_page() {
    assert_eq!(escape_template("plain"), "plain");
    assert_eq!(escape_template("a\\b`c"), "a\\\\b\\`c");
    assert_eq!(escape_template("\"quoted\""), "\"quoted\"");
    assert_eq!(
        clipboard_script("/docs/my `file`.md"),
        "navigator.clipboard.writeText(`/docs/my \\`file\\`.md`)"
    );
    assert_eq!(
        clipboard_script("C:\\docs"),
        "navigator.clipboard.writeText(`C:\\\\docs`)"
    );
    assert_eq!(navigate_script("next"), "window.Arto.search.navigate('next')");
    assert_eq!(navigate_script("prev"), "window.Arto.search.navigate('prev')");
    assert_eq!(set_pinned_script(&[]), "window.Arto.search.setPinned([]);");
}

#[test]
fn file_name_agrees_with_the_standard_library() {
    let paths = [
        "", "/", "//", "///", "a", "a/", "a//", "/a", "/a/", "/a/b", "a/b", "a/b/", "a//b",
        "a/.", "a/./", "a/./.", "./a", ".", "./", "./.", "..", "../", "a/..", "a/../", "a/../b",
        "/.", "/..", "/./", "a/b/.././", ".hidden", "/x/.hidden", "a.b/c.d", "/a/b/.", "...",
        "a/...", ". ", " ", "a/ /", "a/ ", "é/ü", "/日本/語.md", "a/.b", "a/..b", "a/b..",
        "a/b.", "/docs/readme.md", "/docs/readme.md/", "/docs/readme.md/.", "x/./y/./z/",
        "..a", ".a.", "a\\b", "C:\\docs\\a.md", "/a/b/../c", "../..", ".././..",
    ];
    for path in paths {
        let expected = std::path::Path::new(path)
            .file_name()
            .map(|name| name.to_string_lossy().into_owned());
        assert_eq!(file_name(path), expected, "file name of {path:?}");
        let extension = std::path::Path::new(path)
            .extension()
            .map(|ext| ext.to_string_lossy().into_owned());
        let ours = file_name(path).and_then(|name| extension_of_name(&name));
        assert_eq!(ours, extension, "extension of {path:?}");
    }
}
