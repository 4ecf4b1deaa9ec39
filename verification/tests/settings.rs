use line_gtk::settings::{
    clamp_sidebar_width, download_kind, normalize_cache_retention, normalize_language, normalize_muted_until,
    normalize_pinned, normalize_theme, resolve_download_dir, settings_path, system_downloads_dir, DownloadDirs,
    DownloadKind,
};

#[test]
fn normalizes_choices() {
    assert_eq!(normalize_theme("purple"), "system");
    assert_eq!(normalize_theme("dark"), "dark");
    assert_eq!(normalize_language("xx"), "en");
    assert_eq!(normalize_language("th"), "th");
    assert_eq!(normalize_cache_retention("century"), "smart");
    assert_eq!(normalize_cache_retention("week"), "week");
    assert_eq!(clamp_sidebar_width(9_999), 520);
    assert_eq!(clamp_sidebar_width(10), 80);
    assert_eq!(clamp_sidebar_width(300), 300);
    assert_eq!(normalize_muted_until(-1), 0);
    assert_eq!(normalize_muted_until(77), 77);
}

#[test]
fn normalizing_twice_changes_nothing() {
    for t in ["system", "dark", "light", "neon", ""] {
        let once = normalize_theme(t);
        assert_eq!(normalize_theme(&once), once);
    }
    let pins = vec!["c".to_string(), " ".to_string(), "a".to_string(), "c".to_string(), String::new(), "b".to_string()];
    let once = normalize_pinned(&pins);
    assert_eq!(once, vec!["a".to_string(), "b".to_string(), "c".to_string()]);
    assert_eq!(normalize_pinned(&once), once);
}

#[test]
fn sorts_pinned_chats_by_string_order() {
    let pins = vec!["u9".to_string(), "U1".to_string(), "u10".to_string()];
    assert_eq!(normalize_pinned(&pins), vec!["U1".to_string(), "u10".to_string(), "u9".to_string()]);
}

#[test]
fn picks_download_folders_by_type() {
    assert_eq!(download_kind("sticker"), DownloadKind::Image);
    assert_eq!(download_kind("Video"), DownloadKind::Video);
    assert_eq!(download_kind("AUDIO"), DownloadKind::Audio);
    assert_eq!(download_kind("pdf"), DownloadKind::File);
    let mut dirs = DownloadDirs {
        image: "/pics".to_string(),
        video: String::new(),
        audio: String::new(),
        file: String::new(),
    };
    assert_eq!(dirs.configured_for("IMAGE"), "/pics");
    dirs.set_download_dir_for("video", "/films".to_string());
    assert_eq!(dirs.video, "/films");
    assert_eq!(dirs.image, "/pics");
}

#[test]
fn resolves_download_folders() {
    assert_eq!(resolve_download_dir("  ", Some("/home/me"), "/home/me/Downloads"), "/home/me/Downloads");
    assert_eq!(resolve_download_dir("/data/x ", Some("/home/me"), "/d"), "/data/x");
    assert_eq!(resolve_download_dir("~/Pictures", Some("/home/me"), "/d"), "/home/me/Pictures");
    assert_eq!(resolve_download_dir("~/~/Pictures", Some("/home/me"), "/d"), "/home/me/Pictures");
    assert_eq!(resolve_download_dir("Media", None, "/d"), "Media");
    assert_eq!(system_downloads_dir(Some("/x/Dl"), Some("/home/me")), "/x/Dl");
    assert_eq!(system_downloads_dir(None, Some("/home/me")), "/home/me/Downloads");
    assert_eq!(system_downloads_dir(None, None), ".");
    assert_eq!(settings_path("/data"), "/data/settings.json");
}
