use croni::config::{use_legacy_data_folder, AppConfig, Bookmark};

fn youtube_count(c: &AppConfig) -> usize {
    c.bookmarks.iter().filter(|b| b.url.contains("youtube.com")).count()
}

#[test]
fn defaults_are_google_and_light() {
    let c = AppConfig::default();
    assert_eq!(c.home_url, "https://www.google.com");
    assert_eq!(c.search_url, "https://www.google.com/search?q={query}");
    assert_eq!(c.discard_after_minutes, 5);
    assert!(c.ultra_light_mode && c.reduce_motion && c.pause_media_when_unfocused);
    assert!(!c.shortcuts_initialized);
    assert!(c.bookmarks.is_empty() && c.restore_urls.is_empty() && c.downloads.is_empty());
}

#[test]
fn first_run_adds_youtube_shortcut() {
    let c = AppConfig::load(None);
    assert!(c.shortcuts_initialized);
    assert_eq!(c.bookmarks.len(), 1);
    assert_eq!(c.bookmarks[0].title, "YouTube");
    assert_eq!(c.bookmarks[0].url, "https://www.youtube.com");
}

#[test]
fn old_defaults_move_to_google() {
    let mut stored = AppConfig::default();
    stored.home_url = "https://duckduckgo.com".to_string();
    stored.search_url = "https://duckduckgo.com/?q={query}".to_string();
    stored.restore_urls = vec![
        "https://duckduckgo.com/".to_string(),
        "https://example.com".to_string(),
        "https://duckduckgo.com".to_string(),
    ];
    stored.shortcuts_initialized = true;
    let c = AppConfig::load(Some(stored));
    assert_eq!(c.home_url, "https://www.google.com");
    assert_eq!(c.search_url, "https://www.google.com/search?q={query}");
    assert_eq!(c.restore_urls, vec!["https://www.google.com", "https://example.com", "https://www.google.com"]);
    assert!(c.bookmarks.is_empty());
}

#[test]
fn custom_choices_survive_loading() {
    let mut stored = AppConfig::default();
    stored.home_url = "https://duckduckgo.com/?q=x".to_string();
    stored.bookmarks.push(Bookmark { title: "Vídeos".to_string(), url: "https://m.youtube.com/feed".to_string() });
    let c = AppConfig::load(Some(stored));
    assert_eq!(c.home_url, "https://duckduckgo.com/?q=x");
    assert_eq!(youtube_count(&c), 1);
    assert!(c.shortcuts_initialized);
}

#[test]
fn loading_twice_changes_nothing_more() {
    let once = AppConfig::load(None);
    let twice = AppConfig::load(Some(once.clone()));
    assert_eq!(twice.bookmarks, once.bookmarks);
    assert_eq!(twice.home_url, once.home_url);
    assert_eq!(twice.restore_urls, once.restore_urls);
}

#[test]
fn legacy_folder_is_kept_only_for_existing_users() {
    assert!(use_legacy_data_folder(false, true));
    assert!(!use_legacy_data_folder(true, true));
    assert!(!use_legacy_data_folder(false, false));
    assert!(!use_legacy_data_folder(true, false));
}
