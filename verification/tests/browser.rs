use croni::blocker::BlockerManager;
use croni::browser::{Browser, Effect, UserEvent};
use croni::config::AppConfig;
use croni::ui::ChromeCommand;

fn config_with(urls: &[&str]) -> AppConfig {
    let mut c = AppConfig::load(None);
    c.restore_urls = urls.iter().map(|u| u.to_string()).collect();
    c
}

fn browser(urls: &[&str]) -> Browser {
    Browser::new(config_with(urls), None, false, 1_000)
}

fn urls(b: &Browser) -> Vec<String> {
    b.tabs().iter().map(|t| t.url.clone()).collect()
}

fn ids(b: &Browser) -> Vec<u64> {
    b.tabs().iter().map(|t| t.id).collect()
}

#[test]
fn starts_with_the_home_page() {
    let b = browser(&[]);
    assert_eq!(urls(&b), vec!["https://www.google.com"]);
    assert_eq!(b.tabs()[0].title, "www.google.com");
    assert_eq!(ids(&b), vec![1]);
    assert_eq!(b.active(), 0);
    assert!(!b.tabs()[0].has_view);
}

#[test]
fn restores_the_session_or_opens_an_allowed_url() {
    let b = browser(&["https://a.com/", "https://b.org/x"]);
    assert_eq!(urls(&b), vec!["https://a.com/", "https://b.org/x"]);
    assert_eq!(ids(&b), vec![1, 2]);
    let b = Browser::new(config_with(&["https://a.com/"]), Some("https://example.com/".to_string()), true, 0);
    assert_eq!(urls(&b), vec!["https://example.com/"]);
    let b = Browser::new(config_with(&["https://a.com/"]), Some("file:///C:/x".to_string()), true, 0);
    assert_eq!(urls(&b), vec!["https://a.com/"]);
}

#[test]
fn new_tab_is_activated_and_saved() {
    let mut b = browser(&[]);
    let effects = b.add_tab("example.com", true, 2_000);
    assert_eq!(
        effects,
        vec![
            Effect::EnsureView(2),
            Effect::ShowView(2),
            Effect::RenderChrome,
            Effect::SaveConfig,
            Effect::RenderChrome
        ]
    );
    assert_eq!(urls(&b), vec!["https://www.google.com", "https://example.com"]);
    assert_eq!(b.active(), 1);
    assert_eq!(b.config().restore_urls, urls(&b));
    assert_eq!(b.tabs()[1].title, "example.com");
}

#[test]
fn ultra_light_switch_drops_the_view_left_behind() {
    let mut b = browser(&["https://a.com/", "https://b.com/"]);
    b.view_created(1);
    assert!(b.tabs()[0].has_view && b.tabs()[0].loading);
    let effects = b.switch_to(1, 5_000);
    assert_eq!(
        effects,
        vec![
            Effect::PauseMedia(1),
            Effect::HideView(1),
            Effect::DropView(1),
            Effect::EnsureView(2),
            Effect::ShowView(2),
            Effect::RenderChrome
        ]
    );
    assert!(!b.tabs()[0].has_view);
    assert_eq!(b.tabs()[0].url, "https://a.com/");
    assert_eq!(b.tabs()[0].last_active, 5_000);
    assert!(b.switch_to(7, 6_000).is_empty());
    assert_eq!(b.active(), 1);
}

#[test]
fn closing_tabs_keeps_one_open() {
    let mut b = browser(&["https://a.com/", "https://b.com/"]);
    let effects = b.close_tab_by_id(1, 10);
    assert_eq!(
        effects,
        vec![
            Effect::EnsureView(2),
            Effect::ShowView(2),
            Effect::RenderChrome,
            Effect::SaveConfig,
            Effect::RenderChrome
        ]
    );
    assert_eq!(ids(&b), vec![2]);
    assert!(b.close_tab_by_id(99, 10).is_empty());
    b.close_tab_by_id(2, 20);
    assert_eq!(urls(&b), vec!["https://www.google.com"]);
    assert_eq!(ids(&b), vec![3]);
}

#[test]
fn closing_the_active_last_tab_activates_the_one_before() {
    let mut b = browser(&["https://a.com/", "https://b.com/", "https://c.com/"]);
    b.switch_to(2, 5);
    b.view_created(3);
    assert_eq!(b.close_tab_by_id(1, 10), vec![Effect::SaveConfig, Effect::RenderChrome]);
    assert_eq!(ids(&b), vec![2, 3]);
    assert_eq!(b.active(), 1);
    assert_eq!(
        b.close_tab_by_id(3, 20),
        vec![
            Effect::DropView(3),
            Effect::EnsureView(2),
            Effect::ShowView(2),
            Effect::RenderChrome,
            Effect::SaveConfig,
            Effect::RenderChrome
        ]
    );
    assert_eq!(ids(&b), vec![2]);
    assert_eq!(b.active(), 0);
    assert_eq!(b.tabs()[0].last_active, 20);
}

#[test]
fn bookmark_toggle_twice_restores() {
    let mut b = browser(&["https://rust-lang.org/"]);
    let before = b.config().bookmarks.clone();
    let effects = b.toggle_bookmark();
    assert_eq!(effects, vec![Effect::SaveConfig, Effect::RenderChrome]);
    assert_eq!(b.config().bookmarks.len(), before.len() + 1);
    assert_eq!(b.config().bookmarks.last().unwrap().url, "https://rust-lang.org/");
    b.toggle_bookmark();
    assert_eq!(b.config().bookmarks, before);
}

#[test]
fn shortcut_is_added_once_and_removed_by_url() {
    let mut b = browser(&["https://a.com/"]);
    b.add_active_bookmark();
    b.add_active_bookmark();
    let n = b.config().bookmarks.iter().filter(|x| x.url == "https://a.com/").count();
    assert_eq!(n, 1);
    b.remove_bookmark("https://a.com/");
    assert!(b.config().bookmarks.iter().all(|x| x.url != "https://a.com/"));
}

#[test]
fn discard_delay_is_clamped() {
    let mut b = browser(&[]);
    b.set_discard(0);
    assert_eq!(b.config().discard_after_minutes, 1);
    b.set_discard(500);
    assert_eq!(b.config().discard_after_minutes, 120);
    b.set_discard(30);
    assert_eq!(b.config().discard_after_minutes, 30);
}

#[test]
fn hidden_tabs_lose_their_views_after_the_delay() {
    let mut b = browser(&["https://a.com/", "https://b.com/"]);
    b.toggle_ultra_light(0);
    assert!(!b.config().ultra_light_mode);
    b.set_discard(1);
    b.view_created(1);
    b.switch_to(1, 1_000);
    b.view_created(2);
    assert!(b.tabs()[0].has_view);
    assert_eq!(b.next_discard_deadline(), Some(61_000));
    assert!(b.discard_expired_tabs(false, 60_999).is_empty());
    assert_eq!(b.discard_expired_tabs(false, 61_000), vec![Effect::DropView(1), Effect::RenderChrome]);
    assert!(!b.tabs()[0].has_view && b.tabs()[1].has_view);
    assert_eq!(b.next_discard_deadline(), None);
}

#[test]
fn memory_warning_drops_every_hidden_view() {
    let mut b = browser(&["https://a.com/", "https://b.com/", "https://c.com/"]);
    b.toggle_ultra_light(0);
    for (index, id) in [(0usize, 1u64), (1, 2), (2, 3)] {
        b.switch_to(index, 0);
        b.view_created(id);
    }
    let effects = b.discard_expired_tabs(true, 0);
    assert_eq!(effects, vec![Effect::DropView(1), Effect::DropView(2), Effect::RenderChrome]);
    assert!(b.tabs()[2].has_view);
}

#[test]
fn switching_ultra_light_on_discards_at_once() {
    let mut b = browser(&["https://a.com/", "https://b.com/"]);
    b.toggle_ultra_light(0);
    b.view_created(1);
    b.switch_to(1, 0);
    b.view_created(2);
    let effects = b.toggle_ultra_light(0);
    assert_eq!(
        effects,
        vec![Effect::DropView(1), Effect::RenderChrome, Effect::SaveConfig, Effect::RenderChrome]
    );
    assert!(b.config().ultra_light_mode);
}

#[test]
fn navigation_loads_in_the_existing_view() {
    let mut b = browser(&["https://a.com/"]);
    assert_eq!(
        b.navigate_active("memoria"),
        vec![Effect::EnsureView(1), Effect::SaveConfig, Effect::RenderChrome]
    );
    assert_eq!(b.tabs()[0].url, "https://www.google.com/search?q=memoria");
    b.view_created(1);
    let effects = b.navigate_active("example.com");
    assert_eq!(effects.len(), 4);
    assert_eq!(effects[0], Effect::PauseMedia(1));
    assert_eq!(effects[1], Effect::LoadUrl(1, "https://example.com".to_string()));
}

#[test]
fn reload_leaves_fullscreen_and_waits_for_the_load() {
    let mut b = browser(&["https://a.com/"]);
    b.view_created(1);
    assert_eq!(
        b.set_content_fullscreen(1, true),
        vec![Effect::SetWindowFullscreen(true), Effect::ResizeViews]
    );
    assert!(b.set_content_fullscreen(5, false).is_empty());
    assert_eq!(
        b.reload_active(),
        vec![
            Effect::ExitDocumentFullscreen(1),
            Effect::SetWindowFullscreen(false),
            Effect::ResizeViews,
            Effect::ReloadView(1)
        ]
    );
    let effects = b.page_load_event(1, "https://a.com/".to_string(), false, Some("s".to_string()));
    assert_eq!(
        effects,
        vec![
            Effect::SaveConfig,
            Effect::RenderChrome,
            Effect::RunScript(1, "s".to_string()),
            Effect::RefreshSurface(1)
        ]
    );
    let again = b.page_load_event(1, "https://a.com/".to_string(), false, None);
    assert_eq!(again, vec![Effect::SaveConfig, Effect::RenderChrome]);
}

#[test]
fn page_events_update_their_tab() {
    let mut b = browser(&["https://a.com/"]);
    assert_eq!(b.location_changed(1, "https://a.com/#x".to_string()), vec![Effect::SaveConfig, Effect::RenderChrome]);
    assert!(b.location_changed(1, "https://a.com/#x".to_string()).is_empty());
    assert!(b.location_changed(9, "https://z.com/".to_string()).is_empty());
    assert_eq!(b.title_changed(1, "  ".to_string()), vec![Effect::RenderChrome]);
    assert_eq!(b.tabs()[0].title, "a.com");
    b.title_changed(1, "Página A".to_string());
    assert_eq!(b.tabs()[0].title, "Página A");
    assert_eq!(b.tab_url(1), Some("https://a.com/#x".to_string()));
    assert_eq!(b.tab_url(2), None);
}

#[test]
fn download_list_keeps_the_last_thirty() {
    let mut b = browser(&[]);
    for id in 1..=31u64 {
        b.download_started(id, format!("f{id}"), String::new(), format!("C:\\f{id}"), 0, None);
    }
    assert_eq!(b.downloads().len(), 30);
    assert_eq!(b.downloads()[0].id, 2);
    assert_eq!(b.config().downloads.len(), 30);
    assert_eq!(
        b.download_progress(31, 10, Some(20), "downloading".to_string()),
        vec![Effect::RenderChrome]
    );
    assert_eq!(
        b.download_progress(31, 20, Some(20), "completed".to_string()),
        vec![Effect::SaveConfig, Effect::RenderChrome]
    );
    assert_eq!(b.config().downloads[29].status, "completed");
    assert!(b.download_progress(1, 0, None, "completed".to_string()).is_empty());
    assert_eq!(
        b.open_download(31, true),
        vec![Effect::OpenDownload("C:\\f31".to_string(), true)]
    );
    b.download_started(40, "x".to_string(), String::new(), String::new(), 0, None);
    assert_eq!(b.download_cancelling(40), vec![Effect::RenderChrome]);
    assert_eq!(b.downloads()[29].status, "cancelling");
    assert!(b.open_download(40, false).is_empty());
    b.clear_downloads();
    assert_eq!(b.downloads().len(), 29);
    assert!(b.downloads().iter().all(|d| d.id != 31));
    assert_eq!(b.downloads()[28].id, 40);
}

#[test]
fn losing_focus_pauses_and_lowers_memory() {
    let mut b = browser(&["https://a.com/", "https://b.com/"]);
    b.toggle_ultra_light(0);
    b.view_created(1);
    b.switch_to(1, 0);
    b.view_created(2);
    assert_eq!(b.focus_changed(false), vec![Effect::CheckFocusLoss(750)]);
    assert!(b.window_is_focused());
    assert!(b.focus_loss_checked(true).is_empty());
    assert!(b.window_is_focused());
    let effects = b.focus_loss_checked(false);
    assert!(!b.window_is_focused());
    assert_eq!(
        effects,
        vec![
            Effect::SetMemoryLevel(1, false),
            Effect::PauseMedia(1),
            Effect::SetMemoryLevel(2, false),
            Effect::PauseMedia(2)
        ]
    );
    assert_eq!(
        b.focus_changed(true),
        vec![Effect::SetMemoryLevel(1, false), Effect::SetMemoryLevel(2, true)]
    );
    assert!(b.window_is_focused());
}

#[test]
fn interface_commands_reach_the_browser() {
    let mut b = browser(&["https://a.com/"]);
    let mut blocker = BlockerManager::new(&Vec::new(), None, false);
    let effects = b.handle_event(
        UserEvent::ChromeCommand("{\"type\":\"new_tab\"}".to_string()),
        &mut blocker,
        false,
        0,
    );
    assert_eq!(effects.last(), Some(&Effect::RenderChrome));
    assert_eq!(ids(&b), vec![1, 2]);
    let effects = b.handle_command(ChromeCommand::SelectTab(1), &mut blocker, false, 0);
    assert_eq!(effects.last(), Some(&Effect::RenderChrome));
    assert_eq!(b.active(), 0);
    assert!(b
        .handle_event(UserEvent::ChromeCommand("basura".to_string()), &mut blocker, false, 0)
        .is_empty());
    assert_eq!(
        b.handle_command(ChromeCommand::WindowToggleMaximize, &mut blocker, false, 0),
        vec![Effect::ToggleMaximizeWindow, Effect::RenderChrome]
    );
    assert_eq!(
        b.handle_command(ChromeCommand::CheckUpdate, &mut blocker, false, 0),
        Vec::<Effect>::new()
    );
    assert_eq!(
        b.handle_command(ChromeCommand::WindowClose, &mut blocker, false, 0),
        vec![Effect::SaveConfig, Effect::Exit]
    );
}

#[test]
fn adblock_switch_is_saved_and_reloads() {
    let mut b = browser(&["https://www.example.com/"]);
    let mut blocker = BlockerManager::new(&Vec::new(), None, false);
    b.view_created(1);
    let effects = b.toggle_adblock(&mut blocker);
    assert_eq!(effects, vec![Effect::SaveConfig, Effect::ReloadView(1), Effect::RenderChrome]);
    assert_eq!(b.config().adblock_disabled_hosts, vec!["www.example.com"]);
    assert!(!blocker.is_enabled_for_url("https://www.example.com/x"));
    b.toggle_adblock(&mut blocker);
    assert!(b.config().adblock_disabled_hosts.is_empty());
    assert!(blocker.is_enabled_for_url("https://www.example.com/x"));
}

#[test]
fn update_flow_reaches_installation() {
    let mut b = Browser::new(config_with(&[]), None, true, 0);
    let mut blocker = BlockerManager::new(&Vec::new(), None, false);
    assert!(b.check_update(true).is_empty());
    b.update_current();
    assert_eq!(b.check_update(true), vec![Effect::RenderChrome, Effect::StartUpdateCheck]);
    assert!(b.install_update().is_empty());
    b.handle_event(
        UserEvent::UpdateReady {
            version: "0.6.0".to_string(),
            path: "C:\\u.exe".to_string(),
            sha256: "ab".to_string(),
        },
        &mut blocker,
        true,
        0,
    );
    let state = b.chrome_state(&blocker, false, "0.5.6", true);
    assert!(state.update_ready);
    assert_eq!(state.update_version, Some("0.6.0".to_string()));
    assert_eq!(
        b.install_update(),
        vec![Effect::RenderChrome, Effect::InstallUpdate("C:\\u.exe".to_string(), "ab".to_string())]
    );
    assert_eq!(b.install_finished(false), vec![Effect::RenderChrome]);
    assert_eq!(b.chrome_state(&blocker, false, "0.5.6", true).update_status, "failed");
    b.update_failed();
    assert!(!b.chrome_state(&blocker, false, "0.5.6", true).update_ready);
}

#[test]
fn chrome_state_describes_the_active_page() {
    let mut b = browser(&["https://a.com/", "https://b.com/"]);
    let blocker = BlockerManager::new(&vec!["b.com".to_string()], None, false);
    b.switch_to(1, 0);
    b.toggle_bookmark();
    let s = b.chrome_state(&blocker, true, "0.5.6", false);
    assert_eq!(s.tabs.len(), 2);
    assert!(s.tabs[0].suspended);
    assert_eq!(s.active_id, 2);
    assert_eq!(s.address, "https://b.com/");
    assert!(s.bookmarked);
    assert!(!s.adblock_enabled);
    assert_eq!(s.adblock_status, "starter");
    assert!(s.maximized);
    assert_eq!(s.app_version, "0.5.6");
}

#[test]
fn video_compatibility_is_saved_and_applies_from_the_next_start() {
    let mut b = browser(&[]);
    let mut blocker = BlockerManager::new(&Vec::new(), None, false);
    assert_eq!(b.webview_arguments(), None);
    let effects = b.handle_event(
        UserEvent::ChromeCommand(r#"{"type":"toggle_video_compatibility"}"#.to_string()),
        &mut blocker,
        false,
        5,
    );
    assert_eq!(effects, vec![Effect::SaveConfig, Effect::RenderChrome]);
    assert!(b.config().video_compatibility_mode);
    assert_eq!(b.webview_arguments(), None);
    let next = Browser::new(b.config().clone(), None, false, 10);
    assert_eq!(next.webview_arguments(), Some("--disable-gpu"));
}

#[test]
fn popups_become_tabs() {
    let (allowed, event) = croni::browser::new_window_request("https://example.com/popup".to_string());
    assert!(!allowed);
    let mut b = browser(&[]);
    let mut blocker = BlockerManager::new(&Vec::new(), None, false);
    b.handle_event(event, &mut blocker, false, 3);
    assert_eq!(urls(&b), vec!["https://www.google.com", "https://example.com/popup"]);
    assert_eq!(b.active(), 1);
}
