use croni::adblock_engine::NetworkRequest;
use croni::blocker::{is_blocked_url, is_navigation_allowed, is_view_navigation_allowed, starter_engine};

#[test]
fn blocks_domain_and_subdomain_but_not_lookalike() {
    assert!(is_blocked_url("https://ads.doubleclick.net/pixel"));
    assert!(is_blocked_url("https://doubleclick.net"));
    assert!(!is_blocked_url("https://notdoubleclick.net"));
    assert!(!is_blocked_url("https://mail.google.com"));
}

#[test]
fn starter_engine_blocks_ads_but_not_normal_pages() {
    let engine = starter_engine();
    let ad = NetworkRequest::new(
        "https://ads.doubleclick.net/pixel",
        "https://example.com",
        "image",
        "get",
    )
    .unwrap();
    let page = NetworkRequest::new(
        "https://www.youtube.com/watch?v=test",
        "https://www.youtube.com",
        "document",
        "get",
    )
    .unwrap();
    assert!(engine.check_network_request(&ad));
    assert!(!engine.check_network_request(&page));
}

#[test]
fn permits_only_web_navigation_and_blank_pages() {
    assert!(is_navigation_allowed("https://example.com"));
    assert!(is_navigation_allowed("http://localhost:3000"));
    assert!(is_navigation_allowed("about:blank"));
    assert!(!is_navigation_allowed("file:///C:/Users/test/secreto.txt"));
    assert!(!is_navigation_allowed("javascript:alert(1)"));
    assert!(!is_navigation_allowed("data:text/html,malicioso"));
}

use croni::blocker::{
    cosmetic_script_for_selectors, filter_sources, is_webview_navigation_allowed, resource_type,
    starter_rules, BlockerManager, FilterSetBuilder, ResourceContext,
};

#[test]
fn blocked_hosts_ignore_case_and_trailing_dots() {
    assert!(is_blocked_url("https://ADS.DoubleClick.NET./pixel"));
    assert!(is_blocked_url("https://a.b.criteo.com/x"));
    assert!(!is_blocked_url("https://criteo.com.example.org/"));
    assert!(!is_blocked_url("not a url"));
}

#[test]
fn webview_also_accepts_blob_and_data_documents() {
    assert!(is_webview_navigation_allowed("blob:https://example.com/1234"));
    assert!(is_webview_navigation_allowed("data:text/plain,hola"));
    assert!(is_webview_navigation_allowed("https://example.com"));
    assert!(!is_webview_navigation_allowed("file:///C:/secreto.txt"));
    assert!(!is_navigation_allowed("blob:https://example.com/1234"));
    assert!(!is_navigation_allowed("about:config"));
}

#[test]
fn starter_rules_block_every_listed_host() {
    let rules = starter_rules();
    assert!(rules.starts_with("[Adblock Plus 2.0]\n! CRONI starter rules\n||doubleclick.net^\n"));
    assert!(rules.contains("||yieldmo.com^\n"));
    assert!(rules.ends_with("##iframe[src*=\"doubleclick.net\"]\n"));
    assert_eq!(filter_sources().len(), 5);
}

#[test]
fn resource_types_use_adblock_names() {
    assert_eq!(resource_type(ResourceContext::XmlHttpRequest), "xmlhttprequest");
    assert_eq!(resource_type(ResourceContext::Document), "document");
    assert_eq!(resource_type(ResourceContext::Other), "other");
}

#[test]
fn site_switch_toggles_and_restores() {
    let mut manager = BlockerManager::new(&vec!["Example.COM.".to_string(), "".to_string()], None, false);
    assert!(!manager.is_enabled_for_url("https://example.com/page"));
    assert!(manager.is_enabled_for_url("https://other.org/"));
    assert!(manager.is_enabled_for_url("about:blank"));
    assert_eq!(manager.toggle_for_url("https://example.com/x"), Some(("example.com".to_string(), true)));
    assert!(manager.is_enabled_for_url("https://example.com/page"));
    assert_eq!(manager.toggle_for_url("https://EXAMPLE.com/"), Some(("example.com".to_string(), false)));
    assert!(!manager.is_enabled_for_url("https://example.com/page"));
    assert_eq!(manager.toggle_for_url("sin url"), None);
}

#[test]
fn blocker_starts_with_starter_list_and_counts_blocks() {
    let mut manager = BlockerManager::new(&Vec::new(), Some(vec![1, 2, 3]), false);
    assert_eq!(manager.status(), "starter");
    assert_eq!(manager.blocked_count(), 0);
    assert!(manager.check_request(
        "https://example.com",
        "https://ads.doubleclick.net/pixel",
        ResourceContext::Image,
        "GET"
    ));
    assert!(!manager.check_request(
        "https://example.com",
        "https://example.com/logo.png",
        ResourceContext::Image,
        "GET"
    ));
    assert_eq!(manager.blocked_count(), 1);
}

#[test]
fn disabled_site_lets_requests_through() {
    let mut manager = BlockerManager::new(&vec!["example.com".to_string()], None, false);
    assert!(!manager.check_request(
        "https://example.com",
        "https://ads.doubleclick.net/pixel",
        ResourceContext::Image,
        "GET"
    ));
    assert_eq!(manager.blocked_count(), 0);
    assert_eq!(manager.cosmetic_script("https://example.com/"), None);
}

#[test]
fn filter_update_runs_once_and_reports() {
    let mut manager = BlockerManager::new(&Vec::new(), None, false);
    assert!(manager.start_filter_update(false));
    assert_eq!(manager.status(), "updating");
    assert!(!manager.start_filter_update(false));
    manager.finish_filter_update(None);
    assert_eq!(manager.status(), "failed");
    let mut fresh = BlockerManager::new(&Vec::new(), None, true);
    assert_eq!(fresh.status(), "ready");
    assert!(!fresh.start_filter_update(true));
}

#[test]
fn cosmetic_script_hides_sorted_selectors() {
    let script = cosmetic_script_for_selectors(vec![".b".to_string(), "#a".to_string()]).unwrap();
    assert!(script.contains("style.textContent = \"#a,.b{display:none!important}\";"));
    assert!(script.starts_with("(() => {"));
    assert_eq!(cosmetic_script_for_selectors(Vec::new()), None);
}

#[test]
fn filter_lists_must_be_utf8() {
    let mut builder = FilterSetBuilder::new();
    assert!(builder.add_downloaded(vec![0xff, 0xfe]).is_err());
    assert!(builder.add_downloaded(b"||tracker.example^\n".to_vec()).is_ok());
    let _engine = builder.finish();
}

#[test]
fn saved_engine_loads_again() {
    let manager = BlockerManager::new(&Vec::new(), None, false);
    let bytes = manager.serialized_engine();
    let mut engine = adblock::Engine::default();
    assert!(engine.deserialize(&bytes).is_ok());
    let reloaded = BlockerManager::new(&Vec::new(), Some(bytes), true);
    assert_eq!(reloaded.status(), "ready");
}

#[test]
fn downloaded_lists_decide_requests_and_hidden_elements() {
    let mut builder = FilterSetBuilder::new();
    assert!(builder.add_downloaded(b"||tracker.example^\nexample.com##.banner\n".to_vec()).is_ok());
    let mut manager = BlockerManager::new(&Vec::new(), None, false);
    assert!(!manager.check_request("https://example.com", "https://tracker.example/t.js", ResourceContext::Script, "GET"));
    manager.finish_filter_update(Some(builder.finish()));
    assert_eq!(manager.status(), "ready");
    assert!(manager.check_request("https://example.com", "https://tracker.example/t.js", ResourceContext::Script, "GET"));
    let script = manager.cosmetic_script("https://example.com/").unwrap();
    assert!(script.contains(".banner"));
    assert!(script.contains("{display:none!important}"));
    let mut reloaded = BlockerManager::new(&Vec::new(), Some(manager.serialized_engine()), true);
    assert!(reloaded.check_request("https://example.com", "https://tracker.example/t.js", ResourceContext::Script, "GET"));
}

#[test]
fn page_views_skip_listed_hosts_and_other_schemes() {
    assert!(is_view_navigation_allowed("https://example.com/a"));
    assert!(!is_view_navigation_allowed("https://ads.doubleclick.net/pixel"));
    assert!(!is_view_navigation_allowed("file:///C:/secreto.txt"));
}
