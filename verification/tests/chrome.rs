use croni::chrome::{
    action_message, available_width, contains, content_area, discard_label, downloads_menu,
    filter_status_label, fitting_shortcuts, has_running_download, hit_at, is_drag_area,
    menu_text, nav_row, navigate_message, point_from_lparam, progress_label, rect, rgb,
    settings_menu, shield_label, shortcut_row, shortcut_width, tab_label, tab_row,
    tab_strip_layout, take_right, Action, HitRegion, MenuEntry, Metrics, ToolbarState,
};
use croni::config::Bookmark;
use croni::downloads::DownloadItem;
use croni::ui::{ChromeState, TabState};

fn metrics() -> Metrics {
    Metrics {
        p2: 2,
        p4: 4,
        p5: 5,
        p7: 7,
        p8: 8,
        p9: 9,
        p10: 10,
        p12: 12,
        p24: 24,
        p27: 27,
        p34: 34,
        p39: 39,
        p45: 45,
        p46: 46,
        p58: 58,
        p90: 90,
        p92: 92,
        p100: 100,
        p108: 108,
        p122: 122,
        p130: 130,
        p144: 144,
        p210: 210,
    }
}

fn state() -> ChromeState {
    ChromeState {
        tabs: vec![TabState { id: 1, title: "Inicio".to_string(), suspended: false }],
        active_id: 1,
        address: "https://example.com".to_string(),
        bookmarked: false,
        bookmarks: Vec::new(),
        downloads: Vec::new(),
        discard_after_minutes: 5,
        maximized: false,
        loading: false,
        blocked_count: 0,
        adblock_enabled: true,
        adblock_status: "ready".to_string(),
        ultra_light_mode: false,
        reduce_motion: true,
        pause_media_when_unfocused: false,
        video_compatibility_mode: false,
        app_version: "0.5.6".to_string(),
        update_configured: true,
        update_status: "checking".to_string(),
        update_version: None,
        update_ready: false,
    }
}

fn download(id: u64, status: &str, received: u64, total: Option<u64>) -> DownloadItem {
    DownloadItem {
        id,
        name: format!("f{id}.bin"),
        url: String::new(),
        path: format!("C:\\f{id}.bin"),
        received,
        total,
        status: status.to_string(),
    }
}

fn label(e: &MenuEntry) -> String {
    match e {
        MenuEntry::Item(i) => i.label.clone(),
        MenuEntry::Separator => "-".to_string(),
        MenuEntry::Submenu(l, _) => format!("[{l}]"),
    }
}

#[test]
fn rectangles_include_left_top_only() {
    let r = rect(10, 20, 30, 40);
    assert!(contains(&r, 10, 20));
    assert!(contains(&r, 29, 39));
    assert!(!contains(&r, 30, 20));
    assert!(!contains(&r, 10, 40));
}

#[test]
fn boxes_are_taken_from_the_right() {
    let mut right = 100;
    let a = take_right(&mut right, 34, 5, 57, 34);
    assert_eq!((a.left, a.top, a.right, a.bottom), (66, 57, 100, 91));
    assert_eq!(right, 61);
}

#[test]
fn mouse_coordinates_are_signed_words() {
    assert_eq!(point_from_lparam(0x0001_FFFF), (-1, 1));
    assert_eq!(point_from_lparam(0x7FFF_0010), (16, 32767));
    assert_eq!(point_from_lparam(0x1_0000_0005), (5, 0));
}

#[test]
fn colors_pack_red_green_blue() {
    assert_eq!(rgb(1, 2, 3), 0x030201);
    assert_eq!(rgb(255, 255, 255), 0xFFFFFF);
}

#[test]
fn tab_strip_centres_the_active_tab() {
    let l = tab_strip_layout(460, 92, 210, 10, 7);
    assert_eq!((l.start, l.end, l.tab_width), (5, 10, 92));
    let l = tab_strip_layout(1000, 92, 210, 2, 0);
    assert_eq!((l.start, l.end, l.tab_width), (0, 2, 210));
    let l = tab_strip_layout(50, 0, 210, 3, 2);
    assert_eq!((l.start, l.end, l.tab_width), (0, 3, 16));
    assert_eq!(available_width(1120, 46, 8, 34, 8, 90), 932);
    assert_eq!(available_width(200, 46, 8, 34, 8, 90), 90);
}

#[test]
fn top_row_has_window_buttons_tabs_and_plus() {
    let tabs = vec![
        TabState { id: 4, title: "a".to_string(), suspended: false },
        TabState { id: 9, title: "b".to_string(), suspended: true },
    ];
    let row = tab_row(&metrics(), 1120, &tabs, 9);
    assert_eq!(row.regions.len(), 4 + 4 + 1);
    assert_eq!(row.tabs.len(), 2);
    assert!(row.tabs[1].active && !row.tabs[0].active);
    assert_eq!((row.tabs[0].bounds.left, row.tabs[0].bounds.right), (8, 214));
    assert_eq!((row.tabs[1].bounds.left, row.tabs[1].close.left), (218, 397));
    assert_eq!((row.plus.left, row.plus.right), (428, 462));
    assert!(matches!(hit_at(&row.regions, 500, 10), Some(Action::Command("window_drag"))));
    assert!(matches!(hit_at(&row.regions, 1119, 10), Some(Action::Command("window_close"))));
    assert!(matches!(hit_at(&row.regions, 400, 20), Some(Action::CloseTab(9))));
    assert!(matches!(hit_at(&row.regions, 250, 20), Some(Action::SelectTab(9))));
    assert!(is_drag_area(&row.regions, 600, 2));
    assert!(!is_drag_area(&row.regions, 20, 20));
    assert!(hit_at(&row.regions, 500, 50).is_none());
}

#[test]
fn toolbar_buttons_and_address_box() {
    let s = ToolbarState {
        loading: true,
        spinner_phase: true,
        bookmarked: true,
        downloads_running: false,
        update_ready: true,
        blocked_count: 12,
        adblock_enabled: true,
    };
    let row = nav_row(&metrics(), 1000, &s);
    let labels: Vec<&str> = row.buttons.iter().map(|b| b.label.as_str()).collect();
    assert_eq!(labels, vec!["←", "→", "⟳", "⌂", "☰", "⇩", "★", "⇧", "◇ 12"]);
    assert_eq!((row.buttons[4].rect.left, row.buttons[4].rect.right), (956, 990));
    assert_eq!((row.address.left, row.address.right), (171, 766));
    assert_eq!(row.edit, (171, 62, 595, 29));
}

#[test]
fn shortcuts_stop_before_the_reserved_space() {
    let bookmarks = vec![
        Bookmark { title: "a".to_string(), url: "https://a".to_string() },
        Bookmark { title: "b".to_string(), url: "https://b".to_string() },
        Bookmark { title: "c".to_string(), url: "https://c".to_string() },
    ];
    let widths = vec![100, 100, 100];
    let row = shortcut_row(&metrics(), 400, &bookmarks, &widths);
    assert_eq!(row.shortcuts.len(), 2);
    assert_eq!((row.add.left, row.add.right), (218, 340));
    assert!(matches!(hit_at(&row.regions, 20, 120), Some(Action::OpenBookmark(u)) if u == "https://a"));
    assert!(matches!(hit_at(&row.regions, 205, 120), Some(Action::RemoveBookmark(u)) if u == "https://b"));
    assert_eq!(fitting_shortcuts(&widths, 10, 4, 130, 400), (2, 218));
}

#[test]
fn shortcut_widths_follow_title_length() {
    assert_eq!(shortcut_width(0), 88);
    assert_eq!(shortcut_width(10), 112);
    assert_eq!(shortcut_width(21), 189);
    assert_eq!(shortcut_width(22), 190);
    assert_eq!(shortcut_width(usize::MAX), 190);
}

#[test]
fn labels_of_the_interface() {
    assert_eq!(menu_text("Tom & Jerry"), "Tom && Jerry");
    assert_eq!(tab_label("Inicio", true), "○ Inicio");
    assert_eq!(tab_label("Inicio", false), "Inicio");
    assert_eq!(shield_label(5000), "◇ 999");
    assert_eq!(shield_label(0), "◇ 0");
    assert_eq!(discard_label(1), "1 minuto");
    assert_eq!(discard_label(15), "15 minutos");
    assert_eq!(filter_status_label("ready"), "EasyList y reglas Brave listas");
    assert_eq!(filter_status_label("starter"), "protección básica");
    assert_eq!(progress_label(1, Some(3)), " · 33%");
    assert_eq!(progress_label(1, None), "");
}

#[test]
fn settings_menu_follows_the_state() {
    let entries = settings_menu(&state());
    let labels: Vec<String> = entries.iter().map(label).collect();
    assert_eq!(
        labels,
        vec![
            "Establecer CRONI como predeterminado",
            "-",
            "CRONI 0.5.6 · buscando actualización",
            "-",
            "Modo ultraligero",
            "Reducir animaciones web",
            "Pausar multimedia al salir",
            "Video compatible sin GPU (reiniciar CRONI)",
            "Bloqueador: EasyList y reglas Brave listas",
            "[Descartar pestañas tras]",
        ]
    );
    match &entries[9] {
        MenuEntry::Submenu(_, items) => {
            assert_eq!(items.len(), 5);
            assert!(items[1].checked && !items[0].checked);
            assert_eq!(items[4].label, "60 minutos");
        }
        _ => panic!("expected the discard submenu"),
    }
    let mut s = state();
    s.update_ready = true;
    s.update_version = Some("0.6.0".to_string());
    s.ultra_light_mode = true;
    s.bookmarks = vec![Bookmark { title: "R&D".to_string(), url: "https://rd".to_string() }];
    let entries = settings_menu(&s);
    assert_eq!(label(&entries[2]), "Actualizar a 0.6.0");
    assert_eq!(entries.len(), 11);
    match &entries[10] {
        MenuEntry::Submenu(l, items) => {
            assert_eq!(l, "Marcadores");
            assert_eq!(items[0].label, "R&&D");
        }
        _ => panic!("expected the bookmarks submenu"),
    }
}

#[test]
fn downloads_menu_lists_newest_first() {
    assert_eq!(label(&downloads_menu(&Vec::new())[0]), "Todavía no hay descargas");
    let list = vec![
        download(1, "completed", 10, Some(10)),
        download(2, "cancelling", 5, Some(10)),
        download(3, "interrupted", 0, None),
    ];
    let entries = downloads_menu(&list);
    let labels: Vec<String> = entries.iter().map(label).collect();
    assert_eq!(
        labels,
        vec!["[f3.bin]", "[f2.bin · 50%]", "[f1.bin · 100%]", "-", "Limpiar historial terminado"]
    );
    match &entries[1] {
        MenuEntry::Submenu(_, items) => assert!(items[0].grayed),
        _ => panic!("expected a submenu"),
    }
    match &entries[2] {
        MenuEntry::Submenu(_, items) => assert_eq!(items.len(), 2),
        _ => panic!("expected a submenu"),
    }
    assert!(has_running_download(&list));
    assert!(!has_running_download(&vec![download(1, "completed", 1, None)]));
}

#[test]
fn actions_send_json_messages() {
    assert_eq!(action_message(&Action::Command("new_tab")).unwrap(), "{\"type\":\"new_tab\"}");
    assert_eq!(action_message(&Action::SelectTab(12)).unwrap(), "{\"id\":12,\"type\":\"select_tab\"}");
    assert_eq!(action_message(&Action::SetDiscard(5)).unwrap(), "{\"minutes\":5,\"type\":\"set_discard\"}");
    assert_eq!(
        action_message(&Action::OpenBookmark("https://a/\"b\"".to_string())).unwrap(),
        "{\"type\":\"open_bookmark\",\"url\":\"https://a/\\\"b\\\"\"}"
    );
    assert!(action_message(&Action::SettingsMenu).is_none());
    assert_eq!(navigate_message("hola"), "{\"type\":\"navigate\",\"url\":\"hola\"}");
    let regions = vec![HitRegion { rect: rect(0, 0, 10, 10), action: Action::CancelDownload(3) }];
    assert!(matches!(hit_at(&regions, 5, 5), Some(Action::CancelDownload(3))));
}

#[test]
fn pages_fill_the_space_below_the_toolbar() {
    assert_eq!(content_area(800, 600, 144, false), (144, 800, 456));
    assert_eq!(content_area(800, 600, 144, true), (0, 800, 600));
    assert_eq!(content_area(800, 100, 144, false), (100, 800, 0));
}
