//! What the browser's own interface shows, and the commands it sends back.
use vstd::prelude::*;
use crate::text::str_eq;
use crate::config::Bookmark;
use crate::downloads::DownloadItem;
use crate::text::{chars_eq, chars_of};
use crate::web_url::opt_view;

verus! {

/// Height of the interface above the page, in logical pixels.
pub const TOOLBAR_HEIGHT_LOGICAL: u32 = 144;

/// A tab as the tab strip shows it.
pub struct TabState {
    pub id: u64,
    pub title: String,
    pub suspended: bool,
}

/// Everything the interface draws.
pub struct ChromeState {
    pub tabs: Vec<TabState>,
    pub active_id: u64,
    pub address: String,
    pub bookmarked: bool,
    pub bookmarks: Vec<Bookmark>,
    pub downloads: Vec<DownloadItem>,
    pub discard_after_minutes: u64,
    pub maximized: bool,
    pub loading: bool,
    pub blocked_count: u64,
    pub adblock_enabled: bool,
    pub adblock_status: String,
    pub ultra_light_mode: bool,
    pub reduce_motion: bool,
    pub pause_media_when_unfocused: bool,
    pub video_compatibility_mode: bool,
    pub app_version: String,
    pub update_configured: bool,
    pub update_status: String,
    pub update_version: Option<String>,
    pub update_ready: bool,
}

/// A command of the interface, decoded from its JSON message.
#[derive(Debug)]
pub enum ChromeCommand {
    Navigate(String),
    Back,
    Forward,
    Reload,
    Home,
    NewTab,
    SelectTab(u64),
    CloseTab(u64),
    ToggleBookmark,
    AddShortcut,
    RemoveBookmark(String),
    OpenBookmark(String),
    SetDiscard(u64),
    ToggleUltraLight,
    ToggleReduceMotion,
    ToggleBackgroundPause,
    /// Switch showing pages without GPU acceleration from the next start.
    ToggleVideoCompatibility,
    ToggleAdblock,
    CancelDownload(u64),
    OpenDownload(u64),
    ShowDownload(u64),
    ClearDownloads,
    DownloadsPanel(bool),
    SetDefaultBrowser,
    CheckUpdate,
    InstallUpdate,
    WindowMinimize,
    WindowToggleMaximize,
    WindowDrag,
    WindowClose,
}

/// The command a message asks for, from its `type`, `id`, `url`, `minutes`
/// and `open` fields; `None` for an unknown type or a missing field that the
/// type needs. A missing `open` reads as `false`.
pub open spec fn command_of(
    kind: Seq<char>,
    id: Option<u64>,
    url: Option<Seq<char>>,
    minutes: Option<u64>,
    open: Option<bool>,
    r: Option<ChromeCommand>,
) -> bool {
    if kind == "navigate"@ {
        match url {
            Some(u) => r matches Some(ChromeCommand::Navigate(x)) && x@ == u,
            None => r is None,
        }
    } else if kind == "back"@ {
        r matches Some(ChromeCommand::Back)
    } else if kind == "forward"@ {
        r matches Some(ChromeCommand::Forward)
    } else if kind == "reload"@ {
        r matches Some(ChromeCommand::Reload)
    } else if kind == "home"@ {
        r matches Some(ChromeCommand::Home)
    } else if kind == "new_tab"@ {
        r matches Some(ChromeCommand::NewTab)
    } else if kind == "select_tab"@ {
        match id {
            Some(i) => r matches Some(ChromeCommand::SelectTab(x)) && x == i,
            None => r is None,
        }
    } else if kind == "close_tab"@ {
        match id {
            Some(i) => r matches Some(ChromeCommand::CloseTab(x)) && x == i,
            None => r is None,
        }
    } else if kind == "toggle_bookmark"@ {
        r matches Some(ChromeCommand::ToggleBookmark)
    } else if kind == "add_shortcut"@ {
        r matches Some(ChromeCommand::AddShortcut)
    } else if kind == "remove_bookmark"@ {
        match url {
            Some(u) => r matches Some(ChromeCommand::RemoveBookmark(x)) && x@ == u,
            None => r is None,
        }
    } else if kind == "open_bookmark"@ {
        match url {
            Some(u) => r matches Some(ChromeCommand::OpenBookmark(x)) && x@ == u,
            None => r is None,
        }
    } else if kind == "set_discard"@ {
        match minutes {
            Some(m) => r matches Some(ChromeCommand::SetDiscard(x)) && x == m,
            None => r is None,
        }
    } else if kind == "toggle_ultra_light"@ {
        r matches Some(ChromeCommand::ToggleUltraLight)
    } else if kind == "toggle_reduce_motion"@ {
        r matches Some(ChromeCommand::ToggleReduceMotion)
    } else if kind == "toggle_background_pause"@ {
        r matches Some(ChromeCommand::ToggleBackgroundPause)
    } else if kind == "toggle_video_compatibility"@ {
        r matches Some(ChromeCommand::ToggleVideoCompatibility)
    } else if kind == "toggle_adblock"@ {
        r matches Some(ChromeCommand::ToggleAdblock)
    } else if kind == "cancel_download"@ {
        match id {
            Some(i) => r matches Some(ChromeCommand::CancelDownload(x)) && x == i,
            None => r is None,
        }
    } else if kind == "open_download"@ {
        match id {
            Some(i) => r matches Some(ChromeCommand::OpenDownload(x)) && x == i,
            None => r is None,
        }
    } else if kind == "show_download"@ {
        match id {
            Some(i) => r matches Some(ChromeCommand::ShowDownload(x)) && x == i,
            None => r is None,
        }
    } else if kind == "clear_downloads"@ {
        r matches Some(ChromeCommand::ClearDownloads)
    } else if kind == "downloads_panel"@ {
        r matches Some(ChromeCommand::DownloadsPanel(x)) && x == (match open {
            Some(b) => b,
            None => false,
        })
    } else if kind == "set_default_browser"@ {
        r matches Some(ChromeCommand::SetDefaultBrowser)
    } else if kind == "check_update"@ {
        r matches Some(ChromeCommand::CheckUpdate)
    } else if kind == "install_update"@ {
        r matches Some(ChromeCommand::InstallUpdate)
    } else if kind == "window_minimize"@ {
        r matches Some(ChromeCommand::WindowMinimize)
    } else if kind == "window_toggle_maximize"@ {
        r matches Some(ChromeCommand::WindowToggleMaximize)
    } else if kind == "window_drag"@ {
        r matches Some(ChromeCommand::WindowDrag)
    } else if kind == "window_close"@ {
        r matches Some(ChromeCommand::WindowClose)
    } else {
        r is None
    }
}

/// Builds the command from the fields of an interface message.
pub fn command_from_fields(
    kind: &str,
    id: Option<u64>,
    url: Option<String>,
    minutes: Option<u64>,
    open: Option<bool>,
) -> (r: Option<ChromeCommand>)
    ensures
        command_of(kind@, id, opt_view(url), minutes, open, r),
{
    if str_eq(kind, "navigate") {
        match url {
            Some(u) => Some(ChromeCommand::Navigate(u)),
            None => None,
        }
    } else if str_eq(kind, "back") {
        Some(ChromeCommand::Back)
    } else if str_eq(kind, "forward") {
        Some(ChromeCommand::Forward)
    } else if str_eq(kind, "reload") {
        Some(ChromeCommand::Reload)
    } else if str_eq(kind, "home") {
        Some(ChromeCommand::Home)
    } else if str_eq(kind, "new_tab") {
        Some(ChromeCommand::NewTab)
    } else if str_eq(kind, "select_tab") {
        match id {
            Some(i) => Some(ChromeCommand::SelectTab(i)),
            None => None,
        }
    } else if str_eq(kind, "close_tab") {
        match id {
            Some(i) => Some(ChromeCommand::CloseTab(i)),
            None => None,
        }
    } else if str_eq(kind, "toggle_bookmark") {
        Some(ChromeCommand::ToggleBookmark)
    } else if str_eq(kind, "add_shortcut") {
        Some(ChromeCommand::AddShortcut)
    } else if str_eq(kind, "remove_bookmark") {
        match url {
            Some(u) => Some(ChromeCommand::RemoveBookmark(u)),
            None => None,
        }
    } else if str_eq(kind, "open_bookmark") {
        match url {
            Some(u) => Some(ChromeCommand::OpenBookmark(u)),
            None => None,
        }
    } else if str_eq(kind, "set_discard") {
        match minutes {
            Some(m) => Some(ChromeCommand::SetDiscard(m)),
            None => None,
        }
    } else if str_eq(kind, "toggle_ultra_light") {
        Some(ChromeCommand::ToggleUltraLight)
    } else if str_eq(kind, "toggle_reduce_motion") {
        Some(ChromeCommand::ToggleReduceMotion)
    } else if str_eq(kind, "toggle_background_pause") {
        Some(ChromeCommand::ToggleBackgroundPause)
    } else if str_eq(kind, "toggle_video_compatibility") {
        Some(ChromeCommand::ToggleVideoCompatibility)
    } else if str_eq(kind, "toggle_adblock") {
        Some(ChromeCommand::ToggleAdblock)
    } else if str_eq(kind, "cancel_download") {
        match id {
            Some(i) => Some(ChromeCommand::CancelDownload(i)),
            None => None,
        }
    } else if str_eq(kind, "open_download") {
        match id {
            Some(i) => Some(ChromeCommand::OpenDownload(i)),
            None => None,
        }
    } else if str_eq(kind, "show_download") {
        match id {
            Some(i) => Some(ChromeCommand::ShowDownload(i)),
            None => None,
        }
    } else if str_eq(kind, "clear_downloads") {
        Some(ChromeCommand::ClearDownloads)
    } else if str_eq(kind, "downloads_panel") {
        Some(
            ChromeCommand::DownloadsPanel(
                match open {
                    Some(b) => b,
                    None => false,
                },
            ),
        )
    } else if str_eq(kind, "set_default_browser") {
        Some(ChromeCommand::SetDefaultBrowser)
    } else if str_eq(kind, "check_update") {
        Some(ChromeCommand::CheckUpdate)
    } else if str_eq(kind, "install_update") {
        Some(ChromeCommand::InstallUpdate)
    } else if str_eq(kind, "window_minimize") {
        Some(ChromeCommand::WindowMinimize)
    } else if str_eq(kind, "window_toggle_maximize") {
        Some(ChromeCommand::WindowToggleMaximize)
    } else if str_eq(kind, "window_drag") {
        Some(ChromeCommand::WindowDrag)
    } else if str_eq(kind, "window_close") {
        Some(ChromeCommand::WindowClose)
    } else {
        None
    }
}

#[verifier::external_type_specification]
#[verifier::external_body]
pub struct ExJsonValue(serde_json::Value);

/// Whether `serde_json` parses a text as JSON.
pub uninterp spec fn json_parses(raw: Seq<char>) -> bool;

/// The string at `key` of the JSON text, when the text is an object with a
/// string there (`Value::get` and `Value::as_str`).
pub uninterp spec fn json_string_at(raw: Seq<char>, key: Seq<char>) -> Option<Seq<char>>;

/// The unsigned integer at `key` of the JSON text (`Value::as_u64`).
pub uninterp spec fn json_u64_at(raw: Seq<char>, key: Seq<char>) -> Option<u64>;

/// The boolean at `key` of the JSON text (`Value::as_bool`).
pub uninterp spec fn json_bool_at(raw: Seq<char>, key: Seq<char>) -> Option<bool>;

/// A parsed interface message and the text it came from.
pub struct JsonMessage {
    value: serde_json::Value,
    text: Ghost<Seq<char>>,
}

impl JsonMessage {
    /// The text the message was parsed from.
    pub closed spec fn source(&self) -> Seq<char> {
        self.text@
    }
}

/// Calls `serde_json::from_str` into a `Value`. The claim: a value comes
/// back exactly when the text parses, and it remembers the text.
#[verifier::external_body]
pub(crate) fn parse_json_message(raw: &str) -> (r: Option<JsonMessage>)
    ensures
        r is Some <==> json_parses(raw@),
        r matches Some(m) ==> m.source() == raw@,
{
    match serde_json::from_str::<serde_json::Value>(raw) {
        Ok(value) => Some(JsonMessage { value, text: Ghost(raw@) }),
        Err(_) => None,
    }
}

/// Calls `Value::get` and `Value::as_str`.
#[verifier::external_body]
pub(crate) fn json_string_field(m: &JsonMessage, key: &str) -> (r: Option<String>)
    ensures
        opt_view(r) == json_string_at(m.source(), key@),
{
    m.value.get(key).and_then(serde_json::Value::as_str).map(str::to_owned)
}

/// Calls `Value::get` and `Value::as_u64`.
#[verifier::external_body]
pub(crate) fn json_u64_field(m: &JsonMessage, key: &str) -> (r: Option<u64>)
    ensures
        r == json_u64_at(m.source(), key@),
{
    m.value.get(key).and_then(serde_json::Value::as_u64)
}

/// Calls `Value::get` and `Value::as_bool`.
#[verifier::external_body]
pub(crate) fn json_bool_field(m: &JsonMessage, key: &str) -> (r: Option<bool>)
    ensures
        r == json_bool_at(m.source(), key@),
{
    m.value.get(key).and_then(serde_json::Value::as_bool)
}

/// The command an interface message asks for: none when the text is not
/// JSON; otherwise as [`command_of`] says, with a missing `type` read as
/// empty.
pub fn decode_chrome_command(raw: &str) -> (r: Option<ChromeCommand>)
    ensures
        !json_parses(raw@) ==> r is None,
        json_parses(raw@) ==> command_of(
            match json_string_at(raw@, "type"@) {
                Some(k) => k,
                None => Seq::empty(),
            },
            json_u64_at(raw@, "id"@),
            json_string_at(raw@, "url"@),
            json_u64_at(raw@, "minutes"@),
            json_bool_at(raw@, "open"@),
            r,
        ),
{
    let m = match parse_json_message(raw) {
        Some(m) => m,
        None => return None,
    };
    let kind = match json_string_field(&m, "type") {
        Some(k) => k,
        None => String::new(),
    };
    let id = json_u64_field(&m, "id");
    let url = json_string_field(&m, "url");
    let minutes = json_u64_field(&m, "minutes");
    let open = json_bool_field(&m, "open");
    command_from_fields(kind.as_str(), id, url, minutes, open)
}

} // verus!
