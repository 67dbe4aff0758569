//! The browser's tabs, bookmarks, downloads and update state, and what the
//! window and its pages must do after each event.
use vstd::prelude::*;
use crate::blocker::{
    cosmetic_script_of, host_of, is_navigation_allowed, navigation_allowed, status_text, toggled, BlockerManager,
};
use crate::config::{bookmark_views, string_views, stored_views, AppConfig, Bookmark, ConfigView, StoredDownloadView};
use crate::downloads::{is_active, is_active_status, DownloadItem, DownloadView};
use crate::navigation::{normalize_address, normalized_address, owned};
use crate::text::{chars_eq, chars_of, trim, trim_chars};
use crate::ui::{
    command_of, decode_chrome_command, json_bool_at, json_parses, json_string_at, json_u64_at, ChromeCommand,
    ChromeState, TabState,
};
use crate::web_url::{opt_view, parse_url, whatwg_parse};

verus! {

/// A tab: its page and whether a WebView currently exists for it.
#[derive(Debug)]
pub struct Tab {
    pub id: u64,
    pub url: String,
    pub title: String,
    /// Milliseconds on the browser's monotonic clock.
    pub last_active: u64,
    pub loading: bool,
    pub has_view: bool,
}

/// Model of [`Tab`].
pub struct TabView {
    pub id: u64,
    pub url: Seq<char>,
    pub title: Seq<char>,
    pub last_active: u64,
    pub loading: bool,
    pub has_view: bool,
}

impl View for Tab {
    type V = TabView;

    open spec fn view(&self) -> TabView {
        TabView {
            id: self.id,
            url: self.url@,
            title: self.title@,
            last_active: self.last_active,
            loading: self.loading,
            has_view: self.has_view,
        }
    }
}

/// Something the window or a page must do; tabs are named by id.
#[derive(Debug, PartialEq, Eq)]
pub enum Effect {
    /// Leave the page's own fullscreen (`document.exitFullscreen`).
    ExitDocumentFullscreen(u64),
    /// Make the window borderless fullscreen on its monitor, or restore it.
    SetWindowFullscreen(bool),
    /// Pause the page's audio and video.
    PauseMedia(u64),
    /// Hide the tab's view and lower its memory level.
    HideView(u64),
    /// Destroy the tab's view; its URL and title stay.
    DropView(u64),
    /// Create the tab's view if it has none (report success with `view_created`).
    EnsureView(u64),
    /// Show and focus the tab's view, at the memory level of a focused window.
    ShowView(u64),
    /// Load a URL in the tab's view.
    LoadUrl(u64, String),
    /// Reload the tab's view (report a failure with `reload_failed`).
    ReloadView(u64),
    /// Redraw the tab's surface after a reload.
    RefreshSurface(u64),
    GoBack(u64),
    GoForward(u64),
    /// Run a script in the tab's page.
    RunScript(u64, String),
    /// Set the memory level of the tab's view: normal when true, low otherwise.
    SetMemoryLevel(u64, bool),
    ResizeViews,
    RenderChrome,
    /// Write the settings to `config.json`.
    SaveConfig,
    /// Cancel a running download (report success with `download_cancelling`).
    CancelDownload(u64),
    /// Open a downloaded file, or show it in its folder.
    OpenDownload(String, bool),
    RegisterDefaultBrowser,
    StartUpdateCheck,
    /// Stage the update and start the updater (report with `install_finished`).
    InstallUpdate(String, String),
    MinimizeWindow,
    ToggleMaximizeWindow,
    DragWindow,
    Exit,
    /// Check after this many milliseconds whether the window is still out of
    /// front, and report it back.
    CheckFocusLoss(u64),
}

/// Something that happened outside the browser's own logic: a message of
/// the interface, news from a page, a download or the update check.
#[derive(Debug)]
pub enum UserEvent {
    /// A JSON message of the interface.
    ChromeCommand(String),
    PageLoadChanged { tab_id: u64, url: String, loading: bool },
    LocationChanged { tab_id: u64, url: String },
    TitleChanged { tab_id: u64, title: String },
    /// A page asked for a new window.
    OpenInNewTab(String),
    DownloadStarted { id: u64, name: String, url: String, path: String, received: u64, total: Option<u64> },
    DownloadProgress { id: u64, received: u64, total: Option<u64>, status: String },
    /// A checked update waits at `path`.
    UpdateReady { version: String, path: String, sha256: String },
    UpdateCurrent,
    /// The update check failed, for the reason given.
    UpdateFailed(String),
    ContentFullscreenChanged { tab_id: u64, fullscreen: bool },
}

/// Title of a tab before its page reports one: the URL's host, or
/// "Nueva pestaña".
pub open spec fn title_for(raw: Seq<char>) -> Seq<char> {
    match whatwg_parse(raw) {
        Some(p) => match p.host {
            Some(h) => if h.len() > 0 {
                h
            } else {
                "Nueva pestaña"@
            },
            None => "Nueva pestaña"@,
        },
        None => "Nueva pestaña"@,
    }
}

/// How long a lost focus is left alone before it takes effect, in
/// milliseconds.
pub const FOCUS_LOSS_DELAY_MS: u64 = 750;

/// A page asked for a new window: the window is refused (`false`) and its
/// URL is handed back as a new tab to open.
pub fn new_window_request(url: String) -> (r: (bool, UserEvent))
    ensures
        !r.0,
        r.1 matches UserEvent::OpenInNewTab(u) && u@ == url@,
{
    (false, UserEvent::OpenInNewTab(url))
}

/// The title a tab shows for a URL until its page reports one.
pub fn title_from_url(raw: &str) -> (r: String)
    ensures
        r@ == title_for(raw@),
{
    match parse_url(raw) {
        Some(p) => match p.host {
            Some(h) => if chars_of(h.as_str()).len() > 0 {
                h
            } else {
                owned("Nueva pestaña")
            },
            None => owned("Nueva pestaña"),
        },
        None => owned("Nueva pestaña"),
    }
}

/// The tab models.
pub open spec fn tab_views(tabs: Seq<Tab>) -> Seq<TabView> {
    tabs.map_values(|t: Tab| t@)
}

/// The download models.
pub open spec fn download_views(d: Seq<DownloadItem>) -> Seq<DownloadView> {
    d.map_values(|x: DownloadItem| x@)
}

/// How long a hidden tab keeps its view, in milliseconds: the configured
/// minutes, at least one (saturating).
pub open spec fn discard_timeout_ms(minutes: u64) -> u64 {
    let m: int = if minutes < 1 {
        1
    } else {
        minutes as int
    };
    if m * 60000 > u64::MAX {
        u64::MAX
    } else {
        (m * 60000) as u64
    }
}

/// The tab's view is discarded once it has been hidden this long (or always,
/// when forced); the active tab never.
pub open spec fn should_discard(t: TabView, is_active: bool, force: bool, now: u64, timeout: u64) -> bool {
    !is_active && t.has_view && (force || (if now >= t.last_active {
        (now - t.last_active) as u64
    } else {
        0u64
    }) >= timeout)
}

/// When a tab last active at `last_active` is due (saturating).
pub open spec fn due_time(last_active: u64, timeout: u64) -> u64 {
    if last_active as int + timeout > u64::MAX {
        u64::MAX
    } else {
        (last_active + timeout) as u64
    }
}

/// The discard timeout in milliseconds.
pub fn discard_timeout(minutes: u64) -> (r: u64)
    ensures
        r == discard_timeout_ms(minutes),
{
    let m: u64 = if minutes < 1 {
        1
    } else {
        minutes
    };
    if m > u64::MAX / 60000 {
        u64::MAX
    } else {
        m * 60000
    }
}

/// The settings' session part: the tab URLs, and the last 30 downloads.
pub open spec fn last_downloads(d: Seq<DownloadView>) -> Seq<DownloadView> {
    if d.len() > 30 {
        d.skip(d.len() - 30)
    } else {
        d
    }
}

/// A listed download as it is stored.
pub open spec fn stored_of(d: DownloadView) -> StoredDownloadView {
    StoredDownloadView {
        name: d.name,
        url: d.url,
        path: d.path,
        received: d.received,
        total: d.total,
        status: d.status,
    }
}

/// A copy of a stored download.
pub fn copy_stored(s: &crate::config::StoredDownload) -> (r: crate::config::StoredDownload)
    ensures
        r@ == s@,
{
    crate::config::StoredDownload {
        name: s.name.clone(),
        url: s.url.clone(),
        path: s.path.clone(),
        received: s.received,
        total: s.total,
        status: s.status.clone(),
    }
}


/// The configured hosts without blocking, once blocking was switched for
/// `host` (see [`Browser::switched_hosts`]).
fn switched_host_list(hosts: &Vec<String>, host: &String, enabled: bool) -> (r: Vec<String>)
    ensures
        string_views(r@) == Browser::switched_hosts(string_views(hosts@), host@, enabled),
{
    let target = chars_of(host.as_str());
    let ghost h = string_views(hosts@);
    let ghost pred = Browser::other_than(host@);
    let mut kept: Vec<String> = Vec::new();
    let mut found = false;
    let mut i: usize = 0;
    while i < hosts.len()
        invariant
            i <= hosts@.len(),
            h == string_views(hosts@),
            target@ == host@,
            pred == Browser::other_than(host@),
            enabled ==> string_views(kept@) == h.take(i as int).filter(pred),
            !enabled ==> string_views(kept@) == h.take(i as int),
            found == h.take(i as int).contains(host@),
        decreases hosts.len() - i,
    {
        let same = chars_eq(&chars_of(hosts[i].as_str()), &target);
        assert(h[i as int] == hosts@[i as int]@);
        let ghost before = string_views(kept@);
        if !enabled || !same {
            kept.push(hosts[i].clone());
            assert(string_views(kept@) =~= before.push(h[i as int]));
        }
        if same {
            found = true;
        }
        proof {
            reveal_with_fuel(Seq::<_>::filter, 1);
            assert(h.take(i + 1).drop_last() =~= h.take(i as int));
            assert(h.take(i + 1).last() == h[i as int]);
            assert(h.take(i + 1) =~= h.take(i as int).push(h[i as int]));
            if h.take(i as int).contains(host@) {
                let k = choose|k: int| 0 <= k < i && h.take(i as int)[k] == host@;
                assert(h.take(i + 1)[k] == host@);
            }
            if same {
                assert(h.take(i + 1)[i as int] == host@);
            }
            let ht = h.take(i + 1);
            if ht.contains(host@) && !same {
                let k = choose|k: int| 0 <= k < ht.len() && ht[k] == host@;
                assert(k < i);
                assert(h.take(i as int)[k] == host@);
            }
        }
        i = i + 1;
    }
    assert(h.take(i as int) =~= h);
    if !enabled && !found {
        let ghost before = string_views(kept@);
        kept.push(host.clone());
        assert(string_views(kept@) =~= before.push(host@));
    }
    kept
}

/// The browser.
pub struct Browser {
    config: AppConfig,
    tabs: Vec<Tab>,
    active: usize,
    next_tab_id: u64,
    window_is_focused: bool,
    content_fullscreen: bool,
    refresh_surface_after_load: Option<u64>,
    downloads_panel_open: bool,
    downloads: Vec<DownloadItem>,
    next_download_id: u64,
    update_status: String,
    update_version: Option<String>,
    update_path: Option<String>,
    update_sha256: Option<String>,
    gpu_off_this_run: bool,
}

impl Browser {
    /// Whether the pages of this run are shown without GPU acceleration: the
    /// video compatibility choice as it was at the start.
    pub closed spec fn started_without_gpu(&self) -> bool {
        self.gpu_off_this_run
    }

    /// The extra arguments every page view of this run is started with:
    /// `--disable-gpu` exactly when the video compatibility choice was on at
    /// the start.
    pub fn webview_arguments(&self) -> (r: Option<&'static str>)
        ensures
            r is Some <==> self.started_without_gpu(),
            r matches Some(a) ==> a@ == "--disable-gpu"@,
    {
        if self.gpu_off_this_run {
            Some("--disable-gpu")
        } else {
            None
        }
    }

    /// The tabs, in strip order.
    pub closed spec fn tab_list(&self) -> Seq<TabView> {
        tab_views(self.tabs@)
    }

    /// Index of the active tab.
    pub closed spec fn active_index(&self) -> int {
        self.active as int
    }

    /// The id the next tab gets.
    pub closed spec fn next_id(&self) -> u64 {
        self.next_tab_id
    }

    /// The settings.
    pub closed spec fn settings(&self) -> AppConfig {
        self.config
    }

    /// Whether the page fills the screen.
    pub closed spec fn page_fullscreen(&self) -> bool {
        self.content_fullscreen
    }

    /// The listed downloads.
    pub closed spec fn download_list(&self) -> Seq<DownloadView> {
        download_views(self.downloads@)
    }

    /// The update state word.
    pub closed spec fn update_state(&self) -> Seq<char> {
        self.update_status@
    }

    /// Whether a downloaded update is ready to install.
    pub closed spec fn update_is_ready(&self) -> bool {
        self.update_path is Some && self.update_sha256 is Some
    }

    /// Whether the downloads panel is open.
    pub closed spec fn panel_open(&self) -> bool {
        self.downloads_panel_open
    }

    /// Whether the window has the focus.
    pub closed spec fn focused(&self) -> bool {
        self.window_is_focused
    }

    /// The offered update: its version, staged file and checksum.
    pub closed spec fn update_info(&self) -> (Option<Seq<char>>, Option<Seq<char>>, Option<Seq<char>>) {
        (opt_view(self.update_version), opt_view(self.update_path), opt_view(self.update_sha256))
    }

    /// The settings once the session (tab URLs and the last 30 downloads)
    /// is written into them.
    pub open spec fn saved_settings(c: ConfigView, tabs: Seq<TabView>, downloads: Seq<DownloadView>) -> ConfigView {
        ConfigView {
            restore_urls: tabs.map_values(|t: TabView| t.url),
            downloads: last_downloads(downloads).map_values(|d: DownloadView| stored_of(d)),
            ..c
        }
    }

    /// The downloads, their panel, the focus, a pending surface redraw and
    /// the update state are as they were.
    pub open spec fn keeps_side_state(pre: Browser, post: Browser) -> bool {
        &&& post.download_list() == pre.download_list()
        &&& post.panel_open() == pre.panel_open()
        &&& post.focused() == pre.focused()
        &&& post.refresh_pending() == pre.refresh_pending()
        &&& post.update_state() == pre.update_state()
        &&& post.update_info() == pre.update_info()
    }

    /// The next id, page fullscreen, the downloads panel, the focus and the
    /// update state are as they were.
    pub open spec fn keeps_window_state(pre: Browser, post: Browser) -> bool {
        &&& post.next_id() == pre.next_id()
        &&& post.page_fullscreen() == pre.page_fullscreen()
        &&& post.panel_open() == pre.panel_open()
        &&& post.focused() == pre.focused()
        &&& post.update_state() == pre.update_state()
        &&& post.update_info() == pre.update_info()
    }

    /// The settings are as they were, with the new session written into them.
    pub open spec fn session_saved(pre: Browser, post: Browser) -> bool {
        post.settings()@ == Self::saved_settings(pre.settings()@, post.tab_list(), pre.download_list())
    }

    /// At least one tab; the active one exists; ids are distinct and below
    /// the next id.
    pub closed spec fn wf(&self) -> bool {
        &&& self.tabs@.len() > 0
        &&& self.active < self.tabs@.len()
        &&& self.next_tab_id < u64::MAX
        &&& forall|i: int| 0 <= i < self.tabs@.len() ==> (#[trigger] self.tabs@[i]).id < self.next_tab_id
        &&& forall|i: int, j: int|
            0 <= i < self.tabs@.len() && 0 <= j < self.tabs@.len() && i != j ==> (
            #[trigger] self.tabs@[i]).id != (#[trigger] self.tabs@[j]).id
    }

    /// The id of the active tab.
    pub closed spec fn active_id(&self) -> u64 {
        self.tabs@[self.active as int].id
    }

    /// The settings.
    pub fn config(&self) -> (r: &AppConfig)
        ensures
            *r == self.settings(),
    {
        &self.config
    }

    /// The tabs.
    pub fn tabs(&self) -> (r: &Vec<Tab>)
        ensures
            tab_views(r@) == self.tab_list(),
    {
        &self.tabs
    }

    /// Index of the active tab.
    pub fn active(&self) -> (r: usize)
        ensures
            r == self.active_index(),
    {
        self.active
    }

    /// Whether the page is in fullscreen.
    pub fn content_fullscreen(&self) -> (r: bool)
        ensures
            r == self.page_fullscreen(),
    {
        self.content_fullscreen
    }

    /// Whether the downloads panel is open.
    pub fn downloads_panel_open(&self) -> (r: bool)
        ensures
            r == self.panel_open(),
    {
        self.downloads_panel_open
    }

    /// Whether the window has the focus.
    pub fn window_is_focused(&self) -> (r: bool)
        ensures
            r == self.focused(),
    {
        self.window_is_focused
    }

    /// The listed downloads.
    pub fn downloads(&self) -> (r: &Vec<DownloadItem>)
        ensures
            download_views(r@) == self.download_list(),
    {
        &self.downloads
    }

    /// The id the next download gets: one past the downloads listed at
    /// start-up.
    pub closed spec fn next_download(&self) -> u64 {
        self.next_download_id
    }

    /// The id the next download gets.
    pub fn next_download_id(&self) -> (r: u64)
        ensures
            r == self.next_download(),
    {
        self.next_download_id
    }

    /// The URL of a tab.
    pub fn tab_url(&self, tab_id: u64) -> (r: Option<String>)
        ensures
            match r {
                Some(u) => exists|i: int|
                    0 <= i < self.tab_list().len() && (#[trigger] self.tab_list()[i]).id == tab_id
                        && self.tab_list()[i].url == u@,
                None => forall|i: int|
                    0 <= i < self.tab_list().len() ==> (#[trigger] self.tab_list()[i]).id != tab_id,
            },
    {
        match self.find_tab(tab_id) {
            Some(i) => {
                assert(self.tab_list()[i as int].id == tab_id);
                Some(self.tabs[i].url.clone())
            },
            None => None,
        }
    }

    fn find_tab(&self, tab_id: u64) -> (r: Option<usize>)
        ensures
            match r {
                Some(i) => i < self.tabs@.len() && self.tabs@[i as int].id == tab_id
                    && Self::ids_of(self.tab_list()).index_of_first(tab_id) == Some(i as int),
                None => (forall|i: int| 0 <= i < self.tab_list().len() ==> (#[trigger] self.tab_list()[i]).id != tab_id)
                    && Self::ids_of(self.tab_list()).index_of_first(tab_id) is None,
            },
    {
        let ghost ids = Self::ids_of(self.tab_list());
        proof {
            ids.index_of_first_ensures(tab_id);
        }
        let mut i: usize = 0;
        while i < self.tabs.len()
            invariant
                i <= self.tabs@.len() == ids.len(),
                ids == Self::ids_of(self.tab_list()),
                forall|k: int| 0 <= k < i ==> (#[trigger] self.tabs@[k]).id != tab_id,
                match ids.index_of_first(tab_id) {
                    Some(index) => {
                        &&& ids.contains(tab_id)
                        &&& 0 <= index < ids.len()
                        &&& ids[index] == tab_id
                        &&& forall|j: int| 0 <= j < index < ids.len() ==> ids[j] != tab_id
                    },
                    None => !ids.contains(tab_id),
                },
            decreases self.tabs.len() - i,
        {
            assert(ids[i as int] == self.tabs@[i as int].id);
            if self.tabs[i].id == tab_id {
                proof {
                    match ids.index_of_first(tab_id) {
                        Some(index) => {
                            if index < i {
                                assert(ids[index] == self.tabs@[index].id);
                            }
                        },
                        None => {
                            assert(ids[i as int] == tab_id);
                        },
                    }
                }
                return Some(i);
            }
            i = i + 1;
        }
        assert forall|k: int| 0 <= k < self.tab_list().len() implies (#[trigger] self.tab_list()[k]).id != tab_id by {
            assert(self.tab_list()[k].id == self.tabs@[k].id);
        }
        proof {
            if ids.contains(tab_id) {
                let k = choose|k: int| 0 <= k < ids.len() && ids[k] == tab_id;
                assert(ids[k] == self.tabs@[k].id);
            }
        }
        None
    }

    /// Writes the session into the settings and asks for them to be saved.
    fn persist(&mut self, effects: &mut Vec<Effect>)
        ensures
            final(self).tab_list() == old(self).tab_list(),
            final(self).active_index() == old(self).active_index(),
            final(self).next_id() == old(self).next_id(),
            final(self).page_fullscreen() == old(self).page_fullscreen(),
            final(self).download_list() == old(self).download_list(),
            final(self).update_state() == old(self).update_state(),
            final(self).update_is_ready() == old(self).update_is_ready(),
            final(self).tabs@ == old(self).tabs@,
            final(self).settings()@.home_url == old(self).settings()@.home_url,
            final(self).settings()@.search_url == old(self).settings()@.search_url,
            final(self).settings()@.bookmarks == old(self).settings()@.bookmarks,
            final(self).settings()@.discard_after_minutes == old(self).settings()@.discard_after_minutes,
            final(self).settings()@.ultra_light_mode == old(self).settings()@.ultra_light_mode,
            final(self).settings()@.reduce_motion == old(self).settings()@.reduce_motion,
            final(self).settings()@.pause_media_when_unfocused == old(self).settings()@.pause_media_when_unfocused,
            final(self).settings()@.adblock_disabled_hosts == old(self).settings()@.adblock_disabled_hosts,
            final(self).settings()@.restore_urls == old(self).tab_list().map_values(|t: TabView| t.url),
            final(self).settings()@.downloads == last_downloads(old(self).download_list()).map_values(
                |d: DownloadView| stored_of(d),
            ),
            final(self).settings()@ == Self::saved_settings(
                old(self).settings()@,
                old(self).tab_list(),
                old(self).download_list(),
            ),
            final(self).panel_open() == old(self).panel_open(),
            final(self).refresh_pending() == old(self).refresh_pending(),
            final(self).focused() == old(self).focused(),
            final(self).update_info() == old(self).update_info(),
            final(self).started_without_gpu() == old(self).started_without_gpu(),
            final(effects)@ == old(effects)@.push(Effect::SaveConfig),
            final(self).wf() == old(self).wf(),
            final(self).active_id() == old(self).active_id(),
    {
        let mut urls: Vec<String> = Vec::new();
        let mut i: usize = 0;
        while i < self.tabs.len()
            invariant
                i <= self.tabs@.len(),
                string_views(urls@) == tab_views(self.tabs@).take(i as int).map_values(|t: TabView| t.url),
            decreases self.tabs.len() - i,
        {
            let ghost before = string_views(urls@);
            urls.push(self.tabs[i].url.clone());
            assert(string_views(urls@) =~= before.push(self.tabs@[i as int].url@));
            assert(tab_views(self.tabs@).take(i + 1).map_values(|t: TabView| t.url) =~= tab_views(
                self.tabs@,
            ).take(i as int).map_values(|t: TabView| t.url).push(self.tabs@[i as int].url@));
            i = i + 1;
        }
        assert(tab_views(self.tabs@).take(i as int) =~= tab_views(self.tabs@));
        let n = self.downloads.len();
        let start: usize = if n > 30 {
            n - 30
        } else {
            0
        };
        let mut stored: Vec<crate::config::StoredDownload> = Vec::new();
        let mut k = start;
        let ghost kept = last_downloads(download_views(self.downloads@));
        assert(kept =~= download_views(self.downloads@).skip(start as int));
        while k < n
            invariant
                start <= k <= n == self.downloads@.len(),
                kept =~= download_views(self.downloads@).skip(start as int),
                stored_views(stored@) == kept.take(k - start).map_values(|d: DownloadView| stored_of(d)),
            decreases n - k,
        {
            let ghost before = stored_views(stored@);
            stored.push(self.downloads[k].to_stored());
            assert(kept[k - start] == self.downloads@[k as int]@);
            assert(stored_views(stored@) =~= before.push(stored_of(kept[k - start])));
            assert(kept.take(k - start + 1).map_values(|d: DownloadView| stored_of(d)) =~= kept.take(
                k - start,
            ).map_values(|d: DownloadView| stored_of(d)).push(stored_of(kept[k - start])));
            k = k + 1;
        }
        assert(kept.take(n - start) =~= kept);
        self.config.restore_urls = urls;
        self.config.downloads = stored;
        effects.push(Effect::SaveConfig);
    }

    /// Leaves page fullscreen, or enters it, for the active tab only.
    fn set_fullscreen_internal(&mut self, tab_id: u64, fullscreen: bool, effects: &mut Vec<Effect>)
        requires
            old(self).wf(),
        ensures
            final(self).wf(),
            final(self).tabs@ == old(self).tabs@,
            final(self).active == old(self).active,
            final(self).next_tab_id == old(self).next_tab_id,
            final(self).config == old(self).config,
            final(self).downloads == old(self).downloads,
            final(self).update_status == old(self).update_status,
            final(self).update_path == old(self).update_path,
            final(self).update_sha256 == old(self).update_sha256,
            final(self).update_version == old(self).update_version,
            final(self).refresh_surface_after_load == old(self).refresh_surface_after_load,
            final(self).window_is_focused == old(self).window_is_focused,
            final(self).downloads_panel_open == old(self).downloads_panel_open,
            final(self).content_fullscreen == (if old(self).active_id() == tab_id {
                fullscreen
            } else {
                old(self).content_fullscreen
            }),
            if old(self).active_id() != tab_id || old(self).content_fullscreen == fullscreen {
                final(effects)@ == old(effects)@
            } else {
                final(effects)@ == old(effects)@.push(Effect::SetWindowFullscreen(fullscreen)).push(
                    Effect::ResizeViews,
                )
            },
    {
        if self.tabs[self.active].id != tab_id || self.content_fullscreen == fullscreen {
            return;
        }
        self.content_fullscreen = fullscreen;
        effects.push(Effect::SetWindowFullscreen(fullscreen));
        effects.push(Effect::ResizeViews);
    }

    /// What `set_content_fullscreen` does: only the active tab's page can
    /// fill the screen; the window follows it and the views are laid out
    /// again.
    pub open spec fn fullscreen_outcome(pre: Browser, post: Browser, tab_id: u64, fullscreen: bool, r: Seq<Effect>) -> bool {
        &&& post.tab_list() == pre.tab_list()
        &&& post.active_index() == pre.active_index()
        &&& post.settings() == pre.settings()
        &&& post.next_id() == pre.next_id()
        &&& Self::keeps_side_state(pre, post)
        &&& post.page_fullscreen() == (if pre.active_id() == tab_id {
            fullscreen
        } else {
            pre.page_fullscreen()
        })
        &&& if pre.active_id() != tab_id || pre.page_fullscreen() == fullscreen {
            r == Seq::<Effect>::empty()
        } else {
            r == seq![Effect::SetWindowFullscreen(fullscreen), Effect::ResizeViews]
        }
    }

    /// Enters or leaves page fullscreen when the active tab's page asks.
    pub fn set_content_fullscreen(&mut self, tab_id: u64, fullscreen: bool) -> (r: Vec<Effect>)
        requires
            old(self).wf(),
        ensures
            final(self).wf(),
            Self::fullscreen_outcome(*old(self), *final(self), tab_id, fullscreen, r@),
    {
        let mut effects: Vec<Effect> = Vec::new();
        self.set_fullscreen_internal(tab_id, fullscreen, &mut effects);
        assert(effects@ =~= seq![Effect::SetWindowFullscreen(fullscreen), Effect::ResizeViews]
            || effects@ =~= Seq::<Effect>::empty());
        effects
    }

    /// The URLs the browser opens with: an allowed URL from the command
    /// line, or the restored session, or the home page.
    pub open spec fn initial_urls(config: crate::config::ConfigView, external: Option<Seq<char>>) -> Seq<Seq<char>> {
        match external {
            Some(u) if navigation_allowed(u) => seq![u],
            _ => if config.restore_urls.len() == 0 {
                seq![config.home_url]
            } else {
                config.restore_urls
            },
        }
    }

    /// The browser at start-up: one tab per initial URL (ids from 1, no view
    /// yet), the first one active; the stored downloads listed with ids from
    /// 1; the update check pending when self-update is configured.
    pub fn new(config: AppConfig, external_url: Option<String>, update_configured: bool, now: u64) -> (r: Browser)
        requires
            config@.restore_urls.len() < u64::MAX - 2,
            config@.downloads.len() < u64::MAX - 2,
        ensures
            r.wf(),
            r.active_index() == 0,
            r.settings()@ == config@,
            r.tab_list().len() == Self::initial_urls(config@, crate::web_url::opt_view(external_url)).len(),
            forall|i: int|
                0 <= i < r.tab_list().len() ==> {
                    let t = #[trigger] r.tab_list()[i];
                    let u = Self::initial_urls(config@, crate::web_url::opt_view(external_url))[i];
                    &&& t.id == i + 1
                    &&& t.url == u
                    &&& t.title == title_for(u)
                    &&& t.last_active == now
                    &&& !t.loading
                    &&& !t.has_view
                },
            r.next_id() == r.tab_list().len() + 1,
            r.download_list().len() == config@.downloads.len(),
            r.next_download() == config@.downloads.len() + 1,
            !r.panel_open(),
            r.focused(),
            r.refresh_pending() is None,
            r.update_info() == (None::<Seq<char>>, None::<Seq<char>>, None::<Seq<char>>),
            forall|i: int|
                0 <= i < r.download_list().len() ==> {
                    let d = #[trigger] r.download_list()[i];
                    let s = config@.downloads[i];
                    &&& d.id == i + 1
                    &&& d.name == s.name
                    &&& d.url == s.url
                    &&& d.path == s.path
                    &&& d.received == s.received
                    &&& d.total == s.total
                    &&& d.status == crate::downloads::restored_status(s.status)
                },
            r.update_state() == (if update_configured {
                "checking"@
            } else {
                "disabled"@
            }),
            !r.update_is_ready(),
            !r.page_fullscreen(),
            r.started_without_gpu() == config@.video_compatibility_mode,
    {
        let external = match external_url {
            Some(u) => if is_navigation_allowed(u.as_str()) {
                Some(u)
            } else {
                None
            },
            None => None,
        };
        let ghost urls_spec = Self::initial_urls(config@, crate::web_url::opt_view(external_url));
        let mut urls: Vec<String> = Vec::new();
        match external {
            Some(u) => {
                urls.push(u);
            },
            None => {
                if config.restore_urls.len() == 0 {
                    urls.push(config.home_url.clone());
                } else {
                    let mut i: usize = 0;
                    while i < config.restore_urls.len()
                        invariant
                            i <= config.restore_urls@.len(),
                            string_views(urls@) == string_views(config.restore_urls@).take(i as int),
                        decreases config.restore_urls.len() - i,
                    {
                        let ghost before = string_views(urls@);
                        urls.push(config.restore_urls[i].clone());
                        assert(string_views(urls@) =~= before.push(config.restore_urls@[i as int]@));
                        assert(string_views(config.restore_urls@).take(i + 1) =~= string_views(
                            config.restore_urls@,
                        ).take(i as int).push(config.restore_urls@[i as int]@));
                        i = i + 1;
                    }
                    assert(string_views(config.restore_urls@).take(i as int) =~= string_views(config.restore_urls@));
                }
            },
        }
        assert(string_views(urls@) =~= urls_spec);
        let mut tabs: Vec<Tab> = Vec::new();
        let mut i: usize = 0;
        while i < urls.len()
            invariant
                i <= urls@.len(),
                urls@.len() < u64::MAX - 2,
                string_views(urls@) == urls_spec,
                tabs@.len() == i,
                forall|k: int|
                    0 <= k < i ==> {
                        let t = #[trigger] tabs@[k];
                        &&& t.id == k + 1
                        &&& t.url@ == urls_spec[k]
                        &&& t.title@ == title_for(urls_spec[k])
                        &&& t.last_active == now
                        &&& !t.loading
                        &&& !t.has_view
                    },
            decreases urls.len() - i,
        {
            assert(urls_spec[i as int] == urls@[i as int]@);
            let url = urls[i].clone();
            let title = title_from_url(url.as_str());
            tabs.push(Tab { id: i as u64 + 1, url, title, last_active: now, loading: false, has_view: false });
            i = i + 1;
        }
        let next_tab_id = tabs.len() as u64 + 1;
        let mut downloads: Vec<DownloadItem> = Vec::new();
        let mut k: usize = 0;
        while k < config.downloads.len()
            invariant
                k <= config.downloads@.len(),
                config.downloads@.len() < u64::MAX - 2,
                downloads@.len() == k,
                forall|j: int|
                    0 <= j < k ==> {
                        let d = (#[trigger] downloads@[j])@;
                        let s = config@.downloads[j];
                        &&& d.id == j + 1
                        &&& d.name == s.name
                        &&& d.url == s.url
                        &&& d.path == s.path
                        &&& d.received == s.received
                        &&& d.total == s.total
                        &&& d.status == crate::downloads::restored_status(s.status)
                    },
            decreases config.downloads.len() - k,
        {
            let item = crate::downloads::DownloadItem::from_stored(
                k as u64 + 1,
                copy_stored(&config.downloads[k]),
            );
            downloads.push(item);
            k = k + 1;
        }
        let next_download_id = downloads.len() as u64 + 1;
        let update_status = if update_configured {
            owned("checking")
        } else {
            owned("disabled")
        };
        let gpu_off_this_run = config.video_compatibility_mode;
        let r = Browser {
            config,
            tabs,
            active: 0,
            next_tab_id,
            window_is_focused: true,
            content_fullscreen: false,
            refresh_surface_after_load: None,
            downloads_panel_open: false,
            downloads,
            next_download_id,
            update_status,
            update_version: None,
            update_path: None,
            update_sha256: None,
            gpu_off_this_run,
        };
        assert forall|i: int| 0 <= i < r.tab_list().len() implies {
            let t = #[trigger] r.tab_list()[i];
            let u = Self::initial_urls(config@, crate::web_url::opt_view(external_url))[i];
            &&& t.id == i + 1
            &&& t.url == u
            &&& t.title == title_for(u)
            &&& t.last_active == now
            &&& !t.loading
            &&& !t.has_view
        } by {
            assert(r.tab_list()[i] == r.tabs@[i]@);
        }
        assert forall|i: int| 0 <= i < r.download_list().len() implies {
            let d = #[trigger] r.download_list()[i];
            let s = config@.downloads[i];
            &&& d.id == i + 1
            &&& d.name == s.name
            &&& d.url == s.url
            &&& d.path == s.path
            &&& d.received == s.received
            &&& d.total == s.total
            &&& d.status == crate::downloads::restored_status(s.status)
        } by {
            assert(r.download_list()[i] == r.downloads@[i]@);
        }
        r
    }

    /// The tabs after switching from `active` to `target`: both were active
    /// just now; with ultra-light mode the tab left behind loses its view.
    pub open spec fn after_switch(tabs: Seq<TabView>, active: int, target: int, now: u64, ultra: bool) -> Seq<TabView> {
        Seq::new(
            tabs.len(),
            |i: int|
                if i == target {
                    TabView { last_active: now, ..tabs[i] }
                } else if i == active {
                    TabView { last_active: now, has_view: if ultra { false } else { tabs[i].has_view }, ..tabs[i] }
                } else {
                    tabs[i]
                },
        )
    }

    /// What switching asks of the window: leave page fullscreen, pause, hide
    /// and (in ultra-light mode) destroy the view left behind, then make sure
    /// the target has a view, show it and redraw the interface.
    pub open spec fn switch_effects(tabs: Seq<TabView>, active: int, target: int, fullscreen: bool, ultra: bool) -> Seq<Effect> {
        let cur = tabs[active];
        let leave = if target != active {
            (if fullscreen {
                (if cur.has_view {
                    seq![Effect::ExitDocumentFullscreen(cur.id)]
                } else {
                    Seq::empty()
                }) + seq![Effect::SetWindowFullscreen(false), Effect::ResizeViews]
            } else {
                Seq::empty()
            }) + (if cur.has_view {
                seq![Effect::PauseMedia(cur.id), Effect::HideView(cur.id)]
            } else {
                Seq::empty()
            }) + (if ultra && cur.has_view {
                seq![Effect::DropView(cur.id)]
            } else {
                Seq::empty()
            })
        } else {
            Seq::empty()
        };
        leave + seq![
            Effect::EnsureView(tabs[target].id),
            Effect::ShowView(tabs[target].id),
            Effect::RenderChrome,
        ]
    }

    fn switch_internal(&mut self, target: usize, now: u64, effects: &mut Vec<Effect>)
        requires
            old(self).wf(),
        ensures
            final(self).wf(),
            final(self).next_tab_id == old(self).next_tab_id,
            final(self).config == old(self).config,
            final(self).downloads == old(self).downloads,
            final(self).update_status == old(self).update_status,
            final(self).update_path == old(self).update_path,
            final(self).update_sha256 == old(self).update_sha256,
            final(self).update_version == old(self).update_version,
            final(self).refresh_surface_after_load == old(self).refresh_surface_after_load,
            final(self).window_is_focused == old(self).window_is_focused,
            final(self).downloads_panel_open == old(self).downloads_panel_open,
            target >= old(self).tabs@.len() ==> {
                &&& final(self).tabs@ == old(self).tabs@
                &&& final(self).active == old(self).active
                &&& final(self).content_fullscreen == old(self).content_fullscreen
                &&& final(effects)@ == old(effects)@
            },
            target < old(self).tabs@.len() ==> {
                &&& final(self).active == target
                &&& final(self).tab_list() == Self::after_switch(
                    old(self).tab_list(),
                    old(self).active as int,
                    target as int,
                    now,
                    old(self).config.ultra_light_mode,
                )
                &&& final(self).content_fullscreen == (if target != old(self).active {
                    false
                } else {
                    old(self).content_fullscreen
                })
                &&& final(effects)@ == old(effects)@ + Self::switch_effects(
                    old(self).tab_list(),
                    old(self).active as int,
                    target as int,
                    old(self).content_fullscreen,
                    old(self).config.ultra_light_mode,
                )
            },
    {
        if target >= self.tabs.len() {
            return;
        }
        let ghost old_tabs = self.tab_list();
        let ghost e0 = effects@;
        let ghost cur_view = self.tabs@[self.active as int]@;
        if target != self.active {
            let cur = self.active;
            let cur_id = self.tabs[cur].id;
            if self.content_fullscreen {
                if self.tabs[cur].has_view {
                    effects.push(Effect::ExitDocumentFullscreen(cur_id));
                }
                self.set_fullscreen_internal(cur_id, false, effects);
            }
            if self.tabs[cur].has_view {
                effects.push(Effect::PauseMedia(cur_id));
                effects.push(Effect::HideView(cur_id));
            }
            self.tabs[cur].last_active = now;
            if self.config.ultra_light_mode {
                if self.tabs[cur].has_view {
                    effects.push(Effect::DropView(cur_id));
                }
                self.tabs[cur].has_view = false;
            }
            self.active = target;
        }
        self.tabs[target].last_active = now;
        let id = self.tabs[target].id;
        effects.push(Effect::EnsureView(id));
        effects.push(Effect::ShowView(id));
        effects.push(Effect::RenderChrome);
        proof {
            let expected = Self::after_switch(old_tabs, old(self).active as int, target as int, now, old(self).config.ultra_light_mode);
            assert(self.tab_list() =~= expected);
            assert(effects@ =~= e0 + Self::switch_effects(old_tabs, old(self).active as int, target as int, old(self).content_fullscreen, old(self).config.ultra_light_mode));
            assert forall|i: int| 0 <= i < self.tabs@.len() implies (#[trigger] self.tabs@[i]).id < self.next_tab_id by {
                assert(self.tabs@[i].id == old(self).tabs@[i].id);
            }
            assert forall|i: int, j: int|
                0 <= i < self.tabs@.len() && 0 <= j < self.tabs@.len() && i != j implies (
                #[trigger] self.tabs@[i]).id != (#[trigger] self.tabs@[j]).id by {
                assert(self.tabs@[i].id == old(self).tabs@[i].id);
                assert(self.tabs@[j].id == old(self).tabs@[j].id);
            }
        }
    }

    /// What `switch_to` does, relating the browser before and after and the effects.
    pub open spec fn switch_to_outcome(pre: Browser, post: Browser, target: usize, now: u64, r: Seq<Effect>) -> bool {
        &&& post.next_id() == pre.next_id()
        &&& post.settings() == pre.settings()
        &&& Self::keeps_side_state(pre, post)
        &&& target >= pre.tab_list().len() ==> {
                    &&& post.tab_list() == pre.tab_list()
                    &&& post.active_index() == pre.active_index()
                    &&& post.page_fullscreen() == pre.page_fullscreen()
                    &&& r == Seq::<Effect>::empty()
                }
        &&& target < pre.tab_list().len() ==> {
                    &&& post.active_index() == target
                    &&& post.tab_list() == Self::after_switch(
                        pre.tab_list(),
                        pre.active_index(),
                        target as int,
                        now,
                        pre.settings().ultra_light_mode,
                    )
                    &&& post.page_fullscreen() == (if target != pre.active_index() {
                        false
                    } else {
                        pre.page_fullscreen()
                    })
                    &&& r == Self::switch_effects(
                        pre.tab_list(),
                        pre.active_index(),
                        target as int,
                        pre.page_fullscreen(),
                        pre.settings().ultra_light_mode,
                    )
                }
    }

    /// Makes the tab at `target` the active one; nothing happens for an index
    /// past the last tab.
    pub fn switch_to(&mut self, target: usize, now: u64) -> (r: Vec<Effect>)
        requires
            old(self).wf(),
        ensures
            final(self).wf(),
            Self::switch_to_outcome(*old(self), *final(self), target, now, r@),

    {
        let mut effects: Vec<Effect> = Vec::new();
        self.switch_internal(target, now, &mut effects);
        assert(effects@ =~= Seq::<Effect>::empty() + effects@);
        effects
    }

    /// The active tab's view was created: it is loading its page.
    pub fn view_created(&mut self, tab_id: u64)
        requires
            old(self).wf(),
        ensures
            final(self).wf(),
            final(self).active_index() == old(self).active_index(),
            final(self).settings() == old(self).settings(),
            Self::keeps_window_state(*old(self), *final(self)),
            Self::keeps_side_state(*old(self), *final(self)),
            final(self).tab_list().len() == old(self).tab_list().len(),
            forall|i: int|
                0 <= i < old(self).tab_list().len() ==> #[trigger] final(self).tab_list()[i] == (if old(
                    self,
                ).tab_list()[i].id == tab_id {
                    TabView { has_view: true, loading: true, ..old(self).tab_list()[i] }
                } else {
                    old(self).tab_list()[i]
                }),
    {
        match self.find_tab(tab_id) {
            Some(i) => {
                self.tabs[i].has_view = true;
                self.tabs[i].loading = true;
                proof {
                    assert forall|k: int| 0 <= k < old(self).tab_list().len() implies #[trigger] self.tab_list()[k] == (if old(
                        self,
                    ).tab_list()[k].id == tab_id {
                        TabView { has_view: true, loading: true, ..old(self).tab_list()[k] }
                    } else {
                        old(self).tab_list()[k]
                    }) by {
                        if k != i {
                            assert(old(self).tabs@[k].id != old(self).tabs@[i as int].id);
                        }
                    }
                    assert forall|a: int| 0 <= a < self.tabs@.len() implies (#[trigger] self.tabs@[a]).id < self.next_tab_id by {
                        assert(self.tabs@[a].id == old(self).tabs@[a].id);
                    }
                    assert forall|a: int, b: int|
                        0 <= a < self.tabs@.len() && 0 <= b < self.tabs@.len() && a != b implies (
                        #[trigger] self.tabs@[a]).id != (#[trigger] self.tabs@[b]).id by {
                        assert(self.tabs@[a].id == old(self).tabs@[a].id);
                        assert(self.tabs@[b].id == old(self).tabs@[b].id);
                    }
                }
            },
            None => {},
        }
    }

    proof fn lemma_push_keeps_ids(old_tabs: Seq<Tab>, t: Tab, next: u64)
        requires
            forall|i: int| 0 <= i < old_tabs.len() ==> (#[trigger] old_tabs[i]).id < next,
            forall|i: int, j: int|
                0 <= i < old_tabs.len() && 0 <= j < old_tabs.len() && i != j ==> (#[trigger] old_tabs[i]).id
                    != (#[trigger] old_tabs[j]).id,
            t.id == next,
        ensures
            forall|i: int| 0 <= i < old_tabs.push(t).len() ==> (#[trigger] old_tabs.push(t)[i]).id < next + 1,
            forall|i: int, j: int|
                0 <= i < old_tabs.push(t).len() && 0 <= j < old_tabs.push(t).len() && i != j ==> (
                #[trigger] old_tabs.push(t)[i]).id != (#[trigger] old_tabs.push(t)[j]).id,
    {
        let n = old_tabs.push(t);
        assert forall|i: int, j: int| 0 <= i < n.len() && 0 <= j < n.len() && i != j implies (
        #[trigger] n[i]).id != (#[trigger] n[j]).id by {
            if i < old_tabs.len() && j < old_tabs.len() {
                assert(n[i] == old_tabs[i]);
                assert(n[j] == old_tabs[j]);
            } else if i < old_tabs.len() {
                assert(n[i] == old_tabs[i]);
            } else if j < old_tabs.len() {
                assert(n[j] == old_tabs[j]);
            }
        }
    }

    /// The tab a new page gets.
    pub open spec fn new_tab_view(id: u64, url: Seq<char>, now: u64) -> TabView {
        TabView { id, url, title: title_for(url), last_active: now, loading: false, has_view: false }
    }

    /// What `add_tab` does, relating the browser before and after and the effects.
    pub open spec fn add_tab_outcome(pre: Browser, post: Browser, raw_url: Seq<char>, activate: bool, now: u64, r: Seq<Effect>) -> bool {
        &&& pre.next_id() >= u64::MAX - 1 ==> post == pre && r == Seq::<Effect>::empty()
        &&& pre.next_id() < u64::MAX - 1 ==> {
                    let url = normalized_address(raw_url, pre.settings()@.search_url);
                    let added = pre.tab_list().push(Self::new_tab_view(pre.next_id(), url, now));
                    &&& post.next_id() == pre.next_id() + 1
                    &&& post.page_fullscreen() == (pre.page_fullscreen() && !activate)
                    &&& Self::keeps_side_state(pre, post)
                    &&& Self::session_saved(pre, post)
                    &&& if activate {
                        &&& post.active_index() == pre.tab_list().len()
                        &&& post.tab_list() == Self::after_switch(
                            added,
                            pre.active_index(),
                            pre.tab_list().len() as int,
                            now,
                            pre.settings().ultra_light_mode,
                        )
                        &&& r == Self::switch_effects(
                            added,
                            pre.active_index(),
                            pre.tab_list().len() as int,
                            pre.page_fullscreen(),
                            pre.settings().ultra_light_mode,
                        ) + seq![Effect::SaveConfig, Effect::RenderChrome]
                    } else {
                        &&& post.active_index() == pre.active_index()
                        &&& post.tab_list() == added
                        &&& r == seq![Effect::SaveConfig, Effect::RenderChrome]
                    }
                    &&& post.settings()@.restore_urls == post.tab_list().map_values(|t: TabView| t.url)
                }
    }

    /// Opens a new tab for the typed address, normalized, after the others,
    /// and makes it active when asked. The session is saved and the
    /// interface redrawn. (Nothing happens once 2^64 - 2 ids are spent.)
    pub fn add_tab(&mut self, raw_url: &str, activate: bool, now: u64) -> (r: Vec<Effect>)
        requires
            old(self).wf(),
        ensures
            final(self).wf(),
            Self::add_tab_outcome(*old(self), *final(self), raw_url@, activate, now, r@),

    {
        let mut effects: Vec<Effect> = Vec::new();
        if self.next_tab_id >= u64::MAX - 1 {
            return effects;
        }
        let url = normalize_address(raw_url, self.config.search_url.as_str());
        let title = title_from_url(url.as_str());
        let id = self.next_tab_id;
        let ghost old_tabs = self.tabs@;
        let tab = Tab { id, url, title, last_active: now, loading: false, has_view: false };
        self.tabs.push(tab);
        proof {
            Self::lemma_push_keeps_ids(old_tabs, tab, id);
        }
        self.next_tab_id = id + 1;
        assert(self.tab_list() =~= old(self).tab_list().push(Self::new_tab_view(id, tab.url@, now)));
        if activate {
            let target = self.tabs.len() - 1;
            self.switch_internal(target, now, &mut effects);
        }
        self.persist(&mut effects);
        effects.push(Effect::RenderChrome);
        proof {
            if activate {
                assert(effects@ =~= Seq::<Effect>::empty() + Self::switch_effects(
                    old(self).tab_list().push(Self::new_tab_view(id, tab.url@, now)),
                    old(self).active_index(),
                    old(self).tab_list().len() as int,
                    old(self).page_fullscreen(),
                    old(self).settings().ultra_light_mode,
                ) + seq![Effect::SaveConfig, Effect::RenderChrome]);
            } else {
                assert(effects@ =~= seq![Effect::SaveConfig, Effect::RenderChrome]);
            }
        }
        effects
    }

    /// The ids of the tabs.
    pub open spec fn ids_of(tabs: Seq<TabView>) -> Seq<u64> {
        tabs.map_values(|t: TabView| t.id)
    }

    /// The active index once the tab at `index` of `n` closed: one lower
    /// when a tab before it closed or it was the last one, else unchanged
    /// (so the tab after a closed active tab becomes active, or the one
    /// before when it was the last).
    pub open spec fn active_after_close(active: int, index: int, n: int) -> int {
        if index < active || active == n - 1 {
            active - 1
        } else {
            active
        }
    }

    /// The tabs and effects of closing the tab at `index`.
    pub open spec fn close_result(pre: Browser, index: int, now: u64) -> (Seq<TabView>, int, Seq<Effect>) {
        let tabs = pre.tab_list();
        let t = tabs[index];
        let ultra = pre.settings().ultra_light_mode;
        let dropped = if t.has_view {
            seq![Effect::DropView(t.id)]
        } else {
            Seq::empty()
        };
        if tabs.len() == 1 {
            let home = normalized_address(pre.settings()@.home_url, pre.settings()@.search_url);
            let new_id: u64 = if pre.next_id() < u64::MAX - 1 {
                pre.next_id()
            } else {
                0
            };
            let fresh = seq![Self::new_tab_view(new_id, home, now)];
            (
                Self::after_switch(fresh, 0, 0, now, ultra),
                0,
                dropped + Self::switch_effects(fresh, 0, 0, pre.page_fullscreen(), ultra) + seq![
                    Effect::SaveConfig,
                    Effect::RenderChrome,
                ],
            )
        } else {
            let rest = tabs.remove(index);
            let a = Self::active_after_close(pre.active_index(), index, tabs.len() as int);
            let was_active = index == pre.active_index();
            (
                if was_active {
                    Self::after_switch(rest, a, a, now, ultra)
                } else {
                    rest
                },
                a,
                dropped + (if was_active {
                    Self::switch_effects(rest, a, a, pre.page_fullscreen(), ultra)
                } else {
                    Seq::empty()
                }) + seq![Effect::SaveConfig, Effect::RenderChrome],
            )
        }
    }

    /// What `close_tab_by_id` does, relating the browser before and after and the effects.
    pub open spec fn close_tab_by_id_outcome(pre: Browser, post: Browser, id: u64, now: u64, r: Seq<Effect>) -> bool {
        &&& match Self::tab_index(pre.tab_list(), id) {
            Some(i) => {
                let (tabs, a, effects) = Self::close_result(pre, i, now);
                &&& post.tab_list() == tabs
                &&& post.active_index() == a
                &&& r == effects
                &&& post.next_id() == (if pre.tab_list().len() == 1 && pre.next_id() < u64::MAX - 1 {
                    (pre.next_id() + 1) as u64
                } else {
                    pre.next_id()
                })
                &&& post.page_fullscreen() == pre.page_fullscreen()
                &&& Self::keeps_side_state(pre, post)
                &&& Self::session_saved(pre, post)
            },
            None => post == pre && r == Seq::<Effect>::empty(),
        }
        &&& !Self::ids_of(pre.tab_list()).contains(id) ==> post.tab_list() == pre.tab_list()
                    && post.active_index() == pre.active_index() && r == Seq::<Effect>::empty()
        &&& Self::ids_of(pre.tab_list()).contains(id) ==> {
                    &&& !Self::ids_of(post.tab_list()).contains(id) || pre.tab_list().len() == 1
                    &&& forall|other: u64| #[trigger] Self::ids_of(pre.tab_list()).contains(other) && other
                        != id ==> Self::ids_of(post.tab_list()).contains(other)
                    &&& pre.tab_list().len() > 1 ==> post.tab_list().len() == pre.tab_list().len() - 1
                    &&& pre.tab_list().len() == 1 ==> post.tab_list().len() == 1
                        && post.tab_list()[0].url == normalized_address(
                        pre.settings()@.home_url,
                        pre.settings()@.search_url,
                    )
                    &&& post.settings()@.restore_urls == post.tab_list().map_values(|t: TabView| t.url)
                }
    }

    /// Closes the tab with that id. The tab after it (or before, for the
    /// last one) becomes active when the active tab closes; closing the only
    /// tab opens the home page in a fresh one. Nothing happens for an unknown
    /// id.
    #[verifier::rlimit(50)]
    pub fn close_tab_by_id(&mut self, id: u64, now: u64) -> (r: Vec<Effect>)
        requires
            old(self).wf(),
        ensures
            final(self).wf(),
            Self::close_tab_by_id_outcome(*old(self), *final(self), id, now, r@),

    {
        let mut effects: Vec<Effect> = Vec::new();
        let index = match self.find_tab(id) {
            Some(i) => i,
            None => {
                proof {
                    if Self::ids_of(self.tab_list()).contains(id) {
                        let k = choose|k: int| 0 <= k < Self::ids_of(self.tab_list()).len() && Self::ids_of(self.tab_list())[k] == id;
                        assert(self.tab_list()[k].id == id);
                    }
                }
                return effects;
            },
        };
        proof {
            assert(Self::ids_of(self.tab_list())[index as int] == id);
        }
        let was_active = index == self.active;
        let ghost old_tabs = self.tabs@;
        let ghost t = self.tab_list()[index as int];
        let ghost dropped = if t.has_view {
            seq![Effect::DropView(t.id)]
        } else {
            Seq::<Effect>::empty()
        };
        let removed = self.tabs.remove(index);
        if removed.has_view {
            effects.push(Effect::DropView(id));
        }
        assert(effects@ =~= dropped);
        assert(self.tab_list() =~= old(self).tab_list().remove(index as int));
        if self.tabs.len() == 0 {
            let url = normalize_address(self.config.home_url.as_str(), self.config.search_url.as_str());
            let title = title_from_url(url.as_str());
            let new_id = if self.next_tab_id < u64::MAX - 1 {
                self.next_tab_id
            } else {
                0
            };
            self.tabs.push(Tab { id: new_id, url, title, last_active: now, loading: false, has_view: false });
            if self.next_tab_id < u64::MAX - 1 {
                self.next_tab_id = self.next_tab_id + 1;
            }
            self.active = 0;
            let ghost fresh = self.tab_list();
            assert(fresh =~= seq![Self::new_tab_view(new_id, url@, now)]);
            self.switch_internal(0, now, &mut effects);
            self.persist(&mut effects);
            effects.push(Effect::RenderChrome);
            proof {
                assert(effects@ =~= dropped + Self::switch_effects(
                    fresh,
                    0,
                    0,
                    old(self).page_fullscreen(),
                    old(self).settings().ultra_light_mode,
                ) + seq![Effect::SaveConfig, Effect::RenderChrome]);
                assert(self.tab_list().len() == 1);
                assert forall|other: u64| #[trigger] Self::ids_of(old(self).tab_list()).contains(other) && other != id
                    implies Self::ids_of(self.tab_list()).contains(other) by {
                    let k = choose|k: int| 0 <= k < Self::ids_of(old(self).tab_list()).len() && Self::ids_of(old(self).tab_list())[k] == other;
                    assert(old(self).tab_list()[k].id == other);
                    if k != index {
                        assert(old_tabs[k].id != old_tabs[index as int].id);
                    }
                }
            }
            return effects;
        }
        proof {
            assert forall|i: int| 0 <= i < self.tabs@.len() implies (#[trigger] self.tabs@[i]).id < self.next_tab_id by {
                if i < index {
                    assert(self.tabs@[i] == old_tabs[i]);
                } else {
                    assert(self.tabs@[i] == old_tabs[i + 1]);
                }
            }
            assert forall|i: int, j: int|
                0 <= i < self.tabs@.len() && 0 <= j < self.tabs@.len() && i != j implies (
                #[trigger] self.tabs@[i]).id != (#[trigger] self.tabs@[j]).id by {
                let oi = if i < index { i } else { i + 1 };
                let oj = if j < index { j } else { j + 1 };
                assert(self.tabs@[i] == old_tabs[oi]);
                assert(self.tabs@[j] == old_tabs[oj]);
            }
        }
        if index < self.active || self.active == self.tabs.len() {
            self.active = self.active - 1;
        }
        let ghost rest = self.tab_list();
        let ghost mid = effects@;
        if was_active {
            let a = self.active;
            self.switch_internal(a, now, &mut effects);
        }
        self.persist(&mut effects);
        effects.push(Effect::RenderChrome);
        proof {
            if was_active {
                assert(effects@ =~= dropped + Self::switch_effects(
                    rest,
                    self.active as int,
                    self.active as int,
                    old(self).page_fullscreen(),
                    old(self).settings().ultra_light_mode,
                ) + seq![Effect::SaveConfig, Effect::RenderChrome]);
            } else {
                assert(effects@ =~= dropped + Seq::<Effect>::empty() + seq![Effect::SaveConfig, Effect::RenderChrome]);
            }
            assert(self.tab_list().len() == old(self).tab_list().len() - 1);
            assert(!Self::ids_of(self.tab_list()).contains(id)) by {
                if Self::ids_of(self.tab_list()).contains(id) {
                    let k = choose|k: int| 0 <= k < Self::ids_of(self.tab_list()).len() && Self::ids_of(self.tab_list())[k] == id;
                    let ok = if k < index { k } else { k + 1 };
                    assert(self.tab_list()[k].id == old_tabs[ok].id);
                    assert(old_tabs[ok].id != old_tabs[index as int].id);
                }
            }
            assert forall|other: u64| #[trigger] Self::ids_of(old(self).tab_list()).contains(other) && other != id
                implies Self::ids_of(self.tab_list()).contains(other) by {
                let k = choose|k: int| 0 <= k < Self::ids_of(old(self).tab_list()).len() && Self::ids_of(old(self).tab_list())[k] == other;
                assert(old(self).tab_list()[k].id == other);
                assert(k != index);
                let nk = if k < index { k } else { k - 1 };
                assert(self.tab_list()[nk].id == old_tabs[k].id);
                assert(Self::ids_of(self.tab_list())[nk] == other);
            }
        }
        effects
    }

    /// What `navigate_active` does, relating the browser before and after and the effects.
    pub open spec fn navigate_active_outcome(pre: Browser, post: Browser, raw: Seq<char>, r: Seq<Effect>) -> bool {
        &&& post.active_index() == pre.active_index()
        &&& post.tab_list() == pre.tab_list().update(
                    pre.active_index(),
                    TabView {
                        url: normalized_address(raw, pre.settings()@.search_url),
                        ..pre.tab_list()[pre.active_index()]
                    },
                )
        &&& post.settings()@.restore_urls == post.tab_list().map_values(|t: TabView| t.url)
        &&& post.next_id() == pre.next_id()
        &&& post.page_fullscreen() == pre.page_fullscreen()
        &&& Self::keeps_side_state(pre, post)
        &&& Self::session_saved(pre, post)
        &&& ({
                    let id = pre.active_id();
                    if pre.tab_list()[pre.active_index()].has_view {
                        r.len() == 4 && r[0] == Effect::PauseMedia(id) && (r[1] matches Effect::LoadUrl(
                            i,
                            u,
                        ) && i == id && u@ == normalized_address(raw, pre.settings()@.search_url)) && r[2]
                            == Effect::SaveConfig && r[3] == Effect::RenderChrome
                    } else {
                        r == seq![Effect::EnsureView(id), Effect::SaveConfig, Effect::RenderChrome]
                    }
                })
    }

    /// Loads the typed address, normalized, in the active tab.
    pub fn navigate_active(&mut self, raw: &str) -> (r: Vec<Effect>)
        requires
            old(self).wf(),
        ensures
            final(self).wf(),
            Self::navigate_active_outcome(*old(self), *final(self), raw@, r@),

    {
        let mut effects: Vec<Effect> = Vec::new();
        let url = normalize_address(raw, self.config.search_url.as_str());
        let a = self.active;
        let id = self.tabs[a].id;
        self.tabs[a].url = url.clone();
        proof {
            assert(self.tab_list() =~= old(self).tab_list().update(
                old(self).active_index(),
                TabView {
                    url: normalized_address(raw@, old(self).settings()@.search_url),
                    ..old(self).tab_list()[old(self).active_index()]
                },
            ));
            assert forall|i: int| 0 <= i < self.tabs@.len() implies (#[trigger] self.tabs@[i]).id < self.next_tab_id by {
                assert(self.tabs@[i].id == old(self).tabs@[i].id);
            }
            assert forall|i: int, j: int|
                0 <= i < self.tabs@.len() && 0 <= j < self.tabs@.len() && i != j implies (
                #[trigger] self.tabs@[i]).id != (#[trigger] self.tabs@[j]).id by {
                assert(self.tabs@[i].id == old(self).tabs@[i].id);
                assert(self.tabs@[j].id == old(self).tabs@[j].id);
            }
        }
        if !self.tabs[a].has_view {
            effects.push(Effect::EnsureView(id));
        } else {
            effects.push(Effect::PauseMedia(id));
            effects.push(Effect::LoadUrl(id, url));
        }
        self.persist(&mut effects);
        effects.push(Effect::RenderChrome);
        proof {
            if !old(self).tabs@[a as int].has_view {
                assert(effects@ =~= seq![Effect::EnsureView(id), Effect::SaveConfig, Effect::RenderChrome]);
            }
        }
        effects
    }

    /// What `reload_active` does, relating the browser before and after and the effects.
    pub open spec fn reload_active_outcome(pre: Browser, post: Browser, r: Seq<Effect>) -> bool {
        &&& post.tab_list() == pre.tab_list()
        &&& post.active_index() == pre.active_index()
        &&& post.next_id() == pre.next_id()
        &&& post.settings() == pre.settings()
        &&& post.download_list() == pre.download_list()
        &&& post.panel_open() == pre.panel_open()
        &&& post.focused() == pre.focused()
        &&& post.update_state() == pre.update_state()
        &&& post.update_info() == pre.update_info()
        &&& !post.page_fullscreen()
        &&& post.refresh_pending() == Some(pre.active_id())
        &&& ({
                    let t = pre.tab_list()[pre.active_index()];
                    let leave = if pre.page_fullscreen() {
                        (if t.has_view {
                            seq![Effect::ExitDocumentFullscreen(t.id)]
                        } else {
                            Seq::empty()
                        }) + seq![Effect::SetWindowFullscreen(false), Effect::ResizeViews]
                    } else {
                        Seq::empty()
                    };
                    r == leave + (if t.has_view {
                        seq![Effect::ReloadView(t.id)]
                    } else {
                        Seq::empty()
                    })
                })
    }

    /// Reloads the active tab, leaving page fullscreen first; its surface
    /// is redrawn once the reload finishes.
    pub fn reload_active(&mut self) -> (r: Vec<Effect>)
        requires
            old(self).wf(),
        ensures
            final(self).wf(),
            Self::reload_active_outcome(*old(self), *final(self), r@),

    {
        let mut effects: Vec<Effect> = Vec::new();
        let a = self.active;
        let id = self.tabs[a].id;
        let has_view = self.tabs[a].has_view;
        if self.content_fullscreen {
            if has_view {
                effects.push(Effect::ExitDocumentFullscreen(id));
            }
            self.set_fullscreen_internal(id, false, &mut effects);
        }
        self.refresh_surface_after_load = Some(id);
        if has_view {
            effects.push(Effect::ReloadView(id));
        }
        proof {
            let t = old(self).tab_list()[old(self).active_index()];
            let leave = if old(self).page_fullscreen() {
                (if t.has_view {
                    seq![Effect::ExitDocumentFullscreen(t.id)]
                } else {
                    Seq::empty()
                }) + seq![Effect::SetWindowFullscreen(false), Effect::ResizeViews]
            } else {
                Seq::empty()
            };
            assert(effects@ =~= leave + (if t.has_view {
                seq![Effect::ReloadView(t.id)]
            } else {
                Seq::empty()
            }));
        }
        effects
    }

    /// The tab whose surface is redrawn after its next load.
    pub closed spec fn refresh_pending(&self) -> Option<u64> {
        self.refresh_surface_after_load
    }

    /// The reload could not start: no redraw is pending.
    pub fn reload_failed(&mut self)
        requires
            old(self).wf(),
        ensures
            final(self).wf(),
            final(self).refresh_pending() is None,
            final(self).tab_list() == old(self).tab_list(),
            final(self).active_index() == old(self).active_index(),
    {
        self.refresh_surface_after_load = None;
    }

    proof fn lemma_same_ids(pre: Seq<Tab>, post: Seq<Tab>, next: u64)
        requires
            pre.len() == post.len(),
            forall|i: int| 0 <= i < pre.len() ==> (#[trigger] post[i]).id == pre[i].id,
            forall|i: int| 0 <= i < pre.len() ==> (#[trigger] pre[i]).id < next,
            forall|i: int, j: int|
                0 <= i < pre.len() && 0 <= j < pre.len() && i != j ==> (#[trigger] pre[i]).id != (
                #[trigger] pre[j]).id,
        ensures
            forall|i: int| 0 <= i < post.len() ==> (#[trigger] post[i]).id < next,
            forall|i: int, j: int|
                0 <= i < post.len() && 0 <= j < post.len() && i != j ==> (#[trigger] post[i]).id != (
                #[trigger] post[j]).id,
    {
        assert forall|i: int| 0 <= i < post.len() implies (#[trigger] post[i]).id < next by {
            assert(post[i].id == pre[i].id);
        }
        assert forall|i: int, j: int|
            0 <= i < post.len() && 0 <= j < post.len() && i != j implies (#[trigger] post[i]).id != (
            #[trigger] post[j]).id by {
            assert(post[i].id == pre[i].id);
            assert(post[j].id == pre[j].id);
        }
    }

    /// The index of the first bookmark for `url`.
    pub open spec fn bookmark_index(b: Seq<(Seq<char>, Seq<char>)>, url: Seq<char>) -> Option<int>
        decreases b.len(),
    {
        if b.len() == 0 {
            None
        } else if b[0].1 == url {
            Some(0)
        } else {
            match Self::bookmark_index(b.drop_first(), url) {
                Some(i) => Some(i + 1),
                None => None,
            }
        }
    }

    proof fn lemma_bookmark_scan(b: Seq<(Seq<char>, Seq<char>)>, url: Seq<char>, k: int)
        requires
            0 <= k <= b.len(),
            forall|j: int| 0 <= j < k ==> (#[trigger] b[j]).1 != url,
        ensures
            Self::bookmark_index(b, url) == (match Self::bookmark_index(b.skip(k), url) {
                Some(i) => Some(i + k),
                None => None::<int>,
            }),
        decreases k,
    {
        if k == 0 {
            assert(b.skip(0) =~= b);
            match Self::bookmark_index(b, url) {
                Some(i) => {},
                None => {},
            }
        } else {
            assert(b[0].1 != url);
            Self::lemma_bookmark_scan(b.drop_first(), url, k - 1);
            assert(b.drop_first().skip(k - 1) =~= b.skip(k));
        }
    }

    fn find_bookmark(&self, url: &String) -> (r: Option<usize>)
        ensures
            match r {
                Some(i) => Self::bookmark_index(self.config@.bookmarks, url@) == Some(i as int)
                    && i < self.config.bookmarks@.len(),
                None => Self::bookmark_index(self.config@.bookmarks, url@) is None,
            },
    {
        let ghost b = self.config@.bookmarks;
        let target = chars_of(url.as_str());
        let mut i: usize = 0;
        while i < self.config.bookmarks.len()
            invariant
                i <= self.config.bookmarks@.len(),
                b == bookmark_views(self.config.bookmarks@),
                target@ == url@,
                forall|j: int| 0 <= j < i ==> (#[trigger] b[j]).1 != url@,
            decreases self.config.bookmarks.len() - i,
        {
            assert(b[i as int].1 == self.config.bookmarks@[i as int].url@);
            if chars_eq(&chars_of(self.config.bookmarks[i].url.as_str()), &target) {
                proof {
                    Self::lemma_bookmark_scan(b, url@, i as int);
                    assert(b.skip(i as int)[0] == b[i as int]);
                }
                return Some(i);
            }
            i = i + 1;
        }
        proof {
            Self::lemma_bookmark_scan(b, url@, i as int);
            assert(b.skip(i as int).len() == 0);
        }
        None
    }

    proof fn lemma_bookmark_none(b: Seq<(Seq<char>, Seq<char>)>, url: Seq<char>)
        requires
            Self::bookmark_index(b, url) is None,
        ensures
            forall|j: int| 0 <= j < b.len() ==> (#[trigger] b[j]).1 != url,
        decreases b.len(),
    {
        if b.len() > 0 {
            Self::lemma_bookmark_none(b.drop_first(), url);
            assert forall|j: int| 0 <= j < b.len() implies (#[trigger] b[j]).1 != url by {
                if j > 0 {
                    assert(b[j] == b.drop_first()[j - 1]);
                }
            }
        }
    }

    /// The bookmarks after toggling the bookmark of a page.
    pub open spec fn toggled_bookmarks(b: Seq<(Seq<char>, Seq<char>)>, title: Seq<char>, url: Seq<char>) -> Seq<(Seq<char>, Seq<char>)> {
        match Self::bookmark_index(b, url) {
            Some(i) => b.remove(i),
            None => b.push((title, url)),
        }
    }

    /// Bookmarking a page that is not bookmarked, and toggling again, gives
    /// back the bookmarks one started from.
    pub proof fn toggle_bookmark_twice_restores(b: Seq<(Seq<char>, Seq<char>)>, title: Seq<char>, url: Seq<char>)
        requires
            Self::bookmark_index(b, url) is None,
        ensures
            Self::toggled_bookmarks(Self::toggled_bookmarks(b, title, url), title, url) == b,
    {
        let added = b.push((title, url));
        Self::lemma_bookmark_none(b, url);
        assert forall|j: int| 0 <= j < b.len() implies (#[trigger] added[j]).1 != url by {
            assert(added[j] == b[j]);
        }
        Self::lemma_bookmark_scan(added, url, b.len() as int);
        assert(added.skip(b.len() as int)[0] == (title, url));
        assert(added.remove(b.len() as int) =~= b);
    }

    /// What the bookmark commands leave unchanged: tabs, active tab and the
    /// settings other than bookmarks and session.
    pub open spec fn keeps_tabs(pre: Browser, post: Browser) -> bool {
        &&& post.tab_list() == pre.tab_list()
        &&& post.active_index() == pre.active_index()
        &&& post.next_id() == pre.next_id()
        &&& post.page_fullscreen() == pre.page_fullscreen()
        &&& post.settings()@.restore_urls == pre.tab_list().map_values(|t: TabView| t.url)
        &&& Self::keeps_side_state(pre, post)
    }

    /// What `toggle_bookmark` does.
    pub open spec fn toggle_bookmark_outcome(pre: Browser, post: Browser, r: Seq<Effect>) -> bool {
        let t = pre.tab_list()[pre.active_index()];
        &&& Self::keeps_tabs(pre, post)
        &&& post.settings()@.bookmarks == Self::toggled_bookmarks(pre.settings()@.bookmarks, t.title, t.url)
        &&& post.settings()@ == Self::saved_settings(
            ConfigView { bookmarks: post.settings()@.bookmarks, ..pre.settings()@ },
            pre.tab_list(),
            pre.download_list(),
        )
        &&& r == seq![Effect::SaveConfig, Effect::RenderChrome]
    }

    /// Bookmarks the active page, or removes its bookmark.
    pub fn toggle_bookmark(&mut self) -> (r: Vec<Effect>)
        requires
            old(self).wf(),
        ensures
            final(self).wf(),
            Self::toggle_bookmark_outcome(*old(self), *final(self), r@),
    {
        let url = self.tabs[self.active].url.clone();
        assert(old(self).tab_list()[old(self).active_index()] == old(self).tabs@[old(self).active as int]@);
        match self.find_bookmark(&url) {
            Some(index) => {
                self.config.bookmarks.remove(index);
                let mut effects: Vec<Effect> = Vec::new();
                self.persist(&mut effects);
                effects.push(Effect::RenderChrome);
                assert(bookmark_views(self.config.bookmarks@) =~= old(self).config@.bookmarks.remove(index as int));
                assert(effects@ =~= seq![Effect::SaveConfig, Effect::RenderChrome]);
                effects
            },
            None => {
                let r = self.add_active_bookmark();
                r
            },
        }
    }

    /// What `add_active_bookmark` does.
    pub open spec fn add_active_bookmark_outcome(pre: Browser, post: Browser, r: Seq<Effect>) -> bool {
        let t = pre.tab_list()[pre.active_index()];
        let b = pre.settings()@.bookmarks;
        &&& Self::keeps_tabs(pre, post)
        &&& post.settings()@.bookmarks == (if Self::bookmark_index(b, t.url) is Some {
            b
        } else {
            b.push((t.title, t.url))
        })
        &&& post.settings()@ == Self::saved_settings(
            ConfigView { bookmarks: post.settings()@.bookmarks, ..pre.settings()@ },
            pre.tab_list(),
            pre.download_list(),
        )
        &&& r == seq![Effect::SaveConfig, Effect::RenderChrome]
    }

    /// Adds the active page to the shortcuts unless it is there already.
    pub fn add_active_bookmark(&mut self) -> (r: Vec<Effect>)
        requires
            old(self).wf(),
        ensures
            final(self).wf(),
            Self::add_active_bookmark_outcome(*old(self), *final(self), r@),
    {
        let a = self.active;
        let url = self.tabs[a].url.clone();
        if self.find_bookmark(&url).is_none() {
            let title = self.tabs[a].title.clone();
            self.config.bookmarks.push(Bookmark { title, url });
            assert(bookmark_views(self.config.bookmarks@) =~= old(self).config@.bookmarks.push(
                (old(self).tabs@[a as int].title@, old(self).tabs@[a as int].url@),
            ));
        }
        let mut effects: Vec<Effect> = Vec::new();
        self.persist(&mut effects);
        effects.push(Effect::RenderChrome);
        assert(effects@ =~= seq![Effect::SaveConfig, Effect::RenderChrome]);
        effects
    }

    /// What `remove_bookmark` does.
    pub open spec fn remove_bookmark_outcome(pre: Browser, post: Browser, url: Seq<char>, r: Seq<Effect>) -> bool {
        &&& Self::keeps_tabs(pre, post)
        &&& post.settings()@.bookmarks == pre.settings()@.bookmarks.filter(
            |x: (Seq<char>, Seq<char>)| x.1 != url,
        )
        &&& post.settings()@ == Self::saved_settings(
            ConfigView { bookmarks: post.settings()@.bookmarks, ..pre.settings()@ },
            pre.tab_list(),
            pre.download_list(),
        )
        &&& r == seq![Effect::SaveConfig, Effect::RenderChrome]
    }

    /// Removes every bookmark for `url`.
    pub fn remove_bookmark(&mut self, url: &str) -> (r: Vec<Effect>)
        requires
            old(self).wf(),
        ensures
            final(self).wf(),
            Self::remove_bookmark_outcome(*old(self), *final(self), url@, r@),
    {
        let target = chars_of(url);
        let ghost b = old(self).config@.bookmarks;
        let ghost pred = |x: (Seq<char>, Seq<char>)| x.1 != url@;
        let mut kept: Vec<Bookmark> = Vec::new();
        let mut i: usize = 0;
        while i < self.config.bookmarks.len()
            invariant
                i <= self.config.bookmarks@.len(),
                b == bookmark_views(self.config.bookmarks@),
                target@ == url@,
                pred == (|x: (Seq<char>, Seq<char>)| x.1 != url@),
                bookmark_views(kept@) == b.take(i as int).filter(pred),
            decreases self.config.bookmarks.len() - i,
        {
            let item = &self.config.bookmarks[i];
            let keep = !chars_eq(&chars_of(item.url.as_str()), &target);
            assert(b[i as int].1 == item.url@);
            assert(pred(b[i as int]) == keep);
            let ghost before = bookmark_views(kept@);
            if keep {
                kept.push(Bookmark { title: item.title.clone(), url: item.url.clone() });
                assert(bookmark_views(kept@) =~= before.push(b[i as int]));
            }
            proof {
                reveal_with_fuel(Seq::<_>::filter, 1);
                assert(b.take(i + 1).drop_last() =~= b.take(i as int));
                assert(b.take(i + 1).last() == b[i as int]);
            }
            i = i + 1;
        }
        assert(b.take(i as int) =~= b);
        self.config.bookmarks = kept;
        let mut effects: Vec<Effect> = Vec::new();
        self.persist(&mut effects);
        effects.push(Effect::RenderChrome);
        assert(effects@ =~= seq![Effect::SaveConfig, Effect::RenderChrome]);
        effects
    }

    /// The minutes after which hidden tabs are discarded: between 1 and 120.
    pub open spec fn clamped_minutes(m: u64) -> u64 {
        if m < 1 {
            1
        } else if m > 120 {
            120
        } else {
            m
        }
    }

    /// What `set_discard` does.
    pub open spec fn set_discard_outcome(pre: Browser, post: Browser, minutes: u64, r: Seq<Effect>) -> bool {
        &&& Self::keeps_tabs(pre, post)
        &&& post.settings()@ == Self::saved_settings(
            ConfigView { discard_after_minutes: Self::clamped_minutes(minutes), ..pre.settings()@ },
            pre.tab_list(),
            pre.download_list(),
        )
        &&& r == seq![Effect::SaveConfig, Effect::RenderChrome]
    }

    /// Sets how long hidden tabs keep their views.
    pub fn set_discard(&mut self, minutes: u64) -> (r: Vec<Effect>)
        requires
            old(self).wf(),
        ensures
            final(self).wf(),
            Self::set_discard_outcome(*old(self), *final(self), minutes, r@),
    {
        self.config.discard_after_minutes = if minutes < 1 {
            1
        } else if minutes > 120 {
            120
        } else {
            minutes
        };
        let mut effects: Vec<Effect> = Vec::new();
        self.persist(&mut effects);
        effects.push(Effect::RenderChrome);
        assert(effects@ =~= seq![Effect::SaveConfig, Effect::RenderChrome]);
        effects
    }

    /// The ids of the tabs whose views are discarded, in strip order.
    pub open spec fn discarded_ids(tabs: Seq<TabView>, active: int, force: bool, now: u64, timeout: u64) -> Seq<u64>
        decreases tabs.len(),
    {
        if tabs.len() == 0 {
            Seq::empty()
        } else {
            let rest = Self::discarded_ids(tabs.drop_last(), active, force, now, timeout);
            if should_discard(tabs.last(), tabs.len() - 1 == active, force, now, timeout) {
                rest.push(tabs.last().id)
            } else {
                rest
            }
        }
    }

    /// The tabs after discarding: every hidden tab whose time is up (every
    /// hidden tab, when forced) loses its view.
    pub open spec fn after_discard(tabs: Seq<TabView>, active: int, force: bool, now: u64, timeout: u64) -> Seq<TabView> {
        Seq::new(
            tabs.len(),
            |i: int|
                if should_discard(tabs[i], i == active, force, now, timeout) {
                    TabView { has_view: false, ..tabs[i] }
                } else {
                    tabs[i]
                },
        )
    }

    /// What discarding asks of the window: drop each view, then redraw the
    /// interface if any was dropped.
    pub open spec fn discard_effects(tabs: Seq<TabView>, active: int, force: bool, now: u64, timeout: u64) -> Seq<Effect> {
        let ids = Self::discarded_ids(tabs, active, force, now, timeout);
        ids.map_values(|id: u64| Effect::DropView(id)) + (if ids.len() > 0 {
            seq![Effect::RenderChrome]
        } else {
            Seq::empty()
        })
    }

    /// What `discard_expired_tabs` does.
    pub open spec fn discard_outcome(pre: Browser, post: Browser, force: bool, now: u64, r: Seq<Effect>) -> bool {
        let timeout = discard_timeout_ms(pre.settings().discard_after_minutes);
        &&& post.tab_list() == Self::after_discard(pre.tab_list(), pre.active_index(), force, now, timeout)
        &&& post.active_index() == pre.active_index()
        &&& post.next_id() == pre.next_id()
        &&& post.settings() == pre.settings()
        &&& post.page_fullscreen() == pre.page_fullscreen()
        &&& Self::keeps_side_state(pre, post)
        &&& r == Self::discard_effects(pre.tab_list(), pre.active_index(), force, now, timeout)
    }

    fn discard_internal(&mut self, force: bool, now: u64, effects: &mut Vec<Effect>)
        requires
            old(self).wf(),
        ensures
            final(self).wf(),
            Self::discard_outcome(*old(self), *final(self), force, now, final(effects)@.skip(old(effects)@.len() as int)),
            final(effects)@.take(old(effects)@.len() as int) == old(effects)@,
            final(self).config == old(self).config,
            final(self).downloads == old(self).downloads,
            final(self).next_tab_id == old(self).next_tab_id,
            final(self).content_fullscreen == old(self).content_fullscreen,
            final(self).update_status == old(self).update_status,
            final(self).update_path == old(self).update_path,
            final(self).update_sha256 == old(self).update_sha256,
            final(self).update_version == old(self).update_version,
            final(self).refresh_surface_after_load == old(self).refresh_surface_after_load,
            final(self).window_is_focused == old(self).window_is_focused,
            final(self).downloads_panel_open == old(self).downloads_panel_open,
    {
        let timeout = discard_timeout(self.config.discard_after_minutes);
        let ghost pre = self.tab_list();
        let ghost e0 = effects@;
        let ghost active = self.active as int;
        let mut changed = false;
        let mut i: usize = 0;
        while i < self.tabs.len()
            invariant
                i <= self.tabs@.len() == pre.len(),
                active == self.active as int,
                active < pre.len(),
                self.next_tab_id == old(self).next_tab_id,
                self.config == old(self).config,
                self.downloads == old(self).downloads,
                self.content_fullscreen == old(self).content_fullscreen,
                self.update_status == old(self).update_status,
                self.update_path == old(self).update_path,
                self.update_sha256 == old(self).update_sha256,
                self.update_version == old(self).update_version,
                self.refresh_surface_after_load == old(self).refresh_surface_after_load,
                self.window_is_focused == old(self).window_is_focused,
                self.downloads_panel_open == old(self).downloads_panel_open,
                pre == old(self).tab_list(),
                timeout == discard_timeout_ms(old(self).config.discard_after_minutes),
                effects@ == e0 + Self::discarded_ids(pre.take(i as int), active, force, now, timeout).map_values(|id: u64| Effect::DropView(id)),
                changed == (Self::discarded_ids(pre.take(i as int), active, force, now, timeout).len() > 0),
                forall|k: int|
                    0 <= k < pre.len() ==> #[trigger] tab_views(self.tabs@)[k] == (if k < i && should_discard(
                        pre[k],
                        k == active,
                        force,
                        now,
                        timeout,
                    ) {
                        TabView { has_view: false, ..pre[k] }
                    } else {
                        pre[k]
                    }),
            decreases self.tabs.len() - i,
        {
            let ghost prev = self.tabs@;
            let t = &self.tabs[i];
            assert(tab_views(self.tabs@)[i as int] == pre[i as int]);
            let idle: u64 = if now >= t.last_active {
                now - t.last_active
            } else {
                0
            };
            let discard = i != self.active && t.has_view && (force || idle >= timeout);
            let id = t.id;
            let ghost ids_before = Self::discarded_ids(pre.take(i as int), active, force, now, timeout);
            proof {
                assert(pre.take(i + 1).drop_last() =~= pre.take(i as int));
                assert(pre.take(i + 1).last() == pre[i as int]);
            }
            if discard {
                self.tabs[i].has_view = false;
                effects.push(Effect::DropView(id));
                changed = true;
                assert(ids_before.push(id).map_values(|x: u64| Effect::DropView(x)) =~= ids_before.map_values(|x: u64| Effect::DropView(x)).push(Effect::DropView(id)));
            }
            assert forall|k: int| 0 <= k < pre.len() implies #[trigger] tab_views(self.tabs@)[k] == (if k < i + 1 && should_discard(
                pre[k],
                k == active,
                force,
                now,
                timeout,
            ) {
                TabView { has_view: false, ..pre[k] }
            } else {
                pre[k]
            }) by {
                if k != i {
                    assert(self.tabs@[k] == prev[k]);
                    assert(tab_views(prev)[k] == prev[k]@);
                }
            }
            i = i + 1;
        }
        assert(pre.take(i as int) =~= pre);
        proof {
            assert forall|k: int| 0 <= k < old(self).tabs@.len() implies (#[trigger] self.tabs@[k]).id == old(self).tabs@[k].id by {
                assert(tab_views(self.tabs@)[k].id == pre[k].id);
                assert(pre[k] == old(self).tabs@[k]@);
            }
            Self::lemma_same_ids(old(self).tabs@, self.tabs@, self.next_tab_id);
        }
        if changed {
            effects.push(Effect::RenderChrome);
        }
        let ghost ids = Self::discarded_ids(pre, active, force, now, timeout);
        assert(effects@.skip(e0.len() as int) =~= ids.map_values(|x: u64| Effect::DropView(x)) + (if ids.len() > 0 {
            seq![Effect::RenderChrome]
        } else {
            Seq::empty()
        }));
        assert(effects@.take(e0.len() as int) =~= e0);
        assert(self.tab_list() =~= Self::after_discard(pre, active, force, now, timeout));
    }

    /// Discards the views of hidden tabs whose time is up, or of all hidden
    /// tabs when forced.
    pub fn discard_expired_tabs(&mut self, force: bool, now: u64) -> (r: Vec<Effect>)
        requires
            old(self).wf(),
        ensures
            final(self).wf(),
            Self::discard_outcome(*old(self), *final(self), force, now, r@),
    {
        let mut effects: Vec<Effect> = Vec::new();
        self.discard_internal(force, now, &mut effects);
        assert(effects@.skip(0) =~= effects@);
        effects
    }

    /// When the next hidden tab's view is due to be discarded: the earliest
    /// last activity plus the timeout among hidden tabs that have a view.
    pub fn next_discard_deadline(&self) -> (r: Option<u64>)
        requires
            self.wf(),
        ensures
            ({
                let timeout = discard_timeout_ms(self.settings().discard_after_minutes);
                match r {
                    None => forall|i: int|
                        0 <= i < self.tab_list().len() && i != self.active_index() ==> !(
                        #[trigger] self.tab_list()[i]).has_view,
                    Some(d) => (exists|i: int|
                        0 <= i < self.tab_list().len() && i != self.active_index() && (
                        #[trigger] self.tab_list()[i]).has_view && due_time(self.tab_list()[i].last_active, timeout) == d) && (forall|i: int|
                        0 <= i < self.tab_list().len() && i != self.active_index() && (
                        #[trigger] self.tab_list()[i]).has_view ==> d <= due_time(self.tab_list()[i].last_active, timeout)),
                }
            }),
    {
        let timeout = discard_timeout(self.config.discard_after_minutes);
        let mut best: Option<u64> = None;
        let mut i: usize = 0;
        while i < self.tabs.len()
            invariant
                i <= self.tabs@.len(),
                self.active < self.tabs@.len(),
                timeout == discard_timeout_ms(self.config.discard_after_minutes),
                match best {
                    None => forall|k: int|
                        0 <= k < i && k != self.active ==> !(#[trigger] tab_views(self.tabs@)[k]).has_view,
                    Some(d) => (exists|k: int|
                        0 <= k < i && k != self.active && (#[trigger] tab_views(self.tabs@)[k]).has_view
                            && due_time(tab_views(self.tabs@)[k].last_active, timeout) == d) && (forall|k: int|
                        0 <= k < i && k != self.active && (#[trigger] tab_views(self.tabs@)[k]).has_view ==> d
                            <= due_time(tab_views(self.tabs@)[k].last_active, timeout)),
                },
            decreases self.tabs.len() - i,
        {
            let t = &self.tabs[i];
            assert(tab_views(self.tabs@)[i as int] == t@);
            if i != self.active && t.has_view {
                let deadline: u64 = if t.last_active > u64::MAX - timeout {
                    u64::MAX
                } else {
                    t.last_active + timeout
                };
                assert(deadline == due_time(t.last_active, timeout));
                best = match best {
                    None => Some(deadline),
                    Some(d) => if deadline < d {
                        Some(deadline)
                    } else {
                        Some(d)
                    },
                };
            }
            i = i + 1;
        }
        assert(self.tab_list() =~= tab_views(self.tabs@));
        best
    }

    /// What a settings switch leaves unchanged besides the saved session.
    pub open spec fn keeps_state(pre: Browser, post: Browser) -> bool {
        &&& post.tab_list() == pre.tab_list()
        &&& post.active_index() == pre.active_index()
        &&& post.next_id() == pre.next_id()
        &&& post.page_fullscreen() == pre.page_fullscreen()
        &&& post.download_list() == pre.download_list()
        &&& post.update_state() == pre.update_state()
        &&& post.update_info() == pre.update_info()
        &&& post.panel_open() == pre.panel_open()
        &&& post.focused() == pre.focused()
        &&& post.refresh_pending() == pre.refresh_pending()
    }

    /// What `toggle_ultra_light` does: the switch flips; switched on, every
    /// hidden tab loses its view at once.
    pub open spec fn toggle_ultra_light_outcome(pre: Browser, post: Browser, now: u64, r: Seq<Effect>) -> bool {
        let on = !pre.settings().ultra_light_mode;
        let timeout = discard_timeout_ms(pre.settings().discard_after_minutes);
        let tabs = if on {
            Self::after_discard(pre.tab_list(), pre.active_index(), true, now, timeout)
        } else {
            pre.tab_list()
        };
        &&& post.tab_list() == tabs
        &&& post.active_index() == pre.active_index()
        &&& post.next_id() == pre.next_id()
        &&& post.page_fullscreen() == pre.page_fullscreen()
        &&& Self::keeps_side_state(pre, post)
        &&& post.settings()@ == Self::saved_settings(
            ConfigView { ultra_light_mode: on, ..pre.settings()@ },
            tabs,
            pre.download_list(),
        )
        &&& r == (if on {
            Self::discard_effects(pre.tab_list(), pre.active_index(), true, now, timeout)
        } else {
            Seq::empty()
        }) + seq![Effect::SaveConfig, Effect::RenderChrome]
    }

    /// Switches ultra-light mode; switching it on discards every hidden
    /// tab's view.
    pub fn toggle_ultra_light(&mut self, now: u64) -> (r: Vec<Effect>)
        requires
            old(self).wf(),
        ensures
            final(self).wf(),
            Self::toggle_ultra_light_outcome(*old(self), *final(self), now, r@),
    {
        let mut effects: Vec<Effect> = Vec::new();
        self.config.ultra_light_mode = !self.config.ultra_light_mode;
        let ghost mid = *self;
        assert(mid.settings()@ == ConfigView { ultra_light_mode: !old(self).config.ultra_light_mode, ..old(self).settings()@ });
        if self.config.ultra_light_mode {
            self.discard_internal(true, now, &mut effects);
            assert(effects@.skip(0) =~= effects@);
        }
        self.persist(&mut effects);
        effects.push(Effect::RenderChrome);
        proof {
            let on = !old(self).config.ultra_light_mode;
            let timeout = discard_timeout_ms(old(self).settings().discard_after_minutes);
            let d = if on {
                Self::discard_effects(old(self).tab_list(), old(self).active_index(), true, now, timeout)
            } else {
                Seq::empty()
            };
            assert(effects@ =~= d + seq![Effect::SaveConfig, Effect::RenderChrome]);
        }
        effects
    }

    /// What `toggle_reduce_motion` does: the switch flips and the active page
    /// reloads, so that its scripts see the new setting.
    pub open spec fn toggle_reduce_motion_outcome(pre: Browser, post: Browser, r: Seq<Effect>) -> bool {
        let t = pre.tab_list()[pre.active_index()];
        &&& Self::keeps_state(pre, post)
        &&& post.settings()@ == Self::saved_settings(
            ConfigView { reduce_motion: !pre.settings()@.reduce_motion, ..pre.settings()@ },
            pre.tab_list(),
            pre.download_list(),
        )
        &&& r == seq![Effect::SaveConfig] + (if t.has_view {
            seq![Effect::ReloadView(t.id)]
        } else {
            Seq::empty()
        }) + seq![Effect::RenderChrome]
    }

    /// Switches the reduced-motion script for pages.
    pub fn toggle_reduce_motion(&mut self) -> (r: Vec<Effect>)
        requires
            old(self).wf(),
        ensures
            final(self).wf(),
            Self::toggle_reduce_motion_outcome(*old(self), *final(self), r@),
    {
        let mut effects: Vec<Effect> = Vec::new();
        self.config.reduce_motion = !self.config.reduce_motion;
        self.persist(&mut effects);
        let a = self.active;
        assert(old(self).tab_list()[a as int] == old(self).tabs@[a as int]@);
        if self.tabs[a].has_view {
            effects.push(Effect::ReloadView(self.tabs[a].id));
        }
        effects.push(Effect::RenderChrome);
        proof {
            let t = old(self).tab_list()[old(self).active_index()];
            assert(effects@ =~= seq![Effect::SaveConfig] + (if t.has_view {
                seq![Effect::ReloadView(t.id)]
            } else {
                Seq::empty()
            }) + seq![Effect::RenderChrome]);
        }
        effects
    }

    /// What `toggle_background_pause` does.
    pub open spec fn toggle_background_pause_outcome(pre: Browser, post: Browser, r: Seq<Effect>) -> bool {
        &&& Self::keeps_state(pre, post)
        &&& post.settings()@ == Self::saved_settings(
            ConfigView { pause_media_when_unfocused: !pre.settings()@.pause_media_when_unfocused, ..pre.settings()@ },
            pre.tab_list(),
            pre.download_list(),
        )
        &&& r == seq![Effect::SaveConfig, Effect::RenderChrome]
    }

    /// Switches pausing media when the window loses the focus.
    pub fn toggle_background_pause(&mut self) -> (r: Vec<Effect>)
        requires
            old(self).wf(),
        ensures
            final(self).wf(),
            Self::toggle_background_pause_outcome(*old(self), *final(self), r@),
    {
        let mut effects: Vec<Effect> = Vec::new();
        self.config.pause_media_when_unfocused = !self.config.pause_media_when_unfocused;
        self.persist(&mut effects);
        effects.push(Effect::RenderChrome);
        assert(effects@ =~= seq![Effect::SaveConfig, Effect::RenderChrome]);
        effects
    }

    /// What `toggle_video_compatibility` does: the stored choice flips and is
    /// saved; this run's pages keep how they were started.
    pub open spec fn toggle_video_compatibility_outcome(pre: Browser, post: Browser, r: Seq<Effect>) -> bool {
        &&& Self::keeps_state(pre, post)
        &&& post.settings()@ == Self::saved_settings(
            ConfigView { video_compatibility_mode: !pre.settings()@.video_compatibility_mode, ..pre.settings()@ },
            pre.tab_list(),
            pre.download_list(),
        )
        &&& post.started_without_gpu() == pre.started_without_gpu()
        &&& r == seq![Effect::SaveConfig, Effect::RenderChrome]
    }

    /// Switches showing pages without GPU acceleration; the choice takes
    /// effect at the next start.
    pub fn toggle_video_compatibility(&mut self) -> (r: Vec<Effect>)
        requires
            old(self).wf(),
        ensures
            final(self).wf(),
            Self::toggle_video_compatibility_outcome(*old(self), *final(self), r@),
    {
        let mut effects: Vec<Effect> = Vec::new();
        self.config.video_compatibility_mode = !self.config.video_compatibility_mode;
        self.persist(&mut effects);
        effects.push(Effect::RenderChrome);
        assert(effects@ =~= seq![Effect::SaveConfig, Effect::RenderChrome]);
        effects
    }

    /// Whether a text differs from `h`.
    pub open spec fn other_than(h: Seq<char>) -> spec_fn(Seq<char>) -> bool {
        |x: Seq<char>| x != h
    }

    /// The hosts where blocking is off, once it was switched for `host`:
    /// every copy removed when blocking came back on, added once when it went
    /// off.
    pub open spec fn switched_hosts(hosts: Seq<Seq<char>>, host: Seq<char>, enabled: bool) -> Seq<Seq<char>> {
        if enabled {
            hosts.filter(Self::other_than(host))
        } else if hosts.contains(host) {
            hosts
        } else {
            hosts.push(host)
        }
    }

    /// The reload asked for when a setting changes what the active page runs.
    pub open spec fn reload_if_shown(t: TabView) -> Seq<Effect> {
        if t.has_view {
            seq![Effect::ReloadView(t.id)]
        } else {
            Seq::empty()
        }
    }

    /// What `toggle_adblock` does, given the hosts where blocking was off.
    pub open spec fn toggle_adblock_outcome(pre: Browser, post: Browser, was_off: Set<Seq<char>>, r: Seq<Effect>) -> bool {
        let t = pre.tab_list()[pre.active_index()];
        match host_of(t.url) {
            None => post == pre && r == Seq::<Effect>::empty(),
            Some(h) => {
                &&& Self::keeps_state(pre, post)
                &&& post.settings()@ == Self::saved_settings(
                    ConfigView {
                        adblock_disabled_hosts: Self::switched_hosts(
                            pre.settings()@.adblock_disabled_hosts,
                            h,
                            was_off.contains(h),
                        ),
                        ..pre.settings()@
                    },
                    pre.tab_list(),
                    pre.download_list(),
                )
                &&& r == seq![Effect::SaveConfig] + Self::reload_if_shown(t) + seq![Effect::RenderChrome]
            },
        }
    }

    /// Switches blocking for the active page's host, in the blocker and in
    /// the saved settings, and reloads the page.
    pub fn toggle_adblock(&mut self, blocker: &mut BlockerManager) -> (r: Vec<Effect>)
        requires
            old(self).wf(),
            old(blocker).wf(),
        ensures
            final(self).wf(),
            final(blocker).wf(),
            Self::toggle_adblock_outcome(*old(self), *final(self), old(blocker).disabled(), r@),
            final(blocker).count() == old(blocker).count(),
            final(blocker).filter_status() == old(blocker).filter_status(),
            final(blocker).disabled() == match host_of(old(self).tab_list()[old(self).active_index()].url) {
                Some(h) => toggled(old(blocker).disabled(), h),
                None => old(blocker).disabled(),
            },
            final(blocker).engine_source() == old(blocker).engine_source(),
    {
        let mut effects: Vec<Effect> = Vec::new();
        let a = self.active;
        assert(old(self).tab_list()[a as int] == old(self).tabs@[a as int]@);
        let url = self.tabs[a].url.clone();
        match blocker.toggle_for_url(url.as_str()) {
            None => effects,
            Some((host, enabled)) => {
                let hosts = switched_host_list(&self.config.adblock_disabled_hosts, &host, enabled);
                self.config.adblock_disabled_hosts = hosts;
                self.persist(&mut effects);
                if self.tabs[a].has_view {
                    effects.push(Effect::ReloadView(self.tabs[a].id));
                }
                effects.push(Effect::RenderChrome);
                proof {
                    let t = old(self).tab_list()[old(self).active_index()];
                    assert(effects@ =~= seq![Effect::SaveConfig] + Self::reload_if_shown(t) + seq![
                        Effect::RenderChrome,
                    ]);
                }
                effects
            },
        }
    }

    /// The ids of the listed downloads.
    pub open spec fn download_ids(d: Seq<DownloadView>) -> Seq<u64> {
        d.map_values(|x: DownloadView| x.id)
    }

    /// The index of the first listed download with that id.
    fn find_download(&self, id: u64) -> (r: Option<usize>)
        ensures
            match r {
                Some(i) => Self::download_ids(self.download_list()).index_of_first(id) == Some(i as int)
                    && i < self.downloads@.len(),
                None => Self::download_ids(self.download_list()).index_of_first(id) is None,
            },
    {
        let ghost ids = Self::download_ids(self.download_list());
        proof {
            ids.index_of_first_ensures(id);
        }
        let mut i: usize = 0;
        while i < self.downloads.len()
            invariant
                i <= self.downloads@.len() == ids.len(),
                ids == Self::download_ids(self.download_list()),
                forall|k: int| 0 <= k < i ==> ids[k] != id,
                match ids.index_of_first(id) {
                    Some(index) => {
                        &&& ids.contains(id)
                        &&& 0 <= index < ids.len()
                        &&& ids[index] == id
                        &&& forall|j: int| 0 <= j < index < ids.len() ==> ids[j] != id
                    },
                    None => !ids.contains(id),
                },
            decreases self.downloads.len() - i,
        {
            assert(ids[i as int] == self.downloads@[i as int].id);
            if self.downloads[i].id == id {
                return Some(i);
            }
            i = i + 1;
        }
        proof {
            if ids.contains(id) {
                let k = choose|k: int| 0 <= k < ids.len() && ids[k] == id;
                assert(ids[k] != id);
            }
        }
        None
    }

    /// What `download_cancelling` does: the first download with that id
    /// shows as being cancelled.
    pub open spec fn download_cancelling_outcome(pre: Browser, post: Browser, id: u64, r: Seq<Effect>) -> bool {
        &&& post.download_list() == match Self::download_ids(pre.download_list()).index_of_first(id) {
            Some(i) => pre.download_list().update(i, DownloadView { status: "cancelling"@, ..pre.download_list()[i] }),
            None => pre.download_list(),
        }
        &&& post.tab_list() == pre.tab_list()
        &&& post.active_index() == pre.active_index()
        &&& post.settings() == pre.settings()
        &&& Self::keeps_window_state(pre, post)
        &&& post.refresh_pending() == pre.refresh_pending()
        &&& r == seq![Effect::RenderChrome]
    }

    /// The window accepted the cancellation of a download.
    pub fn download_cancelling(&mut self, id: u64) -> (r: Vec<Effect>)
        requires
            old(self).wf(),
        ensures
            final(self).wf(),
            Self::download_cancelling_outcome(*old(self), *final(self), id, r@),
    {
        match self.find_download(id) {
            Some(i) => {
                self.downloads[i].status = owned("cancelling");
                assert(self.download_list() =~= old(self).download_list().update(
                    i as int,
                    DownloadView { status: "cancelling"@, ..old(self).download_list()[i as int] },
                ));
            },
            None => {},
        }
        let mut effects: Vec<Effect> = Vec::new();
        effects.push(Effect::RenderChrome);
        assert(effects@ =~= seq![Effect::RenderChrome]);
        effects
    }

    /// What opening a download asks: the first download with that id is
    /// opened (or shown in its folder) when its file is known.
    pub open spec fn open_download_effects(d: Seq<DownloadView>, id: u64, show_in_folder: bool, r: Seq<Effect>) -> bool {
        match Self::download_ids(d).index_of_first(id) {
            Some(i) => if d[i].path.len() > 0 {
                r.len() == 1 && (r[0] matches Effect::OpenDownload(p, s) && p@ == d[i].path && s == show_in_folder)
            } else {
                r == Seq::<Effect>::empty()
            },
            None => r == Seq::<Effect>::empty(),
        }
    }

    /// Opens a download, or shows it in its folder.
    pub fn open_download(&self, id: u64, show_in_folder: bool) -> (r: Vec<Effect>)
        ensures
            Self::open_download_effects(self.download_list(), id, show_in_folder, r@),
    {
        let mut effects: Vec<Effect> = Vec::new();
        match self.find_download(id) {
            Some(i) => {
                assert(self.download_list()[i as int] == self.downloads@[i as int]@);
                if chars_of(self.downloads[i].path.as_str()).len() > 0 {
                    effects.push(Effect::OpenDownload(self.downloads[i].path.clone(), show_in_folder));
                }
            },
            None => {},
        }
        effects
    }

    /// What `clear_downloads` does: only running downloads stay listed.
    pub open spec fn clear_downloads_outcome(pre: Browser, post: Browser, r: Seq<Effect>) -> bool {
        let kept = pre.download_list().filter(|d: DownloadView| is_active_status(d.status));
        &&& post.download_list() == kept
        &&& post.tab_list() == pre.tab_list()
        &&& post.active_index() == pre.active_index()
        &&& post.next_id() == pre.next_id()
        &&& post.page_fullscreen() == pre.page_fullscreen()
        &&& post.panel_open() == pre.panel_open()
        &&& post.focused() == pre.focused()
        &&& post.refresh_pending() == pre.refresh_pending()
        &&& post.update_state() == pre.update_state()
        &&& post.update_info() == pre.update_info()
        &&& post.settings()@ == Self::saved_settings(pre.settings()@, pre.tab_list(), kept)
        &&& r == seq![Effect::SaveConfig, Effect::RenderChrome]
    }

    /// Forgets the downloads that are no longer running.
    pub fn clear_downloads(&mut self) -> (r: Vec<Effect>)
        requires
            old(self).wf(),
        ensures
            final(self).wf(),
            Self::clear_downloads_outcome(*old(self), *final(self), r@),
    {
        let ghost d = old(self).download_list();
        let ghost pred = |x: DownloadView| is_active_status(x.status);
        let mut kept: Vec<DownloadItem> = Vec::new();
        let mut i: usize = 0;
        while i < self.downloads.len()
            invariant
                i <= self.downloads@.len(),
                d == download_views(self.downloads@),
                pred == (|x: DownloadView| is_active_status(x.status)),
                download_views(kept@) == d.take(i as int).filter(pred),
            decreases self.downloads.len() - i,
        {
            let item = &self.downloads[i];
            assert(d[i as int] == item@);
            let ghost before = download_views(kept@);
            if is_active(item.status.as_str()) {
                kept.push(item.copy());
                assert(download_views(kept@) =~= before.push(d[i as int]));
            }
            proof {
                reveal_with_fuel(Seq::<_>::filter, 1);
                assert(d.take(i + 1).drop_last() =~= d.take(i as int));
                assert(d.take(i + 1).last() == d[i as int]);
            }
            i = i + 1;
        }
        assert(d.take(i as int) =~= d);
        self.downloads = kept;
        let mut effects: Vec<Effect> = Vec::new();
        self.persist(&mut effects);
        effects.push(Effect::RenderChrome);
        assert(effects@ =~= seq![Effect::SaveConfig, Effect::RenderChrome]);
        effects
    }

    /// What `set_downloads_panel` does.
    pub open spec fn panel_outcome(pre: Browser, post: Browser, open: bool, r: Seq<Effect>) -> bool {
        &&& post.panel_open() == open
        &&& Self::keeps_browsing(pre, post)
        &&& post.focused() == pre.focused()
        &&& post.refresh_pending() == pre.refresh_pending()
        &&& post.update_state() == pre.update_state()
        &&& post.update_info() == pre.update_info()
        &&& r == seq![Effect::ResizeViews]
    }

    /// Opens or closes the downloads panel; the views are laid out again.
    pub fn set_downloads_panel(&mut self, open: bool) -> (r: Vec<Effect>)
        requires
            old(self).wf(),
        ensures
            final(self).wf(),
            Self::panel_outcome(*old(self), *final(self), open, r@),
    {
        self.downloads_panel_open = open;
        let mut effects: Vec<Effect> = Vec::new();
        effects.push(Effect::ResizeViews);
        assert(effects@ =~= seq![Effect::ResizeViews]);
        effects
    }

    /// What the update commands and events leave unchanged.
    pub open spec fn keeps_browsing(pre: Browser, post: Browser) -> bool {
        &&& post.tab_list() == pre.tab_list()
        &&& post.active_index() == pre.active_index()
        &&& post.next_id() == pre.next_id()
        &&& post.settings() == pre.settings()
        &&& post.page_fullscreen() == pre.page_fullscreen()
        &&& post.download_list() == pre.download_list()
        &&& post.focused() == pre.focused()
        &&& post.refresh_pending() == pre.refresh_pending()
    }

    /// What `check_update` does.
    pub open spec fn check_update_outcome(pre: Browser, post: Browser, update_configured: bool, r: Seq<Effect>) -> bool {
        &&& Self::keeps_browsing(pre, post)
        &&& post.panel_open() == pre.panel_open()
        &&& post.update_info() == pre.update_info()
        &&& if update_configured && pre.update_state() != "checking"@ {
            &&& post.update_state() == "checking"@
            &&& r == seq![Effect::RenderChrome, Effect::StartUpdateCheck]
        } else {
            &&& post.update_state() == pre.update_state()
            &&& r == Seq::<Effect>::empty()
        }
    }

    /// Checks for an update on request, unless updates are not configured
    /// or a check is running.
    pub fn check_update(&mut self, update_configured: bool) -> (r: Vec<Effect>)
        requires
            old(self).wf(),
        ensures
            final(self).wf(),
            Self::check_update_outcome(*old(self), *final(self), update_configured, r@),
    {
        let mut effects: Vec<Effect> = Vec::new();
        if update_configured && !chars_eq(&chars_of(self.update_status.as_str()), &chars_of("checking")) {
            self.update_status = owned("checking");
            effects.push(Effect::RenderChrome);
            effects.push(Effect::StartUpdateCheck);
            assert(effects@ =~= seq![Effect::RenderChrome, Effect::StartUpdateCheck]);
        }
        effects
    }

    /// What `install_update` does.
    pub open spec fn install_update_outcome(pre: Browser, post: Browser, r: Seq<Effect>) -> bool {
        &&& Self::keeps_browsing(pre, post)
        &&& post.panel_open() == pre.panel_open()
        &&& post.update_info() == pre.update_info()
        &&& match (pre.update_info().1, pre.update_info().2) {
            (Some(path), Some(sha)) => {
                &&& post.update_state() == "installing"@
                &&& r.len() == 2
                &&& r[0] == Effect::RenderChrome
                &&& r[1] matches Effect::InstallUpdate(p, s) && p@ == path && s@ == sha
            },
            _ => post.update_state() == pre.update_state() && r == Seq::<Effect>::empty(),
        }
    }

    /// Installs the downloaded update, when there is one.
    pub fn install_update(&mut self) -> (r: Vec<Effect>)
        requires
            old(self).wf(),
        ensures
            final(self).wf(),
            Self::install_update_outcome(*old(self), *final(self), r@),
    {
        let mut effects: Vec<Effect> = Vec::new();
        match (&self.update_path, &self.update_sha256) {
            (Some(path), Some(sha)) => {
                let path = path.clone();
                let sha = sha.clone();
                self.update_status = owned("installing");
                effects.push(Effect::RenderChrome);
                effects.push(Effect::InstallUpdate(path, sha));
            },
            _ => {},
        }
        effects
    }

    /// The installation ended: on success the session is saved and the
    /// browser exits; otherwise the failure is shown.
    pub fn install_finished(&mut self, ok: bool) -> (r: Vec<Effect>)
        requires
            old(self).wf(),
        ensures
            final(self).wf(),
            final(self).tab_list() == old(self).tab_list(),
            final(self).active_index() == old(self).active_index(),
            final(self).next_id() == old(self).next_id(),
            final(self).page_fullscreen() == old(self).page_fullscreen(),
            final(self).download_list() == old(self).download_list(),
            final(self).panel_open() == old(self).panel_open(),
            final(self).focused() == old(self).focused(),
            final(self).refresh_pending() == old(self).refresh_pending(),
            final(self).update_info() == old(self).update_info(),
            ok ==> {
                &&& final(self).settings()@ == Self::saved_settings(
                    old(self).settings()@,
                    old(self).tab_list(),
                    old(self).download_list(),
                )
                &&& final(self).update_state() == old(self).update_state()
                &&& r@ == seq![Effect::SaveConfig, Effect::Exit]
            },
            !ok ==> {
                &&& final(self).settings() == old(self).settings()
                &&& final(self).update_state() == "failed"@
                &&& r@ == seq![Effect::RenderChrome]
            },
    {
        let mut effects: Vec<Effect> = Vec::new();
        if ok {
            self.persist(&mut effects);
            effects.push(Effect::Exit);
            assert(effects@ =~= seq![Effect::SaveConfig, Effect::Exit]);
        } else {
            self.update_status = owned("failed");
            effects.push(Effect::RenderChrome);
            assert(effects@ =~= seq![Effect::RenderChrome]);
        }
        effects
    }

    /// What the update events do: the new state word and update offer,
    /// then a redraw.
    pub open spec fn update_event_outcome(
        pre: Browser,
        post: Browser,
        state: Seq<char>,
        info: (Option<Seq<char>>, Option<Seq<char>>, Option<Seq<char>>),
        r: Seq<Effect>,
    ) -> bool {
        &&& Self::keeps_browsing(pre, post)
        &&& post.panel_open() == pre.panel_open()
        &&& post.update_state() == state
        &&& post.update_info() == info
        &&& r == seq![Effect::RenderChrome]
    }

    /// A newer release was downloaded and checked.
    pub fn update_ready(&mut self, version: String, path: String, sha256: String) -> (r: Vec<Effect>)
        requires
            old(self).wf(),
        ensures
            final(self).wf(),
            Self::update_event_outcome(
                *old(self),
                *final(self),
                "ready"@,
                (Some(version@), Some(path@), Some(sha256@)),
                r@,
            ),
    {
        self.update_status = owned("ready");
        self.update_version = Some(version);
        self.update_path = Some(path);
        self.update_sha256 = Some(sha256);
        let mut effects: Vec<Effect> = Vec::new();
        effects.push(Effect::RenderChrome);
        assert(effects@ =~= seq![Effect::RenderChrome]);
        effects
    }

    /// The running version is the newest.
    pub fn update_current(&mut self) -> (r: Vec<Effect>)
        requires
            old(self).wf(),
        ensures
            final(self).wf(),
            Self::update_event_outcome(
                *old(self),
                *final(self),
                "current"@,
                (None::<Seq<char>>, None::<Seq<char>>, None::<Seq<char>>),
                r@,
            ),
    {
        self.update_status = owned("current");
        self.update_version = None;
        self.update_path = None;
        self.update_sha256 = None;
        let mut effects: Vec<Effect> = Vec::new();
        effects.push(Effect::RenderChrome);
        assert(effects@ =~= seq![Effect::RenderChrome]);
        effects
    }

    /// The update check failed: nothing can be installed.
    pub fn update_failed(&mut self) -> (r: Vec<Effect>)
        requires
            old(self).wf(),
        ensures
            final(self).wf(),
            Self::update_event_outcome(
                *old(self),
                *final(self),
                "failed"@,
                (old(self).update_info().0, None::<Seq<char>>, None::<Seq<char>>),
                r@,
            ),
    {
        self.update_status = owned("failed");
        self.update_path = None;
        self.update_sha256 = None;
        let mut effects: Vec<Effect> = Vec::new();
        effects.push(Effect::RenderChrome);
        assert(effects@ =~= seq![Effect::RenderChrome]);
        effects
    }

    /// Saves the session (when the browser is about to end).
    pub fn save_session(&mut self) -> (r: Vec<Effect>)
        requires
            old(self).wf(),
        ensures
            final(self).wf(),
            final(self).tab_list() == old(self).tab_list(),
            final(self).active_index() == old(self).active_index(),
            Self::keeps_window_state(*old(self), *final(self)),
            Self::keeps_side_state(*old(self), *final(self)),
            final(self).settings()@ == Self::saved_settings(
                old(self).settings()@,
                old(self).tab_list(),
                old(self).download_list(),
            ),
            r@ == seq![Effect::SaveConfig],
    {
        let mut effects: Vec<Effect> = Vec::new();
        self.persist(&mut effects);
        assert(effects@ =~= seq![Effect::SaveConfig]);
        effects
    }

    /// What `close_window` does.
    pub open spec fn close_window_outcome(pre: Browser, post: Browser, r: Seq<Effect>) -> bool {
        &&& post.tab_list() == pre.tab_list()
        &&& post.active_index() == pre.active_index()
        &&& Self::keeps_window_state(pre, post)
        &&& Self::keeps_side_state(pre, post)
        &&& post.settings()@ == Self::saved_settings(pre.settings()@, pre.tab_list(), pre.download_list())
        &&& r == seq![Effect::SaveConfig, Effect::Exit]
    }

    /// Saves the session and ends the browser.
    pub fn close_window(&mut self) -> (r: Vec<Effect>)
        requires
            old(self).wf(),
        ensures
            final(self).wf(),
            Self::close_window_outcome(*old(self), *final(self), r@),
    {
        let mut effects: Vec<Effect> = Vec::new();
        self.persist(&mut effects);
        effects.push(Effect::Exit);
        assert(effects@ =~= seq![Effect::SaveConfig, Effect::Exit]);
        effects
    }

    /// What moving in the history of a tab's page asks: pause its media,
    /// then go back or forward; nothing while it has no view.
    pub open spec fn history_effects(t: TabView, forward: bool) -> Seq<Effect> {
        if t.has_view {
            seq![Effect::PauseMedia(t.id), if forward {
                Effect::GoForward(t.id)
            } else {
                Effect::GoBack(t.id)
            }]
        } else {
            Seq::empty()
        }
    }

    /// Goes back (or forward) in the active page's history.
    pub fn go_in_history(&self, forward: bool) -> (r: Vec<Effect>)
        requires
            self.wf(),
        ensures
            r@ == Self::history_effects(self.tab_list()[self.active_index()], forward),
    {
        let mut effects: Vec<Effect> = Vec::new();
        let t = &self.tabs[self.active];
        assert(self.tab_list()[self.active as int] == t@);
        if t.has_view {
            effects.push(Effect::PauseMedia(t.id));
            if forward {
                effects.push(Effect::GoForward(t.id));
            } else {
                effects.push(Effect::GoBack(t.id));
            }
        }
        assert(effects@ =~= Self::history_effects(t@, forward));
        effects
    }

    /// The position of the tab with that id.
    pub open spec fn tab_index(tabs: Seq<TabView>, id: u64) -> Option<int> {
        Self::ids_of(tabs).index_of_first(id)
    }

    /// What `page_load_event` does. A known tab takes the page's URL and
    /// loading state, and the session is saved. When the load finished, the
    /// cosmetic script runs in the tab's view and a surface redraw waiting
    /// for this tab happens.
    pub open spec fn page_load_outcome(
        pre: Browser,
        post: Browser,
        tab_id: u64,
        url: Seq<char>,
        loading: bool,
        script: Option<String>,
        r: Seq<Effect>,
    ) -> bool {
        let idx = Self::tab_index(pre.tab_list(), tab_id);
        let shown = match idx {
            Some(i) => pre.tab_list()[i].has_view,
            None => false,
        };
        let refresh = !loading && pre.refresh_pending() == Some(tab_id);
        &&& post.tab_list() == match idx {
            Some(i) => pre.tab_list().update(i, TabView { url, loading, ..pre.tab_list()[i] }),
            None => pre.tab_list(),
        }
        &&& post.active_index() == pre.active_index()
        &&& Self::keeps_window_state(pre, post)
        &&& post.download_list() == pre.download_list()
        &&& post.settings()@ == (if idx is Some {
            Self::saved_settings(pre.settings()@, post.tab_list(), pre.download_list())
        } else {
            pre.settings()@
        })
        &&& post.refresh_pending() == (if refresh {
            None
        } else {
            pre.refresh_pending()
        })
        &&& r == (if idx is Some {
            seq![Effect::SaveConfig, Effect::RenderChrome]
        } else {
            Seq::empty()
        }) + (match script {
            Some(s) if !loading && shown => seq![Effect::RunScript(tab_id, s)],
            _ => Seq::empty(),
        }) + (if refresh && shown {
            seq![Effect::RefreshSurface(tab_id)]
        } else {
            Seq::empty()
        })
    }

    /// A page started or finished loading; `script` is the cosmetic filter
    /// script for the page, if any.
    pub fn page_load_event(&mut self, tab_id: u64, url: String, loading: bool, script: Option<String>) -> (r: Vec<Effect>)
        requires
            old(self).wf(),
        ensures
            final(self).wf(),
            Self::page_load_outcome(*old(self), *final(self), tab_id, url@, loading, script, r@),
    {
        let mut effects: Vec<Effect> = Vec::new();
        let ghost script_g = script;
        let found = self.find_tab(tab_id);
        match found {
            Some(i) => {
                self.tabs[i].url = url;
                self.tabs[i].loading = loading;
                proof {
                    assert(self.tab_list() =~= old(self).tab_list().update(
                        i as int,
                        TabView { url: url@, loading, ..old(self).tab_list()[i as int] },
                    ));
                    assert forall|a: int| 0 <= a < self.tabs@.len() implies (#[trigger] self.tabs@[a]).id < self.next_tab_id by {
                        assert(self.tabs@[a].id == old(self).tabs@[a].id);
                    }
                    assert forall|a: int, b: int|
                        0 <= a < self.tabs@.len() && 0 <= b < self.tabs@.len() && a != b implies (
                        #[trigger] self.tabs@[a]).id != (#[trigger] self.tabs@[b]).id by {
                        assert(self.tabs@[a].id == old(self).tabs@[a].id);
                        assert(self.tabs@[b].id == old(self).tabs@[b].id);
                    }
                }
                self.persist(&mut effects);
                effects.push(Effect::RenderChrome);
            },
            None => {},
        }
        let ghost e1 = effects@;
        let shown = match found {
            Some(i) => self.tabs[i].has_view,
            None => false,
        };
        proof {
            match found {
                Some(i) => {
                    assert(old(self).tab_list()[i as int] == old(self).tabs@[i as int]@);
                },
                None => {},
            }
        }
        if !loading {
            match script {
                Some(s) => {
                    if shown {
                        effects.push(Effect::RunScript(tab_id, s));
                    }
                },
                None => {},
            }
        }
        let ghost e2 = effects@;
        let refresh = !loading && self.refresh_surface_after_load == Some(tab_id);
        if refresh {
            self.refresh_surface_after_load = None;
            if shown {
                effects.push(Effect::RefreshSurface(tab_id));
            }
        }
        proof {
            let idx = Self::tab_index(old(self).tab_list(), tab_id);
            let first = if idx is Some {
                seq![Effect::SaveConfig, Effect::RenderChrome]
            } else {
                Seq::<Effect>::empty()
            };
            assert(e1 =~= first);
        }
        proof {
            let idx = Self::tab_index(old(self).tab_list(), tab_id);
            let shown_spec = match idx {
                Some(i) => old(self).tab_list()[i].has_view,
                None => false,
            };
            assert(shown == shown_spec);
            let mid_part = match script_g {
                Some(s) if !loading && shown_spec => seq![Effect::RunScript(tab_id, s)],
                _ => Seq::<Effect>::empty(),
            };
            assert(e2 =~= e1 + mid_part);
            let refresh_spec = !loading && old(self).refresh_pending() == Some(tab_id);
            assert(refresh == refresh_spec);
            let last = if refresh_spec && shown_spec {
                seq![Effect::RefreshSurface(tab_id)]
            } else {
                Seq::<Effect>::empty()
            };
            assert(effects@ =~= e2 + last);
            assert(self.refresh_pending() == (if refresh_spec { None } else { old(self).refresh_pending() }));
            assert(self.tab_list() == match idx {
                Some(i) => old(self).tab_list().update(i, TabView { url: url@, loading, ..old(self).tab_list()[i] }),
                None => old(self).tab_list(),
            });
        }
        effects
    }

    /// A page started or finished loading: the blocker gives the cosmetic
    /// script for a finished page.
    pub fn page_load_changed(&mut self, tab_id: u64, url: String, loading: bool, blocker: &BlockerManager) -> (r: Vec<Effect>)
        requires
            old(self).wf(),
        ensures
            final(self).wf(),
            exists|script: Option<String>|
                {
                    &&& Self::page_load_outcome(*old(self), *final(self), tab_id, url@, loading, script, r@)
                    &&& loading ==> script is None
                    &&& !loading ==> cosmetic_script_of(
                        blocker.engine_source(),
                        blocker.enabled_for(url@),
                        url@,
                        opt_view(script),
                    )
                },
    {
        let script = if loading {
            None
        } else {
            blocker.cosmetic_script(url.as_str())
        };
        let ghost s = script;
        let r = self.page_load_event(tab_id, url, loading, script);
        assert(Self::page_load_outcome(*old(self), *self, tab_id, url@, loading, s, r@));
        r
    }

    /// What `location_changed` does: a known tab whose page moved takes the
    /// new URL, and the session is saved.
    pub open spec fn location_outcome(pre: Browser, post: Browser, tab_id: u64, url: Seq<char>, r: Seq<Effect>) -> bool {
        match Self::tab_index(pre.tab_list(), tab_id) {
            Some(i) if pre.tab_list()[i].url != url => {
                &&& post.tab_list() == pre.tab_list().update(i, TabView { url, ..pre.tab_list()[i] })
                &&& post.active_index() == pre.active_index()
                &&& Self::keeps_window_state(pre, post)
                &&& Self::keeps_side_state(pre, post)
                &&& post.settings()@ == Self::saved_settings(pre.settings()@, post.tab_list(), pre.download_list())
                &&& r == seq![Effect::SaveConfig, Effect::RenderChrome]
            },
            _ => post == pre && r == Seq::<Effect>::empty(),
        }
    }

    /// The page of a tab moved without a new load (history API, fragment).
    pub fn location_changed(&mut self, tab_id: u64, url: String) -> (r: Vec<Effect>)
        requires
            old(self).wf(),
        ensures
            final(self).wf(),
            Self::location_outcome(*old(self), *final(self), tab_id, url@, r@),
    {
        let mut effects: Vec<Effect> = Vec::new();
        match self.find_tab(tab_id) {
            Some(i) => {
                assert(old(self).tab_list()[i as int] == old(self).tabs@[i as int]@);
                if !chars_eq(&chars_of(self.tabs[i].url.as_str()), &chars_of(url.as_str())) {
                    self.tabs[i].url = url;
                    proof {
                        assert(self.tab_list() =~= old(self).tab_list().update(
                            i as int,
                            TabView { url: url@, ..old(self).tab_list()[i as int] },
                        ));
                        assert forall|a: int| 0 <= a < self.tabs@.len() implies (#[trigger] self.tabs@[a]).id < self.next_tab_id by {
                            assert(self.tabs@[a].id == old(self).tabs@[a].id);
                        }
                        assert forall|a: int, b: int|
                            0 <= a < self.tabs@.len() && 0 <= b < self.tabs@.len() && a != b implies (
                            #[trigger] self.tabs@[a]).id != (#[trigger] self.tabs@[b]).id by {
                            assert(self.tabs@[a].id == old(self).tabs@[a].id);
                            assert(self.tabs@[b].id == old(self).tabs@[b].id);
                        }
                    }
                    self.persist(&mut effects);
                    effects.push(Effect::RenderChrome);
                    assert(effects@ =~= seq![Effect::SaveConfig, Effect::RenderChrome]);
                }
            },
            None => {},
        }
        effects
    }

    /// The title a tab shows for a reported page title: the URL's host when
    /// the title is blank.
    pub open spec fn shown_title(title: Seq<char>, url: Seq<char>) -> Seq<char> {
        if trim(title).len() == 0 {
            title_for(url)
        } else {
            title
        }
    }

    /// What `title_changed` does: a known tab takes the title.
    pub open spec fn title_outcome(pre: Browser, post: Browser, tab_id: u64, title: Seq<char>, r: Seq<Effect>) -> bool {
        &&& post.active_index() == pre.active_index()
        &&& post.settings() == pre.settings()
        &&& Self::keeps_window_state(pre, post)
        &&& Self::keeps_side_state(pre, post)
        &&& match Self::tab_index(pre.tab_list(), tab_id) {
            Some(i) => {
                &&& post.tab_list() == pre.tab_list().update(
                    i,
                    TabView { title: Self::shown_title(title, pre.tab_list()[i].url), ..pre.tab_list()[i] },
                )
                &&& r == seq![Effect::RenderChrome]
            },
            None => post.tab_list() == pre.tab_list() && r == Seq::<Effect>::empty(),
        }
    }

    /// The page of a tab reported its title.
    pub fn title_changed(&mut self, tab_id: u64, title: String) -> (r: Vec<Effect>)
        requires
            old(self).wf(),
        ensures
            final(self).wf(),
            Self::title_outcome(*old(self), *final(self), tab_id, title@, r@),
    {
        let mut effects: Vec<Effect> = Vec::new();
        match self.find_tab(tab_id) {
            Some(i) => {
                assert(old(self).tab_list()[i as int] == old(self).tabs@[i as int]@);
                let shown = if trim_chars(&chars_of(title.as_str())).len() == 0 {
                    title_from_url(self.tabs[i].url.as_str())
                } else {
                    title
                };
                self.tabs[i].title = shown;
                proof {
                    assert(self.tab_list() =~= old(self).tab_list().update(
                        i as int,
                        TabView {
                            title: Self::shown_title(title@, old(self).tab_list()[i as int].url),
                            ..old(self).tab_list()[i as int]
                        },
                    ));
                    assert forall|a: int| 0 <= a < self.tabs@.len() implies (#[trigger] self.tabs@[a]).id < self.next_tab_id by {
                        assert(self.tabs@[a].id == old(self).tabs@[a].id);
                    }
                    assert forall|a: int, b: int|
                        0 <= a < self.tabs@.len() && 0 <= b < self.tabs@.len() && a != b implies (
                        #[trigger] self.tabs@[a]).id != (#[trigger] self.tabs@[b]).id by {
                        assert(self.tabs@[a].id == old(self).tabs@[a].id);
                        assert(self.tabs@[b].id == old(self).tabs@[b].id);
                    }
                }
                effects.push(Effect::RenderChrome);
                assert(effects@ =~= seq![Effect::RenderChrome]);
            },
            None => {},
        }
        effects
    }

    /// The listed downloads once another one started: at most the last 30.
    pub open spec fn started_list(d: Seq<DownloadView>, item: DownloadView) -> Seq<DownloadView> {
        let added = d.push(item);
        if added.len() > 30 {
            added.drop_first()
        } else {
            added
        }
    }

    /// What `download_started` does with the new download's model.
    pub open spec fn started_outcome(pre: Browser, post: Browser, item: DownloadView, r: Seq<Effect>) -> bool {
        &&& post.download_list() == Self::started_list(pre.download_list(), item)
        &&& post.tab_list() == pre.tab_list()
        &&& post.active_index() == pre.active_index()
        &&& Self::keeps_window_state(pre, post)
        &&& post.refresh_pending() == pre.refresh_pending()
        &&& post.settings()@ == Self::saved_settings(pre.settings()@, pre.tab_list(), post.download_list())
        &&& r == seq![Effect::SaveConfig, Effect::RenderChrome]
    }

    /// A download started: it is listed (the oldest listed one goes past
    /// 30) and the session is saved.
    pub fn download_started(
        &mut self,
        id: u64,
        name: String,
        url: String,
        path: String,
        received: u64,
        total: Option<u64>,
    ) -> (r: Vec<Effect>)
        requires
            old(self).wf(),
        ensures
            final(self).wf(),
            Self::started_outcome(
                *old(self),
                *final(self),
                DownloadView { id, name: name@, url: url@, path: path@, received, total, status: "downloading"@ },
                r@,
            ),
    {
        self.downloads.push(DownloadItem { id, name, url, path, received, total, status: owned("downloading") });
        if self.downloads.len() > 30 {
            self.downloads.remove(0);
        }
        proof {
            let item = DownloadView { id, name: name@, url: url@, path: path@, received, total, status: "downloading"@ };
            assert(self.download_list() =~= Self::started_list(old(self).download_list(), item));
        }
        let mut effects: Vec<Effect> = Vec::new();
        self.persist(&mut effects);
        effects.push(Effect::RenderChrome);
        assert(effects@ =~= seq![Effect::SaveConfig, Effect::RenderChrome]);
        effects
    }

    /// What `download_progress` does: the first download with that id takes
    /// the new counts and status; the session is saved once it finished.
    pub open spec fn progress_outcome(
        pre: Browser,
        post: Browser,
        id: u64,
        received: u64,
        total: Option<u64>,
        status: Seq<char>,
        r: Seq<Effect>,
    ) -> bool {
        match Self::download_ids(pre.download_list()).index_of_first(id) {
            Some(i) => {
                let finished = status != "downloading"@;
                &&& post.download_list() == pre.download_list().update(
                    i,
                    DownloadView { received, total, status, ..pre.download_list()[i] },
                )
                &&& post.tab_list() == pre.tab_list()
                &&& post.active_index() == pre.active_index()
                &&& Self::keeps_window_state(pre, post)
                &&& post.refresh_pending() == pre.refresh_pending()
                &&& post.settings()@ == (if finished {
                    Self::saved_settings(pre.settings()@, pre.tab_list(), post.download_list())
                } else {
                    pre.settings()@
                })
                &&& r == (if finished {
                    seq![Effect::SaveConfig, Effect::RenderChrome]
                } else {
                    seq![Effect::RenderChrome]
                })
            },
            None => post == pre && r == Seq::<Effect>::empty(),
        }
    }

    /// A download reported progress, or ended.
    pub fn download_progress(&mut self, id: u64, received: u64, total: Option<u64>, status: String) -> (r: Vec<Effect>)
        requires
            old(self).wf(),
        ensures
            final(self).wf(),
            Self::progress_outcome(*old(self), *final(self), id, received, total, status@, r@),
    {
        let mut effects: Vec<Effect> = Vec::new();
        match self.find_download(id) {
            Some(i) => {
                let finished = !chars_eq(&chars_of(status.as_str()), &chars_of("downloading"));
                self.downloads[i].received = received;
                self.downloads[i].total = total;
                self.downloads[i].status = status;
                assert(self.download_list() =~= old(self).download_list().update(
                    i as int,
                    DownloadView { received, total, status: status@, ..old(self).download_list()[i as int] },
                ));
                if finished {
                    self.persist(&mut effects);
                }
                effects.push(Effect::RenderChrome);
                proof {
                    if finished {
                        assert(effects@ =~= seq![Effect::SaveConfig, Effect::RenderChrome]);
                    } else {
                        assert(effects@ =~= seq![Effect::RenderChrome]);
                    }
                }
            },
            None => {},
        }
        effects
    }

    /// What a change of window focus asks of each tab with a view, in strip
    /// order: its memory level (normal only for the active tab of a focused
    /// window), then a pause of its media when `pause` holds.
    pub open spec fn focus_effects(tabs: Seq<TabView>, active: int, focused: bool, pause: bool) -> Seq<Effect>
        decreases tabs.len(),
    {
        if tabs.len() == 0 {
            Seq::empty()
        } else {
            let k = tabs.len() - 1;
            let t = tabs.last();
            Self::focus_effects(tabs.drop_last(), active, focused, pause) + (if t.has_view {
                seq![Effect::SetMemoryLevel(t.id, focused && k == active)] + (if pause {
                    seq![Effect::PauseMedia(t.id)]
                } else {
                    Seq::empty()
                })
            } else {
                Seq::empty()
            })
        }
    }

    /// The window takes the focus, or has lost it: only the active page
    /// keeps its memory level up while focused; losing the focus pauses every
    /// page's media when so configured, unless a page fills the screen.
    pub open spec fn focus_outcome(pre: Browser, post: Browser, focused: bool, r: Seq<Effect>) -> bool {
        &&& post.focused() == focused
        &&& post.tab_list() == pre.tab_list()
        &&& post.active_index() == pre.active_index()
        &&& post.next_id() == pre.next_id()
        &&& post.settings() == pre.settings()
        &&& post.page_fullscreen() == pre.page_fullscreen()
        &&& post.download_list() == pre.download_list()
        &&& post.panel_open() == pre.panel_open()
        &&& post.refresh_pending() == pre.refresh_pending()
        &&& post.update_state() == pre.update_state()
        &&& post.update_info() == pre.update_info()
        &&& r == Self::focus_effects(
            pre.tab_list(),
            pre.active_index(),
            focused,
            !focused && !pre.page_fullscreen() && pre.settings().pause_media_when_unfocused,
        )
    }

    /// The window gained or lost the focus. Gaining it takes effect at once.
    /// A loss is only checked again after a delay: moving the focus into a
    /// page or in and out of fullscreen is no leaving the browser.
    pub fn focus_changed(&mut self, focused: bool) -> (r: Vec<Effect>)
        requires
            old(self).wf(),
        ensures
            final(self).wf(),
            focused ==> Self::focus_outcome(*old(self), *final(self), true, r@),
            !focused ==> *final(self) == *old(self) && r@ == seq![Effect::CheckFocusLoss(FOCUS_LOSS_DELAY_MS)],
    {
        if focused {
            self.apply_focus(true)
        } else {
            let mut effects: Vec<Effect> = Vec::new();
            effects.push(Effect::CheckFocusLoss(FOCUS_LOSS_DELAY_MS));
            assert(effects@ =~= seq![Effect::CheckFocusLoss(FOCUS_LOSS_DELAY_MS)]);
            effects
        }
    }

    /// The delay after a focus loss is over: when the browser's window is
    /// no longer in front, the loss takes effect; otherwise nothing happens.
    pub fn focus_loss_checked(&mut self, still_in_front: bool) -> (r: Vec<Effect>)
        requires
            old(self).wf(),
        ensures
            final(self).wf(),
            still_in_front ==> *final(self) == *old(self) && r@ == Seq::<Effect>::empty(),
            !still_in_front ==> Self::focus_outcome(*old(self), *final(self), false, r@),
    {
        if still_in_front {
            Vec::new()
        } else {
            self.apply_focus(false)
        }
    }

    fn apply_focus(&mut self, focused: bool) -> (r: Vec<Effect>)
        requires
            old(self).wf(),
        ensures
            final(self).wf(),
            Self::focus_outcome(*old(self), *final(self), focused, r@),
    {
        self.window_is_focused = focused;
        let pause = !focused && !self.content_fullscreen && self.config.pause_media_when_unfocused;
        let ghost tabs = self.tab_list();
        let mut effects: Vec<Effect> = Vec::new();
        let mut i: usize = 0;
        while i < self.tabs.len()
            invariant
                i <= self.tabs@.len() == tabs.len(),
                tabs == tab_views(self.tabs@),
                effects@ == Self::focus_effects(tabs.take(i as int), self.active as int, focused, pause),
            decreases self.tabs.len() - i,
        {
            let t = &self.tabs[i];
            assert(tabs[i as int] == t@);
            assert(tabs.take(i + 1).drop_last() =~= tabs.take(i as int));
            assert(tabs.take(i + 1).last() == tabs[i as int]);
            if t.has_view {
                effects.push(Effect::SetMemoryLevel(t.id, focused && i == self.active));
                if pause {
                    effects.push(Effect::PauseMedia(t.id));
                }
            }
            let ghost extra = if tabs[i as int].has_view {
                seq![Effect::SetMemoryLevel(tabs[i as int].id, focused && i == self.active)] + (if pause {
                    seq![Effect::PauseMedia(tabs[i as int].id)]
                } else {
                    Seq::empty()
                })
            } else {
                Seq::empty()
            };
            assert(effects@ =~= Self::focus_effects(tabs.take(i as int), self.active as int, focused, pause) + extra);
            i = i + 1;
        }
        assert(tabs.take(i as int) =~= tabs);
        effects
    }

    /// The hosts without blocking once the active page's host is switched.
    pub open spec fn off_after_toggle(pre: Browser, was_off: Set<Seq<char>>) -> Set<Seq<char>> {
        match host_of(pre.tab_list()[pre.active_index()].url) {
            Some(h) => toggled(was_off, h),
            None => was_off,
        }
    }

    /// What the interface's command does to the browser, with the hosts
    /// where blocking was off before it and after it.
    pub open spec fn command_outcome(
        pre: Browser,
        post: Browser,
        cmd: ChromeCommand,
        was_off: Set<Seq<char>>,
        now_off: Set<Seq<char>>,
        update_configured: bool,
        now: u64,
        r: Seq<Effect>,
    ) -> bool {
        let home = pre.settings()@.home_url;
        &&& now_off == (if cmd is ToggleAdblock {
            Self::off_after_toggle(pre, was_off)
        } else {
            was_off
        })
        &&& match cmd {
            ChromeCommand::Navigate(u) => Self::navigate_active_outcome(pre, post, u@, r),
            ChromeCommand::Back => post == pre && r == Self::history_effects(
                pre.tab_list()[pre.active_index()],
                false,
            ),
            ChromeCommand::Forward => post == pre && r == Self::history_effects(
                pre.tab_list()[pre.active_index()],
                true,
            ),
            ChromeCommand::Reload => Self::reload_active_outcome(pre, post, r),
            ChromeCommand::Home => Self::navigate_active_outcome(pre, post, home, r),
            ChromeCommand::NewTab => Self::add_tab_outcome(pre, post, home, true, now, r),
            ChromeCommand::SelectTab(id) => match Self::tab_index(pre.tab_list(), id) {
                Some(i) => Self::switch_to_outcome(pre, post, i as usize, now, r),
                None => post == pre && r == Seq::<Effect>::empty(),
            },
            ChromeCommand::CloseTab(id) => Self::close_tab_by_id_outcome(pre, post, id, now, r),
            ChromeCommand::ToggleBookmark => Self::toggle_bookmark_outcome(pre, post, r),
            ChromeCommand::AddShortcut => Self::add_active_bookmark_outcome(pre, post, r),
            ChromeCommand::RemoveBookmark(u) => Self::remove_bookmark_outcome(pre, post, u@, r),
            ChromeCommand::OpenBookmark(u) => Self::navigate_active_outcome(pre, post, u@, r),
            ChromeCommand::SetDiscard(m) => Self::set_discard_outcome(pre, post, m, r),
            ChromeCommand::ToggleUltraLight => Self::toggle_ultra_light_outcome(pre, post, now, r),
            ChromeCommand::ToggleReduceMotion => Self::toggle_reduce_motion_outcome(pre, post, r),
            ChromeCommand::ToggleBackgroundPause => Self::toggle_background_pause_outcome(pre, post, r),
            ChromeCommand::ToggleVideoCompatibility => Self::toggle_video_compatibility_outcome(pre, post, r),
            ChromeCommand::ToggleAdblock => Self::toggle_adblock_outcome(pre, post, was_off, r),
            ChromeCommand::CancelDownload(id) => post == pre && r == seq![Effect::CancelDownload(id)],
            ChromeCommand::OpenDownload(id) => post == pre && Self::open_download_effects(
                pre.download_list(),
                id,
                false,
                r,
            ),
            ChromeCommand::ShowDownload(id) => post == pre && Self::open_download_effects(
                pre.download_list(),
                id,
                true,
                r,
            ),
            ChromeCommand::ClearDownloads => Self::clear_downloads_outcome(pre, post, r),
            ChromeCommand::DownloadsPanel(open) => Self::panel_outcome(pre, post, open, r),
            ChromeCommand::SetDefaultBrowser => post == pre && r == seq![Effect::RegisterDefaultBrowser],
            ChromeCommand::CheckUpdate => Self::check_update_outcome(pre, post, update_configured, r),
            ChromeCommand::InstallUpdate => Self::install_update_outcome(pre, post, r),
            ChromeCommand::WindowMinimize => post == pre && r == seq![Effect::MinimizeWindow],
            ChromeCommand::WindowToggleMaximize => post == pre && r == seq![
                Effect::ToggleMaximizeWindow,
                Effect::RenderChrome,
            ],
            ChromeCommand::WindowDrag => post == pre && r == seq![Effect::DragWindow],
            ChromeCommand::WindowClose => Self::close_window_outcome(pre, post, r),
        }
    }

    /// Carries out a command of the interface. Only `ToggleAdblock` changes
    /// the blocker.
    pub fn handle_command(
        &mut self,
        cmd: ChromeCommand,
        blocker: &mut BlockerManager,
        update_configured: bool,
        now: u64,
    ) -> (r: Vec<Effect>)
        requires
            old(self).wf(),
            old(blocker).wf(),
        ensures
            final(self).wf(),
            final(blocker).wf(),
            Self::command_outcome(
                *old(self),
                *final(self),
                cmd,
                old(blocker).disabled(),
                final(blocker).disabled(),
                update_configured,
                now,
                r@,
            ),
            final(blocker).engine_source() == old(blocker).engine_source(),
            final(blocker).count() == old(blocker).count(),
            final(blocker).filter_status() == old(blocker).filter_status(),
    {
        let ghost c = cmd;
        match cmd {
            ChromeCommand::Navigate(u) => self.navigate_active(u.as_str()),
            ChromeCommand::Back => self.go_in_history(false),
            ChromeCommand::Forward => self.go_in_history(true),
            ChromeCommand::Reload => self.reload_active(),
            ChromeCommand::Home => {
                let home = self.config.home_url.clone();
                self.navigate_active(home.as_str())
            },
            ChromeCommand::NewTab => {
                let home = self.config.home_url.clone();
                self.add_tab(home.as_str(), true, now)
            },
            ChromeCommand::SelectTab(id) => match self.find_tab(id) {
                Some(i) => self.switch_to(i, now),
                None => Vec::new(),
            },
            ChromeCommand::CloseTab(id) => self.close_tab_by_id(id, now),
            ChromeCommand::ToggleBookmark => self.toggle_bookmark(),
            ChromeCommand::AddShortcut => self.add_active_bookmark(),
            ChromeCommand::RemoveBookmark(u) => self.remove_bookmark(u.as_str()),
            ChromeCommand::OpenBookmark(u) => self.navigate_active(u.as_str()),
            ChromeCommand::SetDiscard(m) => self.set_discard(m),
            ChromeCommand::ToggleUltraLight => self.toggle_ultra_light(now),
            ChromeCommand::ToggleReduceMotion => self.toggle_reduce_motion(),
            ChromeCommand::ToggleBackgroundPause => self.toggle_background_pause(),
            ChromeCommand::ToggleVideoCompatibility => self.toggle_video_compatibility(),
            ChromeCommand::ToggleAdblock => self.toggle_adblock(blocker),
            ChromeCommand::CancelDownload(id) => {
                let mut effects: Vec<Effect> = Vec::new();
                effects.push(Effect::CancelDownload(id));
                assert(effects@ =~= seq![Effect::CancelDownload(id)]);
                effects
            },
            ChromeCommand::OpenDownload(id) => self.open_download(id, false),
            ChromeCommand::ShowDownload(id) => self.open_download(id, true),
            ChromeCommand::ClearDownloads => self.clear_downloads(),
            ChromeCommand::DownloadsPanel(open) => self.set_downloads_panel(open),
            ChromeCommand::SetDefaultBrowser => {
                let mut effects: Vec<Effect> = Vec::new();
                effects.push(Effect::RegisterDefaultBrowser);
                assert(effects@ =~= seq![Effect::RegisterDefaultBrowser]);
                effects
            },
            ChromeCommand::CheckUpdate => self.check_update(update_configured),
            ChromeCommand::InstallUpdate => self.install_update(),
            ChromeCommand::WindowMinimize => {
                let mut effects: Vec<Effect> = Vec::new();
                effects.push(Effect::MinimizeWindow);
                assert(effects@ =~= seq![Effect::MinimizeWindow]);
                effects
            },
            ChromeCommand::WindowToggleMaximize => {
                let mut effects: Vec<Effect> = Vec::new();
                effects.push(Effect::ToggleMaximizeWindow);
                effects.push(Effect::RenderChrome);
                assert(effects@ =~= seq![Effect::ToggleMaximizeWindow, Effect::RenderChrome]);
                effects
            },
            ChromeCommand::WindowDrag => {
                let mut effects: Vec<Effect> = Vec::new();
                effects.push(Effect::DragWindow);
                assert(effects@ =~= seq![Effect::DragWindow]);
                effects
            },
            ChromeCommand::WindowClose => self.close_window(),
        }
    }

    /// A copy of the bookmarks.
    fn copy_bookmarks(b: &Vec<Bookmark>) -> (r: Vec<Bookmark>)
        ensures
            bookmark_views(r@) == bookmark_views(b@),
    {
        let mut r: Vec<Bookmark> = Vec::new();
        let mut i: usize = 0;
        while i < b.len()
            invariant
                i <= b@.len(),
                bookmark_views(r@) == bookmark_views(b@).take(i as int),
            decreases b.len() - i,
        {
            let ghost before = bookmark_views(r@);
            r.push(Bookmark { title: b[i].title.clone(), url: b[i].url.clone() });
            assert(bookmark_views(r@) =~= before.push((b@[i as int].title@, b@[i as int].url@)));
            assert(bookmark_views(b@).take(i + 1) =~= bookmark_views(b@).take(i as int).push(
                (b@[i as int].title@, b@[i as int].url@),
            ));
            i = i + 1;
        }
        assert(bookmark_views(b@).take(i as int) =~= bookmark_views(b@));
        r
    }

    /// A copy of the listed downloads.
    fn copy_downloads(d: &Vec<DownloadItem>) -> (r: Vec<DownloadItem>)
        ensures
            download_views(r@) == download_views(d@),
    {
        let mut r: Vec<DownloadItem> = Vec::new();
        let mut i: usize = 0;
        while i < d.len()
            invariant
                i <= d@.len(),
                download_views(r@) == download_views(d@).take(i as int),
            decreases d.len() - i,
        {
            let ghost before = download_views(r@);
            r.push(d[i].copy());
            assert(download_views(r@) =~= before.push(d@[i as int]@));
            assert(download_views(d@).take(i + 1) =~= download_views(d@).take(i as int).push(d@[i as int]@));
            i = i + 1;
        }
        assert(download_views(d@).take(i as int) =~= download_views(d@));
        r
    }

    /// Everything the interface draws: the tabs (suspended when they have
    /// no view), the active page, whether it is bookmarked, the bookmarks
    /// and downloads, the settings, the blocker's count, state and verdict
    /// for the active page, and the update state.
    pub fn chrome_state(
        &self,
        blocker: &BlockerManager,
        maximized: bool,
        app_version: &str,
        update_configured: bool,
    ) -> (r: ChromeState)
        requires
            self.wf(),
        ensures
            ({
                let active = self.tab_list()[self.active_index()];
                let c = self.settings()@;
                &&& r.tabs@.len() == self.tab_list().len()
                &&& forall|i: int|
                    0 <= i < r.tabs@.len() ==> {
                        let s = #[trigger] r.tabs@[i];
                        let t = self.tab_list()[i];
                        s.id == t.id && s.title@ == t.title && s.suspended == !t.has_view
                    }
                &&& r.active_id == active.id
                &&& r.address@ == active.url
                &&& r.bookmarked == (Self::bookmark_index(c.bookmarks, active.url) is Some)
                &&& bookmark_views(r.bookmarks@) == c.bookmarks
                &&& download_views(r.downloads@) == self.download_list()
                &&& r.discard_after_minutes == c.discard_after_minutes
                &&& r.maximized == maximized
                &&& r.loading == active.loading
                &&& r.blocked_count == blocker.count()
                &&& r.adblock_enabled == blocker.enabled_for(active.url)
                &&& r.adblock_status@ == status_text(blocker.filter_status())
                &&& r.ultra_light_mode == c.ultra_light_mode
                &&& r.reduce_motion == c.reduce_motion
                &&& r.pause_media_when_unfocused == c.pause_media_when_unfocused
                &&& r.video_compatibility_mode == c.video_compatibility_mode
                &&& r.app_version@ == app_version@
                &&& r.update_configured == update_configured
                &&& r.update_status@ == self.update_state()
                &&& opt_view(r.update_version) == self.update_info().0
                &&& r.update_ready == self.update_is_ready()
            }),
    {
        let mut tabs: Vec<TabState> = Vec::new();
        let mut i: usize = 0;
        while i < self.tabs.len()
            invariant
                i <= self.tabs@.len(),
                tabs@.len() == i,
                forall|k: int|
                    0 <= k < i ==> {
                        let s = #[trigger] tabs@[k];
                        let t = self.tabs@[k];
                        s.id == t.id && s.title@ == t.title@ && s.suspended == !t.has_view
                    },
            decreases self.tabs.len() - i,
        {
            let t = &self.tabs[i];
            tabs.push(TabState { id: t.id, title: t.title.clone(), suspended: !t.has_view });
            i = i + 1;
        }
        let a = self.active;
        let active = &self.tabs[a];
        assert(self.tab_list()[a as int] == active@);
        let bookmarked = self.find_bookmark(&active.url).is_some();
        let update_version = match &self.update_version {
            Some(v) => Some(v.clone()),
            None => None,
        };
        let r = ChromeState {
            tabs,
            active_id: active.id,
            address: active.url.clone(),
            bookmarked,
            bookmarks: Self::copy_bookmarks(&self.config.bookmarks),
            downloads: Self::copy_downloads(&self.downloads),
            discard_after_minutes: self.config.discard_after_minutes,
            maximized,
            loading: active.loading,
            blocked_count: blocker.blocked_count(),
            adblock_enabled: blocker.is_enabled_for_url(active.url.as_str()),
            adblock_status: owned(blocker.status()),
            ultra_light_mode: self.config.ultra_light_mode,
            reduce_motion: self.config.reduce_motion,
            pause_media_when_unfocused: self.config.pause_media_when_unfocused,
            video_compatibility_mode: self.config.video_compatibility_mode,
            app_version: owned(app_version),
            update_configured,
            update_status: self.update_status.clone(),
            update_version,
            update_ready: self.update_path.is_some() && self.update_sha256.is_some(),
        };
        assert forall|k: int| 0 <= k < r.tabs@.len() implies {
            let s = #[trigger] r.tabs@[k];
            let t = self.tab_list()[k];
            s.id == t.id && s.title@ == t.title && s.suspended == !t.has_view
        } by {
            assert(self.tab_list()[k] == self.tabs@[k]@);
        }
        r
    }

    /// Whether `cmd` is what the interface message `raw` decodes to.
    pub open spec fn decodes(raw: Seq<char>, cmd: Option<ChromeCommand>) -> bool {
        &&& !json_parses(raw) ==> cmd is None
        &&& json_parses(raw) ==> command_of(
            match json_string_at(raw, "type"@) {
                Some(k) => k,
                None => Seq::empty(),
            },
            json_u64_at(raw, "id"@),
            json_string_at(raw, "url"@),
            json_u64_at(raw, "minutes"@),
            json_bool_at(raw, "open"@),
            cmd,
        )
    }

    /// What an event does to the browser, with the blocker before it and the
    /// hosts without blocking after it.
    pub open spec fn event_outcome(
        pre: Browser,
        post: Browser,
        event: UserEvent,
        blocker: BlockerManager,
        now_off: Set<Seq<char>>,
        update_configured: bool,
        now: u64,
        r: Seq<Effect>,
    ) -> bool {
        let was_off = blocker.disabled();
        &&& !(event is ChromeCommand) ==> now_off == was_off
        &&& match event {
            UserEvent::ChromeCommand(raw) => exists|c: Option<ChromeCommand>|
                {
                    &&& #[trigger] Self::decodes(raw@, c)
                    &&& match c {
                        Some(cmd) => Self::command_outcome(pre, post, cmd, was_off, now_off, update_configured, now, r),
                        None => post == pre && r == Seq::<Effect>::empty() && now_off == was_off,
                    }
                },
            UserEvent::PageLoadChanged { tab_id, url, loading } => exists|script: Option<String>|
                {
                    &&& #[trigger] Self::page_load_outcome(pre, post, tab_id, url@, loading, script, r)
                    &&& loading ==> script is None
                    &&& !loading ==> cosmetic_script_of(
                        blocker.engine_source(),
                        blocker.enabled_for(url@),
                        url@,
                        opt_view(script),
                    )
                },
            UserEvent::LocationChanged { tab_id, url } => Self::location_outcome(pre, post, tab_id, url@, r),
            UserEvent::TitleChanged { tab_id, title } => Self::title_outcome(pre, post, tab_id, title@, r),
            UserEvent::OpenInNewTab(url) => Self::add_tab_outcome(pre, post, url@, true, now, r),
            UserEvent::DownloadStarted { id, name, url, path, received, total } => Self::started_outcome(
                pre,
                post,
                DownloadView { id, name: name@, url: url@, path: path@, received, total, status: "downloading"@ },
                r,
            ),
            UserEvent::DownloadProgress { id, received, total, status } => Self::progress_outcome(
                pre,
                post,
                id,
                received,
                total,
                status@,
                r,
            ),
            UserEvent::UpdateReady { version, path, sha256 } => Self::update_event_outcome(
                pre,
                post,
                "ready"@,
                (Some(version@), Some(path@), Some(sha256@)),
                r,
            ),
            UserEvent::UpdateCurrent => Self::update_event_outcome(
                pre,
                post,
                "current"@,
                (None, None, None),
                r,
            ),
            UserEvent::UpdateFailed(_) => Self::update_event_outcome(
                pre,
                post,
                "failed"@,
                (pre.update_info().0, None, None),
                r,
            ),
            UserEvent::ContentFullscreenChanged { tab_id, fullscreen } => Self::fullscreen_outcome(
                pre,
                post,
                tab_id,
                fullscreen,
                r,
            ),
        }
    }

    /// Handles an event from the interface, a page, a download or the
    /// update check.
    pub fn handle_event(
        &mut self,
        event: UserEvent,
        blocker: &mut BlockerManager,
        update_configured: bool,
        now: u64,
    ) -> (r: Vec<Effect>)
        requires
            old(self).wf(),
            old(blocker).wf(),
        ensures
            final(self).wf(),
            final(blocker).wf(),
            Self::event_outcome(
                *old(self),
                *final(self),
                event,
                *old(blocker),
                final(blocker).disabled(),
                update_configured,
                now,
                r@,
            ),
            final(blocker).engine_source() == old(blocker).engine_source(),
            final(blocker).count() == old(blocker).count(),
            final(blocker).filter_status() == old(blocker).filter_status(),
    {
        let ghost ev = event;
        match event {
            UserEvent::ChromeCommand(raw) => {
                let decoded = decode_chrome_command(raw.as_str());
                let ghost d = decoded;
                match decoded {
                    Some(cmd) => {
                        let r = self.handle_command(cmd, blocker, update_configured, now);
                        assert(Self::decodes(raw@, d));
                        r
                    },
                    None => {
                        assert(Self::decodes(raw@, d));
                        Vec::new()
                    },
                }
            },
            UserEvent::PageLoadChanged { tab_id, url, loading } => {
                let script = if loading {
                    None
                } else {
                    blocker.cosmetic_script(url.as_str())
                };
                let ghost s = script;
                let r = self.page_load_event(tab_id, url, loading, script);
                assert(Self::page_load_outcome(*old(self), *self, tab_id, url@, loading, s, r@));
                r
            },
            UserEvent::LocationChanged { tab_id, url } => self.location_changed(tab_id, url),
            UserEvent::TitleChanged { tab_id, title } => self.title_changed(tab_id, title),
            UserEvent::OpenInNewTab(url) => self.add_tab(url.as_str(), true, now),
            UserEvent::DownloadStarted { id, name, url, path, received, total } => self.download_started(
                id,
                name,
                url,
                path,
                received,
                total,
            ),
            UserEvent::DownloadProgress { id, received, total, status } => self.download_progress(
                id,
                received,
                total,
                status,
            ),
            UserEvent::UpdateReady { version, path, sha256 } => self.update_ready(version, path, sha256),
            UserEvent::UpdateCurrent => self.update_current(),
            UserEvent::UpdateFailed(_) => self.update_failed(),
            UserEvent::ContentFullscreenChanged { tab_id, fullscreen } => self.set_content_fullscreen(
                tab_id,
                fullscreen,
            ),
        }
    }

    /// A browser always has a tab, its active index points at one of them,
    /// and tab ids are distinct and below the id the next tab gets.
    pub proof fn tabs_are_well_formed(b: Browser)
        requires
            b.wf(),
        ensures
            b.tab_list().len() > 0,
            0 <= b.active_index() < b.tab_list().len(),
            b.active_id() == b.tab_list()[b.active_index()].id,
            forall|i: int| 0 <= i < b.tab_list().len() ==> (#[trigger] b.tab_list()[i]).id < b.next_id(),
            forall|i: int, j: int|
                0 <= i < b.tab_list().len() && 0 <= j < b.tab_list().len() && i != j ==> (
                #[trigger] b.tab_list()[i]).id != (#[trigger] b.tab_list()[j]).id,
    {
        assert forall|i: int| 0 <= i < b.tab_list().len() implies (#[trigger] b.tab_list()[i]).id < b.next_id() by {
            assert(b.tab_list()[i].id == b.tabs@[i].id);
        }
        assert forall|i: int, j: int|
            0 <= i < b.tab_list().len() && 0 <= j < b.tab_list().len() && i != j implies (
            #[trigger] b.tab_list()[i]).id != (#[trigger] b.tab_list()[j]).id by {
            assert(b.tab_list()[i].id == b.tabs@[i].id);
            assert(b.tab_list()[j].id == b.tabs@[j].id);
        }
    }

    /// Closing a tab other than the active one keeps the active tab active.
    pub proof fn closing_another_tab_keeps_the_active_one(pre: Browser, post: Browser, id: u64, now: u64, r: Seq<Effect>)
        requires
            pre.wf(),
            post.wf(),
            Self::close_tab_by_id_outcome(pre, post, id, now, r),
            id != pre.active_id(),
        ensures
            post.active_id() == pre.active_id(),
    {
        Self::tabs_are_well_formed(pre);
        Self::tabs_are_well_formed(post);
        match Self::tab_index(pre.tab_list(), id) {
            Some(i) => {
                Self::ids_of(pre.tab_list()).index_of_first_ensures(id);
                assert(pre.tab_list()[i].id == Self::ids_of(pre.tab_list())[i]);
                assert(i != pre.active_index());
                assert(pre.tab_list().len() > 1);
                let rest = pre.tab_list().remove(i);
                let a = Self::active_after_close(pre.active_index(), i, pre.tab_list().len() as int);
                assert(rest[a] == pre.tab_list()[pre.active_index()]);
            },
            None => {},
        }
    }

    /// The discard delay is the configured number of minutes, in
    /// milliseconds; no setting gives less than one minute.
    pub proof fn discard_delay_follows_the_setting(minutes: u64)
        ensures
            minutes >= 1 && minutes * 60000 <= u64::MAX ==> discard_timeout_ms(minutes) == minutes * 60000,
            minutes >= 1 && minutes * 60000 > u64::MAX ==> discard_timeout_ms(minutes) == u64::MAX,
            minutes == 0 ==> discard_timeout_ms(minutes) == 60000,
            discard_timeout_ms(minutes) >= 60000,
    {
    }

    /// Without a memory warning, a hidden tab keeps its view exactly as long
    /// as it has been hidden for less than the configured minutes.
    pub proof fn hidden_tab_keeps_its_view_for_the_configured_minutes(
        pre: Browser,
        post: Browser,
        now: u64,
        r: Seq<Effect>,
        i: int,
    )
        requires
            pre.wf(),
            Self::discard_outcome(pre, post, false, now, r),
            0 <= i < pre.tab_list().len(),
            i != pre.active_index(),
            pre.tab_list()[i].has_view,
            pre.tab_list()[i].last_active <= now,
            pre.settings()@.discard_after_minutes >= 1,
            pre.settings()@.discard_after_minutes * 60000 <= u64::MAX,
        ensures
            post.tab_list()[i].has_view <==> now - pre.tab_list()[i].last_active
                < pre.settings()@.discard_after_minutes * 60000,
    {
    }

    /// Closing the active tab activates the tab that followed it, or the one
    /// before it when it was the last.
    pub proof fn closing_the_active_tab_activates_its_neighbour(pre: Browser, post: Browser, now: u64, r: Seq<Effect>)
        requires
            pre.wf(),
            post.wf(),
            Self::close_tab_by_id_outcome(pre, post, pre.active_id(), now, r),
            pre.tab_list().len() > 1,
        ensures
            pre.active_index() < pre.tab_list().len() - 1 ==> post.active_id() == pre.tab_list()[pre.active_index() + 1].id,
            pre.active_index() == pre.tab_list().len() - 1 ==> post.active_id() == pre.tab_list()[pre.active_index() - 1].id,
            post.tab_list().len() == pre.tab_list().len() - 1,
    {
        Self::tabs_are_well_formed(pre);
        Self::tabs_are_well_formed(post);
        let n = pre.tab_list().len() as int;
        let k = pre.active_index();
        let ids = Self::ids_of(pre.tab_list());
        ids.index_of_first_ensures(pre.active_id());
        assert(ids[k] == pre.active_id());
        match Self::tab_index(pre.tab_list(), pre.active_id()) {
            Some(i) => {
                assert(pre.tab_list()[i].id == ids[i]);
                assert(i == k);
                let rest = pre.tab_list().remove(k);
                let a = Self::active_after_close(k, k, n);
                if k < n - 1 {
                    assert(a == k);
                    assert(rest[a] == pre.tab_list()[k + 1]);
                } else {
                    assert(a == k - 1);
                    assert(rest[a] == pre.tab_list()[k - 1]);
                }
            },
            None => {
                assert(false);
            },
        }
    }

    /// Restoring the session: a browser started without an outside URL from
    /// the settings that saving wrote opens the saved tabs' URLs, in order.
    pub proof fn session_restores_tabs(c: ConfigView, tabs: Seq<TabView>, downloads: Seq<DownloadView>)
        requires
            tabs.len() > 0,
        ensures
            Self::initial_urls(Self::saved_settings(c, tabs, downloads), None) == tabs.map_values(
                |t: TabView| t.url,
            ),
    {
    }

    /// Ultra-light mode: the tab left behind by a switch loses its view at
    /// once and keeps its URL and title; the target becomes active.
    pub proof fn ultra_light_switch_drops_left_tab(tabs: Seq<TabView>, active: int, target: int, now: u64)
        requires
            0 <= active < tabs.len(),
            0 <= target < tabs.len(),
            active != target,
        ensures
            ({
                let after = Self::after_switch(tabs, active, target, now, true);
                &&& !after[active].has_view
                &&& after[active].url == tabs[active].url
                &&& after[active].title == tabs[active].title
                &&& after[target].has_view == tabs[target].has_view
            }),
    {
    }

    /// Discarding never touches the active tab, and every tab keeps its id,
    /// URL and title: only views go.
    pub proof fn discard_spares_active_tab(tabs: Seq<TabView>, active: int, force: bool, now: u64, timeout: u64)
        requires
            0 <= active < tabs.len(),
        ensures
            Self::after_discard(tabs, active, force, now, timeout)[active] == tabs[active],
            Self::after_discard(tabs, active, force, now, timeout).len() == tabs.len(),
            forall|i: int|
                0 <= i < tabs.len() ==> {
                    let t = #[trigger] Self::after_discard(tabs, active, force, now, timeout)[i];
                    t.id == tabs[i].id && t.url == tabs[i].url && t.title == tabs[i].title
                },
    {
    }

    /// A memory warning (a forced discard) leaves no hidden tab with a view.
    pub proof fn forced_discard_empties_hidden_tabs(tabs: Seq<TabView>, active: int, now: u64, timeout: u64)
        ensures
            forall|i: int|
                0 <= i < tabs.len() && i != active ==> !(#[trigger] Self::after_discard(
                    tabs,
                    active,
                    true,
                    now,
                    timeout,
                )[i]).has_view,
    {
    }

    /// The download list never grows past 30, and a started download is
    /// always its last entry.
    pub proof fn download_list_stays_bounded(d: Seq<DownloadView>, item: DownloadView)
        requires
            d.len() <= 30,
        ensures
            Self::started_list(d, item).len() <= 30,
            Self::started_list(d, item).last() == item,
    {
    }

    proof fn lemma_filter_keeps_all(s: Seq<Seq<char>>, h: Seq<char>)
        requires
            !s.contains(h),
        ensures
            s.filter(Self::other_than(h)) == s,
        decreases s.len(),
    {
        reveal_with_fuel(Seq::<_>::filter, 1);
        if s.len() > 0 {
            assert(!s.drop_last().contains(h)) by {
                if s.drop_last().contains(h) {
                    let k = choose|k: int| 0 <= k < s.drop_last().len() && s.drop_last()[k] == h;
                    assert(s[k] == h);
                }
            }
            Self::lemma_filter_keeps_all(s.drop_last(), h);
            assert(s.last() != h) by {
                if s.last() == h {
                    assert(s[s.len() - 1] == h);
                }
            }
            assert(s.drop_last().push(s.last()) =~= s);
        }
    }

    /// Switching blocking off for a site and on again gives back the saved
    /// list of sites without blocking.
    pub proof fn adblock_toggle_twice_restores_hosts(hosts: Seq<Seq<char>>, h: Seq<char>)
        requires
            !hosts.contains(h),
        ensures
            Self::switched_hosts(Self::switched_hosts(hosts, h, false), h, true) == hosts,
    {
        let added = hosts.push(h);
        reveal_with_fuel(Seq::<_>::filter, 1);
        Self::lemma_filter_keeps_all(hosts, h);
        assert(added.drop_last() =~= hosts);
        assert(added.last() == h);
    }
}

} // verus!
