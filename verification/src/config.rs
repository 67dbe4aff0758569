//! The persistent settings and session of the browser.
use vstd::prelude::*;
use crate::text::str_eq;
use crate::navigation::owned;
use crate::text::{chars_eq, chars_of, matches_at, occurs_at};

verus! {

/// A saved shortcut.
#[derive(Clone, Debug, PartialEq, Eq)]
pub struct Bookmark {
    pub title: String,
    pub url: String,
}

/// A download as it is kept between runs.
#[derive(Clone, Debug)]
pub struct StoredDownload {
    pub name: String,
    pub url: String,
    pub path: String,
    pub received: u64,
    pub total: Option<u64>,
    pub status: String,
}

/// Model of [`StoredDownload`].
pub struct StoredDownloadView {
    pub name: Seq<char>,
    pub url: Seq<char>,
    pub path: Seq<char>,
    pub received: u64,
    pub total: Option<u64>,
    pub status: Seq<char>,
}

impl View for StoredDownload {
    type V = StoredDownloadView;

    open spec fn view(&self) -> StoredDownloadView {
        StoredDownloadView {
            name: self.name@,
            url: self.url@,
            path: self.path@,
            received: self.received,
            total: self.total,
            status: self.status@,
        }
    }
}

/// Everything `config.json` holds.
#[derive(Clone, Debug)]
pub struct AppConfig {
    pub home_url: String,
    pub search_url: String,
    pub discard_after_minutes: u64,
    pub ultra_light_mode: bool,
    pub reduce_motion: bool,
    pub pause_media_when_unfocused: bool,
    /// Pages are shown without GPU acceleration (`--disable-gpu`) from the
    /// next start on.
    pub video_compatibility_mode: bool,
    pub adblock_disabled_hosts: Vec<String>,
    pub bookmarks: Vec<Bookmark>,
    pub shortcuts_initialized: bool,
    pub restore_urls: Vec<String>,
    pub downloads: Vec<StoredDownload>,
}

/// Model of [`AppConfig`]: every text by its characters.
pub struct ConfigView {
    pub home_url: Seq<char>,
    pub search_url: Seq<char>,
    pub discard_after_minutes: u64,
    pub ultra_light_mode: bool,
    pub reduce_motion: bool,
    pub pause_media_when_unfocused: bool,
    pub video_compatibility_mode: bool,
    pub adblock_disabled_hosts: Seq<Seq<char>>,
    pub bookmarks: Seq<(Seq<char>, Seq<char>)>,
    pub shortcuts_initialized: bool,
    pub restore_urls: Seq<Seq<char>>,
    pub downloads: Seq<StoredDownloadView>,
}

/// Titles and URLs of bookmarks.
pub open spec fn bookmark_views(b: Seq<Bookmark>) -> Seq<(Seq<char>, Seq<char>)> {
    b.map_values(|x: Bookmark| (x.title@, x.url@))
}

/// The texts of strings.
pub open spec fn string_views(s: Seq<String>) -> Seq<Seq<char>> {
    s.map_values(|x: String| x@)
}

/// Models of stored downloads.
pub open spec fn stored_views(s: Seq<StoredDownload>) -> Seq<StoredDownloadView> {
    s.map_values(|x: StoredDownload| x@)
}

impl View for AppConfig {
    type V = ConfigView;

    open spec fn view(&self) -> ConfigView {
        ConfigView {
            home_url: self.home_url@,
            search_url: self.search_url@,
            discard_after_minutes: self.discard_after_minutes,
            ultra_light_mode: self.ultra_light_mode,
            reduce_motion: self.reduce_motion,
            pause_media_when_unfocused: self.pause_media_when_unfocused,
            video_compatibility_mode: self.video_compatibility_mode,
            adblock_disabled_hosts: string_views(self.adblock_disabled_hosts@),
            bookmarks: bookmark_views(self.bookmarks@),
            shortcuts_initialized: self.shortcuts_initialized,
            restore_urls: string_views(self.restore_urls@),
            downloads: stored_views(self.downloads@),
        }
    }
}

/// The settings of a first run.
pub open spec fn default_config() -> ConfigView {
    ConfigView {
        home_url: "https://www.google.com"@,
        search_url: "https://www.google.com/search?q={query}"@,
        discard_after_minutes: 5,
        ultra_light_mode: true,
        reduce_motion: true,
        pause_media_when_unfocused: true,
        video_compatibility_mode: false,
        adblock_disabled_hosts: Seq::empty(),
        bookmarks: Seq::empty(),
        shortcuts_initialized: false,
        restore_urls: Seq::empty(),
        downloads: Seq::empty(),
    }
}

impl Default for AppConfig {
    fn default() -> (r: Self)
        ensures
            r@ == default_config(),
    {
        let r = AppConfig {
            home_url: owned("https://www.google.com"),
            search_url: owned("https://www.google.com/search?q={query}"),
            discard_after_minutes: 5,
            ultra_light_mode: true,
            reduce_motion: true,
            pause_media_when_unfocused: true,
            video_compatibility_mode: false,
            adblock_disabled_hosts: Vec::new(),
            bookmarks: Vec::new(),
            shortcuts_initialized: false,
            restore_urls: Vec::new(),
            downloads: Vec::new(),
        };
        assert(r@.adblock_disabled_hosts =~= Seq::<Seq<char>>::empty());
        assert(r@.bookmarks =~= Seq::<(Seq<char>, Seq<char>)>::empty());
        assert(r@.restore_urls =~= Seq::<Seq<char>>::empty());
        assert(r@.downloads =~= Seq::<StoredDownloadView>::empty());
        r
    }
}

/// `needle` occurs somewhere in `s` (`str::contains`).
pub open spec fn contains_text(s: Seq<char>, needle: Seq<char>) -> bool {
    exists|i: int| occurs_at(s, i, needle)
}

/// A restored page that still points at the old default search engine.
pub open spec fn migrated_url(u: Seq<char>) -> Seq<char> {
    if u == "https://duckduckgo.com"@ || u == "https://duckduckgo.com/"@ {
        "https://www.google.com"@
    } else {
        u
    }
}

/// Some bookmark points at YouTube.
pub open spec fn has_youtube_bookmark(b: Seq<(Seq<char>, Seq<char>)>) -> bool {
    exists|i: int| 0 <= i < b.len() && contains_text(#[trigger] b[i].1, "youtube.com"@)
}

/// The settings after loading: the old DuckDuckGo defaults are replaced by
/// Google without touching a custom choice, and on the first run the YouTube
/// shortcut is added unless a YouTube bookmark exists.
pub open spec fn migrated(c: ConfigView) -> ConfigView {
    ConfigView {
        home_url: if c.home_url == "https://duckduckgo.com"@ {
            "https://www.google.com"@
        } else {
            c.home_url
        },
        search_url: if c.search_url == "https://duckduckgo.com/?q={query}"@ {
            "https://www.google.com/search?q={query}"@
        } else {
            c.search_url
        },
        restore_urls: c.restore_urls.map_values(|u: Seq<char>| migrated_url(u)),
        shortcuts_initialized: true,
        bookmarks: if !c.shortcuts_initialized && !has_youtube_bookmark(c.bookmarks) {
            c.bookmarks.push(("YouTube"@, "https://www.youtube.com"@))
        } else {
            c.bookmarks
        },
        ..c
    }
}

/// Loading the settings twice changes nothing more than loading them once.
pub proof fn migration_is_idempotent(c: ConfigView)
    ensures
        migrated(migrated(c)) == migrated(c),
{
    let m = migrated(c);
    assert(m.restore_urls.map_values(|u: Seq<char>| migrated_url(u)) =~= m.restore_urls) by {
        assert forall|i: int| 0 <= i < m.restore_urls.len() implies migrated_url(
            #[trigger] m.restore_urls[i],
        ) == m.restore_urls[i] by {
            let u = c.restore_urls[i];
            if u == "https://duckduckgo.com"@ || u == "https://duckduckgo.com/"@ {
                reveal_strlit("https://www.google.com");
                reveal_strlit("https://duckduckgo.com");
                reveal_strlit("https://duckduckgo.com/");
                assert("https://www.google.com"@ != "https://duckduckgo.com"@) by {
                    assert("https://www.google.com"@[8] != "https://duckduckgo.com"@[8]);
                }
                assert("https://www.google.com"@ != "https://duckduckgo.com/"@) by {
                    assert("https://www.google.com"@[8] != "https://duckduckgo.com/"@[8]);
                }
            }
        }
    }
    reveal_strlit("https://www.google.com");
    reveal_strlit("https://duckduckgo.com");
    reveal_strlit("https://www.google.com/search?q={query}");
    reveal_strlit("https://duckduckgo.com/?q={query}");
    assert("https://www.google.com"@ != "https://duckduckgo.com"@) by {
        assert("https://www.google.com"@[8] != "https://duckduckgo.com"@[8]);
    }
    assert("https://www.google.com/search?q={query}"@ != "https://duckduckgo.com/?q={query}"@) by {
        assert("https://www.google.com/search?q={query}"@[8] != "https://duckduckgo.com/?q={query}"@[8]);
    }
    assert(migrated(m) =~= m);
}

/// Whether `needle` occurs in `s`.
pub fn contains_str(s: &str, needle: &str) -> (r: bool)
    ensures
        r == contains_text(s@, needle@),
{
    let sc = chars_of(s);
    let nc = chars_of(needle);
    let mut i: usize = 0;
    while i < sc.len()
        invariant
            i <= sc@.len(),
            sc@ == s@,
            nc@ == needle@,
            forall|j: int| 0 <= j < i ==> !occurs_at(s@, j, needle@),
        decreases sc.len() - i,
    {
        if matches_at(&sc, i, &nc) {
            return true;
        }
        i = i + 1;
    }
    if matches_at(&sc, i, &nc) {
        return true;
    }
    assert forall|j: int| !occurs_at(s@, j, needle@) by {
        if 0 <= j <= i {
        }
    }
    false
}

impl AppConfig {
    /// The settings to run with: the stored ones when `config.json` could be
    /// read and parsed, the defaults otherwise, migrated as [`migrated`] says.
    pub fn load(stored: Option<AppConfig>) -> (r: AppConfig)
        ensures
            r@ == migrated(
                match stored {
                    Some(c) => c@,
                    None => default_config(),
                },
            ),
    {
        let mut config = match stored {
            Some(c) => c,
            None => AppConfig::default(),
        };
        let ghost c0 = config@;
        if str_eq(config.home_url.as_str(), "https://duckduckgo.com") {
            config.home_url = owned("https://www.google.com");
        }
        if str_eq(config.search_url.as_str(), "https://duckduckgo.com/?q={query}") {
            config.search_url = owned("https://www.google.com/search?q={query}");
        }
        let mut urls: Vec<String> = Vec::new();
        let mut i: usize = 0;
        while i < config.restore_urls.len()
            invariant
                i <= config.restore_urls@.len(),
                string_views(config.restore_urls@) == c0.restore_urls,
                string_views(urls@) == c0.restore_urls.take(i as int).map_values(
                    |u: Seq<char>| migrated_url(u),
                ),
            decreases config.restore_urls.len() - i,
        {
            let u = config.restore_urls[i].as_str();
            assert(c0.restore_urls[i as int] == u@);
            let ghost before = string_views(urls@);
            if str_eq(u, "https://duckduckgo.com") || str_eq(u, "https://duckduckgo.com/") {
                urls.push(owned("https://www.google.com"));
            } else {
                urls.push(owned(u));
            }
            assert(string_views(urls@) =~= before.push(migrated_url(u@)));
            assert(c0.restore_urls.take(i + 1).map_values(|u: Seq<char>| migrated_url(u))
                =~= c0.restore_urls.take(i as int).map_values(|u: Seq<char>| migrated_url(u)).push(
                migrated_url(c0.restore_urls[i as int]),
            ));
            i = i + 1;
        }
        assert(c0.restore_urls.take(i as int) =~= c0.restore_urls);
        config.restore_urls = urls;
        if !config.shortcuts_initialized {
            config.shortcuts_initialized = true;
            let mut found = false;
            let mut k: usize = 0;
            while k < config.bookmarks.len()
                invariant
                    k <= config.bookmarks@.len(),
                    bookmark_views(config.bookmarks@) == c0.bookmarks,
                    found == exists|j: int| 0 <= j < k && contains_text(#[trigger] c0.bookmarks[j].1, "youtube.com"@),
                decreases config.bookmarks.len() - k,
            {
                let hit = contains_str(config.bookmarks[k].url.as_str(), "youtube.com");
                assert(c0.bookmarks[k as int].1 == config.bookmarks@[k as int].url@);
                if hit {
                    found = true;
                }
                k = k + 1;
            }
            if !found {
                config.bookmarks.push(Bookmark { title: owned("YouTube"), url: owned("https://www.youtube.com") });
                assert(bookmark_views(config.bookmarks@) =~= c0.bookmarks.push(("YouTube"@, "https://www.youtube.com"@)));
            }
        }
        assert(config@ =~= migrated(c0));
        config
    }
}


/// The folder of the browser's data under the local application data.
pub const DATA_FOLDER: &'static str = "CRONI";

/// The folder the browser used under its former name.
pub const LEGACY_DATA_FOLDER: &'static str = "Navegadir";

/// Whether the data stays in the former folder: only while the current one
/// does not exist and the former one does, so that existing users keep
/// their cookies, logins and settings.
pub fn use_legacy_data_folder(current_exists: bool, legacy_exists: bool) -> (r: bool)
    ensures
        r == (!current_exists && legacy_exists),
{
    if current_exists {
        false
    } else {
        legacy_exists
    }
}

} // verus!
