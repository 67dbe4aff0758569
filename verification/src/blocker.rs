//! Content blocking: which URLs may be navigated to, which hosts are
//! advertising or tracking hosts, and the per-site blocker state.
use vstd::prelude::*;
use crate::config::string_views;
use crate::text::{lemma_encode_utf8_concat, str_eq};
use vstd::utf8::encode_utf8;
use crate::adblock_engine::{
    engine_from_filter_set, engine_from_list_text, engine_from_serialized, engine_hide_selectors,
    engine_serialize, engine_should_block, filter_set_add_list, new_filter_set, new_request,
    adblock_url_parses, adblock_serialization_valid, adblock_cache_blocks, adblock_cache_hide,
    engine_blocks, engine_hides, EngineSource, FilterEngine, ListSet,
};
use crate::text::{
    ascii_lower_seq, chars_eq, chars_ends_with, chars_of, ends_with, extend_chars, extend_str,
    json_quote, json_string_literal, lower_ascii, sort_strings, string_of, strings_sorted,
    utf8_len_exceeds,
};
use crate::web_url::{opt_view, parse_url, whatwg_parse};

verus! {

/// Hosts that are blocked, with their subdomains, before any filter list is
/// available.
pub open spec fn blocked_hosts() -> Seq<Seq<char>> {
    seq![
        "doubleclick.net"@,
        "googlesyndication.com"@,
        "googleadservices.com"@,
        "google-analytics.com"@,
        "adnxs.com"@,
        "adsrvr.org"@,
        "adform.net"@,
        "advertising.com"@,
        "amazon-adsystem.com"@,
        "casalemedia.com"@,
        "demdex.net"@,
        "media.net"@,
        "moatads.com"@,
        "openx.net"@,
        "pubmatic.com"@,
        "quantserve.com"@,
        "rlcdn.com"@,
        "rubiconproject.com"@,
        "scorecardresearch.com"@,
        "sharethrough.com"@,
        "smartadserver.com"@,
        "taboola.com"@,
        "outbrain.com"@,
        "criteo.com"@,
        "criteo.net"@,
        "hotjar.com"@,
        "clarity.ms"@,
        "yieldmo.com"@,
    ]
}

/// The hosts of [`blocked_hosts`], in the same order.
pub fn blocked_host_list() -> (r: Vec<&'static str>)
    ensures
        r@.len() == blocked_hosts().len(),
        forall|i: int| 0 <= i < r@.len() ==> #[trigger] r@[i]@ == blocked_hosts()[i],
{
    let mut r: Vec<&'static str> = Vec::new();
    r.push("doubleclick.net");
    r.push("googlesyndication.com");
    r.push("googleadservices.com");
    r.push("google-analytics.com");
    r.push("adnxs.com");
    r.push("adsrvr.org");
    r.push("adform.net");
    r.push("advertising.com");
    r.push("amazon-adsystem.com");
    r.push("casalemedia.com");
    r.push("demdex.net");
    r.push("media.net");
    r.push("moatads.com");
    r.push("openx.net");
    r.push("pubmatic.com");
    r.push("quantserve.com");
    r.push("rlcdn.com");
    r.push("rubiconproject.com");
    r.push("scorecardresearch.com");
    r.push("sharethrough.com");
    r.push("smartadserver.com");
    r.push("taboola.com");
    r.push("outbrain.com");
    r.push("criteo.com");
    r.push("criteo.net");
    r.push("hotjar.com");
    r.push("clarity.ms");
    r.push("yieldmo.com");
    r
}

/// The sequence without trailing dots (`str::trim_end_matches('.')`).
pub open spec fn trim_trailing_dots(s: Seq<char>) -> Seq<char>
    decreases s.len(),
{
    if s.len() > 0 && s.last() == '.' {
        trim_trailing_dots(s.drop_last())
    } else {
        s
    }
}

/// A host name as the blocker compares it: without trailing dots, in ASCII
/// lower case.
pub open spec fn normalized_host(h: Seq<char>) -> Seq<char> {
    ascii_lower_seq(trim_trailing_dots(h))
}

/// The normalized host of a URL, when it parses and has a host.
pub open spec fn host_of(raw: Seq<char>) -> Option<Seq<char>> {
    match whatwg_parse(raw) {
        Some(p) => match p.host {
            Some(h) => Some(normalized_host(h)),
            None => None,
        },
        None => None,
    }
}

fn trim_trailing_dots_chars(s: &Vec<char>) -> (r: Vec<char>)
    ensures
        r@ == trim_trailing_dots(s@),
{
    let mut end = s.len();
    assert(s@.take(end as int) =~= s@);
    while end > 0 && s[end - 1] == '.'
        invariant
            end <= s.len(),
            trim_trailing_dots(s@) == trim_trailing_dots(s@.take(end as int)),
        decreases end,
    {
        assert(s@.take(end as int).drop_last() =~= s@.take(end - 1));
        assert(s@.take(end as int).last() == s@[end - 1]);
        end = end - 1;
    }
    let mut r: Vec<char> = Vec::new();
    let mut i: usize = 0;
    while i < end
        invariant
            i <= end <= s.len(),
            r@ == s@.take(i as int),
        decreases end - i,
    {
        r.push(s[i]);
        assert(s@.take(i + 1) =~= s@.take(i as int).push(s@[i as int]));
        i = i + 1;
    }
    proof {
        assert(s@.take(end as int) =~= s@.take(i as int));
        let t = s@.take(end as int);
        if t.len() > 0 {
            assert(t.last() == s@[end - 1]);
        }
        assert(trim_trailing_dots(t) == t);
    }
    r
}

/// The blocker's normal form of a host name.
pub fn normalize_host(h: &str) -> (r: Vec<char>)
    ensures
        r@ == normalized_host(h@),
{
    let c = chars_of(h);
    let t = trim_trailing_dots_chars(&c);
    lower_ascii(&t)
}

/// The host of a URL, without trailing dots and in ASCII lower case.
pub fn host_from_url(raw: &str) -> (r: Option<Vec<char>>)
    ensures
        match r {
            Some(h) => host_of(raw@) == Some(h@),
            None => host_of(raw@) is None,
        },
{
    match parse_url(raw) {
        Some(parts) => match &parts.host {
            Some(h) => Some(normalize_host(h.as_str())),
            None => None,
        },
        None => None,
    }
}

/// `host` is `blocked` itself or one of its subdomains.
pub open spec fn host_matches(host: Seq<char>, blocked: Seq<char>) -> bool {
    host == blocked || (ends_with(host, blocked) && host.len() > blocked.len() && host[host.len()
        - blocked.len() - 1] == '.')
}

/// `host` is a listed host or a subdomain of one.
pub open spec fn is_blocked_host(host: Seq<char>) -> bool {
    exists|i: int| 0 <= i < blocked_hosts().len() && host_matches(host, #[trigger] blocked_hosts()[i])
}

/// A URL whose host is a listed host or a subdomain of one.
pub open spec fn url_is_blocked(raw: Seq<char>) -> bool {
    match host_of(raw) {
        Some(h) => is_blocked_host(h),
        None => false,
    }
}

fn host_matches_chars(host: &Vec<char>, blocked: &Vec<char>) -> (r: bool)
    ensures
        r == host_matches(host@, blocked@),
{
    if chars_eq(host, blocked) {
        return true;
    }
    if !chars_ends_with(host, blocked) || host.len() <= blocked.len() {
        return false;
    }
    host[host.len() - blocked.len() - 1] == '.'
}

/// Whether a URL points at a listed advertising or tracking host or one of
/// its subdomains.
pub fn is_blocked_url(raw: &str) -> (r: bool)
    ensures
        r == url_is_blocked(raw@),
{
    let host = match host_from_url(raw) {
        Some(h) => h,
        None => return false,
    };
    let list = blocked_host_list();
    let mut i: usize = 0;
    while i < list.len()
        invariant
            i <= list@.len() == blocked_hosts().len(),
            host_of(raw@) == Some(host@),
            forall|k: int| 0 <= k < list@.len() ==> #[trigger] list@[k]@ == blocked_hosts()[k],
            forall|k: int| 0 <= k < i ==> !host_matches(host@, #[trigger] blocked_hosts()[k]),
        decreases list.len() - i,
    {
        let b = chars_of(list[i]);
        if host_matches_chars(&host, &b) {
            assert(host_matches(host@, blocked_hosts()[i as int]));
            return true;
        }
        i = i + 1;
    }
    false
}

/// Subdomains of a blocked host are blocked too.
pub proof fn subdomain_of_blocked_host_is_blocked(host: Seq<char>, label: Seq<char>)
    requires
        is_blocked_host(host),
    ensures
        is_blocked_host(label + seq!['.'] + host),
{
    let i = choose|i: int| 0 <= i < blocked_hosts().len() && host_matches(host, #[trigger] blocked_hosts()[i]);
    let b = blocked_hosts()[i];
    let longer = label + seq!['.'] + host;
    assert(longer.skip(longer.len() - host.len()) =~= host);
    if host == b {
        assert(longer[longer.len() - b.len() - 1] == '.');
        assert(host_matches(longer, b));
    } else {
        assert(host.skip(host.len() - b.len()) == b);
        assert(longer.skip(longer.len() - b.len()) =~= host.skip(host.len() - b.len()));
        assert(longer[longer.len() - b.len() - 1] == host[host.len() - b.len() - 1]);
        assert(host_matches(longer, b));
    }
}

/// Schemes that the browser itself navigates to: web pages and `about:blank`.
pub open spec fn navigation_allowed(raw: Seq<char>) -> bool {
    match whatwg_parse(raw) {
        Some(p) => p.scheme == "http"@ || p.scheme == "https"@ || (p.scheme == "about"@ && p.path
            == "blank"@),
        None => false,
    }
}

/// Whether the browser may navigate to a URL: only `http`, `https` and
/// `about:blank`.
pub fn is_navigation_allowed(raw: &str) -> (r: bool)
    ensures
        r == navigation_allowed(raw@),
{
    match parse_url(raw) {
        Some(p) => str_eq(p.scheme.as_str(), "http") || str_eq(p.scheme.as_str(), "https") || (
        str_eq(p.scheme.as_str(), "about") && str_eq(p.path.as_str(), "blank")),
        None => false,
    }
}

/// What a page's own renderer may navigate to: the above, and `blob:` and
/// `data:` URLs created by the document (downloads keep their context).
pub open spec fn webview_navigation_allowed(raw: Seq<char>) -> bool {
    navigation_allowed(raw) || match whatwg_parse(raw) {
        Some(p) => p.scheme == "blob"@ || p.scheme == "data"@,
        None => false,
    }
}

/// Whether a page view may go to `raw`: an allowed address whose host is
/// not on the advertising and tracking list.
pub open spec fn view_navigation_allowed(raw: Seq<char>) -> bool {
    navigation_allowed(raw) && !url_is_blocked(raw)
}

/// Decides a navigation of a page view.
pub fn is_view_navigation_allowed(raw: &str) -> (r: bool)
    ensures
        r == view_navigation_allowed(raw@),
{
    is_navigation_allowed(raw) && !is_blocked_url(raw)
}

/// A page may start, inside its view, every navigation the browser itself
/// may make; `blob:` and `data:` URLs are allowed only there, never as an
/// address, a command-line URL or a restored tab.
pub proof fn renderer_schemes_stay_in_views(raw: Seq<char>)
    ensures
        navigation_allowed(raw) ==> webview_navigation_allowed(raw),
        (whatwg_parse(raw) matches Some(p) && (p.scheme == "blob"@ || p.scheme == "data"@)) ==> !navigation_allowed(
            raw,
        ) && webview_navigation_allowed(raw),
{
    reveal_strlit("blob");
    reveal_strlit("data");
    reveal_strlit("http");
    reveal_strlit("https");
    reveal_strlit("about");
    if let Some(p) = whatwg_parse(raw) {
        if p.scheme == "blob"@ || p.scheme == "data"@ {
            assert(p.scheme.len() == 4 && p.scheme[0] != 'h');
            assert(p.scheme != "http"@) by {
                assert("http"@[0] == 'h');
            }
            assert(p.scheme != "https"@ && p.scheme != "about"@);
        }
    }
}

/// Whether a navigation started inside a page is allowed.
pub fn is_webview_navigation_allowed(raw: &str) -> (r: bool)
    ensures
        r == webview_navigation_allowed(raw@),
{
    if is_navigation_allowed(raw) {
        return true;
    }
    match parse_url(raw) {
        Some(p) => str_eq(p.scheme.as_str(), "blob") || str_eq(p.scheme.as_str(), "data"),
        None => false,
    }
}

/// Network rules for the listed hosts, one `||host^` line each.
pub open spec fn host_rules(hosts: Seq<Seq<char>>) -> Seq<char>
    decreases hosts.len(),
{
    if hosts.len() == 0 {
        Seq::empty()
    } else {
        host_rules(hosts.drop_last()) + "||"@ + hosts.last() + "^\n"@
    }
}

/// The filter list that protects before EasyList and Brave's lists arrive.
pub open spec fn starter_rules_text() -> Seq<char> {
    "[Adblock Plus 2.0]\n! CRONI starter rules\n"@ + host_rules(blocked_hosts())
        + "##.adsbygoogle\n##[data-ad-client]\n##[data-ad-slot]\n##iframe[src*=\"doubleclick.net\"]\n"@
}

/// The starter filter list in Adblock Plus syntax.
pub fn starter_rules() -> (r: String)
    ensures
        r@ == starter_rules_text(),
{
    let mut rules = chars_of("[Adblock Plus 2.0]\n! CRONI starter rules\n");
    let ghost header = rules@;
    let list = blocked_host_list();
    let mut i: usize = 0;
    while i < list.len()
        invariant
            i <= list@.len() == blocked_hosts().len(),
            forall|k: int| 0 <= k < list@.len() ==> #[trigger] list@[k]@ == blocked_hosts()[k],
            rules@ == header + host_rules(blocked_hosts().take(i as int)),
        decreases list.len() - i,
    {
        extend_str(&mut rules, "||");
        extend_str(&mut rules, list[i]);
        extend_str(&mut rules, "^\n");
        assert(blocked_hosts().take(i + 1).drop_last() =~= blocked_hosts().take(i as int));
        i = i + 1;
    }
    assert(blocked_hosts().take(i as int) =~= blocked_hosts());
    extend_str(
        &mut rules,
        "##.adsbygoogle\n##[data-ad-client]\n##[data-ad-slot]\n##iframe[src*=\"doubleclick.net\"]\n",
    );
    string_of(&rules)
}

/// The engine compiled from the starter list.
pub fn starter_engine() -> (r: FilterEngine)
    ensures
        r.source() == EngineSource::Lists(seq![starter_rules_text()]),
{
    engine_from_list_text(starter_rules())
}

/// EasyList, EasyPrivacy and Brave's own lists.
pub open spec fn filter_source_urls() -> Seq<Seq<char>> {
    seq![
        "https://easylist.to/easylist/easylist.txt"@,
        "https://easylist.to/easylist/easyprivacy.txt"@,
        "https://raw.githubusercontent.com/brave/adblock-lists/master/brave-lists/brave-specific.txt"@,
        "https://raw.githubusercontent.com/brave/adblock-lists/master/brave-lists/brave-firstparty.txt"@,
        "https://raw.githubusercontent.com/brave/adblock-lists/master/brave-unbreak.txt"@,
    ]
}

/// Sources of the full filter set, fetched every 48 hours.
pub fn filter_sources() -> (r: Vec<&'static str>)
    ensures
        r@.len() == filter_source_urls().len(),
        forall|i: int| 0 <= i < r@.len() ==> #[trigger] r@[i]@ == filter_source_urls()[i],
{
    let mut r: Vec<&'static str> = Vec::new();
    r.push("https://easylist.to/easylist/easylist.txt");
    r.push("https://easylist.to/easylist/easyprivacy.txt");
    r.push(
        "https://raw.githubusercontent.com/brave/adblock-lists/master/brave-lists/brave-specific.txt",
    );
    r.push(
        "https://raw.githubusercontent.com/brave/adblock-lists/master/brave-lists/brave-firstparty.txt",
    );
    r.push("https://raw.githubusercontent.com/brave/adblock-lists/master/brave-unbreak.txt");
    r
}

/// The script that stops animations and transitions, for pages when motion
/// is reduced.
pub const PERFORMANCE_SCRIPT: &'static str = r#"
(() => {
  'use strict';
  const style = document.createElement('style');
  style.id = 'croni-reduced-motion';
  style.textContent = `
    *, *::before, *::after {
      animation-duration: 0.001ms !important;
      animation-iteration-count: 1 !important;
      transition-duration: 0.001ms !important;
      scroll-behavior: auto !important;
    }
  `;
  const install = () => (document.head || document.documentElement).appendChild(style);
  if (document.documentElement) install();
  else document.addEventListener('DOMContentLoaded', install, { once: true });
})();
"#;

/// The script that pauses a page's audio and video.
pub const PAUSE_MEDIA_SCRIPT: &'static str = r#"
    document.querySelectorAll('audio, video').forEach(media => {
        try { media.pause(); media.removeAttribute('autoplay'); } catch (_) {}
    });
"#;

/// The script that leaves a page's own fullscreen.
pub const EXIT_FULLSCREEN_SCRIPT: &'static str = "if (document.fullscreenElement) document.exitFullscreen();";

/// The status of the answer given in place of a blocked request.
pub const BLOCKED_RESPONSE_STATUS: u16 = 204;

/// The reason phrase of that answer.
pub const BLOCKED_RESPONSE_REASON: &'static str = "No Content";

/// The headers of that answer.
pub const BLOCKED_RESPONSE_HEADERS: &'static str = "Cache-Control: no-store\r\nAccess-Control-Allow-Origin: *\r\n";


/// Age after which the cached engine is rebuilt, in seconds.
pub const FILTER_UPDATE_INTERVAL_SECS: u64 = 172800;

/// Largest filter list that is accepted, in bytes.
pub const MAX_FILTER_BYTES: usize = 12582912;

/// A downloaded filter list that is not UTF-8 text.
pub struct FilterListNotUtf8;

/// Whether the bytes are well-formed UTF-8.
pub open spec fn is_utf8(bytes: Seq<u8>) -> bool {
    exists|s: Seq<char>| encode_utf8(s) == bytes
}

/// Calls `String::from_utf8`. The std documentation: the bytes become a
/// string exactly when they are valid UTF-8, and that string encodes to them.
#[verifier::external_body]
pub(crate) fn string_from_utf8(bytes: Vec<u8>) -> (r: Option<String>)
    ensures
        r is Some <==> is_utf8(bytes@),
        r matches Some(s) ==> encode_utf8(s@) == bytes@,
{
    String::from_utf8(bytes).ok()
}

/// Collects the full filter set: the starter list first, then each
/// downloaded list in order.
pub struct FilterSetBuilder {
    set: ListSet,
}

impl FilterSetBuilder {
    /// The filter lists handed to the set so far, in order.
    pub closed spec fn lists(&self) -> Seq<Seq<char>> {
        self.set.lists()
    }

    /// A builder whose set holds the starter list and nothing else.
    pub fn new() -> (r: Self)
        ensures
            r.lists() == seq![starter_rules_text()],
    {
        let mut set = new_filter_set();
        filter_set_add_list(&mut set, starter_rules());
        assert(set.lists() =~= seq![starter_rules_text()]);
        FilterSetBuilder { set }
    }

    /// Adds a downloaded list, decoded as UTF-8, after the others; refused,
    /// and nothing added, when it is not UTF-8.
    pub fn add_downloaded(&mut self, bytes: Vec<u8>) -> (r: Result<(), FilterListNotUtf8>)
        ensures
            r is Ok <==> is_utf8(bytes@),
            r is Ok ==> exists|text: Seq<char>|
                encode_utf8(text) == bytes@ && final(self).lists() == old(self).lists().push(text),
            r is Err ==> final(self).lists() == old(self).lists(),
    {
        match string_from_utf8(bytes) {
            Some(text) => {
                filter_set_add_list(&mut self.set, text);
                Ok(())
            },
            None => Err(FilterListNotUtf8),
        }
    }

    /// The engine compiled from everything added, in order.
    pub fn finish(self) -> (r: FilterEngine)
        ensures
            r.source() == EngineSource::Lists(self.lists()),
    {
        engine_from_filter_set(self.set)
    }
}

/// Progress of the background filter-list update.
#[derive(PartialEq, Eq, Structural, Clone, Copy, Debug)]
pub enum FilterStatus {
    /// Only the starter list is active.
    Starter,
    /// Lists are being downloaded.
    Updating,
    /// The full filter set is active.
    Ready,
    /// The last update failed; the previous engine stays active.
    Failed,
}

/// The word the interface shows for a status.
pub open spec fn status_text(s: FilterStatus) -> Seq<char> {
    match s {
        FilterStatus::Updating => "updating"@,
        FilterStatus::Ready => "ready"@,
        FilterStatus::Failed => "failed"@,
        FilterStatus::Starter => "starter"@,
    }
}

/// Kinds of network request that WebView2 reports to the blocker.
#[derive(PartialEq, Eq, Structural, Clone, Copy, Debug)]
pub enum ResourceContext {
    Document,
    Stylesheet,
    Image,
    Media,
    Font,
    Script,
    XmlHttpRequest,
    Fetch,
    WebSocket,
    Ping,
    Other,
}

/// The request type name that `adblock` expects for a resource context.
pub open spec fn resource_type_name(c: ResourceContext) -> Seq<char> {
    match c {
        ResourceContext::Document => "document"@,
        ResourceContext::Stylesheet => "stylesheet"@,
        ResourceContext::Image => "image"@,
        ResourceContext::Media => "media"@,
        ResourceContext::Font => "font"@,
        ResourceContext::Script => "script"@,
        ResourceContext::XmlHttpRequest => "xmlhttprequest"@,
        ResourceContext::Fetch => "fetch"@,
        ResourceContext::WebSocket => "websocket"@,
        ResourceContext::Ping => "ping"@,
        ResourceContext::Other => "other"@,
    }
}

/// The request type name of a resource context.
pub fn resource_type(c: ResourceContext) -> (r: &'static str)
    ensures
        r@ == resource_type_name(c),
{
    match c {
        ResourceContext::Document => "document",
        ResourceContext::Stylesheet => "stylesheet",
        ResourceContext::Image => "image",
        ResourceContext::Media => "media",
        ResourceContext::Font => "font",
        ResourceContext::Script => "script",
        ResourceContext::XmlHttpRequest => "xmlhttprequest",
        ResourceContext::Fetch => "fetch",
        ResourceContext::WebSocket => "websocket",
        ResourceContext::Ping => "ping",
        ResourceContext::Other => "other",
    }
}

/// Toggling membership of `h`.
pub open spec fn toggled(s: Set<Seq<char>>, h: Seq<char>) -> Set<Seq<char>> {
    if s.contains(h) {
        s.remove(h)
    } else {
        s.insert(h)
    }
}

/// Toggling a host twice gives back the set one started from.
pub proof fn toggle_twice_restores(s: Set<Seq<char>>, h: Seq<char>)
    ensures
        toggled(toggled(s, h), h) == s,
{
    if s.contains(h) {
        assert(s.remove(h).insert(h) =~= s);
    } else {
        assert(s.insert(h).remove(h) =~= s);
    }
}

/// The normalized, non-empty hosts among the configured ones.
pub open spec fn initial_disabled(hosts: Seq<String>) -> Set<Seq<char>> {
    Set::new(
        |h: Seq<char>|
            h.len() > 0 && exists|i: int| 0 <= i < hosts.len() && h == normalized_host(#[trigger] hosts[i]@),
    )
}

proof fn lemma_push_to_set(q: Seq<Seq<char>>, h: Seq<char>)
    ensures
        q.push(h).to_set() == q.to_set().insert(h),
{
    assert forall|x: Seq<char>| q.push(h).to_set().contains(x) == q.to_set().insert(h).contains(x) by {
        if q.push(h).to_set().contains(x) {
            let j = choose|j: int| 0 <= j < q.push(h).len() && q.push(h)[j] == x;
            if j < q.len() {
                assert(q[j] == x);
                assert(q.to_set().contains(x));
            }
        }
        if q.to_set().contains(x) {
            let j = choose|j: int| 0 <= j < q.len() && q[j] == x;
            assert(q.push(h)[j] == x);
        }
        if x == h {
            assert(q.push(h)[q.len() as int] == h);
        }
    }
    assert(q.push(h).to_set() =~= q.to_set().insert(h));
}

proof fn lemma_remove_to_set(q: Seq<Seq<char>>, i: int)
    requires
        0 <= i < q.len(),
        q.no_duplicates(),
    ensures
        q.remove(i).to_set() == q.to_set().remove(q[i]),
        q.remove(i).no_duplicates(),
{
    let r = q.remove(i);
    assert forall|x: Seq<char>| r.to_set().contains(x) == q.to_set().remove(q[i]).contains(x) by {
        if r.to_set().contains(x) {
            let j = choose|j: int| 0 <= j < r.len() && r[j] == x;
            if j < i {
                assert(q[j] == x);
                assert(j != i);
            } else {
                assert(q[j + 1] == x);
                assert(j + 1 != i);
            }
            assert(q.to_set().contains(x));
        }
        if q.to_set().remove(q[i]).contains(x) {
            let j = choose|j: int| 0 <= j < q.len() && q[j] == x;
            assert(j != i);
            if j < i {
                assert(r[j] == x);
            } else {
                assert(r[j - 1] == x);
            }
        }
    }
    assert(r.to_set() =~= q.to_set().remove(q[i]));
    assert forall|a: int, b: int| 0 <= a < r.len() && 0 <= b < r.len() && a != b implies r[a]
        != r[b] by {
        let qa = if a < i { a } else { a + 1 };
        let qb = if b < i { b } else { b + 1 };
        assert(r[a] == q[qa]);
        assert(r[b] == q[qb]);
    }
}

/// The index of a host in the list, if present.
fn find_host(v: &Vec<String>, h: &Vec<char>) -> (r: Option<usize>)
    ensures
        match r {
            Some(i) => i < v@.len() && v@[i as int]@ == h@,
            None => !string_views(v@).contains(h@),
        },
{
    let mut i: usize = 0;
    while i < v.len()
        invariant
            i <= v@.len(),
            forall|k: int| 0 <= k < i ==> (#[trigger] v@[k])@ != h@,
        decreases v.len() - i,
    {
        if chars_eq(&chars_of(v[i].as_str()), h) {
            return Some(i);
        }
        i = i + 1;
    }
    assert forall|k: int| 0 <= k < string_views(v@).len() implies string_views(v@)[k] != h@ by {
        assert(string_views(v@)[k] == v@[k]@);
    }
    None
}

/// The script prepended to the page's hide rules.
pub open spec fn cosmetic_prefix() -> Seq<char> {
    "(() => {\n            let style = document.getElementById('croni-site-filters');\n            if (!style) { style = document.createElement('style'); style.id = 'croni-site-filters'; (document.head || document.documentElement).appendChild(style); }\n            style.textContent = "@
}

/// The end of the cosmetic script.
pub open spec fn cosmetic_suffix() -> Seq<char> {
    ";\n        })()"@
}

/// Joins texts with a separator between neighbours.
pub open spec fn join_with(parts: Seq<Seq<char>>, sep: Seq<char>) -> Seq<char>
    decreases parts.len(),
{
    if parts.len() == 0 {
        Seq::empty()
    } else if parts.len() == 1 {
        parts[0]
    } else {
        join_with(parts.drop_last(), sep) + sep + parts.last()
    }
}

/// At most this many selectors are hidden on a page.
pub open spec fn max_selectors() -> int {
    2048
}

/// The first 2048 selectors.
pub open spec fn kept_selectors(sorted: Seq<String>) -> Seq<String> {
    if sorted.len() > max_selectors() {
        sorted.take(max_selectors())
    } else {
        sorted
    }
}

/// The style sheet that hides the kept selectors.
pub open spec fn hide_css(sorted: Seq<String>) -> Seq<char> {
    join_with(string_views(kept_selectors(sorted)), ","@) + "{display:none!important}"@
}

/// The script injected for an already sorted selector list: none when no
/// selector is left or the style sheet exceeds 256 KiB of UTF-8.
pub open spec fn cosmetic_script_text(sorted: Seq<String>) -> Option<Seq<char>> {
    if kept_selectors(sorted).len() == 0 {
        None
    } else if encode_utf8(hide_css(sorted)).len() > 262144 {
        None
    } else {
        Some(cosmetic_prefix() + json_string_literal(hide_css(sorted)) + cosmetic_suffix())
    }
}

/// A page gets its cosmetic script whenever it has a selector to hide and
/// the style sheet fits in 256 KiB of UTF-8; a larger sheet is refused.
pub proof fn style_sheets_up_to_256_kib_are_injected(sorted: Seq<String>)
    ensures
        sorted.len() > 0 && encode_utf8(hide_css(sorted)).len() <= 256 * 1024 ==> cosmetic_script_text(sorted) is Some,
        encode_utf8(hide_css(sorted)).len() > 256 * 1024 ==> cosmetic_script_text(sorted) is None,
        sorted.len() == 0 ==> cosmetic_script_text(sorted) is None,
{
}

/// UTF-8 takes at most four bytes per character.
proof fn lemma_utf8_size(s: Seq<char>)
    ensures
        encode_utf8(s).len() <= 4 * s.len(),
    decreases s.len(),
{
    if s.len() > 0 {
        lemma_utf8_size(s.drop_first());
    }
}

/// Joined parts take at most their own bytes plus a comma each.
proof fn lemma_joined_size(parts: Seq<Seq<char>>, limit: int)
    requires
        forall|i: int| 0 <= i < parts.len() ==> encode_utf8(#[trigger] parts[i]).len() <= limit,
    ensures
        encode_utf8(join_with(parts, ","@)).len() <= parts.len() * (limit + 4),
    decreases parts.len(),
{
    if parts.len() == 0 {
        assert(encode_utf8(join_with(parts, ","@)) =~= Seq::<u8>::empty());
    } else if parts.len() == 1 {
        assert(encode_utf8(parts[0]).len() <= limit);
    } else {
        let init = parts.drop_last();
        assert forall|i: int| 0 <= i < init.len() implies encode_utf8(#[trigger] init[i]).len() <= limit by {
            assert(init[i] == parts[i]);
        }
        lemma_joined_size(init, limit);
        lemma_encode_utf8_concat(join_with(init, ","@), ","@);
        lemma_encode_utf8_concat(join_with(init, ","@) + ","@, parts.last());
        reveal_strlit(",");
        lemma_utf8_size(","@);
        assert(encode_utf8(parts.last()).len() <= limit);
        assert((parts.len() - 1) * (limit + 4) + 4 + limit == parts.len() * (limit + 4)) by (nonlinear_arith);
    }
}

/// A page whose hidden selectors are each at most 100 bytes of UTF-8 always
/// gets its cosmetic script: even 2048 of them stay below 256 KiB.
pub proof fn short_selectors_are_always_hidden(sorted: Seq<String>)
    requires
        sorted.len() > 0,
        forall|i: int| 0 <= i < sorted.len() ==> encode_utf8(#[trigger] sorted[i]@).len() <= 100,
    ensures
        cosmetic_script_text(sorted) is Some,
{
    let kept = string_views(kept_selectors(sorted));
    assert forall|i: int| 0 <= i < kept.len() implies encode_utf8(#[trigger] kept[i]).len() <= 100 by {
        assert(kept[i] == sorted[i]@);
    }
    lemma_joined_size(kept, 100);
    assert(kept.len() <= 2048);
    assert(kept.len() * 104 <= 2048 * 104) by (nonlinear_arith)
        requires
            kept.len() <= 2048,
    ;
    let tail = "{display:none!important}"@;
    reveal_strlit("{display:none!important}");
    lemma_encode_utf8_concat(join_with(kept, ","@), tail);
    lemma_utf8_size(tail);
    assert(encode_utf8(hide_css(sorted)).len() <= 2048 * 104 + 96);
}

fn join_strings(parts: &Vec<String>, n: usize) -> (r: Vec<char>)
    requires
        n <= parts@.len(),
    ensures
        r@ == join_with(string_views(parts@.take(n as int)), ","@),
{
    let mut out: Vec<char> = Vec::new();
    let mut i: usize = 0;
    assert(string_views(parts@.take(0)) =~= Seq::<Seq<char>>::empty());
    while i < n
        invariant
            i <= n <= parts@.len(),
            out@ == join_with(string_views(parts@.take(i as int)), ","@),
        decreases n - i,
    {
        let ghost before = out@;
        if i > 0 {
            extend_str(&mut out, ",");
        }
        extend_str(&mut out, parts[i].as_str());
        proof {
            let next = string_views(parts@.take(i + 1));
            assert(next.drop_last() =~= string_views(parts@.take(i as int)));
            assert(next.last() == parts@[i as int]@);
            if i == 0 {
                assert(next.len() == 1);
                assert(out@ =~= next[0]);
            }
        }
        i = i + 1;
    }
    out
}

/// The cosmetic script for selectors already in ascending order.
pub fn cosmetic_script_for_sorted(sorted: &Vec<String>) -> (r: Option<String>)
    ensures
        opt_view(r) == cosmetic_script_text(sorted@),
{
    let n = if sorted.len() > 2048 {
        2048
    } else {
        sorted.len()
    };
    assert(kept_selectors(sorted@) =~= sorted@.take(n as int));
    if n == 0 {
        return None;
    }
    let mut css = join_strings(sorted, n);
    extend_str(&mut css, "{display:none!important}");
    let css_text = string_of(&css);
    assert(css@ == hide_css(sorted@));
    if utf8_len_exceeds(&css, 262144) {
        return None;
    }
    let quoted = json_quote(css_text.as_str());
    let mut script = chars_of(
        "(() => {\n            let style = document.getElementById('croni-site-filters');\n            if (!style) { style = document.createElement('style'); style.id = 'croni-site-filters'; (document.head || document.documentElement).appendChild(style); }\n            style.textContent = ",
    );
    extend_str(&mut script, quoted.as_str());
    extend_str(&mut script, ";\n        })()");
    assert(script@ == cosmetic_prefix() + json_string_literal(hide_css(sorted@)) + cosmetic_suffix());
    Some(string_of(&script))
}

/// The cosmetic script for the page's hide selectors, sorted first. The
/// selectors are sorted in `String` order; any arrangement in that order gives
/// the stated script.
pub fn cosmetic_script_for_selectors(selectors: Vec<String>) -> (r: Option<String>)
    ensures
        exists|sorted: Seq<String>|
            sorted.to_multiset() == selectors@.to_multiset() && strings_sorted(sorted) && opt_view(r)
                == cosmetic_script_text(sorted),
{
    let mut v = selectors;
    sort_strings(&mut v);
    let r = cosmetic_script_for_sorted(&v);
    assert(v@.to_multiset() == selectors@.to_multiset() && strings_sorted(v@) && opt_view(r)
        == cosmetic_script_text(v@));
    r
}

/// The cosmetic script for the page at `url`: none where blocking is off;
/// otherwise the script for the engine's hide selectors of that page, each
/// once, in `String` order.
pub open spec fn cosmetic_script_of(source: EngineSource, enabled: bool, url: Seq<char>, script: Option<Seq<char>>) -> bool {
    if !enabled {
        script is None
    } else {
        exists|sorted: Seq<String>|
            {
                &&& string_views(sorted).to_set() == engine_hides(source, url)
                &&& string_views(sorted).no_duplicates()
                &&& strings_sorted(sorted)
                &&& script == cosmetic_script_text(sorted)
            }
    }
}

/// Reordering strings keeps which texts occur and that each occurs once.
proof fn lemma_reordered_texts(a: Seq<String>, b: Seq<String>)
    requires
        a.to_multiset() == b.to_multiset(),
        string_views(b).no_duplicates(),
    ensures
        string_views(a).to_set() == string_views(b).to_set(),
        string_views(a).no_duplicates(),
{
    broadcast use vstd::seq_lib::group_to_multiset_ensures;

    assert forall|i: int| 0 <= i < a.len() implies b.contains(#[trigger] a[i]) by {
        assert(a.contains(a[i]));
        assert(a.to_multiset().count(a[i]) > 0);
        assert(b.to_multiset().count(a[i]) > 0);
    }
    assert forall|j: int| 0 <= j < b.len() implies a.contains(#[trigger] b[j]) by {
        assert(b.contains(b[j]));
        assert(b.to_multiset().count(b[j]) > 0);
        assert(a.to_multiset().count(b[j]) > 0);
    }
    assert forall|x: Seq<char>| string_views(a).to_set().contains(x) <==> string_views(b).to_set().contains(x) by {
        if string_views(a).to_set().contains(x) {
            let i = choose|i: int| 0 <= i < string_views(a).len() && string_views(a)[i] == x;
            assert(b.contains(a[i]));
            let j = choose|j: int| 0 <= j < b.len() && b[j] == a[i];
            assert(string_views(b)[j] == x);
        }
        if string_views(b).to_set().contains(x) {
            let j = choose|j: int| 0 <= j < string_views(b).len() && string_views(b)[j] == x;
            assert(a.contains(b[j]));
            let i = choose|i: int| 0 <= i < a.len() && a[i] == b[j];
            assert(string_views(a)[i] == x);
        }
    }
    assert(string_views(a).to_set() =~= string_views(b).to_set());
    assert(b.no_duplicates()) by {
        assert forall|i: int, j: int| 0 <= i < b.len() && 0 <= j < b.len() && i != j implies b[i] != b[j] by {
            assert(string_views(b)[i] == b[i]@);
            assert(string_views(b)[j] == b[j]@);
        }
    }
    b.lemma_multiset_has_no_duplicates();
    a.lemma_multiset_has_no_duplicates_conv();
    assert forall|i: int, j: int|
        0 <= i < a.len() && 0 <= j < a.len() && i != j implies string_views(a)[i] != string_views(a)[j] by {
        if string_views(a)[i] == string_views(a)[j] {
            assert(b.contains(a[i]));
            assert(b.contains(a[j]));
            let p = choose|p: int| 0 <= p < b.len() && b[p] == a[i];
            let q = choose|q: int| 0 <= q < b.len() && b[q] == a[j];
            assert(string_views(b)[p] == string_views(b)[q]);
            assert(p == q);
        }
    }
}

/// The blocker of one browser: its filter engine, the sites on which the user
/// switched blocking off, how many requests it blocked and the state of the
/// background filter update.
pub struct BlockerManager {
    engine: FilterEngine,
    disabled_hosts: Vec<String>,
    blocked_count: u64,
    status: FilterStatus,
}

impl BlockerManager {
    /// Where the active engine's filters came from.
    pub closed spec fn engine_source(&self) -> EngineSource {
        self.engine.source()
    }

    /// The hosts on which blocking is off.
    pub closed spec fn disabled(&self) -> Set<Seq<char>> {
        string_views(self.disabled_hosts@).to_set()
    }

    /// The number of requests blocked so far.
    pub closed spec fn count(&self) -> u64 {
        self.blocked_count
    }

    /// The state of the filter update.
    pub closed spec fn filter_status(&self) -> FilterStatus {
        self.status
    }

    /// The host list holds no host twice.
    pub closed spec fn wf(&self) -> bool {
        string_views(self.disabled_hosts@).no_duplicates()
    }

    /// Blocking applies on a page: its host is not switched off (pages
    /// without a host are always filtered).
    pub open spec fn enabled_for(&self, raw: Seq<char>) -> bool {
        match host_of(raw) {
            Some(h) => !self.disabled().contains(h),
            None => true,
        }
    }

    /// A blocker that starts from the cached engine when its bytes load, and
    /// from the starter list otherwise; blocking is off on the configured
    /// hosts (normalized, empty ones dropped). A fresh cache counts as an
    /// up-to-date filter set.
    pub fn new(disabled_hosts: &Vec<String>, cached_engine: Option<Vec<u8>>, cache_is_fresh: bool) -> (r: Self)
        ensures
            r.wf(),
            r.disabled() == initial_disabled(disabled_hosts@),
            r.count() == 0,
            r.filter_status() == (if cache_is_fresh {
                FilterStatus::Ready
            } else {
                FilterStatus::Starter
            }),
            r.engine_source() == match cached_engine {
                Some(b) if adblock_serialization_valid(b@) => EngineSource::Cache(b@),
                _ => EngineSource::Lists(seq![starter_rules_text()]),
            },
    {
        let engine = match cached_engine {
            Some(bytes) => match engine_from_serialized(bytes.as_slice()) {
                Some(e) => e,
                None => starter_engine(),
            },
            None => starter_engine(),
        };
        let mut hosts: Vec<String> = Vec::new();
        let mut i: usize = 0;
        while i < disabled_hosts.len()
            invariant
                i <= disabled_hosts@.len(),
                string_views(hosts@).no_duplicates(),
                string_views(hosts@).to_set() == Set::new(
                    |h: Seq<char>|
                        h.len() > 0 && exists|k: int|
                            0 <= k < i && h == normalized_host(#[trigger] disabled_hosts@[k]@),
                ),
            decreases disabled_hosts.len() - i,
        {
            let h = normalize_host(disabled_hosts[i].as_str());
            let ghost before = string_views(hosts@);
            let ghost prev = Set::new(
                |x: Seq<char>|
                    x.len() > 0 && exists|k: int|
                        0 <= k < i && x == normalized_host(#[trigger] disabled_hosts@[k]@),
            );
            let ghost next = Set::new(
                |x: Seq<char>|
                    x.len() > 0 && exists|k: int|
                        0 <= k < i + 1 && x == normalized_host(#[trigger] disabled_hosts@[k]@),
            );
            proof {
                assert(normalized_host(disabled_hosts@[i as int]@) == h@);
                assert forall|x: Seq<char>| #[trigger] next.contains(x) == (prev.contains(x) || (x
                    == h@ && h@.len() > 0)) by {
                    if next.contains(x) && x != h@ {
                        let k = choose|k: int|
                            0 <= k < i + 1 && x == normalized_host(#[trigger] disabled_hosts@[k]@);
                        assert(k < i);
                        assert(prev.contains(x));
                    }
                    if prev.contains(x) {
                        let k = choose|k: int|
                            0 <= k < i && x == normalized_host(#[trigger] disabled_hosts@[k]@);
                        assert(next.contains(x));
                    }
                    if x == h@ && h@.len() > 0 {
                        assert(next.contains(x));
                    }
                }
            }
            if h.len() > 0 {
                match find_host(&hosts, &h) {
                    Some(j) => {
                        proof {
                            assert(before[j as int] == h@);
                            assert(before.to_set().contains(h@));
                            assert(before.to_set() =~= next);
                        }
                    },
                    None => {
                        hosts.push(string_of(&h));
                        proof {
                            assert(string_views(hosts@) =~= before.push(h@));
                            lemma_push_to_set(before, h@);
                            assert forall|a: int, b: int|
                                0 <= a < string_views(hosts@).len() && 0 <= b < string_views(hosts@).len()
                                    && a != b implies string_views(hosts@)[a] != string_views(hosts@)[b] by {
                                if a == before.len() as int {
                                    assert(string_views(hosts@)[b] == before[b]);
                                }
                                if b == before.len() as int {
                                    assert(string_views(hosts@)[a] == before[a]);
                                }
                            }
                            assert(string_views(hosts@).to_set() =~= next);
                        }
                    },
                }
            } else {
                proof {
                    assert(string_views(hosts@).to_set() =~= next);
                }
            }
            i = i + 1;
        }
        BlockerManager {
            engine,
            disabled_hosts: hosts,
            blocked_count: 0,
            status: if cache_is_fresh {
                FilterStatus::Ready
            } else {
                FilterStatus::Starter
            },
        }
    }

    /// Marks the update as started. Nothing happens, and `false` comes back,
    /// when the cache is fresh or an update is already running.
    pub fn start_filter_update(&mut self, cache_is_fresh: bool) -> (r: bool)
        requires
            old(self).wf(),
        ensures
            final(self).wf(),
            r == (!cache_is_fresh && old(self).filter_status() != FilterStatus::Updating),
            final(self).filter_status() == (if cache_is_fresh {
                old(self).filter_status()
            } else {
                FilterStatus::Updating
            }),
            final(self).disabled() == old(self).disabled(),
            final(self).count() == old(self).count(),
            final(self).engine_source() == old(self).engine_source(),
    {
        if cache_is_fresh {
            return false;
        }
        let previous = self.status;
        self.status = FilterStatus::Updating;
        previous != FilterStatus::Updating
    }

    /// Installs the downloaded engine, or records that the update failed
    /// and keeps the engine in use.
    pub fn finish_filter_update(&mut self, engine: Option<FilterEngine>)
        requires
            old(self).wf(),
        ensures
            final(self).wf(),
            final(self).filter_status() == (if engine is Some {
                FilterStatus::Ready
            } else {
                FilterStatus::Failed
            }),
            final(self).disabled() == old(self).disabled(),
            final(self).count() == old(self).count(),
            final(self).engine_source() == match engine {
                Some(e) => e.source(),
                None => old(self).engine_source(),
            },
    {
        match engine {
            Some(e) => {
                self.engine = e;
                self.status = FilterStatus::Ready;
            },
            None => {
                self.status = FilterStatus::Failed;
            },
        }
    }

    /// The current engine, serialized for the disk cache: bytes that
    /// [`BlockerManager::new`] loads again.
    pub fn serialized_engine(&self) -> (r: Vec<u8>)
        ensures
            adblock_serialization_valid(r@),
            forall|url: Seq<char>, source_url: Seq<char>, request_type: Seq<char>, method: Seq<char>|
                #[trigger] adblock_cache_blocks(r@, url, source_url, request_type, method) == engine_blocks(
                    self.engine_source(),
                    url,
                    source_url,
                    request_type,
                    method,
                ),
            forall|url: Seq<char>| #[trigger] adblock_cache_hide(r@, url) == engine_hides(self.engine_source(), url),
    {
        engine_serialize(&self.engine)
    }

    /// The number of requests blocked so far.
    pub fn blocked_count(&self) -> (r: u64)
        ensures
            r == self.count(),
    {
        self.blocked_count
    }

    /// The state of the filter update, as the interface names it.
    pub fn status(&self) -> (r: &'static str)
        ensures
            r@ == status_text(self.filter_status()),
    {
        match self.status {
            FilterStatus::Updating => "updating",
            FilterStatus::Ready => "ready",
            FilterStatus::Failed => "failed",
            FilterStatus::Starter => "starter",
        }
    }

    /// Whether blocking applies on the page at `raw`.
    pub fn is_enabled_for_url(&self, raw: &str) -> (r: bool)
        ensures
            r == self.enabled_for(raw@),
    {
        match host_from_url(raw) {
            Some(h) => {
                let found = find_host(&self.disabled_hosts, &h);
                proof {
                    if let Some(i) = found {
                        assert(string_views(self.disabled_hosts@)[i as int] == h@);
                    } else {
                        if self.disabled().contains(h@) {
                            let j = choose|j: int|
                                0 <= j < string_views(self.disabled_hosts@).len() && string_views(
                                    self.disabled_hosts@,
                                )[j] == h@;
                            assert(string_views(self.disabled_hosts@).contains(h@));
                        }
                    }
                }
                found.is_none()
            },
            None => true,
        }
    }

    /// Switches blocking off for the page's host when it is on, and on when
    /// it is off. Returns the host and whether blocking is now on; `None`,
    /// with nothing changed, for a URL without a host.
    pub fn toggle_for_url(&mut self, raw: &str) -> (r: Option<(String, bool)>)
        requires
            old(self).wf(),
        ensures
            final(self).wf(),
            final(self).count() == old(self).count(),
            final(self).filter_status() == old(self).filter_status(),
            final(self).engine_source() == old(self).engine_source(),
            match r {
                None => host_of(raw@) is None && final(self).disabled() == old(self).disabled(),
                Some((host, enabled)) => {
                    &&& host_of(raw@) == Some(host@)
                    &&& enabled == old(self).disabled().contains(host@)
                    &&& final(self).disabled() == toggled(old(self).disabled(), host@)
                    &&& enabled == final(self).enabled_for(raw@)
                },
            },
    {
        let h = match host_from_url(raw) {
            Some(h) => h,
            None => return None,
        };
        let ghost q = string_views(self.disabled_hosts@);
        match find_host(&self.disabled_hosts, &h) {
            Some(i) => {
                self.disabled_hosts.remove(i);
                proof {
                    assert(q[i as int] == h@);
                    lemma_remove_to_set(q, i as int);
                    assert(string_views(self.disabled_hosts@) =~= q.remove(i as int));
                    assert(q.to_set().contains(h@));
                    assert(!q.remove(i as int).to_set().contains(h@));
                }
                Some((string_of(&h), true))
            },
            None => {
                self.disabled_hosts.push(string_of(&h));
                proof {
                    assert(string_views(self.disabled_hosts@) =~= q.push(h@));
                    lemma_push_to_set(q, h@);
                    assert(!q.to_set().contains(h@)) by {
                        if q.to_set().contains(h@) {
                            let j = choose|j: int| 0 <= j < q.len() && q[j] == h@;
                            assert(q.contains(h@));
                        }
                    }
                    assert forall|a: int, b: int|
                        0 <= a < q.push(h@).len() && 0 <= b < q.push(h@).len() && a != b implies q.push(
                            h@,
                        )[a] != q.push(h@)[b] by {
                        if a == q.len() as int {
                            assert(q.push(h@)[b] == q[b]);
                        }
                        if b == q.len() as int {
                            assert(q.push(h@)[a] == q[a]);
                        }
                    }
                    assert(q.push(h@).to_set().contains(h@));
                }
                Some((string_of(&h), false))
            },
        }
    }

    /// The script that hides the page's cosmetic filter matches; none when
    /// blocking is off for the page. The selectors come from the engine.
    pub fn cosmetic_script(&self, raw: &str) -> (r: Option<String>)
        ensures
            !self.enabled_for(raw@) ==> r is None,
            self.enabled_for(raw@) ==> exists|sorted: Seq<String>|
                {
                    &&& string_views(sorted).to_set() == engine_hides(self.engine_source(), raw@)
                    &&& string_views(sorted).no_duplicates()
                    &&& strings_sorted(sorted)
                    &&& opt_view(r) == cosmetic_script_text(sorted)
                },
            cosmetic_script_of(self.engine_source(), self.enabled_for(raw@), raw@, opt_view(r)),
    {
        if !self.is_enabled_for_url(raw) {
            return None;
        }
        let selectors = engine_hide_selectors(&self.engine, raw);
        let ghost found = selectors@;
        let r = cosmetic_script_for_selectors(selectors);
        proof {
            let sorted = choose|sorted: Seq<String>|
                sorted.to_multiset() == found.to_multiset() && strings_sorted(sorted) && opt_view(r)
                    == cosmetic_script_text(sorted);
            lemma_reordered_texts(sorted, found);
        }
        r
    }

    /// Decides a network request of the page at `source`: nothing is blocked
    /// where blocking is off; otherwise the engine decides, and the host list
    /// when `adblock` cannot read the request URL. Every blocked request is
    /// counted (the counter wraps).
    pub fn check_request(&mut self, source: &str, uri: &str, context: ResourceContext, method: &str) -> (r: bool)
        requires
            old(self).wf(),
        ensures
            final(self).wf(),
            final(self).disabled() == old(self).disabled(),
            final(self).filter_status() == old(self).filter_status(),
            final(self).engine_source() == old(self).engine_source(),
            !old(self).enabled_for(source@) ==> !r,
            old(self).enabled_for(source@) && !adblock_url_parses(uri@) ==> r == url_is_blocked(uri@),
            old(self).enabled_for(source@) && adblock_url_parses(uri@) ==> r == engine_blocks(
                old(self).engine_source(),
                uri@,
                source@,
                resource_type_name(context),
                method@,
            ),
            final(self).count() == (if !r {
                old(self).count()
            } else if old(self).count() == u64::MAX {
                0
            } else {
                (old(self).count() + 1) as u64
            }),
    {
        if !self.is_enabled_for_url(source) {
            return false;
        }
        let blocked = match new_request(uri, source, resource_type(context), method) {
            Some(request) => engine_should_block(&self.engine, &request),
            None => is_blocked_url(uri),
        };
        if blocked {
            self.blocked_count = if self.blocked_count == u64::MAX {
                0
            } else {
                self.blocked_count + 1
            };
        }
        blocked
    }
}

} // verus!
