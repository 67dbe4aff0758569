//! The geometry, labels and menus of the native interface, and the
//! messages its controls send.
use vstd::prelude::*;
use crate::text::str_eq;
use crate::text::{json_quote, json_string_literal};
use crate::config::{bookmark_views, Bookmark};
use crate::downloads::{is_active, is_active_status, progress_percent, progress_percent_of, DownloadItem, DownloadView};
use crate::ui::{ChromeState, TabState};
use crate::web_url::opt_view;
use crate::text::{chars_of, decimal, decimal_chars, extend_chars, extend_str, replace_all, replace_chars, string_of};

verus! {

/// A rectangle in client pixels: `left` and `top` inside, `right` and
/// `bottom` outside.
#[derive(Clone, Copy, PartialEq, Eq, Structural, Debug)]
pub struct Rect {
    pub left: i32,
    pub top: i32,
    pub right: i32,
    pub bottom: i32,
}

/// The rectangle with these sides.
pub fn rect(left: i32, top: i32, right: i32, bottom: i32) -> (r: Rect)
    ensures
        r == (Rect { left, top, right, bottom }),
{
    Rect { left, top, right, bottom }
}

/// Whether the point lies in the rectangle.
pub open spec fn holds(bounds: Rect, x: int, y: int) -> bool {
    bounds.left <= x < bounds.right && bounds.top <= y < bounds.bottom
}

/// Whether the point lies in the rectangle.
pub fn contains(bounds: &Rect, x: i32, y: i32) -> (r: bool)
    ensures
        r == holds(*bounds, x as int, y as int),
{
    x >= bounds.left && x < bounds.right && y >= bounds.top && y < bounds.bottom
}

/// Takes a box of `width` from the right end of a row that ends at `right`,
/// and moves the end left past it and a gap.
pub fn take_right(right: &mut i32, width: i32, gap: i32, y: i32, height: i32) -> (r: Rect)
    requires
        i32::MIN <= *old(right) - width <= i32::MAX,
        i32::MIN <= y + height <= i32::MAX,
        i32::MIN <= width + gap <= i32::MAX,
        i32::MIN <= *old(right) - (width + gap) <= i32::MAX,
    ensures
        r == (Rect { left: (*old(right) - width) as i32, top: y, right: *old(right), bottom: (y + height) as i32 }),
        *final(right) == *old(right) - (width + gap),
{
    let bounds = rect(*right - width, y, *right, y + height);
    *right -= width + gap;
    bounds
}

/// A 16-bit word of a message parameter read as a signed coordinate.
pub open spec fn signed_word(w: int) -> int {
    if w >= 32768 {
        w - 65536
    } else {
        w
    }
}

/// The client coordinates packed in a mouse message's parameter: the low
/// and high words of its low 32 bits, each a signed 16-bit number.
pub fn point_from_lparam(value: isize) -> (r: (i32, i32))
    ensures
        r.0 == signed_word(((value as u32) % 65536) as int),
        r.1 == signed_word(((value as u32) / 65536) as int),
{
    let packed = value as u32;
    let low = packed % 65536;
    let high = packed / 65536;
    let x: i32 = if low >= 32768 {
        low as i32 - 65536
    } else {
        low as i32
    };
    let y: i32 = if high >= 32768 {
        high as i32 - 65536
    } else {
        high as i32
    };
    (x, y)
}

/// A GDI color value: red in the low byte, then green, then blue.
pub fn rgb(red: u8, green: u8, blue: u8) -> (r: u32)
    ensures
        r == red + 256 * green + 65536 * blue,
{
    let r = red as u32 | ((green as u32) << 8) | ((blue as u32) << 16);
    assert(red as u32 | ((green as u32) << 8) | ((blue as u32) << 16) == red + 256 * green + 65536
        * blue) by (bit_vector);
    r
}

/// The width left for tabs in the top row: what the window controls, the
/// left margin, the new-tab button and its gap leave, but never less than
/// `floor`.
pub open spec fn available_width_of(width: int, control_width: int, left: int, plus_width: int, gap: int, floor: int) -> int {
    let space = width - 3 * control_width - left - plus_width - gap;
    if space < floor {
        floor
    } else {
        space
    }
}

/// The width left for tabs in the top row.
pub fn available_width(width: i32, control_width: i32, left: i32, plus_width: i32, gap: i32, floor: i32) -> (r: i32)
    requires
        i32::MIN <= 3 * control_width <= i32::MAX,
        i32::MIN <= width - 3 * control_width <= i32::MAX,
        i32::MIN <= width - 3 * control_width - left <= i32::MAX,
        i32::MIN <= width - 3 * control_width - left - plus_width <= i32::MAX,
        i32::MIN <= width - 3 * control_width - left - plus_width - gap <= i32::MAX,
    ensures
        r == available_width_of(width as int, control_width as int, left as int, plus_width as int, gap as int, floor as int),
{
    let controls_left = width - control_width * 3;
    let space = controls_left - left - plus_width - gap;
    if space < floor {
        floor
    } else {
        space
    }
}

/// Which tabs the top row shows, and how wide each is.
pub struct StripLayout {
    /// Index of the first tab shown.
    pub start: usize,
    /// Index past the last tab shown.
    pub end: usize,
    pub tab_width: i32,
}

/// How many tabs fit: as many as `available` holds at their narrowest
/// (`min_tab`, at least 1), at least one, at most the number of tabs (or
/// one when there are none).
pub open spec fn visible_tabs(available: int, min_tab: int, count: int) -> int {
    let m = if min_tab < 1 {
        1
    } else {
        min_tab
    };
    let fit = if available / m < 1 {
        1
    } else {
        available / m
    };
    let cap = if count < 1 {
        1
    } else {
        count
    };
    if fit < cap {
        fit
    } else {
        cap
    }
}

/// The first tab shown: the active tab centred where possible, without
/// leaving room past the last tab.
pub open spec fn strip_start(active: int, visible: int, count: int) -> int {
    let centred = if active - visible / 2 < 0 {
        0
    } else {
        active - visible / 2
    };
    let last_start = if count - visible < 0 {
        0
    } else {
        count - visible
    };
    if centred < last_start {
        centred
    } else {
        last_start
    }
}

/// The layout of the tab row for `count` tabs with the one at `active`
/// active: the shown range, and the width each shown tab gets: the space
/// shared among them, at most `max_tab`, at least the narrowest width.
pub open spec fn strip_layout(available: int, min_tab: int, max_tab: int, count: int, active: int) -> (int, int, int) {
    let m = if min_tab < 1 {
        1
    } else {
        min_tab
    };
    let v = visible_tabs(available, min_tab, count);
    let start = strip_start(active, v, count);
    let end = if start + v < count {
        start + v
    } else {
        count
    };
    let shown = if end - start < 1 {
        1
    } else {
        end - start
    };
    let share = available / shown;
    let capped = if share < max_tab {
        share
    } else {
        max_tab
    };
    (start, end, if capped < m {
        m
    } else {
        capped
    })
}

/// Lays out the tab row.
pub fn tab_strip_layout(available: i32, min_tab: i32, max_tab: i32, tab_count: usize, active_index: usize) -> (r: StripLayout)
    requires
        available >= 0,
    ensures
        (r.start as int, r.end as int, r.tab_width as int) == strip_layout(
            available as int,
            min_tab as int,
            max_tab as int,
            tab_count as int,
            active_index as int,
        ),
{
    let m: i32 = if min_tab < 1 {
        1
    } else {
        min_tab
    };
    let fit_raw: i32 = available / m;
    let fit: usize = if fit_raw < 1 {
        1
    } else {
        fit_raw as usize
    };
    let cap: usize = if tab_count < 1 {
        1
    } else {
        tab_count
    };
    let visible: usize = if fit < cap {
        fit
    } else {
        cap
    };
    let half = visible / 2;
    let centred: usize = if active_index < half {
        0
    } else {
        active_index - half
    };
    let last_start: usize = if tab_count < visible {
        0
    } else {
        tab_count - visible
    };
    let start: usize = if centred < last_start {
        centred
    } else {
        last_start
    };
    let end: usize = if start < tab_count && visible < tab_count - start {
        start + visible
    } else {
        tab_count
    };
    let shown: usize = if end <= start || end - start < 1 {
        1
    } else {
        end - start
    };
    assert(shown <= visible);
    assert(visible <= fit);
    let share: i32 = available / (shown as i32);
    let capped: i32 = if share < max_tab {
        share
    } else {
        max_tab
    };
    let tab_width: i32 = if capped < m {
        m
    } else {
        capped
    };
    StripLayout { start, end, tab_width }
}

/// The active tab is always among the tabs the row shows.
pub proof fn active_tab_is_shown(available: int, min_tab: int, max_tab: int, count: int, active: int)
    requires
        available >= 0,
        0 <= active < count,
    ensures
        ({
            let (start, end, w) = strip_layout(available, min_tab, max_tab, count, active);
            start <= active < end
        }),
{
    let v = visible_tabs(available, min_tab, count);
    assert(1 <= v <= count);
    assert(v - v / 2 >= 1);
}

/// The natural width of a shortcut, in logical pixels: seven per character
/// of its title plus 42, between 88 and 190.
pub open spec fn shortcut_width_of(title_chars: int) -> int {
    let w = title_chars * 7 + 42;
    if w < 88 {
        88
    } else if w > 190 {
        190
    } else {
        w
    }
}

/// The natural width of a shortcut with a title of that many characters.
pub fn shortcut_width(title_chars: usize) -> (r: i32)
    ensures
        r == shortcut_width_of(title_chars as int),
{
    if title_chars >= 22 {
        190
    } else {
        let w = title_chars as i32 * 7 + 42;
        if w < 88 {
            88
        } else {
            w
        }
    }
}

/// How many of the shortcuts, with these widths, fit in the row: each one
/// starts where the previous one ended plus `gap`, the first at `start_x`,
/// and one fits while `reserve` pixels stay free before `width`.
pub open spec fn shortcuts_fitting(widths: Seq<i32>, x: int, gap: int, reserve: int, width: int) -> int
    decreases widths.len(),
{
    if widths.len() == 0 || x + widths[0] + reserve > width {
        0
    } else {
        1 + shortcuts_fitting(widths.drop_first(), x + widths[0] + gap, gap, reserve, width)
    }
}

/// The left edge of the shortcut after the first `n`.
pub open spec fn shortcut_x(widths: Seq<i32>, x: int, gap: int, n: int) -> int
    decreases n,
{
    if n <= 0 || widths.len() == 0 {
        x
    } else {
        shortcut_x(widths.drop_first(), x + widths[0] + gap, gap, n - 1)
    }
}

proof fn lemma_shortcuts_step(widths: Seq<i32>, x: int, gap: int, k: int)
    requires
        0 <= k < widths.len(),
    ensures
        shortcut_x(widths, x, gap, k + 1) == shortcut_x(widths, x, gap, k) + widths[k] + gap,
        widths.skip(k)[0] == widths[k],
        widths.skip(k).drop_first() =~= widths.skip(k + 1),
{
    lemma_shortcut_x_step(widths, x, gap, k);
}

proof fn lemma_shortcut_x_step(widths: Seq<i32>, x: int, gap: int, k: int)
    requires
        0 <= k < widths.len(),
    ensures
        shortcut_x(widths, x, gap, k + 1) == shortcut_x(widths, x, gap, k) + widths[k] + gap,
    decreases k,
{
    reveal_with_fuel(shortcut_x, 2);
    if k > 0 {
        lemma_shortcut_x_step(widths.drop_first(), x + widths[0] + gap, gap, k - 1);
        assert(widths.drop_first()[k - 1] == widths[k]);
    }
}

/// The number of shortcuts the row shows, and where the "add" button
/// starts after them.
pub fn fitting_shortcuts(widths: &Vec<i32>, start_x: i32, gap: i32, reserve: i32, width: i32) -> (r: (usize, i64))
    requires
        -size_limit() <= gap <= size_limit(),
        widths@.len() < 1000000,
    ensures
        r.0 == shortcuts_fitting(widths@, start_x as int, gap as int, reserve as int, width as int),
        r.1 == shortcut_x(widths@, start_x as int, gap as int, r.0 as int),
{
    let mut x: i64 = start_x as i64;
    let mut n: usize = 0;
    assert(widths@.skip(0) =~= widths@);
    while n < widths.len()
        invariant
            n <= widths@.len() < 1000000,
            -size_limit() <= gap <= size_limit(),
            x == shortcut_x(widths@, start_x as int, gap as int, n as int),
            -(n as int) * 2149580800 <= x - start_x <= (n as int) * 2149580800,
            shortcuts_fitting(widths@, start_x as int, gap as int, reserve as int, width as int) == n
                + shortcuts_fitting(widths@.skip(n as int), x as int, gap as int, reserve as int, width as int),
        decreases widths.len() - n,
    {
        proof {
            lemma_shortcuts_step(widths@, start_x as int, gap as int, n as int);
        }
        let w = widths[n] as i64;
        if x + w + reserve as i64 > width as i64 {
            return (n, x);
        }
        x = x + w + gap as i64;
        n = n + 1;
    }
    (n, x)
}


/// What a control of the interface does when clicked.
pub enum Action {
    /// Sends the command of that name.
    Command(&'static str),
    SelectTab(u64),
    CloseTab(u64),
    OpenBookmark(String),
    RemoveBookmark(String),
    SetDiscard(u64),
    CancelDownload(u64),
    OpenDownload(u64),
    ShowDownload(u64),
    /// Opens the settings menu.
    SettingsMenu,
    /// Opens the downloads menu.
    DownloadsMenu,
}

/// Model of [`Action`].
pub enum ActionView {
    Command(Seq<char>),
    SelectTab(u64),
    CloseTab(u64),
    OpenBookmark(Seq<char>),
    RemoveBookmark(Seq<char>),
    SetDiscard(u64),
    CancelDownload(u64),
    OpenDownload(u64),
    ShowDownload(u64),
    SettingsMenu,
    DownloadsMenu,
}

impl View for Action {
    type V = ActionView;

    open spec fn view(&self) -> ActionView {
        match self {
            Action::Command(c) => ActionView::Command(c@),
            Action::SelectTab(id) => ActionView::SelectTab(*id),
            Action::CloseTab(id) => ActionView::CloseTab(*id),
            Action::OpenBookmark(u) => ActionView::OpenBookmark(u@),
            Action::RemoveBookmark(u) => ActionView::RemoveBookmark(u@),
            Action::SetDiscard(m) => ActionView::SetDiscard(*m),
            Action::CancelDownload(id) => ActionView::CancelDownload(*id),
            Action::OpenDownload(id) => ActionView::OpenDownload(*id),
            Action::ShowDownload(id) => ActionView::ShowDownload(*id),
            Action::SettingsMenu => ActionView::SettingsMenu,
            Action::DownloadsMenu => ActionView::DownloadsMenu,
        }
    }
}

/// A copy of an action.
pub fn copy_action(a: &Action) -> (r: Action)
    ensures
        r@ == a@,
{
    match a {
        Action::Command(c) => Action::Command(*c),
        Action::SelectTab(id) => Action::SelectTab(*id),
        Action::CloseTab(id) => Action::CloseTab(*id),
        Action::OpenBookmark(u) => Action::OpenBookmark(u.clone()),
        Action::RemoveBookmark(u) => Action::RemoveBookmark(u.clone()),
        Action::SetDiscard(m) => Action::SetDiscard(*m),
        Action::CancelDownload(id) => Action::CancelDownload(*id),
        Action::OpenDownload(id) => Action::OpenDownload(*id),
        Action::ShowDownload(id) => Action::ShowDownload(*id),
        Action::SettingsMenu => Action::SettingsMenu,
        Action::DownloadsMenu => Action::DownloadsMenu,
    }
}

/// A clickable area of the interface.
pub struct HitRegion {
    pub rect: Rect,
    pub action: Action,
}

/// The index of the last region (the one drawn on top) that holds the
/// point.
pub open spec fn last_hit(rects: Seq<Rect>, x: int, y: int) -> Option<int>
    decreases rects.len(),
{
    if rects.len() == 0 {
        None
    } else if holds(rects.last(), x, y) {
        Some(rects.len() - 1)
    } else {
        last_hit(rects.drop_last(), x, y)
    }
}

/// The rectangles of the regions.
pub open spec fn region_rects(hits: Seq<HitRegion>) -> Seq<Rect> {
    hits.map_values(|h: HitRegion| h.rect)
}

/// The action of the topmost region under the point, if any.
pub fn hit_at(hits: &Vec<HitRegion>, x: i32, y: i32) -> (r: Option<Action>)
    ensures
        match last_hit(region_rects(hits@), x as int, y as int) {
            Some(i) => r matches Some(a) && a@ == hits@[i].action@,
            None => r is None,
        },
{
    let ghost rects = region_rects(hits@);
    let mut n: usize = hits.len();
    assert(rects.take(n as int) =~= rects);
    while n > 0
        invariant
            n <= hits@.len(),
            rects == region_rects(hits@),
            last_hit(rects, x as int, y as int) == last_hit(rects.take(n as int), x as int, y as int),
        decreases n,
    {
        let k = n - 1;
        assert(rects.take(n as int).drop_last() =~= rects.take(k as int));
        assert(rects.take(n as int).last() == hits@[k as int].rect);
        if contains(&hits[k].rect, x, y) {
            return Some(copy_action(&hits[k].action));
        }
        n = k;
    }
    None
}

/// Whether the point is on the bare top row, which drags the window.
pub fn is_drag_area(hits: &Vec<HitRegion>, x: i32, y: i32) -> (r: bool)
    ensures
        r == match last_hit(region_rects(hits@), x as int, y as int) {
            Some(i) => hits@[i].action@ == ActionView::Command("window_drag"@),
            None => false,
        },
{
    match hit_at(hits, x, y) {
        Some(Action::Command(c)) => str_eq(c, "window_drag"),
        _ => false,
    }
}

/// Text for a Windows menu: `&` doubled, so that it shows instead of
/// marking an access key.
pub open spec fn menu_label(text: Seq<char>) -> Seq<char> {
    replace_all(text, "&"@, "&&"@)
}

/// Text for a Windows menu.
pub fn menu_text(text: &str) -> (r: String)
    ensures
        r@ == menu_label(text@),
{
    let mut amp: Vec<char> = Vec::new();
    amp.push('&');
    let mut twice: Vec<char> = Vec::new();
    twice.push('&');
    twice.push('&');
    proof {
        reveal_strlit("&");
        reveal_strlit("&&");
        assert(amp@ =~= "&"@);
        assert(twice@ =~= "&&"@);
    }
    string_of(&replace_chars(&chars_of(text), &amp, &twice))
}

/// The label of a tab: its title, behind a circle while it has no view.
pub open spec fn tab_label_text(title: Seq<char>, suspended: bool) -> Seq<char> {
    if suspended {
        "○ "@ + title
    } else {
        title
    }
}

/// The label of a tab.
pub fn tab_label(title: &str, suspended: bool) -> (r: String)
    ensures
        r@ == tab_label_text(title@, suspended),
{
    if suspended {
        let mut out: Vec<char> = chars_of("○ ");
        extend_str(&mut out, title);
        string_of(&out)
    } else {
        title.to_string()
    }
}

/// The label of the blocker button: a diamond and the number of blocked
/// requests, at most 999.
pub open spec fn shield_label_text(count: u64) -> Seq<char> {
    "◇ "@ + decimal(if count > 999 {
        999nat
    } else {
        count as nat
    })
}

/// The label of the blocker button.
pub fn shield_label(count: u64) -> (r: String)
    ensures
        r@ == shield_label_text(count),
{
    let shown: u64 = if count > 999 {
        999
    } else {
        count
    };
    let mut out: Vec<char> = chars_of("◇ ");
    extend_chars(&mut out, &decimal_chars(shown));
    string_of(&out)
}


/// An entry of a popup menu: its text (as the menu shows it), whether it
/// carries a check mark or is grayed, and what choosing it does.
pub struct MenuItem {
    pub label: String,
    pub checked: bool,
    pub grayed: bool,
    pub action: Option<Action>,
}

/// Model of [`MenuItem`].
pub struct MenuItemView {
    pub label: Seq<char>,
    pub checked: bool,
    pub grayed: bool,
    pub action: Option<ActionView>,
}

impl View for MenuItem {
    type V = MenuItemView;

    open spec fn view(&self) -> MenuItemView {
        MenuItemView {
            label: self.label@,
            checked: self.checked,
            grayed: self.grayed,
            action: match self.action {
                Some(a) => Some(a@),
                None => None,
            },
        }
    }
}

/// A line of a popup menu.
pub enum MenuEntry {
    Item(MenuItem),
    Separator,
    /// A submenu with its label and entries.
    Submenu(String, Vec<MenuItem>),
}

/// Model of [`MenuEntry`].
pub enum MenuEntryView {
    Item(MenuItemView),
    Separator,
    Submenu(Seq<char>, Seq<MenuItemView>),
}

/// The models of menu items.
pub open spec fn item_views(items: Seq<MenuItem>) -> Seq<MenuItemView> {
    items.map_values(|i: MenuItem| i@)
}

impl View for MenuEntry {
    type V = MenuEntryView;

    open spec fn view(&self) -> MenuEntryView {
        match self {
            MenuEntry::Item(i) => MenuEntryView::Item(i@),
            MenuEntry::Separator => MenuEntryView::Separator,
            MenuEntry::Submenu(label, items) => MenuEntryView::Submenu(label@, item_views(items@)),
        }
    }
}

/// The models of menu entries.
pub open spec fn entry_views(entries: Seq<MenuEntry>) -> Seq<MenuEntryView> {
    entries.map_values(|e: MenuEntry| e@)
}

/// A menu item that does something.
pub open spec fn action_item(label: Seq<char>, checked: bool, grayed: bool, action: ActionView) -> MenuItemView {
    MenuItemView { label: menu_label(label), checked, grayed, action: Some(action) }
}

/// A grayed line of information.
pub open spec fn note_item(label: Seq<char>) -> MenuItemView {
    MenuItemView { label: menu_label(label), checked: false, grayed: true, action: None }
}

fn action_entry(label: &str, checked: bool, grayed: bool, action: Action) -> (r: MenuItem)
    ensures
        r@ == action_item(label@, checked, grayed, action@),
{
    MenuItem { label: menu_text(label), checked, grayed, action: Some(action) }
}

fn note_entry(label: &str) -> (r: MenuItem)
    ensures
        r@ == note_item(label@),
{
    MenuItem { label: menu_text(label), checked: false, grayed: true, action: None }
}

/// The label of a choice of the discard delay: "1 minuto", "5 minutos".
pub open spec fn discard_label_text(minutes: u64) -> Seq<char> {
    decimal(minutes as nat) + " minuto"@ + (if minutes == 1 {
        ""@
    } else {
        "s"@
    })
}

/// The label of a choice of the discard delay.
pub fn discard_label(minutes: u64) -> (r: String)
    ensures
        r@ == discard_label_text(minutes),
{
    let mut out = decimal_chars(minutes);
    extend_str(&mut out, " minuto");
    if minutes != 1 {
        extend_str(&mut out, "s");
    }
    proof {
        reveal_strlit("");
        assert(out@ =~= discard_label_text(minutes));
    }
    string_of(&out)
}

/// How the settings menu describes the state of the filter lists.
pub open spec fn filter_status_text(status: Seq<char>) -> Seq<char> {
    if status == "ready"@ {
        "EasyList y reglas Brave listas"@
    } else if status == "updating"@ {
        "actualizando listas"@
    } else if status == "failed"@ {
        "protección básica; falló la actualización"@
    } else {
        "protección básica"@
    }
}

/// How the settings menu describes the state of the filter lists.
pub fn filter_status_label(status: &str) -> (r: &'static str)
    ensures
        r@ == filter_status_text(status@),
{
    if str_eq(status, "ready") {
        "EasyList y reglas Brave listas"
    } else if str_eq(status, "updating") {
        "actualizando listas"
    } else if str_eq(status, "failed") {
        "protección básica; falló la actualización"
    } else {
        "protección básica"
    }
}

/// The update line of the settings menu: install a ready update, look for
/// one after a check ended, or show the version while a check runs (or when
/// updates are not configured).
pub open spec fn update_line(
    ready: bool,
    version: Option<Seq<char>>,
    status: Seq<char>,
    configured: bool,
    app_version: Seq<char>,
) -> MenuItemView {
    if ready {
        action_item(
            "Actualizar a "@ + match version {
                Some(v) => v,
                None => "nueva versión"@,
            },
            false,
            false,
            ActionView::Command("install_update"@),
        )
    } else if status == "current"@ || status == "failed"@ {
        action_item("Buscar actualizaciones"@, false, false, ActionView::Command("check_update"@))
    } else if configured {
        note_item("CRONI "@ + app_version + " · buscando actualización"@)
    } else {
        note_item("CRONI "@ + app_version)
    }
}

/// The delays offered for discarding hidden tabs, in minutes.
pub open spec fn discard_choices() -> Seq<u64> {
    seq![1u64, 5, 15, 30, 60]
}

/// The entries of the discard submenu: each delay, checked when it is the
/// current one.
pub open spec fn discard_items(current: u64) -> Seq<MenuItemView> {
    discard_choices().map_values(
        |m: u64| action_item(discard_label_text(m), current == m, false, ActionView::SetDiscard(m)),
    )
}

/// The entries of the bookmarks submenu: the first 30 bookmarks.
pub open spec fn bookmark_items(b: Seq<(Seq<char>, Seq<char>)>) -> Seq<MenuItemView> {
    let shown = if b.len() > 30 {
        b.take(30)
    } else {
        b
    };
    shown.map_values(
        |x: (Seq<char>, Seq<char>)| action_item(x.0, false, false, ActionView::OpenBookmark(x.1)),
    )
}


/// The settings menu for the drawn state.
pub open spec fn settings_entries(s: ChromeState) -> Seq<MenuEntryView> {
    seq![
        MenuEntryView::Item(
            action_item(
                "Establecer CRONI como predeterminado"@,
                false,
                false,
                ActionView::Command("set_default_browser"@),
            ),
        ),
        MenuEntryView::Separator,
        MenuEntryView::Item(
            update_line(s.update_ready, opt_view(s.update_version), s.update_status@, s.update_configured, s.app_version@),
        ),
        MenuEntryView::Separator,
        MenuEntryView::Item(
            action_item("Modo ultraligero"@, s.ultra_light_mode, false, ActionView::Command("toggle_ultra_light"@)),
        ),
        MenuEntryView::Item(
            action_item("Reducir animaciones web"@, s.reduce_motion, false, ActionView::Command("toggle_reduce_motion"@)),
        ),
        MenuEntryView::Item(
            action_item(
                "Pausar multimedia al salir"@,
                s.pause_media_when_unfocused,
                false,
                ActionView::Command("toggle_background_pause"@),
            ),
        ),
        MenuEntryView::Item(
            action_item(
                "Video compatible sin GPU (reiniciar CRONI)"@,
                s.video_compatibility_mode,
                false,
                ActionView::Command("toggle_video_compatibility"@),
            ),
        ),
        MenuEntryView::Item(note_item("Bloqueador: "@ + filter_status_text(s.adblock_status@))),
    ] + (if !s.ultra_light_mode {
        seq![MenuEntryView::Submenu(menu_label("Descartar pestañas tras"@), discard_items(s.discard_after_minutes))]
    } else {
        Seq::empty()
    }) + (if s.bookmarks@.len() > 0 {
        seq![
            MenuEntryView::Separator,
            MenuEntryView::Submenu(menu_label("Marcadores"@), bookmark_items(bookmark_views(s.bookmarks@))),
        ]
    } else {
        Seq::empty()
    })
}

fn update_entry(s: &ChromeState) -> (r: MenuItem)
    ensures
        r@ == update_line(s.update_ready, opt_view(s.update_version), s.update_status@, s.update_configured, s.app_version@),
{
    if s.update_ready {
        let mut text: Vec<char> = chars_of("Actualizar a ");
        match &s.update_version {
            Some(v) => extend_str(&mut text, v.as_str()),
            None => extend_str(&mut text, "nueva versión"),
        }
        MenuItem {
            label: menu_text(string_of(&text).as_str()),
            checked: false,
            grayed: false,
            action: Some(Action::Command("install_update")),
        }
    } else if str_eq(s.update_status.as_str(), "current") || str_eq(s.update_status.as_str(), "failed") {
        action_entry("Buscar actualizaciones", false, false, Action::Command("check_update"))
    } else {
        let mut text: Vec<char> = chars_of("CRONI ");
        extend_str(&mut text, s.app_version.as_str());
        if s.update_configured {
            extend_str(&mut text, " · buscando actualización");
        }
        MenuItem { label: menu_text(string_of(&text).as_str()), checked: false, grayed: true, action: None }
    }
}

fn discard_submenu(current: u64) -> (r: Vec<MenuItem>)
    ensures
        item_views(r@) == discard_items(current),
{
    let mut items: Vec<MenuItem> = Vec::new();
    let choices: [u64; 5] = [1, 5, 15, 30, 60];
    let mut i: usize = 0;
    while i < 5
        invariant
            i <= 5,
            choices@ == discard_choices(),
            item_views(items@) == discard_items(current).take(i as int),
        decreases 5 - i,
    {
        let m = choices[i];
        let ghost before = item_views(items@);
        items.push(
            MenuItem {
                label: menu_text(discard_label(m).as_str()),
                checked: current == m,
                grayed: false,
                action: Some(Action::SetDiscard(m)),
            },
        );
        assert(item_views(items@) =~= before.push(discard_items(current)[i as int]));
        assert(discard_items(current).take(i + 1) =~= discard_items(current).take(i as int).push(
            discard_items(current)[i as int],
        ));
        i = i + 1;
    }
    assert(discard_items(current).take(5) =~= discard_items(current));
    items
}

fn bookmarks_submenu(b: &Vec<Bookmark>) -> (r: Vec<MenuItem>)
    ensures
        item_views(r@) == bookmark_items(bookmark_views(b@)),
{
    let ghost all = bookmark_items(bookmark_views(b@));
    let n: usize = if b.len() > 30 {
        30
    } else {
        b.len()
    };
    let mut items: Vec<MenuItem> = Vec::new();
    let mut i: usize = 0;
    while i < n
        invariant
            i <= n <= b@.len(),
            n == all.len(),
            all == bookmark_items(bookmark_views(b@)),
            item_views(items@) == all.take(i as int),
        decreases n - i,
    {
        let ghost before = item_views(items@);
        items.push(action_entry(b[i].title.as_str(), false, false, Action::OpenBookmark(b[i].url.clone())));
        assert(item_views(items@) =~= before.push(all[i as int]));
        assert(all.take(i + 1) =~= all.take(i as int).push(all[i as int]));
        i = i + 1;
    }
    assert(all.take(i as int) =~= all);
    items
}

/// The settings menu for the drawn state.
pub fn settings_menu(s: &ChromeState) -> (r: Vec<MenuEntry>)
    ensures
        entry_views(r@) == settings_entries(*s),
{
    let mut entries: Vec<MenuEntry> = Vec::new();
    entries.push(
        MenuEntry::Item(
            action_entry("Establecer CRONI como predeterminado", false, false, Action::Command("set_default_browser")),
        ),
    );
    entries.push(MenuEntry::Separator);
    entries.push(MenuEntry::Item(update_entry(s)));
    entries.push(MenuEntry::Separator);
    entries.push(
        MenuEntry::Item(
            action_entry("Modo ultraligero", s.ultra_light_mode, false, Action::Command("toggle_ultra_light")),
        ),
    );
    entries.push(
        MenuEntry::Item(
            action_entry("Reducir animaciones web", s.reduce_motion, false, Action::Command("toggle_reduce_motion")),
        ),
    );
    entries.push(
        MenuEntry::Item(
            action_entry(
                "Pausar multimedia al salir",
                s.pause_media_when_unfocused,
                false,
                Action::Command("toggle_background_pause"),
            ),
        ),
    );
    entries.push(
        MenuEntry::Item(
            action_entry(
                "Video compatible sin GPU (reiniciar CRONI)",
                s.video_compatibility_mode,
                false,
                Action::Command("toggle_video_compatibility"),
            ),
        ),
    );
    let mut blocker_text: Vec<char> = chars_of("Bloqueador: ");
    extend_str(&mut blocker_text, filter_status_label(s.adblock_status.as_str()));
    entries.push(MenuEntry::Item(note_entry(string_of(&blocker_text).as_str())));
    let ghost head = entry_views(entries@);
    if !s.ultra_light_mode {
        entries.push(
            MenuEntry::Submenu(menu_text("Descartar pestañas tras"), discard_submenu(s.discard_after_minutes)),
        );
    }
    let ghost middle = entry_views(entries@);
    if s.bookmarks.len() > 0 {
        entries.push(MenuEntry::Separator);
        entries.push(MenuEntry::Submenu(menu_text("Marcadores"), bookmarks_submenu(&s.bookmarks)));
    }
    proof {
        let spec = settings_entries(*s);
        assert(head.len() == 9);
        assert(head =~= spec.take(9));
        assert(entry_views(entries@) =~= spec);
    }
    entries
}


/// The progress a download's line shows: " · " and the completed percent
/// when its size is known, else nothing.
pub open spec fn progress_suffix(received: u64, total: Option<u64>) -> Seq<char> {
    match progress_percent_of(received, total) {
        Some(p) => " · "@ + decimal(p as nat) + "%"@,
        None => ""@,
    }
}

/// The choices for one download: cancel a running one (grayed while it is
/// being cancelled); open a finished one or show it in its folder; show
/// where any other one was going.
pub open spec fn download_items(d: DownloadView) -> Seq<MenuItemView> {
    if is_active_status(d.status) {
        seq![action_item("Cancelar descarga"@, false, d.status == "cancelling"@, ActionView::CancelDownload(d.id))]
    } else if d.status == "completed"@ {
        seq![
            action_item("Abrir archivo"@, false, false, ActionView::OpenDownload(d.id)),
            action_item("Mostrar en carpeta"@, false, false, ActionView::ShowDownload(d.id)),
        ]
    } else {
        seq![action_item("Mostrar ubicación"@, false, false, ActionView::ShowDownload(d.id))]
    }
}

/// The submenu of one download, named by its file and progress.
pub open spec fn download_entry(d: DownloadView) -> MenuEntryView {
    MenuEntryView::Submenu(menu_label(d.name + progress_suffix(d.received, d.total)), download_items(d))
}

/// The downloads menu: the 20 most recent downloads, newest first, then a
/// line that clears the finished ones; or a note when there are none.
pub open spec fn downloads_entries(d: Seq<DownloadView>) -> Seq<MenuEntryView> {
    if d.len() == 0 {
        seq![MenuEntryView::Item(note_item("Todavía no hay descargas"@))]
    } else {
        let newest = d.reverse();
        let recent = if newest.len() > 20 {
            newest.take(20)
        } else {
            newest
        };
        recent.map_values(|x: DownloadView| download_entry(x)) + seq![
            MenuEntryView::Separator,
            MenuEntryView::Item(
                action_item("Limpiar historial terminado"@, false, false, ActionView::Command("clear_downloads"@)),
            ),
        ]
    }
}

/// The progress a download's line shows.
pub fn progress_label(received: u64, total: Option<u64>) -> (r: String)
    ensures
        r@ == progress_suffix(received, total),
{
    match progress_percent(received, total) {
        Some(p) => {
            let mut out: Vec<char> = chars_of(" · ");
            extend_chars(&mut out, &decimal_chars(p));
            extend_str(&mut out, "%");
            string_of(&out)
        },
        None => {
            proof {
                reveal_strlit("");
            }
            String::new()
        },
    }
}

fn download_submenu(d: &DownloadItem) -> (r: MenuEntry)
    ensures
        r@ == download_entry(d@),
{
    let mut items: Vec<MenuItem> = Vec::new();
    if is_active(d.status.as_str()) {
        let cancelling = str_eq(d.status.as_str(), "cancelling");
        items.push(action_entry("Cancelar descarga", false, cancelling, Action::CancelDownload(d.id)));
    } else if str_eq(d.status.as_str(), "completed") {
        items.push(action_entry("Abrir archivo", false, false, Action::OpenDownload(d.id)));
        items.push(action_entry("Mostrar en carpeta", false, false, Action::ShowDownload(d.id)));
    } else {
        items.push(action_entry("Mostrar ubicación", false, false, Action::ShowDownload(d.id)));
    }
    assert(item_views(items@) =~= download_items(d@));
    let mut text: Vec<char> = chars_of(d.name.as_str());
    extend_str(&mut text, progress_label(d.received, d.total).as_str());
    MenuEntry::Submenu(menu_text(string_of(&text).as_str()), items)
}

/// The downloads menu.
pub fn downloads_menu(downloads: &Vec<DownloadItem>) -> (r: Vec<MenuEntry>)
    ensures
        entry_views(r@) == downloads_entries(downloads@.map_values(|x: DownloadItem| x@)),
{
    let ghost d = downloads@.map_values(|x: DownloadItem| x@);
    let mut entries: Vec<MenuEntry> = Vec::new();
    if downloads.len() == 0 {
        entries.push(MenuEntry::Item(note_entry("Todavía no hay descargas")));
        assert(entry_views(entries@) =~= downloads_entries(d));
        return entries;
    }
    let n = downloads.len();
    let count: usize = if n > 20 {
        20
    } else {
        n
    };
    let ghost newest = d.reverse();
    let ghost recent = if newest.len() > 20 {
        newest.take(20)
    } else {
        newest
    };
    let mut k: usize = 0;
    while k < count
        invariant
            n == downloads@.len() == d.len() == newest.len(),
            d == downloads@.map_values(|x: DownloadItem| x@),
            newest == d.reverse(),
            count == recent.len(),
            recent == (if newest.len() > 20 {
                newest.take(20)
            } else {
                newest
            }),
            k <= count <= n,
            entry_views(entries@) == recent.map_values(|x: DownloadView| download_entry(x)).take(k as int),
        decreases count - k,
    {
        let ghost before = entry_views(entries@);
        assert(recent[k as int] == downloads@[n - 1 - k]@);
        entries.push(download_submenu(&downloads[n - 1 - k]));
        assert(entry_views(entries@) =~= before.push(download_entry(recent[k as int])));
        assert(recent.map_values(|x: DownloadView| download_entry(x)).take(k + 1) =~= recent.map_values(
            |x: DownloadView| download_entry(x),
        ).take(k as int).push(download_entry(recent[k as int])));
        k = k + 1;
    }
    assert(recent.map_values(|x: DownloadView| download_entry(x)).take(k as int) =~= recent.map_values(
        |x: DownloadView| download_entry(x),
    ));
    let ghost body = entry_views(entries@);
    entries.push(MenuEntry::Separator);
    entries.push(
        MenuEntry::Item(action_entry("Limpiar historial terminado", false, false, Action::Command("clear_downloads"))),
    );
    assert(entry_views(entries@) =~= downloads_entries(d));
    entries
}

/// Whether any download is running or being cancelled (the downloads
/// button is highlighted then).
pub fn has_running_download(downloads: &Vec<DownloadItem>) -> (r: bool)
    ensures
        r == exists|i: int| 0 <= i < downloads@.len() && is_active_status(#[trigger] downloads@[i].status@),
{
    let mut i: usize = 0;
    while i < downloads.len()
        invariant
            i <= downloads@.len(),
            forall|k: int| 0 <= k < i ==> !is_active_status(#[trigger] downloads@[k].status@),
        decreases downloads.len() - i,
    {
        if is_active(downloads[i].status.as_str()) {
            return true;
        }
        i = i + 1;
    }
    false
}


/// A message with a type and a number field, as JSON with sorted keys.
pub open spec fn numbered_message(key: Seq<char>, n: u64, kind: Seq<char>) -> Seq<char> {
    "{"@ + json_string_literal(key) + ":"@ + decimal(n as nat) + ",\"type\":"@ + json_string_literal(kind) + "}"@
}

/// A message with a type and a URL, as JSON with sorted keys.
pub open spec fn url_message(kind: Seq<char>, url: Seq<char>) -> Seq<char> {
    "{\"type\":"@ + json_string_literal(kind) + ",\"url\":"@ + json_string_literal(url) + "}"@
}

/// The JSON message that an action sends to the browser; none for the
/// actions that open a menu.
pub open spec fn message_text(a: ActionView) -> Option<Seq<char>> {
    match a {
        ActionView::Command(c) => Some("{\"type\":"@ + json_string_literal(c) + "}"@),
        ActionView::SelectTab(id) => Some(numbered_message("id"@, id, "select_tab"@)),
        ActionView::CloseTab(id) => Some(numbered_message("id"@, id, "close_tab"@)),
        ActionView::OpenBookmark(u) => Some(url_message("open_bookmark"@, u)),
        ActionView::RemoveBookmark(u) => Some(url_message("remove_bookmark"@, u)),
        ActionView::SetDiscard(m) => Some(numbered_message("minutes"@, m, "set_discard"@)),
        ActionView::CancelDownload(id) => Some(numbered_message("id"@, id, "cancel_download"@)),
        ActionView::OpenDownload(id) => Some(numbered_message("id"@, id, "open_download"@)),
        ActionView::ShowDownload(id) => Some(numbered_message("id"@, id, "show_download"@)),
        ActionView::SettingsMenu => None,
        ActionView::DownloadsMenu => None,
    }
}

fn numbered(key: &str, n: u64, kind: &str) -> (r: String)
    ensures
        r@ == numbered_message(key@, n, kind@),
{
    let mut out: Vec<char> = chars_of("{");
    extend_str(&mut out, json_quote(key).as_str());
    extend_str(&mut out, ":");
    extend_chars(&mut out, &decimal_chars(n));
    extend_str(&mut out, ",\"type\":");
    extend_str(&mut out, json_quote(kind).as_str());
    extend_str(&mut out, "}");
    string_of(&out)
}

fn with_url(kind: &str, url: &str) -> (r: String)
    ensures
        r@ == url_message(kind@, url@),
{
    let mut out: Vec<char> = chars_of("{\"type\":");
    extend_str(&mut out, json_quote(kind).as_str());
    extend_str(&mut out, ",\"url\":");
    extend_str(&mut out, json_quote(url).as_str());
    extend_str(&mut out, "}");
    string_of(&out)
}

/// The JSON message that an action sends to the browser.
pub fn action_message(a: &Action) -> (r: Option<String>)
    ensures
        opt_view(r) == message_text(a@),
{
    match a {
        Action::Command(c) => {
            let mut out: Vec<char> = chars_of("{\"type\":");
            extend_str(&mut out, json_quote(c).as_str());
            extend_str(&mut out, "}");
            Some(string_of(&out))
        },
        Action::SelectTab(id) => Some(numbered("id", *id, "select_tab")),
        Action::CloseTab(id) => Some(numbered("id", *id, "close_tab")),
        Action::OpenBookmark(u) => Some(with_url("open_bookmark", u.as_str())),
        Action::RemoveBookmark(u) => Some(with_url("remove_bookmark", u.as_str())),
        Action::SetDiscard(m) => Some(numbered("minutes", *m, "set_discard")),
        Action::CancelDownload(id) => Some(numbered("id", *id, "cancel_download")),
        Action::OpenDownload(id) => Some(numbered("id", *id, "open_download")),
        Action::ShowDownload(id) => Some(numbered("id", *id, "show_download")),
        Action::SettingsMenu => None,
        Action::DownloadsMenu => None,
    }
}

/// The message the address bar sends when Enter is pressed.
pub fn navigate_message(address: &str) -> (r: String)
    ensures
        r@ == url_message("navigate"@, address@),
{
    with_url("navigate", address)
}


/// Logical pixel sizes of the interface at the window's scale: `pN` is
/// what N logical pixels round to.
#[derive(Clone, Copy)]
pub struct Metrics {
    pub p2: i32,
    pub p4: i32,
    pub p5: i32,
    pub p7: i32,
    pub p8: i32,
    pub p9: i32,
    pub p10: i32,
    pub p12: i32,
    pub p24: i32,
    pub p27: i32,
    pub p34: i32,
    pub p39: i32,
    pub p45: i32,
    pub p46: i32,
    pub p58: i32,
    pub p90: i32,
    pub p92: i32,
    pub p100: i32,
    pub p108: i32,
    pub p122: i32,
    pub p130: i32,
    pub p144: i32,
    pub p210: i32,
}

/// The largest size, in pixels, that the layout takes for a window or an
/// element: far beyond any screen.
pub open spec fn size_limit() -> int {
    0x100000
}

/// A size the layout takes.
pub open spec fn size_ok(v: i32) -> bool {
    0 <= v <= size_limit()
}

/// Sizes at a window's scale: none negative or past the limit.
pub open spec fn metrics_ok(m: Metrics) -> bool {
    &&& size_ok(m.p2) && size_ok(m.p4) && size_ok(m.p5) && size_ok(m.p7) && size_ok(m.p8)
    &&& size_ok(m.p9) && size_ok(m.p10) && size_ok(m.p12) && size_ok(m.p24) && size_ok(m.p27)
    &&& size_ok(m.p34) && size_ok(m.p39) && size_ok(m.p45) && size_ok(m.p46) && size_ok(m.p58)
    &&& size_ok(m.p90) && size_ok(m.p92) && size_ok(m.p100) && size_ok(m.p108) && size_ok(m.p122)
    &&& size_ok(m.p130) && size_ok(m.p144) && size_ok(m.p210)
}

fn fits(v: i32) -> (r: bool)
    ensures
        r == size_ok(v),
{
    0 <= v && v <= 0x100000
}

/// Whether the layout can take every one of these widths.
pub fn widths_fit(widths: &Vec<i32>) -> (r: bool)
    ensures
        r == forall|i: int| 0 <= i < widths@.len() ==> size_ok(#[trigger] widths@[i]),
{
    let mut i: usize = 0;
    while i < widths.len()
        invariant
            i <= widths@.len(),
            forall|k: int| 0 <= k < i ==> size_ok(#[trigger] widths@[k]),
        decreases widths.len() - i,
    {
        if !fits(widths[i]) {
            return false;
        }
        i = i + 1;
    }
    true
}

/// Whether the layout can take these sizes and this window width: none
/// negative or past the limit (no screen is that large).
pub fn sizes_fit(m: &Metrics, width: i32) -> (r: bool)
    ensures
        r == (metrics_ok(*m) && size_ok(width)),
{
    fits(m.p2) && fits(m.p4) && fits(m.p5) && fits(m.p7) && fits(m.p8) && fits(m.p9) && fits(m.p10)
        && fits(m.p12) && fits(m.p24) && fits(m.p27) && fits(m.p34) && fits(m.p39) && fits(m.p45)
        && fits(m.p46) && fits(m.p58) && fits(m.p90) && fits(m.p92) && fits(m.p100) && fits(m.p108)
        && fits(m.p122) && fits(m.p130) && fits(m.p144) && fits(m.p210) && fits(width)
}

/// Model of a clickable region.
pub open spec fn region_view(h: HitRegion) -> (Rect, ActionView) {
    (h.rect, h.action@)
}

/// The models of clickable regions.
pub open spec fn region_views(h: Seq<HitRegion>) -> Seq<(Rect, ActionView)> {
    h.map_values(|x: HitRegion| region_view(x))
}

/// A tab as the top row draws it.
#[derive(Clone, Copy)]
pub struct TabBox {
    pub id: u64,
    /// The whole tab; clicking it selects the tab.
    pub bounds: Rect,
    /// The close cross; clicking it closes the tab.
    pub close: Rect,
    /// Where the title goes.
    pub label: Rect,
    pub active: bool,
}

/// The top row: the clickable regions in drawing order (the last one on
/// top), the shown tabs and the new-tab button.
pub struct TabRow {
    pub regions: Vec<HitRegion>,
    pub tabs: Vec<TabBox>,
    pub plus: Rect,
}

/// The window buttons at the right end of the top row, after the region
/// that drags the window: close, maximize, minimize.
pub open spec fn window_regions(m: Metrics, width: int) -> Seq<(Rect, ActionView)> {
    let controls_left = width - 3 * m.p46;
    let x_close = controls_left + 2 * m.p46;
    seq![
        (Rect { left: 0, top: 0, right: width as i32, bottom: m.p45 }, ActionView::Command("window_drag"@)),
        (Rect { left: x_close as i32, top: 0, right: width as i32, bottom: m.p45 }, ActionView::Command("window_close"@)),
        (
            Rect { left: (controls_left + m.p46) as i32, top: 0, right: x_close as i32, bottom: m.p45 },
            ActionView::Command("window_toggle_maximize"@),
        ),
        (
            Rect { left: controls_left as i32, top: 0, right: (controls_left + m.p46) as i32, bottom: m.p45 },
            ActionView::Command("window_minimize"@),
        ),
    ]
}

/// The position of the active tab among the tabs, or the first.
pub open spec fn active_position(ids: Seq<u64>, active_id: u64) -> int {
    match ids.index_of_first(active_id) {
        Some(i) => i,
        None => 0,
    }
}

/// The box of the tab shown `k`-th, `tab_width` wide.
pub open spec fn tab_box(m: Metrics, id: u64, active: bool, k: int, tab_width: int) -> TabBox {
    let x = m.p8 + k * tab_width;
    let right = x + tab_width - m.p4;
    let close_left = right - m.p27;
    TabBox {
        id,
        bounds: Rect { left: x as i32, top: m.p5, right: right as i32, bottom: m.p39 },
        close: Rect { left: close_left as i32, top: m.p5, right: right as i32, bottom: m.p39 },
        label: Rect { left: (x + m.p9) as i32, top: m.p5, right: (close_left - m.p2) as i32, bottom: m.p39 },
        active,
    }
}

/// The layout of the top row for a window `width` wide.
pub open spec fn row_layout(m: Metrics, width: int, ids: Seq<u64>, active_id: u64) -> (int, int, int) {
    strip_layout(
        available_width_of(width, m.p46 as int, m.p8 as int, m.p34 as int, m.p8 as int, m.p90 as int),
        m.p92 as int,
        m.p210 as int,
        ids.len() as int,
        active_position(ids, active_id),
    )
}

/// The boxes of the shown tabs.
pub open spec fn tab_boxes(m: Metrics, width: int, ids: Seq<u64>, active_id: u64) -> Seq<TabBox> {
    let (start, end, w) = row_layout(m, width, ids, active_id);
    Seq::new(
        (end - start) as nat,
        |k: int| tab_box(m, ids[start + k], ids[start + k] == active_id, k, w),
    )
}

/// The regions of the shown tabs: each tab, then its close cross.
pub open spec fn tab_regions(boxes: Seq<TabBox>) -> Seq<(Rect, ActionView)> {
    Seq::new(
        2 * boxes.len(),
        |j: int|
            if j % 2 == 0 {
                (boxes[j / 2].bounds, ActionView::SelectTab(boxes[j / 2].id))
            } else {
                (boxes[j / 2].close, ActionView::CloseTab(boxes[j / 2].id))
            },
    )
}

/// The new-tab button after `shown` tabs.
pub open spec fn plus_button(m: Metrics, shown: int, tab_width: int) -> Rect {
    let x = m.p8 + shown * tab_width;
    Rect { left: x as i32, top: m.p5, right: (x + m.p34) as i32, bottom: m.p39 }
}

/// The top row for these tabs in a window `width` wide.
pub open spec fn tab_row_of(m: Metrics, width: int, ids: Seq<u64>, active_id: u64) -> (Seq<(Rect, ActionView)>, Seq<TabBox>, Rect) {
    let (start, end, w) = row_layout(m, width, ids, active_id);
    let boxes = tab_boxes(m, width, ids, active_id);
    let plus = plus_button(m, end - start, w);
    (window_regions(m, width) + tab_regions(boxes) + seq![(plus, ActionView::Command("new_tab"@))], boxes, plus)
}

/// The shown tabs fit in the row for any smallest width (read as at least
/// 1) and also when there are no tabs.
proof fn lemma_strip_width_clamped(available: int, min_tab: int, max_tab: int, count: int, active: int)
    requires
        0 <= available,
        0 <= max_tab,
        0 <= active,
        count > 0 ==> active < count,
        count <= 0 ==> active == 0 && count == 0,
    ensures
        ({
            let mm = if min_tab < 1 {
                1
            } else {
                min_tab
            };
            let (start, end, w) = strip_layout(available, min_tab, max_tab, count, active);
            &&& 0 <= start <= end <= count
            &&& 0 <= w
            &&& (end - start) * w <= (if available > mm {
                available
            } else {
                mm
            })
        }),
{
    let mm = if min_tab < 1 {
        1
    } else {
        min_tab
    };
    assert(visible_tabs(available, min_tab, count) == visible_tabs(available, mm, count));
    assert(strip_layout(available, min_tab, max_tab, count, active) == strip_layout(available, mm, max_tab, count, active));
    if count > 0 {
        lemma_strip_width(available, mm, max_tab, count, active);
    } else {
        let (start, end, w) = strip_layout(available, mm, max_tab, count, active);
        assert(visible_tabs(available, mm, count) >= 1);
        assert(start == 0 && end == 0);
        assert(available / 1 == available);
    }
}

proof fn lemma_strip_width(available: int, min_tab: int, max_tab: int, count: int, active: int)
    requires
        0 <= available,
        1 <= min_tab,
        0 <= max_tab,
        0 <= active < count,
    ensures
        ({
            let (start, end, w) = strip_layout(available, min_tab, max_tab, count, active);
            &&& 0 <= start <= end <= count
            &&& 0 <= w
            &&& (end - start) * w <= (if available > min_tab {
                available
            } else {
                min_tab
            })
        }),
{
    let (start, end, w) = strip_layout(available, min_tab, max_tab, count, active);
    let v = visible_tabs(available, min_tab, count);
    let shown = end - start;
    assert(1 <= shown <= v);
    let share = available / shown;
    assert(share * shown <= available) by (nonlinear_arith)
        requires
            shown >= 1,
            available >= 0,
            share == available / shown,
    ;
    if w == min_tab {
        if available / min_tab >= 1 {
            assert(shown * min_tab <= (available / min_tab) * min_tab) by (nonlinear_arith)
                requires
                    shown <= available / min_tab,
                    min_tab >= 1,
            ;
            assert((available / min_tab) * min_tab <= available) by (nonlinear_arith)
                requires
                    min_tab >= 1,
                    available >= 0,
            ;
        } else {
            assert(shown == 1);
        }
    } else {
        assert(w <= share);
        assert(shown * w <= shown * share) by (nonlinear_arith)
            requires
                shown >= 1,
                w <= share,
        ;
    }
}

/// The position of the active tab among the drawn tabs, or the first.
fn active_tab_position(tabs: &Vec<TabState>, active_id: u64) -> (r: usize)
    ensures
        r == active_position(tabs@.map_values(|t: TabState| t.id), active_id),
        tabs@.len() > 0 ==> r < tabs@.len(),
{
    let ghost ids = tabs@.map_values(|t: TabState| t.id);
    proof {
        ids.index_of_first_ensures(active_id);
    }
    let mut i: usize = 0;
    while i < tabs.len()
        invariant
            i <= tabs@.len() == ids.len(),
            ids == tabs@.map_values(|t: TabState| t.id),
            forall|k: int| 0 <= k < i ==> ids[k] != active_id,
            match ids.index_of_first(active_id) {
                Some(index) => {
                    &&& ids.contains(active_id)
                    &&& 0 <= index < ids.len()
                    &&& ids[index] == active_id
                    &&& forall|j: int| 0 <= j < index < ids.len() ==> ids[j] != active_id
                },
                None => !ids.contains(active_id),
            },
        decreases tabs.len() - i,
    {
        assert(ids[i as int] == tabs@[i as int].id);
        if tabs[i].id == active_id {
            return i;
        }
        i = i + 1;
    }
    proof {
        if ids.contains(active_id) {
            let k = choose|k: int| 0 <= k < ids.len() && ids[k] == active_id;
            assert(ids[k] != active_id);
        }
    }
    0
}

/// Lays out the top row for the drawn tabs in a window `width` wide.
pub fn tab_row(m: &Metrics, width: i32, tabs: &Vec<TabState>, active_id: u64) -> (r: TabRow)
    requires
        metrics_ok(*m),
        size_ok(width),
    ensures
        ({
            let ids = tabs@.map_values(|t: TabState| t.id);
            let (regions, boxes, plus) = tab_row_of(*m, width as int, ids, active_id);
            &&& region_views(r.regions@) == regions
            &&& r.tabs@ == boxes
            &&& r.plus == plus
        }),
{
    let ghost ids = tabs@.map_values(|t: TabState| t.id);
    let mut regions: Vec<HitRegion> = Vec::new();
    let controls_left = width - m.p46 * 3;
    let x_close = controls_left + m.p46 * 2;
    regions.push(HitRegion { rect: rect(0, 0, width, m.p45), action: Action::Command("window_drag") });
    regions.push(HitRegion { rect: rect(x_close, 0, width, m.p45), action: Action::Command("window_close") });
    regions.push(
        HitRegion {
            rect: rect(controls_left + m.p46, 0, x_close, m.p45),
            action: Action::Command("window_toggle_maximize"),
        },
    );
    regions.push(
        HitRegion {
            rect: rect(controls_left, 0, controls_left + m.p46, m.p45),
            action: Action::Command("window_minimize"),
        },
    );
    assert(region_views(regions@) =~= window_regions(*m, width as int));
    let available = available_width(width, m.p46, m.p8, m.p34, m.p8, m.p90);
    let active_index = active_tab_position(tabs, active_id);
    assert(active_index == active_position(ids, active_id));
    let layout = tab_strip_layout(available, m.p92, m.p210, tabs.len(), active_index);
    let ghost (start_s, end_s, w_s) = row_layout(*m, width as int, ids, active_id);
    proof {
        ids.index_of_first_ensures(active_id);
        lemma_strip_width_clamped(available as int, m.p92 as int, m.p210 as int, ids.len() as int, active_index as int);
    }
    let w = layout.tab_width;
    let shown = layout.end - layout.start;
    let ghost boxes = tab_boxes(*m, width as int, ids, active_id);
    let ghost min_w: int = if m.p92 < 1 {
        1
    } else {
        m.p92 as int
    };
    let ghost bound: int = if available > min_w {
        available as int
    } else {
        min_w
    };
    let ghost head = region_views(regions@);
    let mut boxes_v: Vec<TabBox> = Vec::new();
    let mut k: usize = 0;
    let mut x: i32 = m.p8;
    while k < shown
        invariant
            metrics_ok(*m),
            size_ok(width),
            ids == tabs@.map_values(|t: TabState| t.id),
            (start_s, end_s, w_s) == row_layout(*m, width as int, ids, active_id),
            layout.start as int == start_s,
            layout.end as int == end_s,
            w as int == w_s,
            shown == layout.end - layout.start,
            0 <= layout.start <= layout.end <= tabs@.len(),
            0 <= w,
            shown * w <= bound,
            0 <= bound <= 2 * size_limit(),
            boxes == tab_boxes(*m, width as int, ids, active_id),
            k <= shown,
            x == m.p8 + k * w,
            boxes_v@ == boxes.take(k as int),
            head == window_regions(*m, width as int),
            region_views(regions@) == head + tab_regions(boxes.take(k as int)),
        decreases shown - k,
    {
        assert(k * w <= shown * w) by (nonlinear_arith)
            requires
                k <= shown,
                0 <= w,
        ;
        assert((k + 1) * w <= shown * w) by (nonlinear_arith)
            requires
                k + 1 <= shown,
                0 <= w,
        ;
        assert((k + 1) * w == k * w + w) by (nonlinear_arith);
        let t = &tabs[layout.start + k];
        assert(ids[layout.start + k] == t.id);
        let right = x + w - m.p4;
        let close_left = right - m.p27;
        let b = TabBox {
            id: t.id,
            bounds: rect(x, m.p5, right, m.p39),
            close: rect(close_left, m.p5, right, m.p39),
            label: rect(x + m.p9, m.p5, close_left - m.p2, m.p39),
            active: t.id == active_id,
        };
        proof {
            assert(boxes.len() == shown);
            let e = tab_box(*m, ids[start_s + k], ids[start_s + k] == active_id, k as int, w_s);
            assert(boxes[k as int] == e);
            assert(e.bounds == b.bounds);
            assert(e.close == b.close);
            assert(e.label == b.label);
            assert(e.id == b.id);
            assert(e.active == b.active);
        }
        let ghost before = region_views(regions@);
        boxes_v.push(b);
        regions.push(HitRegion { rect: b.bounds, action: Action::SelectTab(t.id) });
        regions.push(HitRegion { rect: b.close, action: Action::CloseTab(t.id) });
        proof {
            assert(boxes.take(k + 1) =~= boxes.take(k as int).push(b));
            assert(tab_regions(boxes.take(k + 1)) =~= tab_regions(boxes.take(k as int)).push(
                (b.bounds, ActionView::SelectTab(b.id)),
            ).push((b.close, ActionView::CloseTab(b.id))));
            assert(region_views(regions@) =~= before.push((b.bounds, ActionView::SelectTab(b.id))).push(
                (b.close, ActionView::CloseTab(b.id)),
            ));
        }
        x = x + w;
        k = k + 1;
    }
    assert(boxes.take(k as int) =~= boxes);
    let plus = rect(x, m.p5, x + m.p34, m.p39);
    let ghost mid = region_views(regions@);
    regions.push(HitRegion { rect: plus, action: Action::Command("new_tab") });
    assert(region_views(regions@) =~= mid.push((plus, ActionView::Command("new_tab"@))));
    TabRow { regions, tabs: boxes_v, plus }
}


/// A button of the toolbar: where it is, its glyph, whether it is lit,
/// and what clicking it does.
pub struct Button {
    pub rect: Rect,
    pub label: String,
    pub highlighted: bool,
    pub action: Action,
}

/// Model of a [`Button`].
pub struct ButtonView {
    pub rect: Rect,
    pub label: Seq<char>,
    pub highlighted: bool,
    pub action: ActionView,
}

/// The models of buttons.
pub open spec fn button_views(b: Seq<Button>) -> Seq<ButtonView> {
    b.map_values(|x: Button| ButtonView { rect: x.rect, label: x.label@, highlighted: x.highlighted, action: x.action@ })
}

/// The second row: the buttons, from the left and then from the right, and
/// the address box between them.
pub struct NavRow {
    pub buttons: Vec<Button>,
    /// The address box's background.
    pub address: Rect,
    /// The edit control: left, top, width, height.
    pub edit: (i32, i32, i32, i32),
}

/// What the toolbar shows of the browser's state.
pub struct ToolbarState {
    pub loading: bool,
    /// The spinner's phase while a page loads.
    pub spinner_phase: bool,
    pub bookmarked: bool,
    pub downloads_running: bool,
    pub update_ready: bool,
    pub blocked_count: u64,
    pub adblock_enabled: bool,
}

/// A button model.
pub open spec fn button_view(rect: Rect, label: Seq<char>, highlighted: bool, action: ActionView) -> ButtonView {
    ButtonView { rect, label, highlighted, action }
}

/// The square button at `x` on the second row.
pub open spec fn square_at(m: Metrics, x: int) -> Rect {
    let y = m.p45 + m.p12;
    Rect { left: x as i32, top: y as i32, right: (x + m.p34) as i32, bottom: (y + m.p34) as i32 }
}

/// The box `w` wide that ends at `right` on the second row.
pub open spec fn box_before(m: Metrics, right: int, w: int) -> Rect {
    let y = m.p45 + m.p12;
    Rect { left: (right - w) as i32, top: y as i32, right: right as i32, bottom: (y + m.p34) as i32 }
}

/// The buttons of the second row: back, forward, reload (its arrow turns
/// while a page loads), home from the left; the settings, downloads and
/// bookmark buttons, the update button when an update is ready, and the
/// blocker button from the right.
pub open spec fn nav_buttons(m: Metrics, width: int, s: ToolbarState) -> Seq<ButtonView> {
    let step = m.p34 + m.p5;
    let x0 = m.p10 as int;
    let r0 = width - m.p10;
    let left = seq![
        button_view(square_at(m, x0), "←"@, false, ActionView::Command("back"@)),
        button_view(square_at(m, x0 + step), "→"@, false, ActionView::Command("forward"@)),
        button_view(
            square_at(m, x0 + 2 * step),
            if s.loading && s.spinner_phase {
                "⟳"@
            } else {
                "↻"@
            },
            false,
            ActionView::Command("reload"@),
        ),
        button_view(square_at(m, x0 + 3 * step), "⌂"@, false, ActionView::Command("home"@)),
    ];
    let right = seq![
        button_view(box_before(m, r0, m.p34 as int), "☰"@, false, ActionView::SettingsMenu),
        button_view(box_before(m, r0 - step, m.p34 as int), "⇩"@, s.downloads_running, ActionView::DownloadsMenu),
        button_view(
            box_before(m, r0 - 2 * step, m.p34 as int),
            if s.bookmarked {
                "★"@
            } else {
                "☆"@
            },
            s.bookmarked,
            ActionView::Command("toggle_bookmark"@),
        ),
    ];
    let update = if s.update_ready {
        seq![button_view(box_before(m, r0 - 3 * step, m.p34 as int), "⇧"@, true, ActionView::Command("install_update"@))]
    } else {
        Seq::empty()
    };
    let r1 = r0 - (if s.update_ready {
        4int
    } else {
        3int
    }) * step;
    left + right + update + seq![
        button_view(
            box_before(m, r1, m.p58 as int),
            shield_label_text(s.blocked_count),
            s.adblock_enabled,
            ActionView::Command("toggle_adblock"@),
        ),
    ]
}

/// Where the row's right-side buttons end: the address box ends before it.
pub open spec fn nav_right_end(m: Metrics, width: int, update_ready: bool) -> int {
    let step = m.p34 + m.p5;
    width - m.p10 - (if update_ready {
        4int
    } else {
        3int
    }) * step - (m.p58 + m.p5)
}

/// The address box: from after the left buttons to before the right ones,
/// at least `p100` wide.
pub open spec fn address_box(m: Metrics, width: int, update_ready: bool) -> Rect {
    let y = m.p45 + m.p12;
    let left = m.p10 + 4 * (m.p34 + m.p5) + m.p5;
    let right = if nav_right_end(m, width, update_ready) - m.p5 > left + m.p100 {
        nav_right_end(m, width, update_ready) - m.p5
    } else {
        left + m.p100
    };
    Rect { left: left as i32, top: y as i32, right: right as i32, bottom: (y + m.p34) as i32 }
}

/// The edit control inside the address box: its text sits `p5` lower, it
/// is at least 20 wide and at least `p24` high.
pub open spec fn edit_placement(m: Metrics, b: Rect) -> (i32, i32, i32, i32) {
    let w = b.right - b.left;
    let h = m.p34 - m.p5;
    (b.left, (b.top + m.p5) as i32, (if w > 20 {
        w
    } else {
        20
    }) as i32, (if h > m.p24 {
        h
    } else {
        m.p24 as int
    }) as i32)
}

fn make_button(rect: Rect, label: &str, highlighted: bool, action: Action) -> (r: Button)
    ensures
        r.rect == rect,
        r.label@ == label@,
        r.highlighted == highlighted,
        r.action@ == action@,
{
    Button { rect, label: label.to_string(), highlighted, action }
}

/// Lays out the second row for a window `width` wide.
pub fn nav_row(m: &Metrics, width: i32, s: &ToolbarState) -> (r: NavRow)
    requires
        metrics_ok(*m),
        size_ok(width),
    ensures
        button_views(r.buttons@) == nav_buttons(*m, width as int, *s),
        r.address == address_box(*m, width as int, s.update_ready),
        r.edit == edit_placement(*m, r.address),
{
    let y = m.p45 + m.p12;
    let step = m.p34 + m.p5;
    let mut buttons: Vec<Button> = Vec::new();
    let mut x = m.p10;
    buttons.push(make_button(rect(x, y, x + m.p34, y + m.p34), "←", false, Action::Command("back")));
    x = x + step;
    buttons.push(make_button(rect(x, y, x + m.p34, y + m.p34), "→", false, Action::Command("forward")));
    x = x + step;
    let reload = if s.loading && s.spinner_phase {
        "⟳"
    } else {
        "↻"
    };
    buttons.push(make_button(rect(x, y, x + m.p34, y + m.p34), reload, false, Action::Command("reload")));
    x = x + step;
    buttons.push(make_button(rect(x, y, x + m.p34, y + m.p34), "⌂", false, Action::Command("home")));
    x = x + step;
    let mut right = width - m.p10;
    let menu = take_right(&mut right, m.p34, m.p5, y, m.p34);
    buttons.push(make_button(menu, "☰", false, Action::SettingsMenu));
    let downloads = take_right(&mut right, m.p34, m.p5, y, m.p34);
    buttons.push(make_button(downloads, "⇩", s.downloads_running, Action::DownloadsMenu));
    let bookmark = take_right(&mut right, m.p34, m.p5, y, m.p34);
    let star = if s.bookmarked {
        "★"
    } else {
        "☆"
    };
    buttons.push(make_button(bookmark, star, s.bookmarked, Action::Command("toggle_bookmark")));
    if s.update_ready {
        let update = take_right(&mut right, m.p34, m.p5, y, m.p34);
        buttons.push(make_button(update, "⇧", true, Action::Command("install_update")));
    }
    let shield = take_right(&mut right, m.p58, m.p5, y, m.p34);
    buttons.push(
        Button {
            rect: shield,
            label: shield_label(s.blocked_count),
            highlighted: s.adblock_enabled,
            action: Action::Command("toggle_adblock"),
        },
    );
    assert(button_views(buttons@) =~= nav_buttons(*m, width as int, *s));
    let edit_left = x + m.p5;
    let edit_right = if right - m.p5 > edit_left + m.p100 {
        right - m.p5
    } else {
        edit_left + m.p100
    };
    let address = rect(edit_left, y, edit_right, y + m.p34);
    let edit_width = if edit_right - edit_left > 20 {
        edit_right - edit_left
    } else {
        20
    };
    let edit_height = if m.p34 - m.p5 > m.p24 {
        m.p34 - m.p5
    } else {
        m.p24
    };
    NavRow { buttons, address, edit: (edit_left, y + m.p5, edit_width, edit_height) }
}

/// A shortcut of the third row.
#[derive(Clone, Copy)]
pub struct ShortcutBox {
    /// The whole shortcut; clicking it opens the bookmark.
    pub bounds: Rect,
    /// The cross that removes it.
    pub close: Rect,
    /// Where its title goes.
    pub label: Rect,
}

/// The third row: the shortcuts that fit, in bookmark order, then the
/// button that adds one.
pub struct ShortcutRow {
    pub shortcuts: Vec<ShortcutBox>,
    pub regions: Vec<HitRegion>,
    pub add: Rect,
}

/// The shortcut at `x`, `w` wide.
pub open spec fn shortcut_box(m: Metrics, x: int, w: int) -> ShortcutBox {
    let top = m.p108 + m.p4;
    let bottom = m.p144 - m.p5;
    let right = x + w;
    ShortcutBox {
        bounds: Rect { left: x as i32, top: top as i32, right: right as i32, bottom: bottom as i32 },
        close: Rect { left: (right - m.p24) as i32, top: top as i32, right: right as i32, bottom: bottom as i32 },
        label: Rect { left: (x + m.p7) as i32, top: top as i32, right: (right - m.p24) as i32, bottom: bottom as i32 },
    }
}

/// The shortcuts that fit in a window `width` wide, with these widths.
pub open spec fn shortcut_boxes(m: Metrics, width: int, widths: Seq<i32>) -> Seq<ShortcutBox> {
    let n = shortcuts_fitting(widths, m.p10 as int, m.p4 as int, m.p130 as int, width);
    Seq::new(n as nat, |k: int| shortcut_box(m, shortcut_x(widths, m.p10 as int, m.p4 as int, k), widths[k] as int))
}

/// The regions of the shortcuts: each one opens its bookmark, its cross
/// removes it.
pub open spec fn shortcut_regions(boxes: Seq<ShortcutBox>, urls: Seq<Seq<char>>) -> Seq<(Rect, ActionView)> {
    Seq::new(
        2 * boxes.len(),
        |j: int|
            if j % 2 == 0 {
                (boxes[j / 2].bounds, ActionView::OpenBookmark(urls[j / 2]))
            } else {
                (boxes[j / 2].close, ActionView::RemoveBookmark(urls[j / 2]))
            },
    )
}

/// The "add shortcut" button after the shown shortcuts, cut at the
/// window's edge.
pub open spec fn add_button(m: Metrics, width: int, widths: Seq<i32>) -> Rect {
    let n = shortcuts_fitting(widths, m.p10 as int, m.p4 as int, m.p130 as int, width);
    let x = shortcut_x(widths, m.p10 as int, m.p4 as int, n);
    Rect {
        left: x as i32,
        top: (m.p108 + m.p4) as i32,
        right: (if x + m.p122 < width {
            x + m.p122
        } else {
            width
        }) as i32,
        bottom: (m.p144 - m.p5) as i32,
    }
}

proof fn lemma_fitting_bounds(widths: Seq<i32>, x: int, gap: int, reserve: int, width: int, k: int)
    requires
        0 <= gap,
        0 <= reserve,
        forall|i: int| 0 <= i < widths.len() ==> 0 <= #[trigger] widths[i],
        0 <= k <= shortcuts_fitting(widths, x, gap, reserve, width),
    ensures
        k > 0 ==> shortcut_x(widths, x, gap, k) <= width + gap,
        shortcut_x(widths, x, gap, k) >= x,
        k < shortcuts_fitting(widths, x, gap, reserve, width) ==> k < widths.len()
            && shortcut_x(widths, x, gap, k) + widths[k] + reserve <= width,
    decreases k,
{
    if k > 0 {
        assert(widths.len() > 0);
        let x1 = x + widths[0] + gap;
        assert forall|i: int| 0 <= i < widths.drop_first().len() implies 0 <= #[trigger] widths.drop_first()[i] by {
            assert(widths.drop_first()[i] == widths[i + 1]);
        }
        lemma_fitting_bounds(widths.drop_first(), x1, gap, reserve, width, k - 1);
        if k < shortcuts_fitting(widths, x, gap, reserve, width) {
            assert(widths.drop_first()[k - 1] == widths[k]);
        }
    }
}

/// Lays out the third row for the bookmarks, given each shortcut's width.
pub fn shortcut_row(m: &Metrics, width: i32, bookmarks: &Vec<Bookmark>, widths: &Vec<i32>) -> (r: ShortcutRow)
    requires
        metrics_ok(*m),
        size_ok(width),
        widths@.len() == bookmarks@.len() < 1000000,
        forall|i: int| 0 <= i < widths@.len() ==> size_ok(#[trigger] widths@[i]),
    ensures
        r.shortcuts@ == shortcut_boxes(*m, width as int, widths@),
        region_views(r.regions@) == shortcut_regions(
            r.shortcuts@,
            bookmarks@.map_values(|b: Bookmark| b.url@),
        ) + seq![(r.add, ActionView::Command("add_shortcut"@))],
        r.add == add_button(*m, width as int, widths@),
{
    let ghost urls = bookmarks@.map_values(|b: Bookmark| b.url@);
    let ghost boxes = shortcut_boxes(*m, width as int, widths@);
    let (n, end_x) = fitting_shortcuts(widths, m.p10, m.p4, m.p130, width);
    let ghost g = m.p4 as int;
    let mut shortcuts: Vec<ShortcutBox> = Vec::new();
    let mut regions: Vec<HitRegion> = Vec::new();
    let top = m.p108 + m.p4;
    let bottom = m.p144 - m.p5;
    let mut x: i32 = m.p10;
    let mut k: usize = 0;
    while k < n
        invariant
            metrics_ok(*m),
            size_ok(width),
            widths@.len() == bookmarks@.len(),
            forall|i: int| 0 <= i < widths@.len() ==> size_ok(#[trigger] widths@[i]),
            n == shortcuts_fitting(widths@, m.p10 as int, m.p4 as int, m.p130 as int, width as int),
            boxes == shortcut_boxes(*m, width as int, widths@),
            urls == bookmarks@.map_values(|b: Bookmark| b.url@),
            top == m.p108 + m.p4,
            bottom == m.p144 - m.p5,
            k <= n,
            x == shortcut_x(widths@, m.p10 as int, m.p4 as int, k as int),
            shortcuts@ == boxes.take(k as int),
            region_views(regions@) == shortcut_regions(boxes.take(k as int), urls),
        decreases n - k,
    {
        proof {
            assert forall|i: int| 0 <= i < widths@.len() implies 0 <= #[trigger] widths@[i] by {
                assert(size_ok(widths@[i]));
            }
            lemma_fitting_bounds(widths@, m.p10 as int, m.p4 as int, m.p130 as int, width as int, k as int);
            lemma_shortcut_x_step(widths@, m.p10 as int, m.p4 as int, k as int);
            assert(size_ok(widths@[k as int]));
        }
        let w = widths[k];
        let right = x + w;
        let b = ShortcutBox {
            bounds: rect(x, top, right, bottom),
            close: rect(right - m.p24, top, right, bottom),
            label: rect(x + m.p7, top, right - m.p24, bottom),
        };
        assert(b == boxes[k as int]);
        let ghost before = region_views(regions@);
        shortcuts.push(b);
        regions.push(HitRegion { rect: b.bounds, action: Action::OpenBookmark(bookmarks[k].url.clone()) });
        regions.push(HitRegion { rect: b.close, action: Action::RemoveBookmark(bookmarks[k].url.clone()) });
        proof {
            assert(urls[k as int] == bookmarks@[k as int].url@);
            assert(boxes.take(k + 1) =~= boxes.take(k as int).push(b));
            assert(shortcut_regions(boxes.take(k + 1), urls) =~= shortcut_regions(boxes.take(k as int), urls).push(
                (b.bounds, ActionView::OpenBookmark(urls[k as int])),
            ).push((b.close, ActionView::RemoveBookmark(urls[k as int]))));
            assert(region_views(regions@) =~= before.push((b.bounds, ActionView::OpenBookmark(urls[k as int]))).push(
                (b.close, ActionView::RemoveBookmark(urls[k as int])),
            ));
        }
        x = right + m.p4;
        k = k + 1;
    }
    assert(boxes.take(k as int) =~= boxes);
    proof {
        assert forall|i: int| 0 <= i < widths@.len() implies 0 <= #[trigger] widths@[i] by {
            assert(size_ok(widths@[i]));
        }
        lemma_fitting_bounds(widths@, m.p10 as int, m.p4 as int, m.p130 as int, width as int, k as int);
    }
    let add_right = if x + m.p122 < width {
        x + m.p122
    } else {
        width
    };
    let add = rect(x, top, add_right, bottom);
    let ghost mid = region_views(regions@);
    regions.push(HitRegion { rect: add, action: Action::Command("add_shortcut") });
    assert(region_views(regions@) =~= mid.push((add, ActionView::Command("add_shortcut"@))));
    ShortcutRow { shortcuts, regions, add }
}


/// Where pages go in a client area `width` by `height`: below the toolbar
/// (`toolbar_px` high, none while a page fills the screen), as top,
/// width and height.
pub open spec fn content_area_of(width: u32, height: u32, toolbar_px: u32, fullscreen: bool) -> (u32, u32, u32) {
    let top: u32 = if fullscreen {
        0
    } else if toolbar_px < height {
        toolbar_px
    } else {
        height
    };
    (top, width, (height - top) as u32)
}

/// Where pages go in the client area.
pub fn content_area(width: u32, height: u32, toolbar_px: u32, fullscreen: bool) -> (r: (u32, u32, u32))
    ensures
        r == content_area_of(width, height, toolbar_px, fullscreen),
{
    let top = if fullscreen {
        0
    } else {
        toolbar_px
    };
    let top = if top < height {
        top
    } else {
        height
    };
    (top, width, height - top)
}

} // verus!
