# CRONI

CRONI is a light desktop web browser for Windows built on the system's
WebView2 engine, with a native Win32 toolbar, tab discarding to save memory,
a per-site ad blocker based on `adblock-rust`, a download manager and
self-update from GitHub Releases.

This crate holds the browser's logic as a library verified with Verus:

- `src/browser.rs`: tabs, bookmarks, downloads, settings and update state,
  and the effects each command or event asks of the window, with the laws
  that hold across operations (session restore, discarding, toggles).
- `src/chrome.rs`: the layout, labels, menus, hit testing and messages of
  the native interface.
- `src/blocker.rs`, `src/adblock_engine.rs`: navigation rules, the host list,
  the starter filter list, per-site switches and the filter engine.
- `src/navigation.rs`, `src/web_url.rs`: address handling; `src/text.rs`:
  text utilities, string order and JSON quoting.
- `src/updater.rs`: release decisions, checksum and executable checks.
- `src/config.rs`, `src/downloads.rs`, `src/ui.rs`, `src/default_browser.rs`:
  settings, download records, interface messages and browser registration.

`app/` is the program around it: the window and event loop (`winit`), the
page views (`wry`), Win32 drawing, files, network and processes.
