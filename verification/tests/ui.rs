use croni::ui::{decode_chrome_command, ChromeCommand};

#[test]
fn interface_messages_decode_to_commands() {
    assert!(matches!(decode_chrome_command("{\"type\":\"select_tab\",\"id\":3}"), Some(ChromeCommand::SelectTab(3))));
    assert!(matches!(
        decode_chrome_command("{\"type\":\"navigate\",\"url\":\"example.com\"}"),
        Some(ChromeCommand::Navigate(u)) if u == "example.com"
    ));
    assert!(matches!(decode_chrome_command("{\"minutes\":15,\"type\":\"set_discard\"}"), Some(ChromeCommand::SetDiscard(15))));
    assert!(matches!(decode_chrome_command("{\"type\":\"downloads_panel\"}"), Some(ChromeCommand::DownloadsPanel(false))));
    assert!(matches!(decode_chrome_command("{\"type\":\"downloads_panel\",\"open\":true}"), Some(ChromeCommand::DownloadsPanel(true))));
    assert!(matches!(decode_chrome_command("{\"type\":\"window_close\"}"), Some(ChromeCommand::WindowClose)));
}

#[test]
fn unknown_or_incomplete_messages_are_ignored() {
    assert!(decode_chrome_command("no es json").is_none());
    assert!(decode_chrome_command("{\"type\":\"select_tab\"}").is_none());
    assert!(decode_chrome_command("{\"type\":\"zoom_in\"}").is_none());
    assert!(decode_chrome_command("{}").is_none());
    assert!(decode_chrome_command("{\"type\":\"navigate\",\"url\":5}").is_none());
}
