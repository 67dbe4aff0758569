use croni::default_browser::{register_and_open_settings, registry_writes, RegistrationError};

#[test]
fn registering_needs_windows() {
    let r = register_and_open_settings(false, "C:\\CRONI\\CRONI.exe", Some("C:\\CRONI"));
    assert_eq!(r, Err(RegistrationError::Unsupported));
    assert_eq!(RegistrationError::Unsupported.message(), "esta función sólo está disponible en Windows");
}

#[test]
fn registration_writes_every_value_then_the_folder() {
    let calls = register_and_open_settings(true, "C:\\CRONI\\CRONI.exe", Some("C:\\CRONI")).unwrap();
    assert_eq!(calls.len(), 15);
    assert_eq!(
        calls[0],
        vec!["add", "HKCU\\Software\\CRONI\\Capabilities", "/v", "ApplicationName", "/t", "REG_SZ", "/d", "CRONI", "/f"]
    );
    assert_eq!(
        calls[5],
        vec!["add", "HKCU\\Software\\Classes\\CRONI.Url.Http", "/ve", "/t", "REG_SZ", "/d", "CRONI HTTP", "/f"]
    );
    assert_eq!(calls[8][6], "\"C:\\CRONI\\CRONI.exe\" \"%1\"");
    assert_eq!(calls[7][6], "\"C:\\CRONI\\CRONI.exe\",0");
    assert_eq!(
        calls[14],
        vec![
            "add",
            "HKCU\\Software\\Microsoft\\Windows\\CurrentVersion\\App Paths\\CRONI.exe",
            "/v",
            "Path",
            "/t",
            "REG_SZ",
            "/d",
            "C:\\CRONI",
            "/f"
        ]
    );
    let without_folder = register_and_open_settings(true, "CRONI.exe", None).unwrap();
    assert_eq!(without_folder.len(), 14);
    assert_eq!(registry_writes("x").len(), 14);
}
