//! Registering CRONI with Windows as a web browser: the registry values
//! and the `reg.exe` calls that write them.
use vstd::prelude::*;
use crate::config::string_views;
use crate::navigation::owned;
use crate::text::{chars_of, extend_str, string_of};

verus! {

/// The App Paths key of the executable.
pub const APP_PATHS_KEY: &'static str = "HKCU\\Software\\Microsoft\\Windows\\CurrentVersion\\App Paths\\CRONI.exe";

/// The settings page where the user picks the default browser.
pub const DEFAULT_APPS_PAGE: &'static str = "ms-settings:defaultapps?registeredAppUser=CRONI";

/// A string value to write: its key, its name (`None` for the key's
/// default value) and its data.
pub struct RegistryWrite {
    pub key: &'static str,
    pub name: Option<&'static str>,
    pub value: String,
}

/// Model of a [`RegistryWrite`].
pub open spec fn write_view(w: RegistryWrite) -> (Seq<char>, Option<Seq<char>>, Seq<char>) {
    (w.key@, match w.name {
        Some(n) => Some(n@),
        None => None,
    }, w.value@)
}

/// Why CRONI could not be registered.
#[derive(PartialEq, Eq, Structural, Clone, Copy, Debug)]
pub enum RegistrationError {
    /// Registering is only possible on Windows.
    Unsupported,
}

impl RegistrationError {
    /// The message shown for the error.
    pub fn message(&self) -> (r: &'static str)
        ensures
            r@ == "esta función sólo está disponible en Windows"@,
    {
        match self {
            RegistrationError::Unsupported => "esta función sólo está disponible en Windows",
        }
    }
}

/// A text in double quotes.
pub open spec fn quoted(s: Seq<char>) -> Seq<char> {
    "\""@ + s + "\""@
}

/// The icon of the URL classes: the executable's first icon.
pub open spec fn icon_value(exe: Seq<char>) -> Seq<char> {
    quoted(exe) + ",0"@
}

/// The command that opens a URL with the executable.
pub open spec fn open_command_value(exe: Seq<char>) -> Seq<char> {
    quoted(exe) + " \"%1\""@
}

/// One value as a model.
pub open spec fn entry(key: Seq<char>, name: Option<Seq<char>>, value: Seq<char>) -> (Seq<char>, Option<Seq<char>>, Seq<char>) {
    (key, name, value)
}

/// The values that make CRONI a registered browser for `http` and `https`,
/// for the executable at `exe`, in the order they are written.
pub open spec fn registry_values(exe: Seq<char>) -> Seq<(Seq<char>, Option<Seq<char>>, Seq<char>)> {
    seq![
        entry("HKCU\\Software\\CRONI\\Capabilities"@, Some("ApplicationName"@), "CRONI"@),
        entry(
            "HKCU\\Software\\CRONI\\Capabilities"@,
            Some("ApplicationDescription"@),
            "Navegador web ligero con bloqueo de anuncios y pestañas de bajo consumo"@,
        ),
        entry("HKCU\\Software\\CRONI\\Capabilities\\URLAssociations"@, Some("http"@), "CRONI.Url.Http"@),
        entry("HKCU\\Software\\CRONI\\Capabilities\\URLAssociations"@, Some("https"@), "CRONI.Url.Https"@),
        entry("HKCU\\Software\\RegisteredApplications"@, Some("CRONI"@), "Software\\CRONI\\Capabilities"@),
        entry("HKCU\\Software\\Classes\\CRONI.Url.Http"@, None, "CRONI HTTP"@),
        entry("HKCU\\Software\\Classes\\CRONI.Url.Http"@, Some("URL Protocol"@), ""@),
        entry("HKCU\\Software\\Classes\\CRONI.Url.Http\\DefaultIcon"@, None, icon_value(exe)),
        entry("HKCU\\Software\\Classes\\CRONI.Url.Http\\shell\\open\\command"@, None, open_command_value(exe)),
        entry("HKCU\\Software\\Classes\\CRONI.Url.Https"@, None, "CRONI HTTPS"@),
        entry("HKCU\\Software\\Classes\\CRONI.Url.Https"@, Some("URL Protocol"@), ""@),
        entry("HKCU\\Software\\Classes\\CRONI.Url.Https\\DefaultIcon"@, None, icon_value(exe)),
        entry("HKCU\\Software\\Classes\\CRONI.Url.Https\\shell\\open\\command"@, None, open_command_value(exe)),
        entry(APP_PATHS_KEY@, None, exe),
    ]
}

fn quote(s: &str) -> (r: Vec<char>)
    ensures
        r@ == quoted(s@),
{
    let mut out: Vec<char> = chars_of("\"");
    extend_str(&mut out, s);
    extend_str(&mut out, "\"");
    out
}

fn write(key: &'static str, name: Option<&'static str>, value: String) -> (r: RegistryWrite)
    ensures
        write_view(r) == entry(key@, match name {
            Some(n) => Some(n@),
            None => None,
        }, value@),
{
    RegistryWrite { key, name, value }
}

/// The values that make CRONI a registered browser.
pub fn registry_writes(executable: &str) -> (r: Vec<RegistryWrite>)
    ensures
        r@.map_values(|w: RegistryWrite| write_view(w)) == registry_values(executable@),
{
    let mut icon = quote(executable);
    extend_str(&mut icon, ",0");
    let mut open = quote(executable);
    extend_str(&mut open, " \"%1\"");
    let icon = string_of(&icon);
    let open = string_of(&open);
    let mut r: Vec<RegistryWrite> = Vec::new();
    r.push(write("HKCU\\Software\\CRONI\\Capabilities", Some("ApplicationName"), owned("CRONI")));
    r.push(
        write(
            "HKCU\\Software\\CRONI\\Capabilities",
            Some("ApplicationDescription"),
            owned("Navegador web ligero con bloqueo de anuncios y pestañas de bajo consumo"),
        ),
    );
    r.push(write("HKCU\\Software\\CRONI\\Capabilities\\URLAssociations", Some("http"), owned("CRONI.Url.Http")));
    r.push(write("HKCU\\Software\\CRONI\\Capabilities\\URLAssociations", Some("https"), owned("CRONI.Url.Https")));
    r.push(write("HKCU\\Software\\RegisteredApplications", Some("CRONI"), owned("Software\\CRONI\\Capabilities")));
    r.push(write("HKCU\\Software\\Classes\\CRONI.Url.Http", None, owned("CRONI HTTP")));
    r.push(write("HKCU\\Software\\Classes\\CRONI.Url.Http", Some("URL Protocol"), owned("")));
    r.push(write("HKCU\\Software\\Classes\\CRONI.Url.Http\\DefaultIcon", None, icon.clone()));
    r.push(write("HKCU\\Software\\Classes\\CRONI.Url.Http\\shell\\open\\command", None, open.clone()));
    r.push(write("HKCU\\Software\\Classes\\CRONI.Url.Https", None, owned("CRONI HTTPS")));
    r.push(write("HKCU\\Software\\Classes\\CRONI.Url.Https", Some("URL Protocol"), owned("")));
    r.push(write("HKCU\\Software\\Classes\\CRONI.Url.Https\\DefaultIcon", None, icon));
    r.push(write("HKCU\\Software\\Classes\\CRONI.Url.Https\\shell\\open\\command", None, open));
    r.push(write(APP_PATHS_KEY, None, owned(executable)));
    assert(r@.map_values(|w: RegistryWrite| write_view(w)) =~= registry_values(executable@));
    r
}

/// The arguments of `reg.exe` that write one value.
pub open spec fn reg_add_args(w: (Seq<char>, Option<Seq<char>>, Seq<char>)) -> Seq<Seq<char>> {
    seq!["add"@, w.0] + match w.1 {
        Some(n) => seq!["/v"@, n],
        None => seq!["/ve"@],
    } + seq!["/t"@, "REG_SZ"@, "/d"@, w.2, "/f"@]
}

/// The arguments of `reg.exe` that write one value.
pub fn reg_add_arguments(w: &RegistryWrite) -> (r: Vec<String>)
    ensures
        string_views(r@) == reg_add_args(write_view(*w)),
{
    let mut r: Vec<String> = Vec::new();
    r.push(owned("add"));
    r.push(owned(w.key));
    match w.name {
        Some(n) => {
            r.push(owned("/v"));
            r.push(owned(n));
        },
        None => {
            r.push(owned("/ve"));
        },
    }
    r.push(owned("/t"));
    r.push(owned("REG_SZ"));
    r.push(owned("/d"));
    r.push(w.value.clone());
    r.push(owned("/f"));
    assert(string_views(r@) =~= reg_add_args(write_view(*w)));
    r
}

/// The `reg.exe` calls that register CRONI from the executable at
/// `executable` (in the folder `parent`, when it has one): every value of
/// [`registry_values`], then the folder as the App Paths `Path`. Only on
/// Windows; elsewhere nothing is written.
pub fn register_and_open_settings(on_windows: bool, executable: &str, parent: Option<&str>) -> (r: Result<
    Vec<Vec<String>>,
    RegistrationError,
>)
    ensures
        !on_windows ==> r == Err::<Vec<Vec<String>>, RegistrationError>(RegistrationError::Unsupported),
        on_windows ==> (r matches Ok(calls) && calls@.map_values(|c: Vec<String>| string_views(c@))
            == registry_values(executable@).map_values(|w: (Seq<char>, Option<Seq<char>>, Seq<char>)| reg_add_args(w))
            + match parent {
                Some(p) => seq![reg_add_args(entry(APP_PATHS_KEY@, Some("Path"@), p@))],
                None => Seq::empty(),
            }),
{
    if !on_windows {
        return Err(RegistrationError::Unsupported);
    }
    let writes = registry_writes(executable);
    let ghost values = registry_values(executable@);
    let mut calls: Vec<Vec<String>> = Vec::new();
    let mut i: usize = 0;
    while i < writes.len()
        invariant
            i <= writes@.len(),
            writes@.map_values(|w: RegistryWrite| write_view(w)) == values,
            calls@.map_values(|c: Vec<String>| string_views(c@)) == values.map_values(
                |w: (Seq<char>, Option<Seq<char>>, Seq<char>)| reg_add_args(w),
            ).take(i as int),
        decreases writes.len() - i,
    {
        let ghost before = calls@.map_values(|c: Vec<String>| string_views(c@));
        assert(values[i as int] == write_view(writes@[i as int]));
        calls.push(reg_add_arguments(&writes[i]));
        assert(calls@.map_values(|c: Vec<String>| string_views(c@)) =~= before.push(reg_add_args(values[i as int])));
        assert(values.map_values(|w: (Seq<char>, Option<Seq<char>>, Seq<char>)| reg_add_args(w)).take(i + 1)
            =~= values.map_values(|w: (Seq<char>, Option<Seq<char>>, Seq<char>)| reg_add_args(w)).take(
            i as int,
        ).push(reg_add_args(values[i as int])));
        i = i + 1;
    }
    assert(values.map_values(|w: (Seq<char>, Option<Seq<char>>, Seq<char>)| reg_add_args(w)).take(i as int)
        =~= values.map_values(|w: (Seq<char>, Option<Seq<char>>, Seq<char>)| reg_add_args(w)));
    match parent {
        Some(p) => {
            let ghost before = calls@.map_values(|c: Vec<String>| string_views(c@));
            let path_write = write(APP_PATHS_KEY, Some("Path"), owned(p));
            calls.push(reg_add_arguments(&path_write));
            assert(calls@.map_values(|c: Vec<String>| string_views(c@)) =~= before.push(
                reg_add_args(entry(APP_PATHS_KEY@, Some("Path"@), p@)),
            ));
        },
        None => {
            assert(calls@.map_values(|c: Vec<String>| string_views(c@)) =~= calls@.map_values(|c: Vec<String>| string_views(c@))
                + Seq::<Seq<Seq<char>>>::empty());
        },
    }
    Ok(calls)
}

} // verus!
