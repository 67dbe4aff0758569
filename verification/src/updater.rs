//! Self-update: which GitHub release to install and how a downloaded
//! executable is checked before it replaces the running one.
use vstd::prelude::*;
use crate::text::str_eq;
use vstd::utf8::encode_utf8;
use crate::blocker::{is_utf8, string_from_utf8};
use crate::text::{
    ascii_lower, ascii_lower_seq, char_ascii_lower, char_is_white_space, chars_eq,
    chars_eq_ignore_ascii_case, chars_of, decimal, decimal_chars, eq_ignore_ascii_case, extend_chars, extend_str,
    is_white_space, lower_ascii, string_of, trim_start,
};
use crate::web_url::{parse_url, whatwg_parse};

verus! {

/// Characters allowed in a GitHub owner or repository name.
pub open spec fn repo_char(c: char) -> bool {
    ||| 'a' <= c <= 'z'
    ||| 'A' <= c <= 'Z'
    ||| '0' <= c <= '9'
    ||| c == '-'
    ||| c == '_'
    ||| c == '.'
}

/// `owner/repository`: exactly one slash, with a non-empty name of allowed
/// characters on each side.
pub open spec fn valid_repository_spec(s: Seq<char>) -> bool {
    exists|k: int|
        0 < k < s.len() - 1 && #[trigger] s[k] == '/' && (forall|i: int| 0 <= i < k ==> repo_char(
            #[trigger] s[i],
        )) && (forall|i: int| k < i < s.len() ==> repo_char(#[trigger] s[i]))
}

fn is_repo_char(c: char) -> (r: bool)
    ensures
        r == repo_char(c),
{
    ('a' <= c && c <= 'z') || ('A' <= c && c <= 'Z') || ('0' <= c && c <= '9') || c == '-' || c
        == '_' || c == '.'
}

/// Whether a text names a GitHub repository as `owner/repository`.
pub fn valid_repository(repository: &str) -> (r: bool)
    ensures
        r == valid_repository_spec(repository@),
{
    let s = chars_of(repository);
    let n = s.len();
    let mut k: usize = 0;
    while k < n && s[k] != '/'
        invariant
            k <= n == s@.len(),
            forall|i: int| 0 <= i < k ==> s@[i] != '/',
        decreases n - k,
    {
        k = k + 1;
    }
    assert(s@ == repository@);
    if k == n || k == 0 || k + 1 >= n {
        proof {
            if k < n {
                assert(s@[k as int] == '/');
                assert(!repo_char(s@[k as int]));
            }
            if valid_repository_spec(s@) {
                let j = choose|j: int|
                    0 < j < s@.len() - 1 && #[trigger] s@[j] == '/' && (forall|i: int|
                        0 <= i < j ==> repo_char(#[trigger] s@[i])) && (forall|i: int|
                        j < i < s@.len() ==> repo_char(#[trigger] s@[i]));
                if j < k {
                } else if j > k {
                    assert(repo_char(s@[k as int]));
                } else {
                }
            }
        }
        return false;
    }
    let mut i: usize = 0;
    while i < n
        invariant
            i <= n == s@.len(),
            s@ == repository@,
            0 < k < n - 1,
            s@[k as int] == '/',
            forall|j: int| 0 <= j < k ==> s@[j] != '/',
            forall|j: int| 0 <= j < i && j != k ==> repo_char(#[trigger] s@[j]),
        decreases n - i,
    {
        if i != k && !is_repo_char(s[i]) {
            proof {
                assert(!repo_char(s@[i as int]));
                assert(!repo_char(s@[k as int]));
                if valid_repository_spec(s@) {
                    let j = choose|j: int|
                        0 < j < s@.len() - 1 && #[trigger] s@[j] == '/' && (forall|x: int|
                            0 <= x < j ==> repo_char(#[trigger] s@[x])) && (forall|x: int|
                            j < x < s@.len() ==> repo_char(#[trigger] s@[x]));
                    if j < k {
                    } else if j > k {
                        assert(repo_char(s@[k as int]));
                    } else {
                        assert(repo_char(s@[i as int]));
                    }
                }
            }
            return false;
        }
        i = i + 1;
    }
    assert(s@[k as int] == '/');
    true
}

/// Whether self-update is configured: the repository built into the
/// executable names a GitHub repository.
pub fn is_configured(repository: &str) -> (r: bool)
    ensures
        r == valid_repository_spec(repository@),
{
    valid_repository(repository)
}

/// Why an update could not be found, downloaded or applied.
#[derive(PartialEq, Eq, Structural, Clone, Copy, Debug)]
pub enum UpdateError {
    InvalidRemoteVersion,
    InvalidLocalVersion,
    MissingExecutable,
    MissingChecksum,
    InvalidDownloadUrl,
    DisallowedDownloadUrl,
    ChecksumNotText,
    InvalidChecksum,
    DownloadNotExecutable,
    DownloadChecksumMismatch,
    StagedNotExecutable,
    StagedModified,
    InvalidUpdateUrl,
    NotHttps,
    NoHost,
    IncompleteArguments,
}

/// The message shown for an update error.
pub open spec fn error_text(e: UpdateError) -> Seq<char> {
    match e {
        UpdateError::InvalidRemoteVersion => "la versión publicada no es válida"@,
        UpdateError::InvalidLocalVersion => "la versión local no es válida"@,
        UpdateError::MissingExecutable => "la versión nueva no contiene CRONI.exe"@,
        UpdateError::MissingChecksum => "la versión nueva no contiene la verificación SHA-256"@,
        UpdateError::InvalidDownloadUrl => "GitHub publicó una URL de descarga inválida"@,
        UpdateError::DisallowedDownloadUrl => "GitHub publicó una URL de descarga no permitida"@,
        UpdateError::ChecksumNotText => "la verificación SHA-256 no es texto válido"@,
        UpdateError::InvalidChecksum => "la verificación SHA-256 publicada no es válida"@,
        UpdateError::DownloadNotExecutable => "el archivo de actualización no es un ejecutable de Windows válido"@,
        UpdateError::DownloadChecksumMismatch => "la actualización no superó la verificación SHA-256"@,
        UpdateError::StagedNotExecutable => "la actualización descargada no es un ejecutable válido"@,
        UpdateError::StagedModified => "la actualización descargada fue modificada"@,
        UpdateError::InvalidUpdateUrl => "URL de actualización inválida"@,
        UpdateError::NotHttps => "la actualización sólo admite HTTPS"@,
        UpdateError::NoHost => "URL de actualización sin servidor"@,
        UpdateError::IncompleteArguments => "parámetros de actualización incompletos"@,
    }
}

impl UpdateError {
    /// The message shown to the user.
    pub fn message(&self) -> (r: &'static str)
        ensures
            r@ == error_text(*self),
    {
        match self {
            UpdateError::InvalidRemoteVersion => "la versión publicada no es válida",
            UpdateError::InvalidLocalVersion => "la versión local no es válida",
            UpdateError::MissingExecutable => "la versión nueva no contiene CRONI.exe",
            UpdateError::MissingChecksum => "la versión nueva no contiene la verificación SHA-256",
            UpdateError::InvalidDownloadUrl => "GitHub publicó una URL de descarga inválida",
            UpdateError::DisallowedDownloadUrl => "GitHub publicó una URL de descarga no permitida",
            UpdateError::ChecksumNotText => "la verificación SHA-256 no es texto válido",
            UpdateError::InvalidChecksum => "la verificación SHA-256 publicada no es válida",
            UpdateError::DownloadNotExecutable =>
                "el archivo de actualización no es un ejecutable de Windows válido",
            UpdateError::DownloadChecksumMismatch =>
                "la actualización no superó la verificación SHA-256",
            UpdateError::StagedNotExecutable =>
                "la actualización descargada no es un ejecutable válido",
            UpdateError::StagedModified => "la actualización descargada fue modificada",
            UpdateError::InvalidUpdateUrl => "URL de actualización inválida",
            UpdateError::NotHttps => "la actualización sólo admite HTTPS",
            UpdateError::NoHost => "URL de actualización sin servidor",
            UpdateError::IncompleteArguments => "parámetros de actualización incompletos",
        }
    }
}

/// A download that GitHub publishes with a release.
pub struct ReleaseAsset {
    pub name: String,
    pub browser_download_url: String,
}

/// The latest release of the repository, as GitHub's API describes it.
pub struct Release {
    pub tag_name: String,
    pub assets: Vec<ReleaseAsset>,
}

/// Names and URLs of a release's assets.
pub open spec fn asset_views(assets: Seq<ReleaseAsset>) -> Seq<(Seq<char>, Seq<char>)> {
    assets.map_values(|a: ReleaseAsset| (a.name@, a.browser_download_url@))
}

#[verifier::external_type_specification]
#[verifier::external_body]
pub struct ExVersion(semver::Version);

/// Whether the `semver` crate accepts a text as a version.
pub uninterp spec fn semver_valid(text: Seq<char>) -> bool;

/// Whether the version written in `a` is greater than the one in `b` in the
/// order of `semver::Version` (its derived `Ord`): by major, minor and patch
/// numbers, then pre-release (a version without one is greater), then build
/// metadata; unlike SemVer precedence, build metadata counts.
pub uninterp spec fn semver_greater(a: Seq<char>, b: Seq<char>) -> bool;

/// How `semver::Version` writes back the version parsed from a text.
pub uninterp spec fn semver_display(text: Seq<char>) -> Seq<char>;

/// A parsed version and the text it was parsed from.
pub struct SemVersion {
    value: semver::Version,
    text: Ghost<Seq<char>>,
}

impl SemVersion {
    /// The text the version was parsed from.
    pub closed spec fn source(&self) -> Seq<char> {
        self.text@
    }
}

/// Calls `semver::Version::parse`. The claim: a version comes back exactly
/// when the crate accepts the text, and it remembers that text.
#[verifier::external_body]
pub(crate) fn parse_version(text: &str) -> (r: Option<SemVersion>)
    ensures
        r is Some <==> semver_valid(text@),
        r matches Some(v) ==> v.source() == text@,
{
    match semver::Version::parse(text) {
        Ok(value) => Some(SemVersion { value, text: Ghost(text@) }),
        Err(_) => None,
    }
}

/// Compares two versions with `semver::Version`'s `>`.
#[verifier::external_body]
pub(crate) fn version_greater(a: &SemVersion, b: &SemVersion) -> (r: bool)
    ensures
        r == semver_greater(a.source(), b.source()),
{
    a.value > b.value
}

/// Writes a version with `semver::Version`'s `to_string`.
#[verifier::external_body]
pub(crate) fn version_text(v: &SemVersion) -> (r: String)
    ensures
        r@ == semver_display(v.source()),
{
    v.value.to_string()
}

/// The sequence without leading `v` and `V` characters.
pub open spec fn trim_version_prefix(s: Seq<char>) -> Seq<char>
    decreases s.len(),
{
    if s.len() > 0 && (s[0] == 'v' || s[0] == 'V') {
        trim_version_prefix(s.drop_first())
    } else {
        s
    }
}

proof fn lemma_trim_prefix_skip(s: Seq<char>, k: int)
    requires
        0 <= k <= s.len(),
        forall|j: int| 0 <= j < k ==> (#[trigger] s[j] == 'v' || s[j] == 'V'),
    ensures
        trim_version_prefix(s) == trim_version_prefix(s.skip(k)),
    decreases k,
{
    if k > 0 {
        lemma_trim_prefix_skip(s.drop_first(), k - 1);
        assert(s.drop_first().skip(k - 1) =~= s.skip(k));
    } else {
        assert(s.skip(0) =~= s);
    }
}

fn trim_version_prefix_chars(s: &Vec<char>) -> (r: Vec<char>)
    ensures
        r@ == trim_version_prefix(s@),
{
    let mut k: usize = 0;
    while k < s.len() && (s[k] == 'v' || s[k] == 'V')
        invariant
            k <= s@.len(),
            forall|j: int| 0 <= j < k ==> (#[trigger] s@[j] == 'v' || s@[j] == 'V'),
        decreases s.len() - k,
    {
        k = k + 1;
    }
    proof {
        lemma_trim_prefix_skip(s@, k as int);
    }
    let mut r: Vec<char> = Vec::new();
    let mut i = k;
    while i < s.len()
        invariant
            k <= i <= s@.len(),
            r@ == s@.subrange(k as int, i as int),
        decreases s.len() - i,
    {
        r.push(s[i]);
        i = i + 1;
    }
    assert(r@ =~= s@.skip(k as int));
    r
}

/// The index of the first asset whose name equals `name` up to ASCII case.
pub open spec fn first_asset(assets: Seq<(Seq<char>, Seq<char>)>, name: Seq<char>) -> Option<int>
    decreases assets.len(),
{
    if assets.len() == 0 {
        None
    } else if eq_ignore_ascii_case(assets[0].0, name) {
        Some(0)
    } else {
        match first_asset(assets.drop_first(), name) {
            Some(i) => Some(i + 1),
            None => None,
        }
    }
}

proof fn lemma_first_asset_scan(assets: Seq<(Seq<char>, Seq<char>)>, name: Seq<char>, k: int)
    requires
        0 <= k <= assets.len(),
        forall|j: int| 0 <= j < k ==> !eq_ignore_ascii_case(#[trigger] assets[j].0, name),
    ensures
        first_asset(assets, name) == (match first_asset(assets.skip(k), name) {
            Some(i) => Some(i + k),
            None => None,
        }),
    decreases k,
{
    if k == 0 {
        assert(assets.skip(0) =~= assets);
        match first_asset(assets, name) {
            Some(i) => {},
            None => {},
        }
    } else {
        assert(!eq_ignore_ascii_case(assets[0].0, name));
        lemma_first_asset_scan(assets.drop_first(), name, k - 1);
        assert(assets.drop_first().skip(k - 1) =~= assets.skip(k));
    }
}

fn find_asset(assets: &Vec<ReleaseAsset>, name: &str) -> (r: Option<usize>)
    ensures
        match r {
            Some(i) => first_asset(asset_views(assets@), name@) == Some(i as int) && i < assets@.len(),
            None => first_asset(asset_views(assets@), name@) is None,
        },
{
    let target = chars_of(name);
    let ghost views = asset_views(assets@);
    let mut i: usize = 0;
    while i < assets.len()
        invariant
            i <= assets@.len(),
            views == asset_views(assets@),
            target@ == name@,
            forall|j: int| 0 <= j < i ==> !eq_ignore_ascii_case(#[trigger] views[j].0, name@),
        decreases assets.len() - i,
    {
        let candidate = chars_of(assets[i].name.as_str());
        if chars_eq_ignore_ascii_case(&candidate, &target) {
            proof {
                lemma_first_asset_scan(views, name@, i as int);
                assert(views.skip(i as int)[0] == views[i as int]);
                assert(views[i as int].0 == assets@[i as int].name@);
            }
            return Some(i);
        }
        assert(views[i as int].0 == assets@[i as int].name@);
        i = i + 1;
    }
    proof {
        lemma_first_asset_scan(views, name@, i as int);
        assert(views.skip(i as int).len() == 0);
    }
    None
}

/// Release downloads must be `https` URLs on `github.com`.
pub open spec fn github_url_check(raw: Seq<char>) -> Result<(), UpdateError> {
    match whatwg_parse(raw) {
        None => Err(UpdateError::InvalidDownloadUrl),
        Some(p) => if p.scheme == "https"@ && p.host == Some("github.com"@) {
            Ok(())
        } else {
            Err(UpdateError::DisallowedDownloadUrl)
        },
    }
}

/// Accepts only `https://github.com/...` download URLs.
pub fn ensure_github_download_url(raw: &str) -> (r: Result<(), UpdateError>)
    ensures
        r == github_url_check(raw@),
{
    match parse_url(raw) {
        None => Err(UpdateError::InvalidDownloadUrl),
        Some(p) => {
            let host_ok = match &p.host {
                Some(h) => str_eq(h.as_str(), "github.com"),
                None => false,
            };
            if str_eq(p.scheme.as_str(), "https") && host_ok {
                Ok(())
            } else {
                Err(UpdateError::DisallowedDownloadUrl)
            }
        },
    }
}

/// What to download for a newer release.
pub struct UpdatePlan {
    pub version: String,
    pub executable_url: String,
    pub checksum_url: String,
}

/// Model of [`UpdatePlan`].
pub struct UpdatePlanView {
    pub version: Seq<char>,
    pub executable_url: Seq<char>,
    pub checksum_url: Seq<char>,
}

impl View for UpdatePlan {
    type V = UpdatePlanView;

    open spec fn view(&self) -> UpdatePlanView {
        UpdatePlanView {
            version: self.version@,
            executable_url: self.executable_url@,
            checksum_url: self.checksum_url@,
        }
    }
}

/// The decision on the latest release: nothing to do when it is not newer
/// than the running version; otherwise the executable and its SHA-256 file,
/// both on github.com.
pub open spec fn update_plan(
    tag: Seq<char>,
    assets: Seq<(Seq<char>, Seq<char>)>,
    current: Seq<char>,
) -> Result<Option<UpdatePlanView>, UpdateError> {
    let remote = trim_version_prefix(tag);
    if !semver_valid(remote) {
        Err(UpdateError::InvalidRemoteVersion)
    } else if !semver_valid(current) {
        Err(UpdateError::InvalidLocalVersion)
    } else if !semver_greater(remote, current) {
        Ok(None)
    } else {
        match first_asset(assets, "CRONI.exe"@) {
            None => Err(UpdateError::MissingExecutable),
            Some(e) => match first_asset(assets, "CRONI.exe.sha256"@) {
                None => Err(UpdateError::MissingChecksum),
                Some(c) => match github_url_check(assets[e].1) {
                    Err(err) => Err(err),
                    Ok(_) => match github_url_check(assets[c].1) {
                        Err(err) => Err(err),
                        Ok(_) => Ok(
                            Some(
                                UpdatePlanView {
                                    version: semver_display(remote),
                                    executable_url: assets[e].1,
                                    checksum_url: assets[c].1,
                                },
                            ),
                        ),
                    },
                },
            },
        }
    }
}

/// Decides what to do about the latest release, given the running version.
pub fn plan_update(release: &Release, current_version: &str) -> (r: Result<Option<UpdatePlan>, UpdateError>)
    ensures
        match r {
            Ok(Some(p)) => update_plan(
                release.tag_name@,
                asset_views(release.assets@),
                current_version@,
            ) == Ok::<Option<UpdatePlanView>, UpdateError>(Some(p@)),
            Ok(None) => update_plan(release.tag_name@, asset_views(release.assets@), current_version@)
                == Ok::<Option<UpdatePlanView>, UpdateError>(None),
            Err(e) => update_plan(release.tag_name@, asset_views(release.assets@), current_version@)
                == Err::<Option<UpdatePlanView>, UpdateError>(e),
        },
{
    let ghost views = asset_views(release.assets@);
    let tag = chars_of(release.tag_name.as_str());
    let remote_chars = trim_version_prefix_chars(&tag);
    let remote_text = string_of(&remote_chars);
    let remote = match parse_version(remote_text.as_str()) {
        Some(v) => v,
        None => return Err(UpdateError::InvalidRemoteVersion),
    };
    let current = match parse_version(current_version) {
        Some(v) => v,
        None => return Err(UpdateError::InvalidLocalVersion),
    };
    if !version_greater(&remote, &current) {
        return Ok(None);
    }
    let e = match find_asset(&release.assets, "CRONI.exe") {
        Some(i) => i,
        None => return Err(UpdateError::MissingExecutable),
    };
    let c = match find_asset(&release.assets, "CRONI.exe.sha256") {
        Some(i) => i,
        None => return Err(UpdateError::MissingChecksum),
    };
    assert(views[e as int].1 == release.assets@[e as int].browser_download_url@);
    assert(views[c as int].1 == release.assets@[c as int].browser_download_url@);
    match ensure_github_download_url(release.assets[e].browser_download_url.as_str()) {
        Err(err) => return Err(err),
        Ok(()) => {},
    }
    match ensure_github_download_url(release.assets[c].browser_download_url.as_str()) {
        Err(err) => return Err(err),
        Ok(()) => {},
    }
    let version = version_text(&remote);
    Ok(
        Some(
            UpdatePlan {
                version,
                executable_url: release.assets[e].browser_download_url.clone(),
                checksum_url: release.assets[c].browser_download_url.clone(),
            },
        ),
    )
}

/// The characters up to the first white space.
pub open spec fn take_until_white_space(s: Seq<char>) -> Seq<char>
    decreases s.len(),
{
    if s.len() == 0 || is_white_space(s[0]) {
        Seq::empty()
    } else {
        seq![s[0]] + take_until_white_space(s.drop_first())
    }
}

/// The first white-space separated word, or nothing
/// (`split_whitespace().next().unwrap_or_default()`).
pub open spec fn first_word(s: Seq<char>) -> Seq<char> {
    take_until_white_space(trim_start(s))
}

/// ASCII hexadecimal digit.
pub open spec fn is_hex_char(c: char) -> bool {
    ('0' <= c <= '9') || ('a' <= c <= 'f') || ('A' <= c <= 'F')
}

/// The expected digest written in a `.sha256` file: its first word in lower
/// case, which must be 64 hexadecimal digits.
pub open spec fn checksum_from_text(text: Seq<char>) -> Result<Seq<char>, UpdateError> {
    let word = ascii_lower_seq(first_word(text));
    if word.len() == 64 && (forall|i: int| 0 <= i < word.len() ==> is_hex_char(#[trigger] word[i])) {
        Ok(word)
    } else {
        Err(UpdateError::InvalidChecksum)
    }
}

proof fn lemma_trim_start_skip_ws(s: Seq<char>, k: int)
    requires
        0 <= k <= s.len(),
        forall|j: int| 0 <= j < k ==> is_white_space(#[trigger] s[j]),
    ensures
        trim_start(s) == trim_start(s.skip(k)),
    decreases k,
{
    if k > 0 {
        lemma_trim_start_skip_ws(s.drop_first(), k - 1);
        assert(s.drop_first().skip(k - 1) =~= s.skip(k));
    } else {
        assert(s.skip(0) =~= s);
    }
}

proof fn lemma_take_until(s: Seq<char>, k: int)
    requires
        0 <= k <= s.len(),
        forall|j: int| 0 <= j < k ==> !is_white_space(#[trigger] s[j]),
        k == s.len() || is_white_space(s[k]),
    ensures
        take_until_white_space(s) == s.take(k),
    decreases k,
{
    if k == 0 {
        assert(s.take(0) =~= Seq::<char>::empty());
    } else {
        lemma_take_until(s.drop_first(), k - 1);
        assert(seq![s[0]] + s.drop_first().take(k - 1) =~= s.take(k));
    }
}

fn first_word_chars(s: &Vec<char>) -> (r: Vec<char>)
    ensures
        r@ == first_word(s@),
{
    let n = s.len();
    let mut start: usize = 0;
    while start < n && char_is_white_space(s[start])
        invariant
            start <= n == s@.len(),
            forall|j: int| 0 <= j < start ==> is_white_space(#[trigger] s@[j]),
        decreases n - start,
    {
        start = start + 1;
    }
    proof {
        lemma_trim_start_skip_ws(s@, start as int);
        let rest = s@.skip(start as int);
        if rest.len() > 0 {
            assert(rest[0] == s@[start as int]);
        }
        assert(trim_start(rest) == rest);
    }
    let mut end = start;
    while end < n && !char_is_white_space(s[end])
        invariant
            start <= end <= n == s@.len(),
            forall|j: int| start <= j < end ==> !is_white_space(#[trigger] s@[j]),
        decreases n - end,
    {
        end = end + 1;
    }
    let mut r: Vec<char> = Vec::new();
    let mut i = start;
    while i < end
        invariant
            start <= i <= end <= n == s@.len(),
            r@ == s@.subrange(start as int, i as int),
        decreases end - i,
    {
        r.push(s[i]);
        i = i + 1;
    }
    proof {
        let rest = s@.skip(start as int);
        let k = (end - start) as int;
        assert forall|j: int| 0 <= j < k implies !is_white_space(#[trigger] rest[j]) by {
            assert(rest[j] == s@[j + start]);
        }
        if k < rest.len() {
            assert(rest[k] == s@[end as int]);
        }
        lemma_take_until(rest, k);
        assert(r@ =~= rest.take(k));
    }
    r
}

/// Reads the expected digest from a downloaded `.sha256` file.
pub fn parse_checksum(bytes: Vec<u8>) -> (r: Result<String, UpdateError>)
    ensures
        !is_utf8(bytes@) ==> r == Err::<String, UpdateError>(UpdateError::ChecksumNotText),
        is_utf8(bytes@) ==> exists|text: Seq<char>|
            encode_utf8(text) == bytes@ && match r {
                Ok(s) => checksum_from_text(text) == Ok::<Seq<char>, UpdateError>(s@),
                Err(e) => checksum_from_text(text) == Err::<Seq<char>, UpdateError>(e),
            },
{
    let text = match string_from_utf8(bytes) {
        Some(t) => t,
        None => return Err(UpdateError::ChecksumNotText),
    };
    let chars = chars_of(text.as_str());
    let word = lower_ascii(&first_word_chars(&chars));
    let ghost t = text@;
    assert(word@ == ascii_lower_seq(first_word(t)));
    assert(encode_utf8(t) == bytes@);
    if word.len() != 64 {
        assert(checksum_from_text(t) == Err::<Seq<char>, UpdateError>(UpdateError::InvalidChecksum));
        return Err(UpdateError::InvalidChecksum);
    }
    let mut i: usize = 0;
    while i < word.len()
        invariant
            i <= word@.len(),
            word@.len() == 64,
            word@ == ascii_lower_seq(first_word(t)),
            encode_utf8(t) == bytes@,
            forall|j: int| 0 <= j < i ==> is_hex_char(#[trigger] word@[j]),
        decreases word.len() - i,
    {
        let c = word[i];
        if !(('0' <= c && c <= '9') || ('a' <= c && c <= 'f') || ('A' <= c && c <= 'F')) {
            assert(!is_hex_char(word@[i as int]));
            assert(checksum_from_text(t) == Err::<Seq<char>, UpdateError>(UpdateError::InvalidChecksum));
            return Err(UpdateError::InvalidChecksum);
        }
        i = i + 1;
    }
    Ok(string_of(&word))
}

/// The SHA-256 digest of a byte sequence.
pub uninterp spec fn sha256(bytes: Seq<u8>) -> Seq<u8>;

/// Calls `sha2::Sha256::digest`: the digest of the bytes, 32 bytes long.
#[verifier::external_body]
pub(crate) fn sha256_digest(bytes: &[u8]) -> (r: Vec<u8>)
    ensures
        r@ == sha256(bytes@),
        r@.len() == 32,
{
    <sha2::Sha256 as sha2::Digest>::digest(bytes).to_vec()
}

/// Lower-case hexadecimal digit for `d < 16`.
pub open spec fn hex_digit(d: u8) -> char {
    if d < 10 {
        (48 + d) as char
    } else {
        (87 + d) as char
    }
}

/// Lower-case hexadecimal rendering of bytes, two digits each (`{:x}`).
pub open spec fn hex_lower(bytes: Seq<u8>) -> Seq<char>
    decreases bytes.len(),
{
    if bytes.len() == 0 {
        Seq::empty()
    } else {
        hex_lower(bytes.drop_last()) + seq![
            hex_digit(bytes.last() / 16),
            hex_digit(bytes.last() % 16),
        ]
    }
}

fn hex_digit_of(d: u8) -> (c: char)
    requires
        d < 16,
    ensures
        c == hex_digit(d),
{
    if d < 10 {
        (48 + d) as char
    } else {
        (87 + d) as char
    }
}

/// Renders bytes as lower-case hexadecimal.
pub fn to_hex_lower(bytes: &Vec<u8>) -> (r: Vec<char>)
    ensures
        r@ == hex_lower(bytes@),
{
    let mut r: Vec<char> = Vec::new();
    let mut i: usize = 0;
    while i < bytes.len()
        invariant
            i <= bytes@.len(),
            r@ == hex_lower(bytes@.take(i as int)),
        decreases bytes.len() - i,
    {
        let b = bytes[i];
        r.push(hex_digit_of(b / 16));
        r.push(hex_digit_of(b % 16));
        assert(bytes@.take(i + 1).drop_last() =~= bytes@.take(i as int));
        assert(bytes@.take(i + 1).last() == b);
        i = i + 1;
    }
    assert(bytes@.take(i as int) =~= bytes@);
    r
}

/// A Windows executable: at least 1 KiB, starting with `MZ`.
pub open spec fn looks_like_executable(bytes: Seq<u8>) -> bool {
    bytes.len() >= 1024 && bytes[0] == 0x4d && bytes[1] == 0x5a
}

/// The three outcomes of checking an executable against a digest: 1 when
/// it is no executable, 2 when its digest differs from the expected text
/// (compared in lower case when `fold_case`), 0 when it passes.
pub open spec fn executable_check(bytes: Seq<u8>, expected: Seq<char>, fold_case: bool) -> u8 {
    if !looks_like_executable(bytes) {
        1
    } else if hex_lower(sha256(bytes)) != (if fold_case {
        ascii_lower_seq(expected)
    } else {
        expected
    }) {
        2
    } else {
        0
    }
}

fn check_executable(bytes: &Vec<u8>, expected: &str, fold_case: bool) -> (r: u8)
    ensures
        r == executable_check(bytes@, expected@, fold_case),
{
    if bytes.len() < 1024 || bytes[0] != 0x4d || bytes[1] != 0x5a {
        return 1;
    }
    let digest = sha256_digest(bytes.as_slice());
    let actual = to_hex_lower(&digest);
    let wanted = if fold_case {
        lower_ascii(&chars_of(expected))
    } else {
        chars_of(expected)
    };
    if !chars_eq(&actual, &wanted) {
        return 2;
    }
    0
}

/// Checks a freshly downloaded executable against the published digest
/// (already in lower case).
pub fn check_downloaded_executable(bytes: &Vec<u8>, expected: &str) -> (r: Result<(), UpdateError>)
    ensures
        r == (if executable_check(bytes@, expected@, false) == 1 {
            Err(UpdateError::DownloadNotExecutable)
        } else if executable_check(bytes@, expected@, false) == 2 {
            Err(UpdateError::DownloadChecksumMismatch)
        } else {
            Ok(())
        }),
{
    let c = check_executable(bytes, expected, false);
    if c == 1 {
        Err(UpdateError::DownloadNotExecutable)
    } else if c == 2 {
        Err(UpdateError::DownloadChecksumMismatch)
    } else {
        Ok(())
    }
}

/// Checks the staged executable again before it is installed, against the
/// digest in any case.
pub fn verify_staged_executable(bytes: &Vec<u8>, expected: &str) -> (r: Result<(), UpdateError>)
    ensures
        r == (if executable_check(bytes@, expected@, true) == 1 {
            Err(UpdateError::StagedNotExecutable)
        } else if executable_check(bytes@, expected@, true) == 2 {
            Err(UpdateError::StagedModified)
        } else {
            Ok(())
        }),
{
    let c = check_executable(bytes, expected, true);
    if c == 1 {
        Err(UpdateError::StagedNotExecutable)
    } else if c == 2 {
        Err(UpdateError::StagedModified)
    } else {
        Ok(())
    }
}

/// The file name under which a downloaded version is kept.
pub open spec fn update_file_name_text(version: Seq<char>) -> Seq<char> {
    "CRONI-"@ + version + ".exe"@
}

/// `CRONI-{version}.exe`.
pub fn update_file_name(version: &str) -> (r: String)
    ensures
        r@ == update_file_name_text(version@),
{
    let mut v = chars_of("CRONI-");
    extend_str(&mut v, version);
    extend_str(&mut v, ".exe");
    string_of(&v)
}

/// Where an HTTPS GET goes.
pub struct HttpTarget {
    pub host: String,
    pub port: u16,
    pub resource: String,
}

/// The request target of an update download: only `https` URLs with a host;
/// the port defaults to 443, the resource is the path and `?query`.
pub open spec fn http_target_of(raw: Seq<char>) -> Result<(Seq<char>, u16, Seq<char>), UpdateError> {
    match whatwg_parse(raw) {
        None => Err(UpdateError::InvalidUpdateUrl),
        Some(p) => if p.scheme != "https"@ {
            Err(UpdateError::NotHttps)
        } else {
            match p.host {
                None => Err(UpdateError::NoHost),
                Some(h) => Ok(
                    (
                        h,
                        match p.port {
                            Some(n) => n,
                            None => 443,
                        },
                        match p.query {
                            Some(q) => p.path + seq!['?'] + q,
                            None => p.path,
                        },
                    ),
                ),
            }
        },
    }
}

/// Splits an update URL into the parts an HTTPS request needs.
pub fn http_target(raw: &str) -> (r: Result<HttpTarget, UpdateError>)
    ensures
        match r {
            Ok(t) => http_target_of(raw@) == Ok::<(Seq<char>, u16, Seq<char>), UpdateError>(
                (t.host@, t.port, t.resource@),
            ),
            Err(e) => http_target_of(raw@) == Err::<(Seq<char>, u16, Seq<char>), UpdateError>(e),
        },
{
    let p = match parse_url(raw) {
        Some(p) => p,
        None => return Err(UpdateError::InvalidUpdateUrl),
    };
    if !str_eq(p.scheme.as_str(), "https") {
        return Err(UpdateError::NotHttps);
    }
    let host = match &p.host {
        Some(h) => h.clone(),
        None => return Err(UpdateError::NoHost),
    };
    let port = match p.port {
        Some(n) => n,
        None => 443,
    };
    let mut resource = chars_of(p.path.as_str());
    match &p.query {
        Some(q) => {
            resource.push('?');
            extend_str(&mut resource, q.as_str());
            assert(resource@ =~= p.path@ + seq!['?'] + q@);
        },
        None => {},
    }
    assert(host@ == p@.host->0);
    Ok(HttpTarget { host, port, resource: string_of(&resource) })
}

/// Whether a download may grow by `read` bytes without passing `max`.
pub fn fits_within_limit(current: usize, read: usize, max: usize) -> (r: bool)
    ensures
        r == (current + read <= max),
{
    read <= max && current <= max - read
}

/// How the executable was started.
#[derive(PartialEq, Eq, Structural, Clone, Copy, Debug)]
pub enum ApplyMode {
    /// A normal start.
    NotRequested,
    /// Started as the updater, with the wrong number of arguments.
    Incomplete,
    /// Started as the updater: arguments 3, 4 and 5 are the update, the
    /// target and the digest.
    Apply,
}

/// The mode an argument list asks for.
pub open spec fn apply_mode_of(args: Seq<Seq<char>>) -> ApplyMode {
    if args.len() < 2 || args[1] != APPLY_FLAG@ {
        ApplyMode::NotRequested
    } else if args.len() != 6 {
        ApplyMode::Incomplete
    } else {
        ApplyMode::Apply
    }
}

/// Recognizes the updater's command line.
pub fn apply_mode(args: &Vec<String>) -> (r: ApplyMode)
    ensures
        r == apply_mode_of(args@.map_values(|a: String| a@)),
{
    let ghost views = args@.map_values(|a: String| a@);
    if args.len() < 2 {
        return ApplyMode::NotRequested;
    }
    assert(views[1] == args@[1]@);
    if !str_eq(args[1].as_str(), APPLY_FLAG) {
        return ApplyMode::NotRequested;
    }
    if args.len() != 6 {
        return ApplyMode::Incomplete;
    }
    ApplyMode::Apply
}


/// The largest release description read from GitHub, in bytes.
pub const MAX_RELEASE_JSON: usize = 1048576;

/// The largest executable downloaded as an update, in bytes.
pub const MAX_EXECUTABLE_SIZE: usize = 67108864;

/// The largest checksum file downloaded, in bytes.
pub const MAX_CHECKSUM_BYTES: usize = 4096;

/// The headers of requests to GitHub.
pub const GITHUB_HEADERS: &'static str = "Accept: application/vnd.github+json\r\nX-GitHub-Api-Version: 2022-11-28\r\n";

/// The first argument of the updater's command line.
pub const APPLY_FLAG: &'static str = "--croni-apply-update";

/// The address of the latest release of a repository.
pub open spec fn release_api_url_text(repository: Seq<char>) -> Seq<char> {
    "https://api.github.com/repos/"@ + repository + "/releases/latest"@
}

/// The address of the latest release of a repository.
pub fn release_api_url(repository: &str) -> (r: String)
    ensures
        r@ == release_api_url_text(repository@),
{
    let mut out: Vec<char> = chars_of("https://api.github.com/repos/");
    extend_str(&mut out, repository);
    extend_str(&mut out, "/releases/latest");
    string_of(&out)
}

/// The user agent of update requests.
pub fn user_agent(app_version: &str) -> (r: String)
    ensures
        r@ == "CRONI/"@ + app_version@,
{
    let mut out: Vec<char> = chars_of("CRONI/");
    extend_str(&mut out, app_version);
    string_of(&out)
}

/// Whether an HTTP status means success (2xx).
pub fn status_is_success(status: u32) -> (r: bool)
    ensures
        r == (200 <= status < 300),
{
    200 <= status && status < 300
}

/// The command line of the updater: the flag, the running process, the
/// staged update, the executable to replace and the expected digest.
pub fn updater_arguments(process_id: u32, update: &str, target: &str, sha256: &str) -> (r: Vec<String>)
    ensures
        r@.map_values(|a: String| a@) == seq![APPLY_FLAG@, decimal(process_id as nat), update@, target@, sha256@],
{
    let mut args: Vec<String> = Vec::new();
    args.push(APPLY_FLAG.to_string());
    args.push(string_of(&decimal_chars(process_id as u64)));
    args.push(update.to_string());
    args.push(target.to_string());
    args.push(sha256.to_string());
    assert(args@.map_values(|a: String| a@) =~= seq![
        APPLY_FLAG@,
        decimal(process_id as nat),
        update@,
        target@,
        sha256@,
    ]);
    args
}

} // verus!
