//! Downloads as the browser lists them, and the statuses they go through.
use vstd::prelude::*;
use crate::text::str_eq;
use crate::navigation::owned;
use crate::config::{StoredDownload, StoredDownloadView};
use crate::text::{chars_eq, chars_of};

verus! {

/// A download in the downloads menu.
#[derive(Clone, Debug)]
pub struct DownloadItem {
    pub id: u64,
    pub name: String,
    pub url: String,
    pub path: String,
    pub received: u64,
    pub total: Option<u64>,
    pub status: String,
}

/// Model of [`DownloadItem`].
pub struct DownloadView {
    pub id: u64,
    pub name: Seq<char>,
    pub url: Seq<char>,
    pub path: Seq<char>,
    pub received: u64,
    pub total: Option<u64>,
    pub status: Seq<char>,
}

impl View for DownloadItem {
    type V = DownloadView;

    open spec fn view(&self) -> DownloadView {
        DownloadView {
            id: self.id,
            name: self.name@,
            url: self.url@,
            path: self.path@,
            received: self.received,
            total: self.total,
            status: self.status@,
        }
    }
}

/// A download that was still running.
pub open spec fn is_active_status(s: Seq<char>) -> bool {
    s == "downloading"@ || s == "cancelling"@
}

/// The status a stored download is listed with: one that was running when
/// the browser closed is interrupted now.
pub open spec fn restored_status(s: Seq<char>) -> Seq<char> {
    if is_active_status(s) {
        "interrupted"@
    } else {
        s
    }
}

/// Whether a status belongs to a running download.
pub fn is_active(status: &str) -> (r: bool)
    ensures
        r == is_active_status(status@),
{
    str_eq(status, "downloading") || str_eq(status, "cancelling")
}

/// A copy of a string.
pub fn copy_string(s: &String) -> (r: String)
    ensures
        r@ == s@,
{
    s.clone()
}

impl DownloadItem {
    /// The listed download for a stored one, under the given id.
    pub fn from_stored(id: u64, stored: StoredDownload) -> (r: Self)
        ensures
            r@ == (DownloadView {
                id,
                name: stored.name@,
                url: stored.url@,
                path: stored.path@,
                received: stored.received,
                total: stored.total,
                status: restored_status(stored.status@),
            }),
    {
        let status = if is_active(stored.status.as_str()) {
            owned("interrupted")
        } else {
            stored.status
        };
        DownloadItem {
            id,
            name: stored.name,
            url: stored.url,
            path: stored.path,
            received: stored.received,
            total: stored.total,
            status,
        }
    }

    /// The download as it is stored.
    pub fn to_stored(&self) -> (r: StoredDownload)
        ensures
            r@ == (StoredDownloadView {
                name: self.name@,
                url: self.url@,
                path: self.path@,
                received: self.received,
                total: self.total,
                status: self.status@,
            }),
    {
        StoredDownload {
            name: copy_string(&self.name),
            url: copy_string(&self.url),
            path: copy_string(&self.path),
            received: self.received,
            total: self.total,
            status: copy_string(&self.status),
        }
    }

    /// A copy of the item.
    pub fn copy(&self) -> (r: Self)
        ensures
            r@ == self@,
    {
        DownloadItem {
            id: self.id,
            name: copy_string(&self.name),
            url: copy_string(&self.url),
            path: copy_string(&self.path),
            received: self.received,
            total: self.total,
            status: copy_string(&self.status),
        }
    }
}

/// Storing a listed download and listing it again gives it back, unless it
/// was still running (then it comes back interrupted).
pub proof fn stored_roundtrip(d: DownloadView)
    requires
        !is_active_status(d.status),
    ensures
        restored_status(d.status) == d.status,
{
}

/// States of a WebView2 download operation.
#[derive(PartialEq, Eq, Structural, Clone, Copy, Debug)]
pub enum DownloadState {
    InProgress,
    Completed,
    Interrupted,
}

/// The status word of a download operation; an interruption by the user is
/// a cancellation.
pub open spec fn operation_status_text(state: DownloadState, user_cancelled: bool) -> Seq<char> {
    match state {
        DownloadState::Completed => "completed"@,
        DownloadState::Interrupted => if user_cancelled {
            "cancelled"@
        } else {
            "interrupted"@
        },
        DownloadState::InProgress => "downloading"@,
    }
}

/// The status word of a download operation.
pub fn operation_status(state: DownloadState, user_cancelled: bool) -> (r: &'static str)
    ensures
        r@ == operation_status_text(state, user_cancelled),
{
    match state {
        DownloadState::Completed => "completed",
        DownloadState::Interrupted => if user_cancelled {
            "cancelled"
        } else {
            "interrupted"
        },
        DownloadState::InProgress => "downloading",
    }
}

/// Byte counts as WebView2 reports them (`-1` for an unknown total), as the
/// browser keeps them: negative counts become 0 and an unknown total none.
pub fn byte_counts(received: i64, total: i64) -> (r: (u64, Option<u64>))
    ensures
        r.0 == (if received > 0 {
            received as u64
        } else {
            0
        }),
        r.1 == (if total >= 0 {
            Some(total as u64)
        } else {
            None::<u64>
        }),
{
    let r0: u64 = if received > 0 {
        received as u64
    } else {
        0
    };
    let r1: Option<u64> = if total >= 0 {
        Some(total as u64)
    } else {
        None
    };
    (r0, r1)
}

/// The completed percentage shown for a download with a known, non-zero
/// total (saturating, at most 100).
pub open spec fn progress_percent_of(received: u64, total: Option<u64>) -> Option<u64> {
    match total {
        Some(t) => if t > 0 {
            let scaled: int = if received * 100 > u64::MAX {
                u64::MAX as int
            } else {
                received * 100
            };
            let p = scaled / (t as int);
            Some(
                if p > 100 {
                    100u64
                } else {
                    p as u64
                },
            )
        } else {
            None
        },
        None => None,
    }
}

/// The completed percentage of a download, if its size is known.
pub fn progress_percent(received: u64, total: Option<u64>) -> (r: Option<u64>)
    ensures
        r == progress_percent_of(received, total),
{
    match total {
        Some(t) => {
            if t > 0 {
                let scaled: u64 = if received > u64::MAX / 100 {
                    u64::MAX
                } else {
                    received * 100
                };
                let p = scaled / t;
                Some(
                    if p > 100 {
                        100
                    } else {
                        p
                    },
                )
            } else {
                None
            }
        },
        None => None,
    }
}


/// The name a download is listed with: the file name of its path, or
/// "Descarga" when the path has none (or an empty one).
pub open spec fn download_name_text(file_name: Option<Seq<char>>) -> Seq<char> {
    match file_name {
        Some(n) if n.len() > 0 => n,
        _ => "Descarga"@,
    }
}

/// The name a download is listed with, from the file name of its path.
pub fn download_name(file_name: Option<&str>) -> (r: String)
    ensures
        r@ == download_name_text(match file_name {
            Some(n) => Some(n@),
            None => None,
        }),
{
    match file_name {
        Some(n) => if chars_of(n).len() > 0 {
            owned(n)
        } else {
            owned("Descarga")
        },
        None => owned("Descarga"),
    }
}

} // verus!
