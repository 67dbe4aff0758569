use croni::config::StoredDownload;
use croni::downloads::{
    byte_counts, download_name, is_active, operation_status, progress_percent, DownloadItem,
    DownloadState,
};

fn stored(status: &str) -> StoredDownload {
    StoredDownload {
        name: "a.zip".to_string(),
        url: "https://example.com/a.zip".to_string(),
        path: "C:\\Descargas\\a.zip".to_string(),
        received: 10,
        total: Some(20),
        status: status.to_string(),
    }
}

#[test]
fn running_downloads_come_back_interrupted() {
    assert_eq!(DownloadItem::from_stored(7, stored("downloading")).status, "interrupted");
    assert_eq!(DownloadItem::from_stored(7, stored("cancelling")).status, "interrupted");
    let done = DownloadItem::from_stored(7, stored("completed"));
    assert_eq!(done.status, "completed");
    assert_eq!(done.id, 7);
}

#[test]
fn finished_download_round_trips_through_storage() {
    let item = DownloadItem::from_stored(3, stored("cancelled"));
    let back = item.to_stored();
    assert_eq!(back.name, "a.zip");
    assert_eq!(back.path, "C:\\Descargas\\a.zip");
    assert_eq!(back.received, 10);
    assert_eq!(back.total, Some(20));
    assert_eq!(back.status, "cancelled");
    assert_eq!(DownloadItem::from_stored(3, back).status, "cancelled");
}

#[test]
fn operation_states_have_status_words() {
    assert_eq!(operation_status(DownloadState::Completed, false), "completed");
    assert_eq!(operation_status(DownloadState::Interrupted, true), "cancelled");
    assert_eq!(operation_status(DownloadState::Interrupted, false), "interrupted");
    assert_eq!(operation_status(DownloadState::InProgress, true), "downloading");
    assert!(is_active("downloading") && is_active("cancelling") && !is_active("completed"));
}

#[test]
fn byte_counts_drop_unknown_values() {
    assert_eq!(byte_counts(-5, -1), (0, None));
    assert_eq!(byte_counts(100, 0), (100, Some(0)));
    assert_eq!(byte_counts(i64::MAX, i64::MAX), (i64::MAX as u64, Some(i64::MAX as u64)));
}

#[test]
fn progress_is_a_capped_percentage() {
    assert_eq!(progress_percent(50, Some(200)), Some(25));
    assert_eq!(progress_percent(999, Some(1000)), Some(99));
    assert_eq!(progress_percent(300, Some(200)), Some(100));
    assert_eq!(progress_percent(u64::MAX, Some(u64::MAX)), Some(1));
    assert_eq!(progress_percent(5, Some(0)), None);
    assert_eq!(progress_percent(5, None), None);
}

#[test]
fn downloads_without_a_file_name_are_named_descarga() {
    assert_eq!(download_name(Some("foto.png")), "foto.png");
    assert_eq!(download_name(Some("")), "Descarga");
    assert_eq!(download_name(None), "Descarga");
}
