//! Tests of fetching the network graph.
use ldk_sample::rapid_sync::RapidSyncError;

#[test]
fn test_rapid_sync_error_display() {
    let download_error = RapidSyncError::DownloadFailed("Connection timeout".to_string());
    assert_eq!(download_error.to_text(), "download failed: Connection timeout");

    let retry_error = RapidSyncError::RetryExhausted;
    assert_eq!(retry_error.to_text(), "retry attempts exhausted");
}
