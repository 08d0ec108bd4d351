use limedl_core::database::{compat_schema_version, latest_schema_version, pending_migrations};
use limedl_core::error::DownloadError;

#[test]
fn database_empty_migrations_returns_err() {
    let empty: Vec<u32> = vec![];
    let result = latest_schema_version(&empty);
    assert!(result.is_err(), "expected Err for empty migrations slice");
    let err = result.unwrap_err();
    assert_eq!(err.kind(), "database_init", "unexpected error kind: {}", err.kind());
    assert!(
        err.message().contains("database initialization error"),
        "unexpected error message: {}",
        err.message()
    );
}

#[test]
fn tests_empty_migrations_returns_err() {
    let result = latest_schema_version(&Vec::new());
    assert_eq!(
        result,
        Err(DownloadError::DatabaseInit("no migrations defined".to_string()))
    );
}

// ── own scenarios ──────────────────────────────────────

#[test]
fn latest_version_is_last_migration() {
    assert_eq!(latest_schema_version(&vec![1, 2, 3, 4, 5]), Ok(5));
}

#[test]
fn compat_version_detects_backfilled_columns() {
    assert_eq!(compat_schema_version(0, false, false), 0);
    assert_eq!(compat_schema_version(0, true, false), 2);
    assert_eq!(compat_schema_version(1, true, true), 3);
    assert_eq!(compat_schema_version(0, false, true), 3);
    // recorded versions from 4 on are trusted
    assert_eq!(compat_schema_version(4, true, true), 4);
    assert_eq!(compat_schema_version(5, false, false), 5);
}

#[test]
fn pending_migrations_are_the_newer_ones_in_order() {
    let versions = vec![1, 2, 3, 4, 5];
    assert_eq!(pending_migrations(&versions, 0), vec![0, 1, 2, 3, 4]);
    assert_eq!(pending_migrations(&versions, 2), vec![2, 3, 4]);
    assert_eq!(pending_migrations(&versions, 5), Vec::<usize>::new());
}
