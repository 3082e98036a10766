use tiphia_core::auth::BearerToken;

fn bearer_token(header: Option<&Vec<u8>>) -> Result<String, AppError> {
    BearerToken::from_authorization(header).map(|t| t.0)
}
use tiphia_core::error::AppError;
use tiphia_core::migration::{
    add_user_status_statement, column_exists_from_count, column_exists_query, core_migration_ids,
    migration_failure, pending_migrations, rollback_target, rollback_unsupported, DbBackend,
    MigrationStage,
};

fn ids(v: &[&str]) -> Vec<String> {
    v.iter().map(|s| s.to_string()).collect()
}

#[test]
fn core_migrations_apply_in_order() {
    assert_eq!(
        core_migration_ids(),
        vec!["core:0001:create-core-tables", "core:0002:add-user-status", "core:0003:create-post-revisions"]
    );
}

#[test]
fn pending_skips_applied() {
    let all = ids(&["a", "b", "c", "d"]);
    assert_eq!(pending_migrations(&all, &ids(&["b", "d"])), vec![0, 2]);
    assert_eq!(pending_migrations(&all, &ids(&[])), vec![0, 1, 2, 3]);
}

#[test]
fn pending_runs_a_repeated_id_once() {
    let all = ids(&["a", "b", "a", "c", "b"]);
    assert_eq!(pending_migrations(&all, &ids(&[])), vec![0, 1, 3]);
    assert_eq!(pending_migrations(&all, &ids(&["a"])), vec![1, 3]);
}

#[test]
fn rollback_finds_the_last_applied() {
    let all = ids(&["a", "b"]);
    assert!(matches!(rollback_target(&all, None), Ok(None)));
    assert!(matches!(rollback_target(&all, Some("b")), Ok(Some(1))));
    match rollback_target(&all, Some("z")) {
        Err(AppError::Config(m)) => {
            assert_eq!(m, "migration z is applied but not present in provided migration list")
        },
        other => panic!("unexpected {other:?}"),
    }
}

#[test]
fn failures_name_the_stage() {
    match migration_failure(MigrationStage::Commit, "a", "boom") {
        AppError::Config(m) => assert_eq!(m, "failed to commit migration a: boom"),
        other => panic!("unexpected {other:?}"),
    }
    match migration_failure(MigrationStage::Up, "a", "boom") {
        AppError::Config(m) => assert_eq!(m, "migration a failed: boom"),
        other => panic!("unexpected {other:?}"),
    }
    match rollback_unsupported("a") {
        AppError::Config(m) => assert_eq!(m, "migration a does not support rollback"),
        other => panic!("unexpected {other:?}"),
    }
}

#[test]
fn user_status_column_is_added_once() {
    assert_eq!(add_user_status_statement(DbBackend::Sqlite, true), None);
    assert_eq!(
        add_user_status_statement(DbBackend::MySql, false),
        Some("ALTER TABLE users ADD COLUMN status varchar(32) NOT NULL DEFAULT 'active'")
    );
    assert!(column_exists_query(DbBackend::Postgres).contains("$1"));
    assert!(column_exists_from_count(Some(1)));
    assert!(!column_exists_from_count(Some(0)));
    assert!(!column_exists_from_count(None));
}

#[test]
fn bearer_tokens_are_read_from_authorization() {
    assert_eq!(bearer_token(Some(&b"Bearer  abc.def ".to_vec())).unwrap(), "abc.def");
    assert!(matches!(bearer_token(None), Err(AppError::Unauthorized)));
    assert!(matches!(bearer_token(Some(&b"Basic abc".to_vec())), Err(AppError::Unauthorized)));
    assert!(matches!(bearer_token(Some(&b"Bearer    ".to_vec())), Err(AppError::Unauthorized)));
    assert!(matches!(bearer_token(Some(&vec![b'B', 0xff])), Err(AppError::Unauthorized)));
}
