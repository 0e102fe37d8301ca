use zhitiku_desktop::restore::{
    CommandError, RestoreCandidateSummary, RestorePlanFile, canonical_token,
    is_retryable_restore_file_lock, nonnegative_count, valid_sha256, validate_managed_path, validate_plan_identity,
};

#[test]
fn sha256_confirmation_is_lowercase_and_fixed_length() {
    assert!(valid_sha256(&"ab".repeat(32)));
    assert!(!valid_sha256(&"AB".repeat(32)));
    assert!(!valid_sha256("abcd"));
}

#[test]
fn windows_sharing_violations_are_retryable() {
    assert!(is_retryable_restore_file_lock(
        std::io::Error::from_raw_os_error(32).raw_os_error()
    ));
    assert!(is_retryable_restore_file_lock(
        std::io::Error::from_raw_os_error(33).raw_os_error()
    ));
    assert!(!is_retryable_restore_file_lock(
        std::io::Error::from_raw_os_error(5).raw_os_error()
    ));
}

#[test]
fn restore_token_requires_canonical_uuid() {
    assert!(canonical_token("018f4c1a-1234-7abc-8def-0123456789ab").is_ok());
    assert!(canonical_token("018F4C1A-1234-7ABC-8DEF-0123456789AB").is_err());
    assert!(canonical_token("../active.json").is_err());
}

fn plan(operation_id: &str) -> RestorePlanFile {
    RestorePlanFile {
        version: 1,
        operation_id: operation_id.to_owned(),
        restore_token: operation_id.to_owned(),
        created_at: 0,
        expires_at: 1,
        source_display_filename: "backup.zip".to_owned(),
        archive_sha256_hex: "ab".repeat(32),
        source_database_uuid: "db".to_owned(),
        incoming_summary: RestoreCandidateSummary {
            database_uuid: "db".to_owned(),
            database_schema_version: 20,
            question_count: 1,
            paper_count: 0,
            template_count: 0,
            resource_count: 0,
        },
        incoming_tree_sha256_hex: "cd".repeat(32),
    }
}

#[test]
fn plan_identity_must_match_the_operation() {
    assert!(validate_plan_identity(&plan("op"), "op").is_ok());
    match validate_plan_identity(&plan("op"), "other") {
        Err(CommandError::Failed { code, .. }) => assert_eq!(code, "RESTORE_PLAN_INVALID"),
        _ => panic!("mismatched plan must be refused"),
    }
    let mut old = plan("op");
    old.version = 2;
    assert!(validate_plan_identity(&old, "op").is_err());
}

#[test]
fn negative_counts_are_refused() {
    assert_eq!(nonnegative_count(7, "试题").unwrap(), 7);
    match nonnegative_count(-1, "试题") {
        Err(CommandError::Failed { code, message }) => {
            assert_eq!(code, "RESTORE_SUMMARY_INVALID");
            assert_eq!(message, "恢复候选中的试题数量无效。");
        }
        _ => panic!("negative count must be refused"),
    }
}

#[test]
fn managed_relative_paths_reject_parent_and_windows_separators() {
    let hash = vec![0; 32];
    assert!(validate_managed_path("资源", "../escape.png", &hash).is_err());
    assert!(validate_managed_path("资源", "nested\\escape.png", &hash).is_err());
    assert!(validate_managed_path("资源", "/absolute.png", &hash).is_err());
}

#[test]
fn managed_paths_accept_plain_names_and_check_the_hash_first() {
    let hash = vec![0; 32];
    assert!(validate_managed_path("资源", "images/a.png", &hash).is_ok());
    assert!(validate_managed_path("资源", "images//./a.png", &hash).is_ok());
    assert!(validate_managed_path("资源", "./a.png", &hash).is_err());
    assert!(validate_managed_path("资源", "", &hash).is_err());
    assert!(validate_managed_path("资源", "a/../b.png", &hash).is_err());
    match validate_managed_path("模板", "../escape.png", &[1, 2]) {
        Err(CommandError::Failed { code, message }) => {
            assert_eq!(code, "RESTORE_FILE_HASH_INVALID");
            assert_eq!(message, "模板记录的 SHA-256 长度无效。");
        },
        _ => panic!("a short hash is refused first"),
    }
    match validate_managed_path("资源", "../escape.png", &hash) {
        Err(CommandError::Failed { code, message }) => {
            assert_eq!(code, "RESTORE_FILE_PATH_INVALID");
            assert_eq!(message, "资源记录了不安全的相对路径。");
        },
        _ => panic!("an escaping path is refused"),
    }
}
