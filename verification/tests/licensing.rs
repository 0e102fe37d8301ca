use base64::Engine;
use ed25519_dalek::{Signer, SigningKey};
use zhitiku_desktop::licensing::{
    ClockState, DEFAULT_GRACE_DAYS, DEFAULT_TRIAL_DAYS, DESKTOP_PROFESSIONAL_EDITION,
    DesktopLicenseClaims, EffectiveCapabilities, LICENSE_SCHEMA_VERSION, MILLIS_PER_DAY,
    PRODUCT_CODE, PRODUCTION_KEY_ID, SignedEnvelope, check_license_claims, decode_trusted_clock,
    device_id_for_public_key, license_overview, observe_clock, record_persisted, trial_overview,
    validate_paper_question_count, verify_license_envelope, MAX_LICENSE_BYTES, check_guarded_file,
};
use zhitiku_desktop::restore::valid_sha256;

fn claims(device_id: &str, expires_at_ms: i64) -> DesktopLicenseClaims {
    DesktopLicenseClaims {
        schema_version: LICENSE_SCHEMA_VERSION,
        license_id: "license-test".to_owned(),
        product: PRODUCT_CODE.to_owned(),
        edition: DESKTOP_PROFESSIONAL_EDITION.to_owned(),
        device_id: device_id.to_owned(),
        customer_name: "测试用户".to_owned(),
        issued_at_ms: expires_at_ms - MILLIS_PER_DAY,
        not_before_ms: expires_at_ms - MILLIS_PER_DAY,
        expires_at_ms,
        grace_days: DEFAULT_GRACE_DAYS,
    }
}

#[test]
fn basic_capabilities_keep_single_entry_and_limit_papers() {
    let capabilities = EffectiveCapabilities::basic();
    assert!(capabilities.can_edit_single_question);
    assert!(!capabilities.can_batch_import);
    assert_eq!(capabilities.max_questions_per_paper, Some(10));
    assert!(!capabilities.can_export_documents);
    assert!(!capabilities.can_print);
}

#[test]
fn default_trial_and_grace_periods_are_both_fifteen_days() {
    assert_eq!(DEFAULT_TRIAL_DAYS, 15);
    assert_eq!(DEFAULT_GRACE_DAYS, 15);
}

#[test]
fn trial_lifecycle_keeps_professional_features_through_grace() {
    let started_at_ms = 1_800_000_000_000;
    let expires_at_ms = started_at_ms + i64::from(DEFAULT_TRIAL_DAYS) * MILLIS_PER_DAY;
    let grace_ends_at_ms = expires_at_ms + i64::from(DEFAULT_GRACE_DAYS) * MILLIS_PER_DAY;

    let active = trial_overview("device", started_at_ms, expires_at_ms, false);
    assert_eq!(active.desktop.state, "active");
    assert_eq!(active.desktop.plan, "trial");
    assert!(active.capabilities.can_export_documents);
    assert_eq!(active.capabilities.max_questions_per_paper, None);

    let grace = trial_overview("device", started_at_ms, expires_at_ms + 1, false);
    assert_eq!(grace.desktop.state, "grace");
    assert_eq!(grace.desktop.grace_ends_at_ms, Some(grace_ends_at_ms));
    assert!(grace.capabilities.can_batch_import);

    let expired = trial_overview("device", started_at_ms, grace_ends_at_ms + 1, false);
    assert_eq!(expired.desktop.state, "basic");
    assert!(expired.capabilities.can_edit_single_question);
    assert!(!expired.capabilities.can_export_documents);
    assert_eq!(expired.capabilities.max_questions_per_paper, Some(10));
}

#[test]
fn license_lifecycle_keeps_professional_features_only_through_grace() {
    let expires_at_ms = 1_800_000_000_000;
    let license = claims("device-a", expires_at_ms);

    let active = license_overview("device-a", license.clone(), expires_at_ms, false);
    assert_eq!(active.desktop.state, "active");
    assert!(active.capabilities.can_export_documents);
    assert_eq!(active.capabilities.max_questions_per_paper, None);

    let grace = license_overview("device-a", license.clone(), expires_at_ms + MILLIS_PER_DAY, false);
    assert_eq!(grace.desktop.state, "grace");
    assert!(grace.capabilities.can_batch_import);
    assert_eq!(grace.desktop.message, "桌面专业授权已到期，当前处于 15 天宽限期；请及时续费。");

    let expired = license_overview(
        "device-a",
        license,
        expires_at_ms + (i64::from(DEFAULT_GRACE_DAYS) + 1) * MILLIS_PER_DAY,
        false,
    );
    assert_eq!(expired.desktop.state, "basic");
    assert!(expired.capabilities.can_edit_single_question);
    assert!(!expired.capabilities.can_export_documents);
    assert_eq!(expired.capabilities.max_questions_per_paper, Some(10));
}

#[test]
fn license_before_its_start_grants_nothing() {
    let expires_at_ms = 1_800_000_000_000;
    let license = claims("device-a", expires_at_ms);
    let early = license_overview("device-a", license, expires_at_ms - 2 * MILLIS_PER_DAY, true);
    assert_eq!(early.desktop.state, "invalid");
    assert_eq!(early.desktop.plan, "basic");
    assert!(early.desktop.message.ends_with("授权期限按本机已记录的较晚时间计算。"));
}

#[test]
fn tampered_license_signature_is_rejected() {
    let signing_key = SigningKey::from_bytes(&[7_u8; 32]);
    let payload = b"{\"licenseId\":\"a\"}".to_vec();
    let engine = base64::engine::general_purpose::STANDARD;
    let signature = signing_key.sign(&payload).to_bytes();
    let mut envelope = SignedEnvelope {
        schema_version: LICENSE_SCHEMA_VERSION,
        key_id: PRODUCTION_KEY_ID.to_owned(),
        payload_base64: engine.encode(&payload),
        signature_base64: engine.encode(signature),
    };
    let key = signing_key.verifying_key();
    assert_eq!(verify_license_envelope(&envelope, &key.to_bytes()).unwrap(), payload);

    let mut tampered = signature;
    tampered[10] ^= 1;
    envelope.signature_base64 = engine.encode(tampered);
    let error = verify_license_envelope(&envelope, &key.to_bytes()).unwrap_err();
    assert_eq!(error.code, "LICENSE_SIGNATURE_INVALID");

    envelope.key_id = "other".to_owned();
    assert_eq!(verify_license_envelope(&envelope, &key.to_bytes()).unwrap_err().code, "LICENSE_KEY_UNKNOWN");
}

#[test]
fn license_claims_are_checked_in_order() {
    let now = 1_800_000_000_000;
    let mut license = claims("device-a", now + MILLIS_PER_DAY);
    assert!(check_license_claims(&license, "device-a", now).is_ok());
    assert_eq!(
        check_license_claims(&license, "device-b", now).unwrap_err().code,
        "LICENSE_DEVICE_MISMATCH"
    );
    license.grace_days = 31;
    assert_eq!(
        check_license_claims(&license, "device-a", now).unwrap_err().code,
        "LICENSE_CLAIMS_INVALID"
    );
    license.grace_days = 15;
    license.product = "other".to_owned();
    assert_eq!(
        check_license_claims(&license, "device-a", now).unwrap_err().code,
        "LICENSE_PRODUCT_MISMATCH"
    );
}

#[test]
fn trusted_clock_never_moves_backwards() {
    let state = ClockState::default();
    let first = observe_clock(state, 10 * MILLIS_PER_DAY);
    assert!(first.persist);
    assert_eq!(first.state.highest_seen_ms, 10 * MILLIS_PER_DAY);
    let persisted = record_persisted(first.state);
    assert_eq!(persisted.last_persisted_ms, 10 * MILLIS_PER_DAY);

    let rolled_back = observe_clock(persisted, 5 * MILLIS_PER_DAY);
    assert_eq!(rolled_back.state.highest_seen_ms, 10 * MILLIS_PER_DAY);
    assert!(rolled_back.state.rollback_detected);
    assert!(!rolled_back.persist);

    let forward = observe_clock(rolled_back.state, 10 * MILLIS_PER_DAY + 60_000);
    assert!(forward.persist);
    assert!(forward.state.rollback_detected);
}

#[test]
fn paper_question_limit_applies_to_basic_mode_only() {
    let basic = EffectiveCapabilities::basic();
    assert!(validate_paper_question_count(&basic, 10).is_ok());
    let error = validate_paper_question_count(&basic, 11).unwrap_err();
    assert_eq!(error.code, "PAPER_QUESTION_LIMIT_EXCEEDED");
    assert!(error.message.contains("最多包含 10 道题"));
    let professional = EffectiveCapabilities::desktop_professional();
    assert!(validate_paper_question_count(&professional, 1000).is_ok());
}

#[test]
fn trusted_clock_record_must_be_positive_and_eight_bytes() {
    assert_eq!(decode_trusted_clock(&42i64.to_le_bytes()).unwrap(), 42);
    assert!(decode_trusted_clock(&(-5i64).to_le_bytes()).is_err());
    assert!(decode_trusted_clock(&[1, 2, 3]).is_err());
}

#[test]
fn device_ids_are_lowercase_sha256_text() {
    let key = SigningKey::from_bytes(&[3_u8; 32]).verifying_key();
    let device_id = device_id_for_public_key(&key);
    assert_eq!(device_id.len(), 64);
    assert!(valid_sha256(&device_id));
}

#[test]
fn licensing_files_must_be_regular_and_bounded() {

    assert!(check_guarded_file(true, 10, MAX_LICENSE_BYTES, "离线许可证").is_ok());
    let error = check_guarded_file(true, 0, MAX_LICENSE_BYTES, "离线许可证").unwrap_err();
    assert_eq!(error.code, "LICENSE_FILE_INVALID");
    assert_eq!(error.message, "离线许可证大小无效。");
    assert!(check_guarded_file(true, MAX_LICENSE_BYTES + 1, MAX_LICENSE_BYTES, "离线许可证").is_err());
    let error = check_guarded_file(false, 10, MAX_LICENSE_BYTES, "离线许可证").unwrap_err();
    assert_eq!(error.code, "LICENSE_PATH_INVALID");
}

#[test]
fn a_license_verifies_only_under_its_own_key() {
    let signing_key = SigningKey::from_bytes(&[7_u8; 32]);
    let other_key = SigningKey::from_bytes(&[9_u8; 32]).verifying_key();
    let payload = b"{\"licenseId\":\"b\"}".to_vec();
    let engine = base64::engine::general_purpose::STANDARD;
    let envelope = SignedEnvelope {
        schema_version: LICENSE_SCHEMA_VERSION,
        key_id: PRODUCTION_KEY_ID.to_owned(),
        payload_base64: engine.encode(&payload),
        signature_base64: engine.encode(signing_key.sign(&payload).to_bytes()),
    };
    let error = verify_license_envelope(&envelope, &other_key.to_bytes()).unwrap_err();
    assert_eq!(error.code, "LICENSE_SIGNATURE_INVALID");
    let mut short = envelope.clone();
    short.signature_base64 = engine.encode([0_u8; 10]);
    assert_eq!(verify_license_envelope(&short, &signing_key.verifying_key().to_bytes()).unwrap_err().code, "LICENSE_FILE_INVALID");
}
