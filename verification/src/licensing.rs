//! Licensing decisions: what a trial or an offline license entitles the
//! device to at a given trusted time, the checks a license must pass, and the
//! trusted clock that refuses to move backwards.
use vstd::prelude::*;
use crate::restore::{is_lower_hex_digit, is_sha256_text};
use crate::text::{decimal, push_decimal, same_text, trim_white_space, trimmed};

verus! {

pub const LICENSE_SCHEMA_VERSION: u32 = 1;
pub const ACTIVATION_REQUEST_SCHEMA_VERSION: u32 = 1;
pub const PRODUCT_CODE: &'static str = "tk-teacher-question-bank";
pub const DESKTOP_PROFESSIONAL_EDITION: &'static str = "desktop_professional";
pub const PRODUCTION_KEY_ID: &'static str = "desktop-prod-2026-01";
pub const BASIC_PAPER_QUESTION_LIMIT: u32 = 10;
pub const DEFAULT_TRIAL_DAYS: u16 = 15;
pub const DEFAULT_GRACE_DAYS: u16 = 15;
/// Milliseconds in one day.
pub const MILLIS_PER_DAY: i64 = 86400000;
/// How far the system clock may lag behind the trusted clock unnoticed.
pub const CLOCK_TOLERANCE_MS: i64 = 86400000;
/// How far the trusted clock advances between two persisted values.
pub const CLOCK_PERSIST_INTERVAL_MS: i64 = 60000;
/// Longest grace period a license may grant, in days.
pub const MAX_GRACE_DAYS: u16 = 30;
/// How far in the future a license may start and still be imported, in days.
pub const MAX_NOT_BEFORE_LEAD_DAYS: i64 = 30;

/// A signed license file: the claims in base64 and their Ed25519 signature.
#[derive(Clone, Debug)]
pub struct SignedEnvelope {
    pub schema_version: u32,
    pub key_id: String,
    pub payload_base64: String,
    pub signature_base64: String,
}

/// What a desktop license grants, and to which device, for which period.
#[derive(Clone, Debug)]
pub struct DesktopLicenseClaims {
    pub schema_version: u32,
    pub license_id: String,
    pub product: String,
    pub edition: String,
    pub device_id: String,
    pub customer_name: String,
    pub issued_at_ms: i64,
    pub not_before_ms: i64,
    pub expires_at_ms: i64,
    pub grace_days: u16,
}

/// The content of an activation request.
#[derive(Clone, Debug)]
pub struct ActivationRequestPayload {
    pub schema_version: u32,
    pub product: String,
    pub device_id: String,
    pub device_public_key_base64: String,
    pub app_version: String,
    pub generated_at_ms: i64,
    pub nonce_base64: String,
}

/// An activation request signed by the device key.
#[derive(Clone, Debug)]
pub struct ActivationRequestEnvelope {
    pub schema_version: u32,
    pub payload_base64: String,
    pub signature_base64: String,
}

/// The features available to the user.
#[derive(Clone, Copy, Debug, PartialEq, Eq, Structural)]
pub struct EffectiveCapabilities {
    pub can_edit_single_question: bool,
    pub can_batch_import: bool,
    pub max_questions_per_paper: Option<u32>,
    pub can_export_documents: bool,
    pub can_print: bool,
    pub can_use_cloud_sync: bool,
    pub can_use_web_app: bool,
}

/// The capabilities of the basic desktop mode.
pub open spec fn basic_capabilities() -> EffectiveCapabilities {
    EffectiveCapabilities {
        can_edit_single_question: true,
        can_batch_import: false,
        max_questions_per_paper: Some(BASIC_PAPER_QUESTION_LIMIT),
        can_export_documents: false,
        can_print: false,
        can_use_cloud_sync: false,
        can_use_web_app: false,
    }
}

/// The capabilities of the professional desktop edition.
pub open spec fn professional_capabilities() -> EffectiveCapabilities {
    EffectiveCapabilities {
        can_edit_single_question: true,
        can_batch_import: true,
        max_questions_per_paper: None,
        can_export_documents: true,
        can_print: true,
        can_use_cloud_sync: false,
        can_use_web_app: false,
    }
}

impl EffectiveCapabilities {
    /// Single-question editing only, with at most ten questions per paper.
    pub fn basic() -> (capabilities: Self)
        ensures
            capabilities == basic_capabilities(),
    {
        EffectiveCapabilities {
            can_edit_single_question: true,
            can_batch_import: false,
            max_questions_per_paper: Some(BASIC_PAPER_QUESTION_LIMIT),
            can_export_documents: false,
            can_print: false,
            can_use_cloud_sync: false,
            can_use_web_app: false,
        }
    }

    /// Every desktop feature, without a paper size limit; no cloud features.
    pub fn desktop_professional() -> (capabilities: Self)
        ensures
            capabilities == professional_capabilities(),
    {
        EffectiveCapabilities {
            can_edit_single_question: true,
            can_batch_import: true,
            max_questions_per_paper: None,
            can_export_documents: true,
            can_print: true,
            can_use_cloud_sync: false,
            can_use_web_app: false,
        }
    }
}

/// The state of the desktop entitlement as shown to the user.
#[derive(Clone, Debug, PartialEq, Eq)]
pub struct DesktopLicenseStatus {
    pub state: String,
    pub plan: String,
    pub license_id: Option<String>,
    pub customer_name: Option<String>,
    pub issued_at_ms: Option<i64>,
    pub expires_at_ms: Option<i64>,
    pub grace_ends_at_ms: Option<i64>,
    pub message: String,
}

/// The state of the cloud subscription as shown to the user.
#[derive(Clone, Debug, PartialEq, Eq)]
pub struct CloudSubscriptionStatus {
    pub state: String,
    pub sync_enabled: bool,
    pub web_app_enabled: bool,
    pub expires_at_ms: Option<i64>,
    pub message: String,
}

/// Everything the user is shown about licensing.
#[derive(Clone, Debug, PartialEq, Eq)]
pub struct LicenseOverview {
    pub device_id: String,
    pub desktop: DesktopLicenseStatus,
    pub cloud: CloudSubscriptionStatus,
    pub capabilities: EffectiveCapabilities,
}

/// A license-related file that was written.
#[derive(Clone, Debug, PartialEq, Eq)]
pub struct LicenseFileResult {
    pub path: String,
    pub filename: String,
    pub bytes: u64,
}

/// A licensing failure: a stable code and a message for the user.
#[derive(Clone, Debug)]
pub struct LicenseError {
    pub code: &'static str,
    pub message: String,
}

impl LicenseError {
    /// An error with `code` and `message`.
    pub fn new(code: &'static str, message: String) -> (error: Self)
        ensures
            error.code == code,
            error.message == message,
    {
        LicenseError { code, message }
    }

    /// A failure to read or write licensing state.
    pub fn storage(message: String) -> (error: Self)
        ensures
            error.code@ == "LICENSE_STORAGE_FAILED"@,
            error.message == message,
    {
        Self::new("LICENSE_STORAGE_FAILED", message)
    }
}

/// `value` clamped to the range of `i64`.
pub open spec fn clamp_i64(value: int) -> int {
    if value > i64::MAX {
        i64::MAX as int
    } else if value < i64::MIN {
        i64::MIN as int
    } else {
        value
    }
}

/// `a + b`, saturating at the bounds of `i64`.
pub fn saturating_add_i64(a: i64, b: i64) -> (sum: i64)
    ensures
        sum == clamp_i64(a + b),
{
    match a.checked_add(b) {
        Some(sum) => sum,
        None => if b > 0 {
            i64::MAX
        } else {
            i64::MIN
        },
    }
}

/// How an entitlement stands at a given time.
#[derive(Clone, Copy, Debug, PartialEq, Eq, Structural)]
pub enum EntitlementPhase {
    /// A license whose period has not started.
    NotYetValid,
    Active,
    Grace,
    Expired,
}

/// The phase of an entitlement valid from `not_before` through `expires`,
/// followed by a grace period that ends at `grace_end`.
pub open spec fn phase_at(now: int, not_before: int, expires: int, grace_end: int) -> EntitlementPhase {
    if now < not_before {
        EntitlementPhase::NotYetValid
    } else if now <= expires {
        EntitlementPhase::Active
    } else if now <= grace_end {
        EntitlementPhase::Grace
    } else {
        EntitlementPhase::Expired
    }
}

/// Whether a phase grants the professional features.
pub open spec fn is_professional(phase: EntitlementPhase) -> bool {
    phase == EntitlementPhase::Active || phase == EntitlementPhase::Grace
}

/// The state name shown for a phase.
pub open spec fn phase_state(phase: EntitlementPhase) -> Seq<char> {
    match phase {
        EntitlementPhase::NotYetValid => "invalid"@,
        EntitlementPhase::Active => "active"@,
        EntitlementPhase::Grace => "grace"@,
        EntitlementPhase::Expired => "basic"@,
    }
}

/// The capabilities granted in a phase.
pub open spec fn phase_capabilities(phase: EntitlementPhase) -> EffectiveCapabilities {
    if is_professional(phase) {
        professional_capabilities()
    } else {
        basic_capabilities()
    }
}

/// When a trial started at `started_at_ms` ends.
pub open spec fn trial_expires_at(started_at_ms: int) -> int {
    clamp_i64(started_at_ms + DEFAULT_TRIAL_DAYS * MILLIS_PER_DAY)
}

/// When the grace period after a trial started at `started_at_ms` ends.
pub open spec fn trial_grace_ends_at(started_at_ms: int) -> int {
    clamp_i64(trial_expires_at(started_at_ms) + DEFAULT_GRACE_DAYS * MILLIS_PER_DAY)
}

/// When the grace period of a license ends.
pub open spec fn license_grace_ends_at(expires_at_ms: int, grace_days: u16) -> int {
    clamp_i64(expires_at_ms + grace_days * MILLIS_PER_DAY)
}

/// The phase of a trial started at `started_at_ms`, at time `now`.
pub open spec fn trial_phase(started_at_ms: int, now: int) -> EntitlementPhase {
    phase_at(now, i64::MIN as int, trial_expires_at(started_at_ms), trial_grace_ends_at(started_at_ms))
}

/// The phase of a license at time `now`.
pub open spec fn license_phase(claims: DesktopLicenseClaims, now: int) -> EntitlementPhase {
    phase_at(
        now,
        claims.not_before_ms as int,
        claims.expires_at_ms as int,
        license_grace_ends_at(claims.expires_at_ms as int, claims.grace_days),
    )
}

/// The sentence appended to a status message after the clock was seen moving back.
pub open spec fn rollback_note(trial: bool) -> Seq<char> {
    if trial {
        " 检测到系统时间曾向过去调整，试用期限按本机已记录的较晚时间计算。"@
    } else {
        " 检测到系统时间曾向过去调整，授权期限按本机已记录的较晚时间计算。"@
    }
}

/// The status message of a trial in `phase`.
pub open spec fn trial_message(phase: EntitlementPhase) -> Seq<char> {
    match phase {
        EntitlementPhase::Active => "正在免费试用桌面专业版，试用期为 15 天。"@,
        EntitlementPhase::Grace => "免费试用已到期，当前处于 15 天宽限期；请及时购买授权。"@,
        _ => "免费试用及宽限期已结束，当前使用基础桌面模式。"@,
    }
}

/// The status message of a license in `phase`.
pub open spec fn license_message(phase: EntitlementPhase, grace_days: u16) -> Seq<char> {
    match phase {
        EntitlementPhase::NotYetValid => "桌面许可证尚未到生效时间，请检查系统日期或联系授权方。"@,
        EntitlementPhase::Active => "桌面专业授权有效。"@,
        EntitlementPhase::Grace => "桌面专业授权已到期，当前处于 "@ + decimal(grace_days as nat)
            + " 天宽限期；请及时续费。"@,
        EntitlementPhase::Expired => "桌面专业授权及宽限期已结束，当前使用基础桌面模式。"@,
    }
}

/// `message`, followed by the rollback note when the clock moved back.
pub open spec fn with_rollback(message: Seq<char>, rollback_detected: bool, trial: bool) -> Seq<char> {
    if rollback_detected {
        message + rollback_note(trial)
    } else {
        message
    }
}

/// The characters of an optional string.
pub open spec fn opt_chars(value: Option<String>) -> Option<Seq<char>> {
    match value {
        Some(text) => Some(text@),
        None => None,
    }
}

/// The cloud status while cloud features are not available.
pub open spec fn is_cloud_unavailable(cloud: CloudSubscriptionStatus) -> bool {
    &&& cloud.state@ == "notConfigured"@
    &&& !cloud.sync_enabled
    &&& !cloud.web_app_enabled
    &&& cloud.expires_at_ms.is_none()
    &&& cloud.message@ == "云同步和网页版尚未接入；其授权与桌面许可证相互独立。"@
}

/// The cloud status while cloud features are not available.
pub fn cloud_unavailable() -> (cloud: CloudSubscriptionStatus)
    ensures
        is_cloud_unavailable(cloud),
{
    CloudSubscriptionStatus {
        state: "notConfigured".to_owned(),
        sync_enabled: false,
        web_app_enabled: false,
        expires_at_ms: None,
        message: "云同步和网页版尚未接入；其授权与桌面许可证相互独立。".to_owned(),
    }
}

/// The overview of the basic mode, with `message` and `state` and no device id.
pub fn basic_overview(message: &str, state: &str) -> (overview: LicenseOverview)
    ensures
        overview.device_id@ == Seq::<char>::empty(),
        overview.desktop.state@ == state@,
        overview.desktop.plan@ == "basic"@,
        overview.desktop.license_id.is_none(),
        overview.desktop.customer_name.is_none(),
        overview.desktop.issued_at_ms.is_none(),
        overview.desktop.expires_at_ms.is_none(),
        overview.desktop.grace_ends_at_ms.is_none(),
        overview.desktop.message@ == message@,
        is_cloud_unavailable(overview.cloud),
        overview.capabilities == basic_capabilities(),
{
    LicenseOverview {
        device_id: String::new(),
        desktop: DesktopLicenseStatus {
            state: state.to_owned(),
            plan: "basic".to_owned(),
            license_id: None,
            customer_name: None,
            issued_at_ms: None,
            expires_at_ms: None,
            grace_ends_at_ms: None,
            message: message.to_owned(),
        },
        cloud: cloud_unavailable(),
        capabilities: EffectiveCapabilities::basic(),
    }
}

/// The days `days` in milliseconds.
fn days_in_millis(days: u16) -> (millis: i64)
    ensures
        millis == days * MILLIS_PER_DAY,
{
    (days as i64) * MILLIS_PER_DAY
}

/// The phase at `now` of an entitlement with the given bounds.
fn phase_of(now: i64, not_before: i64, expires: i64, grace_end: i64) -> (phase: EntitlementPhase)
    ensures
        phase == phase_at(now as int, not_before as int, expires as int, grace_end as int),
{
    if now < not_before {
        EntitlementPhase::NotYetValid
    } else if now <= expires {
        EntitlementPhase::Active
    } else if now <= grace_end {
        EntitlementPhase::Grace
    } else {
        EntitlementPhase::Expired
    }
}

/// The state name shown for `phase`.
fn phase_state_text(phase: EntitlementPhase) -> (state: &'static str)
    ensures
        state@ == phase_state(phase),
{
    match phase {
        EntitlementPhase::NotYetValid => "invalid",
        EntitlementPhase::Active => "active",
        EntitlementPhase::Grace => "grace",
        EntitlementPhase::Expired => "basic",
    }
}

/// The capabilities granted in `phase`.
fn capabilities_for(phase: EntitlementPhase) -> (capabilities: EffectiveCapabilities)
    ensures
        capabilities == phase_capabilities(phase),
{
    if phase == EntitlementPhase::Active || phase == EntitlementPhase::Grace {
        EffectiveCapabilities::desktop_professional()
    } else {
        EffectiveCapabilities::basic()
    }
}

/// `message` followed by the rollback note when the clock moved back.
fn append_rollback_note(message: String, rollback_detected: bool, trial: bool) -> (text: String)
    ensures
        text@ == with_rollback(message@, rollback_detected, trial),
{
    if rollback_detected {
        let mut text = message;
        if trial {
            text.append(" 检测到系统时间曾向过去调整，试用期限按本机已记录的较晚时间计算。");
        } else {
            text.append(" 检测到系统时间曾向过去调整，授权期限按本机已记录的较晚时间计算。");
        }
        text
    } else {
        message
    }
}

/// The overview shown for a trial.
pub open spec fn is_trial_overview(
    overview: LicenseOverview,
    device_id: Seq<char>,
    started_at_ms: i64,
    now: i64,
    rollback_detected: bool,
) -> bool {
    let phase = trial_phase(started_at_ms as int, now as int);
    &&& overview.device_id@ == device_id
    &&& overview.desktop.state@ == phase_state(phase)
    &&& overview.desktop.plan@ == (if is_professional(phase) { "trial"@ } else { "basic"@ })
    &&& overview.desktop.license_id.is_none()
    &&& opt_chars(overview.desktop.customer_name) == Some("免费试用"@)
    &&& overview.desktop.issued_at_ms == Some(started_at_ms)
    &&& overview.desktop.expires_at_ms == Some(trial_expires_at(started_at_ms as int) as i64)
    &&& overview.desktop.grace_ends_at_ms == Some(trial_grace_ends_at(started_at_ms as int) as i64)
    &&& overview.desktop.message@ == with_rollback(trial_message(phase), rollback_detected, true)
    &&& is_cloud_unavailable(overview.cloud)
    &&& overview.capabilities == phase_capabilities(phase)
}

/// What a trial started at `started_at_ms` grants at trusted time `now`.
pub fn trial_overview(device_id: &str, started_at_ms: i64, now: i64, rollback_detected: bool) -> (overview:
    LicenseOverview)
    ensures
        is_trial_overview(overview, device_id@, started_at_ms, now, rollback_detected),
{
    let expires_at_ms = saturating_add_i64(started_at_ms, days_in_millis(DEFAULT_TRIAL_DAYS));
    let grace_ends_at_ms = saturating_add_i64(expires_at_ms, days_in_millis(DEFAULT_GRACE_DAYS));
    let phase = phase_of(now, i64::MIN, expires_at_ms, grace_ends_at_ms);
    let (plan, message) = match phase {
        EntitlementPhase::Active => ("trial", "正在免费试用桌面专业版，试用期为 15 天。"),
        EntitlementPhase::Grace => ("trial", "免费试用已到期，当前处于 15 天宽限期；请及时购买授权。"),
        _ => ("basic", "免费试用及宽限期已结束，当前使用基础桌面模式。"),
    };
    LicenseOverview {
        device_id: device_id.to_owned(),
        desktop: DesktopLicenseStatus {
            state: phase_state_text(phase).to_owned(),
            plan: plan.to_owned(),
            license_id: None,
            customer_name: Some("免费试用".to_owned()),
            issued_at_ms: Some(started_at_ms),
            expires_at_ms: Some(expires_at_ms),
            grace_ends_at_ms: Some(grace_ends_at_ms),
            message: append_rollback_note(message.to_owned(), rollback_detected, true),
        },
        cloud: cloud_unavailable(),
        capabilities: capabilities_for(phase),
    }
}

/// The overview shown for a verified license.
pub open spec fn is_license_overview(
    overview: LicenseOverview,
    device_id: Seq<char>,
    claims: DesktopLicenseClaims,
    now: i64,
    rollback_detected: bool,
) -> bool {
    let phase = license_phase(claims, now as int);
    &&& overview.device_id@ == device_id
    &&& overview.desktop.state@ == phase_state(phase)
    &&& overview.desktop.plan@ == (if is_professional(phase) { "professional"@ } else { "basic"@ })
    &&& opt_chars(overview.desktop.license_id) == Some(claims.license_id@)
    &&& opt_chars(overview.desktop.customer_name) == Some(claims.customer_name@)
    &&& overview.desktop.issued_at_ms == Some(claims.issued_at_ms)
    &&& overview.desktop.expires_at_ms == Some(claims.expires_at_ms)
    &&& overview.desktop.grace_ends_at_ms == Some(
        license_grace_ends_at(claims.expires_at_ms as int, claims.grace_days) as i64,
    )
    &&& overview.desktop.message@ == with_rollback(
        license_message(phase, claims.grace_days),
        rollback_detected,
        false,
    )
    &&& is_cloud_unavailable(overview.cloud)
    &&& overview.capabilities == phase_capabilities(phase)
}

/// What a verified license grants at trusted time `now`.
pub fn license_overview(
    device_id: &str,
    claims: DesktopLicenseClaims,
    now: i64,
    rollback_detected: bool,
) -> (overview: LicenseOverview)
    ensures
        is_license_overview(overview, device_id@, claims, now, rollback_detected),
{
    let grace_ends_at_ms = saturating_add_i64(claims.expires_at_ms, days_in_millis(claims.grace_days));
    let phase = phase_of(now, claims.not_before_ms, claims.expires_at_ms, grace_ends_at_ms);
    let message = match phase {
        EntitlementPhase::NotYetValid => "桌面许可证尚未到生效时间，请检查系统日期或联系授权方。".to_owned(),
        EntitlementPhase::Active => "桌面专业授权有效。".to_owned(),
        EntitlementPhase::Grace => {
            let mut text = "桌面专业授权已到期，当前处于 ".to_owned();
            push_decimal(&mut text, claims.grace_days as u64);
            text.append(" 天宽限期；请及时续费。");
            text
        },
        EntitlementPhase::Expired => "桌面专业授权及宽限期已结束，当前使用基础桌面模式。".to_owned(),
    };
    let professional = phase == EntitlementPhase::Active || phase == EntitlementPhase::Grace;
    LicenseOverview {
        device_id: device_id.to_owned(),
        desktop: DesktopLicenseStatus {
            state: phase_state_text(phase).to_owned(),
            plan: if professional { "professional".to_owned() } else { "basic".to_owned() },
            license_id: Some(claims.license_id),
            customer_name: Some(claims.customer_name),
            issued_at_ms: Some(claims.issued_at_ms),
            expires_at_ms: Some(claims.expires_at_ms),
            grace_ends_at_ms: Some(grace_ends_at_ms),
            message: append_rollback_note(message, rollback_detected, false),
        },
        cloud: cloud_unavailable(),
        capabilities: capabilities_for(phase),
    }
}

/// The error for a license whose product or edition does not match.
pub open spec fn product_mismatch(error: LicenseError) -> bool {
    error.code@ == "LICENSE_PRODUCT_MISMATCH"@ && error.message@ == "该许可证不属于当前桌面专业版产品。"@
}

/// The checks a decoded license must pass on this device at trusted time `now`,
/// in the order they are made; `None` when all pass, else the failing code.
pub open spec fn claims_failure(claims: DesktopLicenseClaims, expected_device_id: Seq<char>, now: i64) -> Option<
    Seq<char>,
> {
    if claims.schema_version != LICENSE_SCHEMA_VERSION || claims.product@ != PRODUCT_CODE@
        || claims.edition@ != DESKTOP_PROFESSIONAL_EDITION@ {
        Some("LICENSE_PRODUCT_MISMATCH"@)
    } else if claims.device_id@ != expected_device_id {
        Some("LICENSE_DEVICE_MISMATCH"@)
    } else if claims.issued_at_ms <= 0 || claims.not_before_ms <= 0 || claims.expires_at_ms
        <= claims.not_before_ms || claims.issued_at_ms > claims.expires_at_ms || claims.grace_days
        > MAX_GRACE_DAYS {
        Some("LICENSE_CLAIMS_INVALID"@)
    } else if claims.not_before_ms > clamp_i64(now + MAX_NOT_BEFORE_LEAD_DAYS * MILLIS_PER_DAY) {
        Some("LICENSE_NOT_YET_VALID"@)
    } else {
        None
    }
}

/// The message that goes with a claims failure code.
pub open spec fn claims_failure_message(code: Seq<char>) -> Seq<char> {
    if code == "LICENSE_PRODUCT_MISMATCH"@ {
        "该许可证不属于当前桌面专业版产品。"@
    } else if code == "LICENSE_DEVICE_MISMATCH"@ {
        "该许可证绑定的是另一台电脑，请在本机重新生成授权申请。"@
    } else if code == "LICENSE_CLAIMS_INVALID"@ {
        "离线许可证中的时间或宽限期设置无效。"@
    } else {
        "许可证生效时间明显晚于当前系统时间，请检查日期。"@
    }
}

/// Checks decoded license claims against this device and the trusted time.
pub fn check_license_claims(claims: &DesktopLicenseClaims, expected_device_id: &str, now: i64) -> (result:
    Result<(), LicenseError>)
    ensures
        match claims_failure(*claims, expected_device_id@, now) {
            None => result is Ok,
            Some(code) => result matches Err(e) && e.code@ == code && e.message@
                == claims_failure_message(code),
        },
{
    proof {
        reveal_strlit("LICENSE_PRODUCT_MISMATCH");
        reveal_strlit("LICENSE_DEVICE_MISMATCH");
        reveal_strlit("LICENSE_CLAIMS_INVALID");
        reveal_strlit("LICENSE_NOT_YET_VALID");
    }
    if claims.schema_version != LICENSE_SCHEMA_VERSION || !same_text(
        claims.product.as_str(),
        PRODUCT_CODE,
    ) || !same_text(claims.edition.as_str(), DESKTOP_PROFESSIONAL_EDITION) {
        return Err(
            LicenseError::new(
                "LICENSE_PRODUCT_MISMATCH",
                "该许可证不属于当前桌面专业版产品。".to_owned(),
            ),
        );
    }
    if !same_text(claims.device_id.as_str(), expected_device_id) {
        return Err(
            LicenseError::new(
                "LICENSE_DEVICE_MISMATCH",
                "该许可证绑定的是另一台电脑，请在本机重新生成授权申请。".to_owned(),
            ),
        );
    }
    if claims.issued_at_ms <= 0 || claims.not_before_ms <= 0 || claims.expires_at_ms
        <= claims.not_before_ms || claims.issued_at_ms > claims.expires_at_ms || claims.grace_days
        > MAX_GRACE_DAYS {
        return Err(
            LicenseError::new(
                "LICENSE_CLAIMS_INVALID",
                "离线许可证中的时间或宽限期设置无效。".to_owned(),
            ),
        );
    }
    let latest_start = saturating_add_i64(now, MAX_NOT_BEFORE_LEAD_DAYS * MILLIS_PER_DAY);
    if claims.not_before_ms > latest_start {
        return Err(
            LicenseError::new(
                "LICENSE_NOT_YET_VALID",
                "许可证生效时间明显晚于当前系统时间，请检查日期。".to_owned(),
            ),
        );
    }
    Ok(())
}

/// The checks a signed license file's envelope must pass before its
/// signature is checked; `None` when both pass.
pub open spec fn envelope_failure(envelope: SignedEnvelope) -> Option<(Seq<char>, Seq<char>)> {
    if envelope.schema_version != LICENSE_SCHEMA_VERSION {
        Some(("LICENSE_SCHEMA_UNSUPPORTED"@, "离线许可证版本不受当前软件支持。"@))
    } else if envelope.key_id@ != PRODUCTION_KEY_ID@ {
        Some(("LICENSE_KEY_UNKNOWN"@, "离线许可证使用了未知的签发密钥。"@))
    } else {
        None
    }
}

/// Checks the schema version and signing key of a license envelope.
pub fn check_license_envelope(envelope: &SignedEnvelope) -> (result: Result<(), LicenseError>)
    ensures
        match envelope_failure(*envelope) {
            None => result is Ok,
            Some((code, message)) => result matches Err(e) && e.code@ == code && e.message@ == message,
        },
{
    if envelope.schema_version != LICENSE_SCHEMA_VERSION {
        return Err(
            LicenseError::new(
                "LICENSE_SCHEMA_UNSUPPORTED",
                "离线许可证版本不受当前软件支持。".to_owned(),
            ),
        );
    }
    if !same_text(envelope.key_id.as_str(), PRODUCTION_KEY_ID) {
        return Err(
            LicenseError::new(
                "LICENSE_KEY_UNKNOWN",
                "离线许可证使用了未知的签发密钥。".to_owned(),
            ),
        );
    }
    Ok(())
}

/// Whether a stored trial record belongs to this device and starts at a
/// plausible trusted time.
pub open spec fn trial_record_valid(
    schema_version: u32,
    device_id: Seq<char>,
    started_at_ms: i64,
    expected_device_id: Seq<char>,
    now: i64,
) -> bool {
    schema_version == 1 && device_id == expected_device_id && started_at_ms > 0 && started_at_ms
        <= clamp_i64(now + CLOCK_TOLERANCE_MS)
}

/// Checks a stored trial record, giving its start time when it is valid.
pub fn check_trial_record(
    schema_version: u32,
    device_id: &str,
    started_at_ms: i64,
    expected_device_id: &str,
    now: i64,
) -> (result: Result<i64, LicenseError>)
    ensures
        trial_record_valid(schema_version, device_id@, started_at_ms, expected_device_id@, now)
            ==> result == Ok::<i64, LicenseError>(started_at_ms),
        !trial_record_valid(schema_version, device_id@, started_at_ms, expected_device_id@, now)
            ==> (result matches Err(e) && e.code@ == "LICENSE_STORAGE_FAILED"@ && e.message@
            == "本机免费试用记录与当前设备或授权时间不匹配。"@),
{
    if schema_version != 1 || !same_text(device_id, expected_device_id) || started_at_ms <= 0
        || started_at_ms > saturating_add_i64(now, CLOCK_TOLERANCE_MS) {
        return Err(
            LicenseError::storage("本机免费试用记录与当前设备或授权时间不匹配。".to_owned()),
        );
    }
    Ok(started_at_ms)
}

/// The little-endian value of eight bytes.
pub open spec fn le_i64(bytes: Seq<u8>) -> int {
    let unsigned = bytes[0] as int + 256 * (bytes[1] as int + 256 * (bytes[2] as int + 256 * (
    bytes[3] as int + 256 * (bytes[4] as int + 256 * (bytes[5] as int + 256 * (bytes[6] as int
        + 256 * (bytes[7] as int)))))));
    if unsigned >= 0x8000_0000_0000_0000 {
        unsigned - 0x1_0000_0000_0000_0000
    } else {
        unsigned
    }
}

/// Decodes a persisted trusted-clock value: eight little-endian bytes of a
/// positive millisecond count.
pub fn decode_trusted_clock(bytes: &[u8]) -> (result: Result<i64, LicenseError>)
    ensures
        bytes@.len() != 8 ==> (result matches Err(e) && e.code@ == "LICENSE_STORAGE_FAILED"@
            && e.message@ == "本机授权时间记录无效，无法安全判断许可证期限。"@),
        bytes@.len() == 8 && le_i64(bytes@) <= 0 ==> (result matches Err(e) && e.code@
            == "LICENSE_STORAGE_FAILED"@ && e.message@ == "本机授权时间记录无效。"@),
        bytes@.len() == 8 && le_i64(bytes@) > 0 ==> result == Ok::<i64, LicenseError>(
            le_i64(bytes@) as i64,
        ),
{
    if bytes.len() != 8 {
        return Err(
            LicenseError::storage("本机授权时间记录无效，无法安全判断许可证期限。".to_owned()),
        );
    }
    let mut unsigned: u64 = 0;
    let mut i: usize = 8;
    while i > 0
        invariant
            0 <= i <= 8,
            bytes@.len() == 8,
            unsigned as int == le_tail(bytes@, i as int),
        decreases i,
    {
        i = i - 1;
        proof {
            lemma_le_tail_bound(bytes@, i as int + 1);
            reveal_with_fuel(pow256, 9);
            assert(pow256(7 - i) <= 0x100_0000_0000_0000);
            assert(unsigned * 256 + bytes@[i as int] < 0x1_0000_0000_0000_0000) by (nonlinear_arith)
                requires
                    unsigned < pow256(7 - i),
                    pow256(7 - i) <= 0x100_0000_0000_0000,
                    bytes@[i as int] < 256,
            ;
        }
        unsigned = unsigned * 256 + bytes[i] as u64;
    }
    proof {
        lemma_le_tail_full(bytes@);
    }
    let value = if unsigned >= 0x8000_0000_0000_0000 {
        (unsigned - 0x8000_0000_0000_0000) as i64 - 0x4000_0000_0000_0000 - 0x4000_0000_0000_0000
    } else {
        unsigned as i64
    };
    if value <= 0 {
        return Err(LicenseError::storage("本机授权时间记录无效。".to_owned()));
    }
    Ok(value)
}

/// The unsigned little-endian value of `bytes[i..8]`.
pub open spec fn le_tail(bytes: Seq<u8>, i: int) -> int
    decreases 8 - i,
{
    if i >= 8 {
        0
    } else {
        bytes[i] as int + 256 * le_tail(bytes, i + 1)
    }
}

proof fn lemma_le_tail_bound(bytes: Seq<u8>, i: int)
    requires
        0 <= i <= 8,
        bytes.len() == 8,
    ensures
        0 <= le_tail(bytes, i) < pow256(8 - i),
    decreases 8 - i,
{
    if i < 8 {
        lemma_le_tail_bound(bytes, i + 1);
        assert(pow256(8 - i) == 256 * pow256(8 - i - 1));
        assert(le_tail(bytes, i) < pow256(8 - i)) by (nonlinear_arith)
            requires
                le_tail(bytes, i) == bytes[i] as int + 256 * le_tail(bytes, i + 1),
                0 <= bytes[i] < 256,
                0 <= le_tail(bytes, i + 1) < pow256(8 - i - 1),
                pow256(8 - i) == 256 * pow256(8 - i - 1),
        ;
    }
}

/// `256` to the power `n`.
pub open spec fn pow256(n: int) -> int
    decreases n,
{
    if n <= 0 {
        1
    } else {
        256 * pow256(n - 1)
    }
}

proof fn lemma_le_tail_full(bytes: Seq<u8>)
    requires
        bytes.len() == 8,
    ensures
        le_tail(bytes, 0) < 0x1_0000_0000_0000_0000,
        le_i64(bytes) == (if le_tail(bytes, 0) >= 0x8000_0000_0000_0000 {
            le_tail(bytes, 0) - 0x1_0000_0000_0000_0000
        } else {
            le_tail(bytes, 0)
        }),
{
    lemma_le_tail_bound(bytes, 0);
    reveal_with_fuel(pow256, 9);
    reveal_with_fuel(le_tail, 9);
}

/// `a - b`, saturating at the bounds of `i64`.
pub fn saturating_sub_i64(a: i64, b: i64) -> (difference: i64)
    ensures
        difference == clamp_i64(a - b),
{
    match a.checked_sub(b) {
        Some(difference) => difference,
        None => if b < 0 {
            i64::MAX
        } else {
            i64::MIN
        },
    }
}

/// The trusted clock: the latest time seen, the last value persisted and
/// whether the system clock was ever seen moving back past the tolerance.
#[derive(Clone, Copy, Debug, PartialEq, Eq, Structural)]
pub struct ClockState {
    pub highest_seen_ms: i64,
    pub last_persisted_ms: i64,
    pub rollback_detected: bool,
}

impl Default for ClockState {
    fn default() -> (state: Self)
        ensures
            state.highest_seen_ms == 0,
            state.last_persisted_ms == 0,
            !state.rollback_detected,
    {
        ClockState { highest_seen_ms: 0, last_persisted_ms: 0, rollback_detected: false }
    }
}

/// The clock after a reading, and whether its new value must be persisted.
#[derive(Clone, Copy, Debug)]
pub struct ClockObservation {
    pub state: ClockState,
    pub persist: bool,
}

/// The trusted clock after the system clock read `system_now`.
pub open spec fn observed_clock(state: ClockState, system_now: i64) -> ClockState {
    ClockState {
        highest_seen_ms: if system_now > state.highest_seen_ms {
            system_now
        } else {
            state.highest_seen_ms
        },
        last_persisted_ms: state.last_persisted_ms,
        rollback_detected: state.rollback_detected || (state.highest_seen_ms > 0 && clamp_i64(
            system_now + CLOCK_TOLERANCE_MS,
        ) < state.highest_seen_ms),
    }
}

/// Whether the trusted clock `state` must be persisted after a reading.
pub open spec fn must_persist(state: ClockState) -> bool {
    state.last_persisted_ms == 0 || clamp_i64(state.highest_seen_ms - state.last_persisted_ms)
        >= CLOCK_PERSIST_INTERVAL_MS
}

/// Advances the trusted clock with a reading of the system clock.
pub fn observe_clock(state: ClockState, system_now: i64) -> (observation: ClockObservation)
    ensures
        observation.state == observed_clock(state, system_now),
        observation.persist == must_persist(observed_clock(state, system_now)),
{
    let mut next = state;
    if state.highest_seen_ms > 0 && saturating_add_i64(system_now, CLOCK_TOLERANCE_MS)
        < state.highest_seen_ms {
        next.rollback_detected = true;
    }
    if system_now > next.highest_seen_ms {
        next.highest_seen_ms = system_now;
    }
    let persist = next.last_persisted_ms == 0 || saturating_sub_i64(
        next.highest_seen_ms,
        next.last_persisted_ms,
    ) >= CLOCK_PERSIST_INTERVAL_MS;
    ClockObservation { state: next, persist }
}

/// The trusted clock once its latest value was persisted.
pub fn record_persisted(state: ClockState) -> (next: ClockState)
    ensures
        next == (ClockState { last_persisted_ms: state.highest_seen_ms, ..state }),
{
    ClockState { last_persisted_ms: state.highest_seen_ms, ..state }
}

/// The trusted time never moves backwards: it is at least the latest time
/// seen before and at least the current reading, and a rollback once seen
/// stays recorded.
pub proof fn lemma_trusted_clock_monotone(state: ClockState, system_now: i64)
    ensures
        observed_clock(state, system_now).highest_seen_ms >= state.highest_seen_ms,
        observed_clock(state, system_now).highest_seen_ms >= system_now,
        state.rollback_detected ==> observed_clock(state, system_now).rollback_detected,
{
}

/// The message for a paper above the basic question limit.
pub open spec fn paper_limit_message(limit: u32) -> Seq<char> {
    "基础桌面模式下每份试卷最多包含 "@ + decimal(limit as nat)
        + " 道题。已有超限试卷不会被删除，但请先减少到 "@ + decimal(limit as nat)
        + " 道题以内再保存。"@
}

/// Checks that a paper of `count` questions fits the capabilities.
pub fn validate_paper_question_count(capabilities: &EffectiveCapabilities, count: usize) -> (result:
    Result<(), LicenseError>)
    ensures
        match capabilities.max_questions_per_paper {
            None => result is Ok,
            Some(limit) => if count <= limit {
                result is Ok
            } else {
                result matches Err(e) && e.code@ == "PAPER_QUESTION_LIMIT_EXCEEDED"@ && e.message@
                    == paper_limit_message(limit)
            },
        },
{
    let limit = match capabilities.max_questions_per_paper {
        None => return Ok(()),
        Some(limit) => limit,
    };
    if count as u64 <= limit as u64 {
        return Ok(());
    }
    let mut message = "基础桌面模式下每份试卷最多包含 ".to_owned();
    push_decimal(&mut message, limit as u64);
    message.append(" 道题。已有超限试卷不会被删除，但请先减少到 ");
    push_decimal(&mut message, limit as u64);
    message.append(" 道题以内再保存。");
    Err(LicenseError::new("PAPER_QUESTION_LIMIT_EXCEEDED", message))
}

/// Allows batch and Word import only with the professional features.
pub fn require_batch_import(capabilities: &EffectiveCapabilities) -> (result: Result<(), LicenseError>)
    ensures
        capabilities.can_batch_import ==> result is Ok,
        !capabilities.can_batch_import ==> (result matches Err(e) && e.code@
            == "DESKTOP_LICENSE_BATCH_IMPORT_REQUIRED"@),
{
    if capabilities.can_batch_import {
        Ok(())
    } else {
        Err(
            LicenseError::new(
                "DESKTOP_LICENSE_BATCH_IMPORT_REQUIRED",
                "当前为基础桌面模式，只支持手动单题录入；Word 导入、文档式录入和批量导入需要有效的桌面专业授权。".to_owned(),
            ),
        )
    }
}

/// Allows document export only with the professional features.
pub fn require_document_export(capabilities: &EffectiveCapabilities) -> (result: Result<(), LicenseError>)
    ensures
        capabilities.can_export_documents ==> result is Ok,
        !capabilities.can_export_documents ==> (result matches Err(e) && e.code@
            == "DESKTOP_LICENSE_EXPORT_REQUIRED"@),
{
    if capabilities.can_export_documents {
        Ok(())
    } else {
        Err(
            LicenseError::new(
                "DESKTOP_LICENSE_EXPORT_REQUIRED",
                "当前为基础桌面模式，不能导出题库或试卷；导入有效的桌面专业授权后可恢复导出。".to_owned(),
            ),
        )
    }
}

/// Allows printing only with the professional features.
pub fn require_print(capabilities: &EffectiveCapabilities) -> (result: Result<(), LicenseError>)
    ensures
        capabilities.can_print ==> result is Ok,
        !capabilities.can_print ==> (result matches Err(e) && e.code@ == "DESKTOP_LICENSE_PRINT_REQUIRED"@),
{
    if capabilities.can_print {
        Ok(())
    } else {
        Err(
            LicenseError::new(
                "DESKTOP_LICENSE_PRINT_REQUIRED",
                "当前为基础桌面模式，不能打印试卷；导入有效的桌面专业授权后可恢复打印。".to_owned(),
            ),
        )
    }
}

/// A trial grants the professional features exactly through the trial and
/// grace periods of fifteen days each.
pub proof fn lemma_trial_professional_window(started_at_ms: i64, now: i64)
    requires
        started_at_ms + 30 * MILLIS_PER_DAY <= i64::MAX,
    ensures
        phase_capabilities(trial_phase(started_at_ms as int, now as int)) == professional_capabilities()
            <==> now <= started_at_ms + 30 * MILLIS_PER_DAY,
        phase_capabilities(trial_phase(started_at_ms as int, now as int)) == basic_capabilities()
            <==> now > started_at_ms + 30 * MILLIS_PER_DAY,
        trial_phase(started_at_ms as int, now as int) == EntitlementPhase::Active <==> now
            <= started_at_ms + 15 * MILLIS_PER_DAY,
{
}

/// A license grants the professional features exactly from its start through
/// the end of its grace period.
pub proof fn lemma_license_professional_window(claims: DesktopLicenseClaims, now: i64)
    requires
        claims.expires_at_ms + claims.grace_days * MILLIS_PER_DAY <= i64::MAX,
    ensures
        phase_capabilities(license_phase(claims, now as int)) == professional_capabilities() <==> (
        claims.not_before_ms <= now && now <= claims.expires_at_ms + claims.grace_days
            * MILLIS_PER_DAY),
{
}

/// Ed25519 signatures.
#[verifier::external_type_specification]
#[verifier::external_body]
pub struct ExSignature(ed25519_dalek::Signature);

/// Ed25519 public keys.
#[verifier::external_type_specification]
#[verifier::external_body]
pub struct ExVerifyingKey(ed25519_dalek::VerifyingKey);

/// What the standard base64 alphabet with padding decodes the text `input`
/// to, if it is valid base64.
pub uninterp spec fn base64_decoding(input: Seq<char>) -> Option<Seq<u8>>;

/// The SHA-256 digest of `data`.
pub uninterp spec fn sha256_of(data: Seq<u8>) -> Seq<u8>;

/// Decodes standard base64 with `base64::engine::general_purpose::STANDARD`;
/// the result is named, `None` where the engine reports an error.
#[verifier::external_body]
fn decode_base64(input: &str) -> (decoded: Option<Vec<u8>>)
    ensures
        match decoded {
            Some(bytes) => base64_decoding(input@) == Some(bytes@),
            None => base64_decoding(input@) is None,
        },
{
    match base64::Engine::decode(&base64::engine::general_purpose::STANDARD, input) {
        Ok(bytes) => Some(bytes),
        Err(_) => None,
    }
}

/// The SHA-256 digest of `data` (`sha2::Sha256::digest`), which is 32 bytes long.
#[verifier::external_body]
fn sha256_digest(data: &[u8]) -> (digest: Vec<u8>)
    ensures
        digest@ == sha256_of(data@),
        digest@.len() == 32,
{
    <sha2::Sha256 as sha2::Digest>::digest(data).to_vec()
}

/// Parses an Ed25519 signature (`Signature::try_from`), which succeeds exactly
/// for 64 bytes.
#[verifier::external_body]
fn parse_signature(bytes: &[u8]) -> (signature: Option<ed25519_dalek::Signature>)
    ensures
        signature is Some <==> bytes@.len() == 64,
{
    match ed25519_dalek::Signature::try_from(bytes) {
        Ok(signature) => Some(signature),
        Err(_) => None,
    }
}

/// Whether `signature` is a valid strict Ed25519 signature of `message`
/// under the public key whose 32-byte encoding is `key`: the key decodes
/// (`VerifyingKey::from_bytes`), the signature is 64 bytes
/// (`Signature::from_slice`) and `VerifyingKey::verify_strict` accepts it.
pub uninterp spec fn ed25519_strict_verifies(key: Seq<u8>, message: Seq<u8>, signature: Seq<u8>) -> bool;

/// Checks `signature` over `message` under the key encoded by `key`
/// (`VerifyingKey::from_bytes`, `Signature::from_slice`,
/// `VerifyingKey::verify_strict`); the answer is named, false where the key
/// or signature does not decode.
#[verifier::external_body]
fn signature_verifies(key: &[u8; 32], message: &[u8], signature: &[u8]) -> (valid: bool)
    ensures
        valid == ed25519_strict_verifies(key@, message@, signature@),
{
    match (ed25519_dalek::VerifyingKey::from_bytes(key), ed25519_dalek::Signature::from_slice(signature)) {
        (Ok(key), Ok(signature)) => key.verify_strict(message, &signature).is_ok(),
        _ => false,
    }
}

/// The 32 bytes of a public key (`VerifyingKey::to_bytes`). Nothing is claimed
/// about them.
#[verifier::external_body]
fn public_key_bytes(key: &ed25519_dalek::VerifyingKey) -> [u8; 32] {
    key.to_bytes()
}

/// The lower-case hexadecimal digit of `d`.
pub open spec fn hex_digit(d: int) -> char {
    if d < 10 {
        (('0' as int) + d) as char
    } else {
        (('a' as int) + d - 10) as char
    }
}

/// `bytes` in lower-case hexadecimal, two digits per byte.
pub open spec fn lower_hex(bytes: Seq<u8>) -> Seq<char>
    decreases bytes.len(),
{
    if bytes.len() == 0 {
        Seq::empty()
    } else {
        lower_hex(bytes.drop_last()) + seq![
            hex_digit(bytes.last() as int / 16),
            hex_digit(bytes.last() as int % 16),
        ]
    }
}

fn hex_digit_char(d: u8) -> (c: char)
    requires
        d < 16,
    ensures
        c == hex_digit(d as int),
{
    let chars = ['0', '1', '2', '3', '4', '5', '6', '7', '8', '9', 'a', 'b', 'c', 'd', 'e', 'f'];
    assert(chars@ =~= seq!['0', '1', '2', '3', '4', '5', '6', '7', '8', '9', 'a', 'b', 'c', 'd', 'e', 'f']);
    chars[d as usize]
}

/// The hexadecimal form of `bytes` has two lower-case digits per byte.
pub proof fn lemma_lower_hex_digits(bytes: Seq<u8>)
    ensures
        lower_hex(bytes).len() == 2 * bytes.len(),
        forall|i: int| 0 <= i < lower_hex(bytes).len() ==> is_lower_hex_digit(#[trigger] lower_hex(bytes)[i]),
    decreases bytes.len(),
{
    if bytes.len() > 0 {
        lemma_lower_hex_digits(bytes.drop_last());
        let last = bytes.last() as int;
        assert(is_lower_hex_digit(hex_digit(last / 16)));
        assert(is_lower_hex_digit(hex_digit(last % 16)));
    }
}

/// `bytes` in lower-case hexadecimal.
pub fn to_lower_hex(bytes: &[u8]) -> (text: String)
    ensures
        text@ == lower_hex(bytes@),
{
    let mut text = String::new();
    let mut i: usize = 0;
    while i < bytes.len()
        invariant
            i <= bytes@.len(),
            text@ == lower_hex(bytes@.subrange(0, i as int)),
        decreases bytes@.len() - i,
    {
        let byte = bytes[i];
        text.push(hex_digit_char(byte / 16));
        text.push(hex_digit_char(byte % 16));
        assert(bytes@.subrange(0, i + 1).drop_last() =~= bytes@.subrange(0, i as int));
        i = i + 1;
    }
    assert(bytes@.subrange(0, bytes@.len() as int) =~= bytes@);
    text
}

/// The device id of a public key: the lower-case hexadecimal SHA-256 digest
/// of its 32 bytes.
pub fn device_id_for_public_key(public_key: &ed25519_dalek::VerifyingKey) -> (device_id: String)
    ensures
        exists|key_bytes: Seq<u8>| key_bytes.len() == 32 && device_id@ == lower_hex(sha256_of(key_bytes)),
        is_sha256_text(device_id@),
{
    let key_bytes = public_key_bytes(public_key);
    let key_slice = key_bytes.as_slice();
    assert(key_slice@.len() == 32);
    let digest = sha256_digest(key_slice);
    let device_id = to_lower_hex(digest.as_slice());
    assert(device_id@ == lower_hex(sha256_of(key_slice@)));
    proof {
        lemma_lower_hex_digits(digest@);
    }
    device_id
}


/// The checks of a signed license file before its signature is verified, in
/// order: the envelope, the payload's and the signature's base64 and the
/// signature's length. On success, the payload and signature bytes.
pub open spec fn signature_input(envelope: SignedEnvelope) -> Result<
    (Seq<u8>, Seq<u8>),
    (Seq<char>, Seq<char>),
> {
    match envelope_failure(envelope) {
        Some(failure) => Err(failure),
        None => match base64_decoding(envelope.payload_base64@) {
            None => Err(("LICENSE_FILE_INVALID"@, "离线许可证载荷编码无效。"@)),
            Some(payload) => match base64_decoding(envelope.signature_base64@) {
                None => Err(("LICENSE_FILE_INVALID"@, "离线许可证签名编码无效。"@)),
                Some(signature) => if signature.len() != 64 {
                    Err(("LICENSE_FILE_INVALID"@, "离线许可证签名长度无效。"@))
                } else {
                    Ok((payload, signature))
                },
            },
        },
    }
}

/// Checks a signed license file against the public key whose 32-byte
/// encoding is `key`, giving the signed payload: a well-formed file yields
/// its payload exactly when its signature is a valid strict Ed25519
/// signature of the payload under that key, and is refused as having an
/// invalid signature otherwise.
pub fn verify_license_envelope(envelope: &SignedEnvelope, key: &[u8; 32]) -> (result: Result<Vec<u8>, LicenseError>)
    ensures
        match signature_input(*envelope) {
            Err((code, message)) => result matches Err(e) && e.code@ == code && e.message@ == message,
            Ok((payload, signature)) => match result {
                Ok(bytes) => bytes@ == payload && ed25519_strict_verifies(key@, payload, signature),
                Err(e) => !ed25519_strict_verifies(key@, payload, signature) && e.code@
                    == "LICENSE_SIGNATURE_INVALID"@ && e.message@ == "离线许可证签名无效，文件可能被修改。"@,
            },
        },
{
    check_license_envelope(envelope)?;
    let payload = match decode_base64(envelope.payload_base64.as_str()) {
        Some(bytes) => bytes,
        None => return Err(
            LicenseError::new("LICENSE_FILE_INVALID", "离线许可证载荷编码无效。".to_owned()),
        ),
    };
    let signature_bytes = match decode_base64(envelope.signature_base64.as_str()) {
        Some(bytes) => bytes,
        None => return Err(
            LicenseError::new("LICENSE_FILE_INVALID", "离线许可证签名编码无效。".to_owned()),
        ),
    };
    if parse_signature(signature_bytes.as_slice()).is_none() {
        return Err(LicenseError::new("LICENSE_FILE_INVALID", "离线许可证签名长度无效。".to_owned()));
    }
    if !signature_verifies(key, payload.as_slice(), signature_bytes.as_slice()) {
        return Err(
            LicenseError::new(
                "LICENSE_SIGNATURE_INVALID",
                "离线许可证签名无效，文件可能被修改。".to_owned(),
            ),
        );
    }
    Ok(payload)
}

/// The public key with the given 32 bytes (`VerifyingKey::from_bytes`), if
/// they are a valid Ed25519 point. Nothing is claimed about which are.
#[verifier::external_body]
fn verifying_key_from_bytes(bytes: &[u8]) -> Option<ed25519_dalek::VerifyingKey>
    requires
        bytes@.len() == 32,
{
    match <[u8; 32]>::try_from(bytes) {
        Ok(array) => match ed25519_dalek::VerifyingKey::from_bytes(&array) {
            Ok(key) => Some(key),
            Err(_) => None,
        },
        Err(_) => None,
    }
}

/// The license verification key written in base64 (surrounding white space
/// ignored).
pub fn verifying_key_from_base64(text: &str) -> (result: Result<
    ed25519_dalek::VerifyingKey,
    LicenseError,
>)
    ensures
        base64_decoding(trimmed(text@)) is None ==> (result matches Err(e) && e.message@
            == "软件内置授权公钥格式无效。"@),
        base64_decoding(trimmed(text@)) matches Some(bytes) && bytes.len() != 32 ==> (
        result matches Err(e) && e.message@ == "软件内置授权公钥长度无效。"@),
        result matches Err(e) ==> e.code@ == "LICENSE_CONFIGURATION_INVALID"@,
{
    let trimmed_text = trim_white_space(text);
    let bytes = match decode_base64(trimmed_text.as_str()) {
        Some(bytes) => bytes,
        None => return Err(
            LicenseError::new(
                "LICENSE_CONFIGURATION_INVALID",
                "软件内置授权公钥格式无效。".to_owned(),
            ),
        ),
    };
    if bytes.len() != 32 {
        return Err(
            LicenseError::new(
                "LICENSE_CONFIGURATION_INVALID",
                "软件内置授权公钥长度无效。".to_owned(),
            ),
        );
    }
    match verifying_key_from_bytes(bytes.as_slice()) {
        Some(key) => Ok(key),
        None => Err(
            LicenseError::new(
                "LICENSE_CONFIGURATION_INVALID",
                "软件内置授权公钥不是有效的 Ed25519 公钥。".to_owned(),
            ),
        ),
    }
}

/// A license overview grants every desktop feature (batch import,
/// document export, printing and papers of any length) exactly while the
/// time lies between the license's start and the end of its grace period;
/// outside that period only single-question editing and papers of at most
/// ten questions remain.
pub proof fn lemma_license_features_follow_the_period(
    overview: LicenseOverview,
    device_id: Seq<char>,
    claims: DesktopLicenseClaims,
    now: i64,
    rollback_detected: bool,
)
    requires
        is_license_overview(overview, device_id, claims, now, rollback_detected),
    ensures
        ({
            let within = claims.not_before_ms <= now && now <= license_grace_ends_at(
                claims.expires_at_ms as int,
                claims.grace_days,
            );
            let c = overview.capabilities;
            &&& c.can_edit_single_question
            &&& within ==> c.can_print && c.can_batch_import && c.can_export_documents
                && c.max_questions_per_paper is None
            &&& !within ==> !c.can_print && !c.can_batch_import && !c.can_export_documents
                && c.max_questions_per_paper == Some(10u32)
        }),
{
}

/// A trial overview grants every desktop feature until the end of the
/// trial's grace period, and only basic editing with papers of at most ten
/// questions after it.
pub proof fn lemma_trial_features_follow_the_period(
    overview: LicenseOverview,
    device_id: Seq<char>,
    started_at_ms: i64,
    now: i64,
    rollback_detected: bool,
)
    requires
        is_trial_overview(overview, device_id, started_at_ms, now, rollback_detected),
    ensures
        ({
            let within = now <= trial_grace_ends_at(started_at_ms as int);
            let c = overview.capabilities;
            &&& c.can_edit_single_question
            &&& within ==> c.can_print && c.can_batch_import && c.can_export_documents
                && c.max_questions_per_paper is None
            &&& !within ==> !c.can_print && !c.can_batch_import && !c.can_export_documents
                && c.max_questions_per_paper == Some(10u32)
        }),
{
}

/// Largest license file read, in bytes.
pub const MAX_LICENSE_BYTES: u64 = 65536;

/// Largest security state file read, in bytes.
pub const MAX_SECURITY_STATE_BYTES: u64 = 65536;

/// Checks a licensing file before it is read: it must be a regular file
/// (no link, reparse point or directory), and hold between one and
/// `max_bytes` bytes.
pub fn check_guarded_file(regular_file: bool, len: u64, max_bytes: u64, label: &str) -> (result: Result<
    (),
    LicenseError,
>)
    ensures
        !regular_file ==> (result matches Err(e) && e.code@ == "LICENSE_PATH_INVALID"@ && e.message@ == label@
            + "必须是普通文件，不能是符号链接或目录。"@),
        regular_file && (len == 0 || len > max_bytes) ==> (result matches Err(e) && e.code@
            == "LICENSE_FILE_INVALID"@ && e.message@ == label@ + "大小无效。"@),
        regular_file && 0 < len <= max_bytes ==> result is Ok,
{
    if !regular_file {
        let mut message = label.to_owned();
        message.append("必须是普通文件，不能是符号链接或目录。");
        return Err(LicenseError::new("LICENSE_PATH_INVALID", message));
    }
    if len == 0 || len > max_bytes {
        let mut message = label.to_owned();
        message.append("大小无效。");
        return Err(LicenseError::new("LICENSE_FILE_INVALID", message));
    }
    Ok(())
}

} // verus!
