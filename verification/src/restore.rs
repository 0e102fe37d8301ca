//! Validation of restore requests: tokens, digests, plan identity and the
//! counts read back from a restore candidate.
use vstd::prelude::*;
use crate::text::{chars_of, lemma_slash_pieces_nonempty, pieces_view, same_text, slash_pieces, split_path};

verus! {

/// Version of the restore plan and journal files.
pub const RESTORE_STATE_VERSION: u32 = 1;
/// How long a prepared restore plan stays valid.
pub const RESTORE_PLAN_LIFETIME_MS: i64 = 1800000;

/// A failure of a restore command: a stable code, or a validation failure,
/// and a message for the user.
#[derive(Clone, Debug)]
pub enum CommandError {
    Validation { message: String },
    Failed { code: &'static str, message: String },
}

/// The content of a [`CommandError`]: `None` as the code of a validation failure.
pub open spec fn error_parts(error: CommandError) -> (Option<Seq<char>>, Seq<char>) {
    match error {
        CommandError::Validation { message } => (None, message@),
        CommandError::Failed { code, message } => (Some(code@), message@),
    }
}

/// The figures of a restore candidate shown before it replaces the data.
#[derive(Clone, Debug, PartialEq, Eq)]
pub struct RestoreCandidateSummary {
    pub database_uuid: String,
    pub database_schema_version: i64,
    pub question_count: u64,
    pub paper_count: u64,
    pub template_count: u64,
    pub resource_count: u64,
}

/// A prepared restore plan, as stored beside the candidate.
#[derive(Clone, Debug)]
pub struct RestorePlanFile {
    pub version: u32,
    pub operation_id: String,
    pub restore_token: String,
    pub created_at: i64,
    pub expires_at: i64,
    pub source_display_filename: String,
    pub archive_sha256_hex: String,
    pub source_database_uuid: String,
    pub incoming_summary: RestoreCandidateSummary,
    pub incoming_tree_sha256_hex: String,
}

/// A lower-case hexadecimal digit.
pub open spec fn is_lower_hex_digit(c: char) -> bool {
    ('0' <= c && c <= '9') || ('a' <= c && c <= 'f')
}

/// A SHA-256 digest written as 64 lower-case hexadecimal digits.
pub open spec fn is_sha256_text(value: Seq<char>) -> bool {
    value.len() == 64 && forall|i: int| 0 <= i < value.len() ==> is_lower_hex_digit(#[trigger] value[i])
}

/// Whether `value` is a SHA-256 digest in lower-case hexadecimal.
pub fn valid_sha256(value: &str) -> (valid: bool)
    ensures
        valid == is_sha256_text(value@),
{
    let chars = chars_of(value);
    if chars.len() != 64 {
        return false;
    }
    let mut i: usize = 0;
    while i < chars.len()
        invariant
            chars@ == value@,
            i <= chars@.len(),
            forall|j: int| 0 <= j < i ==> is_lower_hex_digit(#[trigger] chars@[j]),
        decreases chars@.len() - i,
    {
        let c = chars[i];
        if !(('0' <= c && c <= '9') || ('a' <= c && c <= 'f')) {
            return false;
        }
        i = i + 1;
    }
    true
}

/// Whether an operating-system error code is a Windows sharing or lock
/// violation, after which a restore file operation is retried.
pub fn is_retryable_restore_file_lock(raw_os_error: Option<i32>) -> (retryable: bool)
    ensures
        retryable == (raw_os_error == Some(32i32) || raw_os_error == Some(33i32)),
{
    match raw_os_error {
        Some(code) => code == 32 || code == 33,
        None => false,
    }
}

/// Checks that a plan belongs to `operation_id` and has the current version.
pub fn validate_plan_identity(plan: &RestorePlanFile, operation_id: &str) -> (result: Result<
    (),
    CommandError,
>)
    ensures
        (plan.version == RESTORE_STATE_VERSION && plan.operation_id@ == operation_id@
            && plan.restore_token@ == operation_id@) ==> result is Ok,
        !(plan.version == RESTORE_STATE_VERSION && plan.operation_id@ == operation_id@
            && plan.restore_token@ == operation_id@) ==> (result matches Err(e) && error_parts(e)
            == (Some("RESTORE_PLAN_INVALID"@), "恢复计划身份或版本无效。"@)),
{
    if plan.version != RESTORE_STATE_VERSION || !same_text(plan.operation_id.as_str(), operation_id)
        || !same_text(plan.restore_token.as_str(), operation_id) {
        return Err(
            CommandError::Failed {
                code: "RESTORE_PLAN_INVALID",
                message: "恢复计划身份或版本无效。".to_owned(),
            },
        );
    }
    Ok(())
}

/// A count read back from a candidate database, refused when negative.
pub fn nonnegative_count(value: i64, label: &str) -> (result: Result<u64, CommandError>)
    ensures
        value >= 0 ==> result == Ok::<u64, CommandError>(value as u64),
        value < 0 ==> (result matches Err(e) && error_parts(e) == (
            Some("RESTORE_SUMMARY_INVALID"@),
            "恢复候选中的"@ + label@ + "数量无效。"@,
        )),
{
    if value < 0 {
        let mut message = "恢复候选中的".to_owned();
        message.append(label);
        message.append("数量无效。");
        return Err(CommandError::Failed { code: "RESTORE_SUMMARY_INVALID", message });
    }
    Ok(value as u64)
}

/// A file size read back from a candidate database, refused when negative.
pub fn nonnegative_size(value: i64, label: &str) -> (result: Result<u64, CommandError>)
    ensures
        value >= 0 ==> result == Ok::<u64, CommandError>(value as u64),
        value < 0 ==> (result matches Err(e) && error_parts(e) == (
            Some("RESTORE_FILE_SIZE_INVALID"@),
            label@ + "文件大小记录无效。"@,
        )),
{
    if value < 0 {
        let mut message = label.to_owned();
        message.append("文件大小记录无效。");
        return Err(CommandError::Failed { code: "RESTORE_FILE_SIZE_INVALID", message });
    }
    Ok(value as u64)
}

/// The canonical text of the UUID that `value` spells, if it spells one.
pub uninterp spec fn canonical_uuid_text(value: Seq<char>) -> Option<Seq<char>>;

/// Parses `value` as a UUID (`uuid::Uuid::parse_str`) and writes it back in
/// its canonical hyphenated lower-case form (`Display`); the result is named.
#[verifier::external_body]
pub(crate) fn canonical_uuid(value: &str) -> (canonical: Option<String>)
    ensures
        match canonical {
            Some(text) => canonical_uuid_text(value@) == Some(text@),
            None => canonical_uuid_text(value@) is None,
        },
{
    match uuid::Uuid::parse_str(value) {
        Ok(parsed) => Some(parsed.to_string()),
        Err(_) => None,
    }
}

/// Accepts a restore token only when it is a UUID written in its canonical form.
pub fn canonical_token(value: &str) -> (result: Result<String, CommandError>)
    ensures
        canonical_uuid_text(value@) is None ==> (result matches Err(e) && error_parts(e) == (
            None::<Seq<char>>,
            "恢复令牌不是有效的规范 UUID。"@,
        )),
        canonical_uuid_text(value@) matches Some(text) && text != value@ ==> (result matches Err(e)
            && error_parts(e) == (None::<Seq<char>>, "恢复令牌必须使用规范小写 UUID 格式。"@)),
        canonical_uuid_text(value@) == Some(value@) ==> (result matches Ok(token) && token@
            == value@),
{
    let canonical = match canonical_uuid(value) {
        Some(text) => text,
        None => return Err(
            CommandError::Validation { message: "恢复令牌不是有效的规范 UUID。".to_owned() },
        ),
    };
    if !same_text(canonical.as_str(), value) {
        return Err(
            CommandError::Validation {
                message: "恢复令牌必须使用规范小写 UUID 格式。".to_owned(),
            },
        );
    }
    Ok(canonical)
}

/// Whether `path` names a file below a root by plain names alone, as
/// `std::path::Path::components` reads it on a system with `/` separators:
/// no backslash, not absolute, not starting with `.`, no `..` piece, and at
/// least one name (empty and inner `.` pieces are skipped).
pub open spec fn normal_relative_path(path: Seq<char>) -> bool {
    let pieces = slash_pieces(path);
    &&& !path.contains('\\')
    &&& path.len() > 0
    &&& path[0] != '/'
    &&& pieces[0] != "."@
    &&& forall|k: int| 0 <= k < pieces.len() ==> #[trigger] pieces[k] != ".."@
    &&& exists|k: int| 0 <= k < pieces.len() && (#[trigger] pieces[k]).len() > 0 && pieces[k] != "."@
}

/// Checks a managed file that a restore expects before it is looked up
/// under its root: its SHA-256 must be 32 bytes, and its relative path must
/// name a file below the root by plain names alone.
pub fn validate_managed_path(label: &str, relative_path: &str, sha256: &[u8]) -> (result: Result<(), CommandError>)
    ensures
        sha256@.len() != 32 ==> (result matches Err(e) && error_parts(e) == (
            Some("RESTORE_FILE_HASH_INVALID"@),
            label@ + "记录的 SHA-256 长度无效。"@,
        )),
        sha256@.len() == 32 && !normal_relative_path(relative_path@) ==> (result matches Err(e) && error_parts(e) == (
            Some("RESTORE_FILE_PATH_INVALID"@),
            label@ + "记录了不安全的相对路径。"@,
        )),
        sha256@.len() == 32 && normal_relative_path(relative_path@) ==> result is Ok,
{
    if sha256.len() != 32 {
        let mut message = label.to_owned();
        message.append("记录的 SHA-256 长度无效。");
        return Err(CommandError::Failed { code: "RESTORE_FILE_HASH_INVALID", message });
    }
    if !normal_path_text(relative_path) {
        let mut message = label.to_owned();
        message.append("记录了不安全的相对路径。");
        return Err(CommandError::Failed { code: "RESTORE_FILE_PATH_INVALID", message });
    }
    Ok(())
}

/// Whether `path` names a file below a root by plain names alone.
fn normal_path_text(path: &str) -> (normal: bool)
    ensures
        normal == normal_relative_path(path@),
{
    let chars = chars_of(path);
    let mut k: usize = 0;
    while k < chars.len()
        invariant
            k <= chars@.len(),
            chars@ == path@,
            forall|j: int| 0 <= j < k ==> chars@[j] != '\\',
        decreases chars@.len() - k,
    {
        if chars[k] == '\\' {
            assert(path@[k as int] == '\\');
            return false;
        }
        k = k + 1;
    }
    if chars.len() == 0 || chars[0] == '/' {
        return false;
    }
    let pieces = split_path(path);
    proof {
        lemma_slash_pieces_nonempty(path@);
    }
    if same_text(pieces[0].as_str(), ".") {
        return false;
    }
    let mut named = false;
    let mut i: usize = 0;
    while i < pieces.len()
        invariant
            i <= pieces@.len(),
            pieces_view(pieces@) == slash_pieces(path@),
            forall|j: int| 0 <= j < i ==> #[trigger] pieces@[j]@ != ".."@,
            named == exists|j: int| 0 <= j < i && (#[trigger] pieces@[j]@).len() > 0 && pieces@[j]@ != "."@,
        decreases pieces@.len() - i,
    {
        assert(pieces_view(pieces@)[i as int] == pieces@[i as int]@);
        if same_text(pieces[i].as_str(), "..") {
            return false;
        }
        if chars_of(pieces[i].as_str()).len() > 0 && !same_text(pieces[i].as_str(), ".") {
            named = true;
        }
        i = i + 1;
    }
    proof {
        assert forall|j: int| 0 <= j < slash_pieces(path@).len() implies #[trigger] slash_pieces(path@)[j] != ".."@ by {
            assert(pieces_view(pieces@)[j] == pieces@[j]@);
        }
        if named {
            let j = choose|j: int| 0 <= j < pieces@.len() && (#[trigger] pieces@[j]@).len() > 0 && pieces@[j]@ != "."@;
            assert(pieces_view(pieces@)[j] == pieces@[j]@);
        } else {
            assert forall|j: int| 0 <= j < slash_pieces(path@).len() implies !((#[trigger] slash_pieces(path@)[j]).len()
                > 0 && slash_pieces(path@)[j] != "."@) by {
                assert(pieces_view(pieces@)[j] == pieces@[j]@);
            }
        }
        assert(pieces_view(pieces@)[0] == pieces@[0]@);
        assert(!path@.contains('\\'));
    }
    named
}

} // verus!
