//! The data directory layout and names kept for compatibility with older
//! question banks.
use vstd::prelude::*;
use crate::text::{chars_of, decimal, push_decimal, string_from_chars};

verus! {

/// Owned file-system paths.
#[verifier::external_type_specification]
#[verifier::external_body]
pub struct ExPathBuf(std::path::PathBuf);

/// `base` with the relative path `segment` appended (`Path::join`). Nothing is
/// claimed about the result.
#[verifier::external_body]
fn join_path(base: &std::path::PathBuf, segment: &str) -> std::path::PathBuf {
    base.join(segment)
}

/// Where the application keeps its data under one root directory.
pub struct DatabasePaths {
    data_root: std::path::PathBuf,
    database_dir: std::path::PathBuf,
    database_file: std::path::PathBuf,
    resources_dir: std::path::PathBuf,
    resource_staging_dir: std::path::PathBuf,
    templates_dir: std::path::PathBuf,
    backup_dir: std::path::PathBuf,
    export_dir: std::path::PathBuf,
}

impl DatabasePaths {
    /// The root the layout was made for.
    pub closed spec fn root(&self) -> std::path::PathBuf {
        self.data_root
    }

    /// The layout under `data_root`: `database/zhitiku.sqlite3`, `resources`
    /// with its `.staging` directory, `templates`, `backup` and `export`.
    pub fn new(data_root: std::path::PathBuf) -> (paths: Self)
        ensures
            paths.root() == data_root,
    {
        let database_dir = join_path(&data_root, "database");
        let resources_dir = join_path(&data_root, "resources");
        DatabasePaths {
            database_file: join_path(&database_dir, "zhitiku.sqlite3"),
            resource_staging_dir: join_path(&resources_dir, ".staging"),
            templates_dir: join_path(&data_root, "templates"),
            backup_dir: join_path(&data_root, "backup"),
            export_dir: join_path(&data_root, "export"),
            data_root,
            database_dir,
            resources_dir,
        }
    }

    /// The data root.
    pub fn data_root(&self) -> (path: &std::path::PathBuf)
        ensures
            *path == self.root(),
    {
        &self.data_root
    }

    /// The directory of the database.
    pub fn database_dir(&self) -> &std::path::PathBuf {
        &self.database_dir
    }

    /// The SQLite database file.
    pub fn database_file(&self) -> &std::path::PathBuf {
        &self.database_file
    }

    /// The managed resources directory.
    pub fn resources_dir(&self) -> &std::path::PathBuf {
        &self.resources_dir
    }

    /// Where resources are staged before they are committed.
    pub fn resource_staging_dir(&self) -> &std::path::PathBuf {
        &self.resource_staging_dir
    }

    /// The templates directory.
    pub fn templates_dir(&self) -> &std::path::PathBuf {
        &self.templates_dir
    }

    /// The backup directory.
    pub fn backup_dir(&self) -> &std::path::PathBuf {
        &self.backup_dir
    }

    /// The export directory.
    pub fn export_dir(&self) -> &std::path::PathBuf {
        &self.export_dir
    }
}

/// Longest compatibility label, in characters.
pub const MAX_LABEL_CHARS: usize = 40;

/// The decimal form of a signed number.
pub open spec fn signed_decimal(n: int) -> Seq<char> {
    if n < 0 {
        "-"@ + decimal((-n) as nat)
    } else {
        decimal(n as nat)
    }
}

/// The label given to a legacy entry renamed for compatibility: `原`, the
/// original name, `-`, a discriminator, cut to leave room for `-suffix`
/// within forty characters, then `-suffix` unless the suffix is zero.
pub open spec fn spec_compatibility_label(original: Seq<char>, discriminator: Seq<char>, suffix: i64) -> Seq<
    char,
> {
    let tail = if suffix == 0 { Seq::empty() } else { "-"@ + signed_decimal(suffix as int) };
    let base = "原"@ + original + "-"@ + discriminator;
    let limit = if tail.len() >= MAX_LABEL_CHARS { 0 } else { MAX_LABEL_CHARS - tail.len() };
    base.take(if base.len() < limit { base.len() as int } else { limit as int }) + tail
}

/// Appends the decimal form of a signed number.
fn push_signed_decimal(out: &mut String, n: i64)
    ensures
        final(out)@ == old(out)@ + signed_decimal(n as int),
{
    if n < 0 {
        out.push('-');
        let magnitude = ((-(n + 1)) as u64) + 1;
        push_decimal(out, magnitude);
        proof {
            reveal_strlit("-");
            assert(old(out)@.push('-') + decimal(magnitude as nat) =~= old(out)@ + ("-"@ + decimal(
                magnitude as nat,
            )));
        }
    } else {
        push_decimal(out, n as u64);
    }
}

/// The label given to a legacy entry renamed for compatibility.
pub fn legacy_compatibility_label(original: &str, discriminator: &str, suffix: i64) -> (label: String)
    ensures
        label@ == spec_compatibility_label(original@, discriminator@, suffix),
{
    proof {
        reveal_strlit("");
    }
    let mut tail = String::new();
    if suffix != 0 {
        tail.append("-");
        push_signed_decimal(&mut tail, suffix);
    }
    let mut base = "原".to_owned();
    base.append(original);
    base.append("-");
    base.append(discriminator);
    let tail_chars = chars_of(tail.as_str());
    let base_chars = chars_of(base.as_str());
    let limit = if tail_chars.len() >= MAX_LABEL_CHARS { 0 } else { MAX_LABEL_CHARS - tail_chars.len() };
    let keep = if base_chars.len() < limit { base_chars.len() } else { limit };
    let mut label = string_from_chars(vstd::slice::slice_subrange(base_chars.as_slice(), 0, keep));
    label.append(tail.as_str());
    assert(base_chars@.subrange(0, keep as int) == base_chars@.take(keep as int));
    label
}

} // verus!
