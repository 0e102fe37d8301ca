use std::path::PathBuf;
use zhitiku_desktop::db::{DatabasePaths, legacy_compatibility_label};

#[test]
fn compatibility_labels_keep_room_for_the_suffix() {
    assert_eq!(legacy_compatibility_label("单选题", "1", 0), "原单选题-1");
    assert_eq!(legacy_compatibility_label("单选题", "1", 2), "原单选题-1-2");
    assert_eq!(legacy_compatibility_label("a", "b", -3), "原a-b--3");
    let long = "x".repeat(60);
    let label = legacy_compatibility_label(&long, "d", 12);
    assert_eq!(label.chars().count(), 40);
    assert!(label.ends_with("-12"));
    assert!(label.starts_with("原xxx"));
}

#[test]
fn data_layout_lives_under_the_root() {
    let root = PathBuf::from("data-root");
    let paths = DatabasePaths::new(root.clone());
    assert_eq!(paths.data_root(), &root);
    assert_eq!(paths.database_file(), &root.join("database").join("zhitiku.sqlite3"));
    assert_eq!(paths.resource_staging_dir(), &root.join("resources").join(".staging"));
    assert_eq!(paths.templates_dir(), &root.join("templates"));
    assert_eq!(paths.backup_dir(), &root.join("backup"));
    assert_eq!(paths.resources_dir(), &root.join("resources"));
}
