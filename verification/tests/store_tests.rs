use ficus::FileSystem;

#[test]
fn created_folder_ids_are_unique() {
    let mut fs = FileSystem::new();
    let mut ids: Vec<String> = Vec::new();
    for i in 0..10 {
        let id = fs.create_folder(format!("folder{}", i), None);
        assert!(!ids.contains(&id));
        ids.push(id);
    }
}

#[test]
fn generated_id_has_uuid_length() {
    let mut fs = FileSystem::new();
    let id = fs.create_folder("any".to_string(), None);
    assert_eq!(id.chars().count(), 36);
}

#[test]
fn rename_folder_missing_id_fails_and_changes_nothing() {
    let mut fs = FileSystem::new();
    let a = fs.create_folder("docs".to_string(), None);
    assert!(!fs.rename_folder("missing".to_string(), "x".to_string()));
    let all = fs.search_folders("".to_string(), None);
    assert_eq!(all.len(), 1);
    assert_eq!(all[0].id, a);
    assert_eq!(all[0].name, "docs");
    assert_eq!(all[0].parent_id, None);
}

#[test]
fn rename_folder_replaces_name_and_accepts_empty() {
    let mut fs = FileSystem::new();
    let a = fs.create_folder("docs".to_string(), None);
    assert!(fs.rename_folder(a.clone(), "archive".to_string()));
    let all = fs.search_folders("".to_string(), None);
    assert_eq!(all.len(), 1);
    assert_eq!(all[0].name, "archive");
    assert!(fs.rename_folder(a.clone(), "".to_string()));
    let all = fs.search_folders("".to_string(), None);
    assert_eq!(all[0].name, "");
}

#[test]
fn move_folder_succeeds_without_validating_target() {
    let mut fs = FileSystem::new();
    let a = fs.create_folder("a".to_string(), None);
    assert!(fs.move_folder(a.clone(), "dangling".to_string()));
    let under_dangling = fs.search_folders("".to_string(), Some("dangling".to_string()));
    assert_eq!(under_dangling.len(), 1);
    assert_eq!(under_dangling[0].id, a);
    assert_eq!(under_dangling[0].parent_id, Some("dangling".to_string()));
}

#[test]
fn move_folder_missing_source_fails() {
    let mut fs = FileSystem::new();
    let a = fs.create_folder("a".to_string(), None);
    assert!(!fs.move_folder("ghost".to_string(), a.clone()));
    let roots = fs.search_folders("".to_string(), None);
    assert_eq!(roots.len(), 1);
    assert_eq!(roots[0].parent_id, None);
}

#[test]
fn move_folder_onto_itself_is_accepted() {
    let mut fs = FileSystem::new();
    let a = fs.create_folder("a".to_string(), None);
    assert!(fs.move_folder(a.clone(), a.clone()));
    let under_a = fs.search_folders("".to_string(), Some(a.clone()));
    assert_eq!(under_a.len(), 1);
    assert_eq!(under_a[0].id, a);
}

#[test]
fn create_file_requires_existing_folder() {
    let mut fs = FileSystem::new();
    assert!(!fs.create_file("f1".to_string(), "readme".to_string(), "nowhere".to_string()));
    assert_eq!(fs.search_files("".to_string(), None).len(), 0);
    let a = fs.create_folder("a".to_string(), None);
    assert!(fs.create_file("f1".to_string(), "readme".to_string(), a.clone()));
    let files = fs.search_files("".to_string(), None);
    assert_eq!(files.len(), 1);
    assert_eq!(files[0].id, "f1");
    assert_eq!(files[0].name, "readme");
    assert_eq!(files[0].folder_id, a);
}

#[test]
fn create_file_with_same_id_overwrites() {
    let mut fs = FileSystem::new();
    let a = fs.create_folder("a".to_string(), None);
    let b = fs.create_folder("b".to_string(), None);
    assert!(fs.create_file("f1".to_string(), "readme".to_string(), a.clone()));
    assert!(fs.create_file("f1".to_string(), "notes".to_string(), b.clone()));
    let files = fs.search_files("".to_string(), None);
    assert_eq!(files.len(), 1);
    assert_eq!(files[0].name, "notes");
    assert_eq!(files[0].folder_id, b);
}

#[test]
fn move_file_validates_file_and_destination() {
    let mut fs = FileSystem::new();
    let a = fs.create_folder("a".to_string(), None);
    let b = fs.create_folder("b".to_string(), None);
    assert!(!fs.move_file("f1".to_string(), a.clone()));
    assert!(fs.create_file("f1".to_string(), "readme".to_string(), a.clone()));
    assert!(!fs.move_file("f1".to_string(), "nowhere".to_string()));
    assert!(fs.move_file("f1".to_string(), b.clone()));
    let in_b = fs.search_files("".to_string(), Some(b.clone()));
    assert_eq!(in_b.len(), 1);
    assert_eq!(in_b[0].id, "f1");
    assert_eq!(in_b[0].name, "readme");
    assert_eq!(fs.search_files("".to_string(), Some(a.clone())).len(), 0);
}

#[test]
fn search_folders_matches_substring_and_exact_parent() {
    let mut fs = FileSystem::new();
    let alpha = fs.create_folder("alpha".to_string(), None);
    let _beta = fs.create_folder("beta".to_string(), None);
    let _alphabet = fs.create_folder("alphabet".to_string(), Some(alpha.clone()));
    let roots_alpha = fs.search_folders("alpha".to_string(), None);
    assert_eq!(roots_alpha.len(), 1);
    assert_eq!(roots_alpha[0].id, alpha);
    let all_roots = fs.search_folders("".to_string(), None);
    assert_eq!(all_roots.len(), 2);
    let case_sensitive = fs.search_folders("Alpha".to_string(), None);
    assert_eq!(case_sensitive.len(), 0);
    let under_alpha = fs.search_folders("alpha".to_string(), Some(alpha.clone()));
    assert_eq!(under_alpha.len(), 1);
    assert_eq!(under_alpha[0].name, "alphabet");
}

#[test]
fn search_files_without_root_matches_every_folder() {
    let mut fs = FileSystem::new();
    let a = fs.create_folder("a".to_string(), None);
    let b = fs.create_folder("b".to_string(), None);
    assert!(fs.create_file("f1".to_string(), "report".to_string(), a.clone()));
    assert!(fs.create_file("f2".to_string(), "report".to_string(), b.clone()));
    assert!(fs.create_file("f3".to_string(), "image".to_string(), b.clone()));
    let everywhere = fs.search_files("report".to_string(), None);
    assert_eq!(everywhere.len(), 2);
    let only_b = fs.search_files("report".to_string(), Some(b.clone()));
    assert_eq!(only_b.len(), 1);
    assert_eq!(only_b[0].id, "f2");
}

#[test]
fn docs_scenario_parent_levels() {
    let mut fs = FileSystem::new();
    let a = fs.create_folder("docs".to_string(), None);
    let b = fs.create_folder("docs-sub".to_string(), Some(a.clone()));
    let at_root = fs.search_folders("docs".to_string(), None);
    assert_eq!(at_root.len(), 1);
    assert_eq!(at_root[0].id, a);
    let under_a = fs.search_folders("docs".to_string(), Some(a.clone()));
    assert_eq!(under_a.len(), 1);
    assert_eq!(under_a[0].id, b);
}

#[test]
fn failed_file_creation_leaves_file_untouched() {
    let mut fs = FileSystem::new();
    let a = fs.create_folder("a".to_string(), None);
    assert!(fs.create_file("f1".to_string(), "readme".to_string(), a.clone()));
    assert!(!fs.create_file("f1".to_string(), "other".to_string(), "nonexistent".to_string()));
    let files = fs.search_files("".to_string(), None);
    assert_eq!(files.len(), 1);
    assert_eq!(files[0].name, "readme");
    assert_eq!(files[0].folder_id, a);
}

#[test]
fn failed_file_move_leaves_folder_reference_unchanged() {
    let mut fs = FileSystem::new();
    let a = fs.create_folder("a".to_string(), None);
    assert!(fs.create_file("f1".to_string(), "readme".to_string(), a.clone()));
    assert!(!fs.move_file("f1".to_string(), "bogus-id".to_string()));
    let files = fs.search_files("".to_string(), None);
    assert_eq!(files.len(), 1);
    assert_eq!(files[0].folder_id, a);
}
