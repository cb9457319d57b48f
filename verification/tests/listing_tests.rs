use aterm::dirlist::{
    dir_entry_visible, dts_virtual_path, is_dts_file, is_ignored_dir, is_important_dotfile,
    project_entry_visible, project_rel_path, sort_dir_entries, sort_project_entries, DirEntry,
    ProjectFileEntry,
};
use aterm::iterm::iterm_profile_from_fields;
use aterm::window::{parse_window_label, window_label, window_url};

#[test]
fn important_dotfiles() {
    assert!(is_important_dotfile(".env"));
    assert!(is_important_dotfile(".env.local"));
    assert!(is_important_dotfile(".gitignore"));
    assert!(is_important_dotfile(".editorconfig"));
    assert!(!is_important_dotfile(".env.test"));
    assert!(!is_important_dotfile(".git"));
    assert!(!is_important_dotfile("env"));
}

#[test]
fn ignored_directories() {
    assert!(is_ignored_dir("node_modules"));
    assert!(is_ignored_dir(".git"));
    assert!(is_ignored_dir("target"));
    assert!(is_ignored_dir(".venv"));
    assert!(!is_ignored_dir("src"));
}

#[test]
fn browser_visibility() {
    assert!(dir_entry_visible("src"));
    assert!(dir_entry_visible(".."));
    assert!(!dir_entry_visible(".git"));
    assert!(!dir_entry_visible(".hidden"));
}

#[test]
fn explorer_visibility() {
    assert!(project_entry_visible("src", true));
    assert!(project_entry_visible(".env", false));
    assert!(!project_entry_visible(".hidden", false));
    assert!(!project_entry_visible("node_modules", true));
    assert!(project_entry_visible("node_modules", false));
}

#[test]
fn explorer_relative_paths() {
    assert_eq!(project_rel_path(&None, "main.rs"), "main.rs");
    assert_eq!(project_rel_path(&Some("".to_string()), "main.rs"), "main.rs");
    assert_eq!(
        project_rel_path(&Some("src/app".to_string()), "main.rs"),
        "src/app/main.rs"
    );
}

#[test]
fn type_definition_paths() {
    assert!(is_dts_file("index.d.ts"));
    assert!(!is_dts_file("index.ts"));
    assert!(!is_dts_file("d.ts"));
    assert!(is_dts_file(".d.ts"));
    assert_eq!(
        dts_virtual_path("@types/react", "index.d.ts"),
        "node_modules/@types/react/index.d.ts"
    );
}

fn entry(name: &str, is_dir: bool) -> DirEntry {
    DirEntry {
        name: name.to_string(),
        path: format!("/p/{name}"),
        is_dir,
        is_git_repo: false,
    }
}

#[test]
fn browser_entries_sort_dirs_first_then_case_insensitive() {
    let sorted = sort_dir_entries(vec![
        entry("b.txt", false),
        entry("A", true),
        entry("a.txt", false),
        entry("C", true),
        entry("Backup.txt", false),
    ]);
    let names: Vec<&str> = sorted.iter().map(|e| e.name.as_str()).collect();
    assert_eq!(names, vec!["A", "C", "a.txt", "b.txt", "Backup.txt"]);
}

#[test]
fn explorer_entries_sort_the_same_way() {
    let sorted = sort_project_entries(vec![
        ProjectFileEntry { name: "zeta.rs".to_string(), path: "zeta.rs".to_string(), is_dir: false },
        ProjectFileEntry { name: "src".to_string(), path: "src".to_string(), is_dir: true },
        ProjectFileEntry { name: "Alpha.rs".to_string(), path: "Alpha.rs".to_string(), is_dir: false },
    ]);
    let names: Vec<&str> = sorted.iter().map(|e| e.name.as_str()).collect();
    assert_eq!(names, vec!["src", "Alpha.rs", "zeta.rs"]);
}

#[test]
fn window_labels() {
    assert_eq!(window_label("pane", "42"), "pane-42");
    assert_eq!(window_url("pane", "42"), "index.html?mode=pane&id=42");
    let w = parse_window_label("pane-abc-1").expect("parses");
    assert_eq!(w.label, "pane-abc-1");
    assert_eq!(w.window_type, "pane");
    assert_eq!(w.id, "abc-1");
    assert!(parse_window_label("main").is_none());
    assert!(parse_window_label("nodash").is_none());
}

#[test]
fn iterm_profiles_from_fields() {
    let p = iterm_profile_from_fields(
        Some("Work".to_string()),
        Some("guid-1".to_string()),
        Some("".to_string()),
        Some("/home".to_string()),
    )
    .expect("profile");
    assert_eq!(p.name, "Work");
    assert_eq!(p.guid, "guid-1");
    assert_eq!(p.command, None);
    assert_eq!(p.working_directory, Some("/home".to_string()));

    let unnamed = iterm_profile_from_fields(None, Some("g".to_string()), None, None).expect("p");
    assert_eq!(unnamed.name, "Unnamed");

    assert!(iterm_profile_from_fields(Some("X".to_string()), None, None, None).is_none());
    assert!(
        iterm_profile_from_fields(Some("X".to_string()), Some("".to_string()), None, None)
            .is_none()
    );
}
