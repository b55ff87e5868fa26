use zen::item_paths::{path_for_file, FileLocation};

fn project_file(components: &[&str], root: &str) -> FileLocation {
    FileLocation {
        is_project_file: true,
        components: components.iter().map(|c| c.to_string()).collect(),
        root_name: root.to_string(),
    }
}

#[test]
fn test_path_for_file() {
    let file = FileLocation { is_project_file: false, components: vec![], root_name: String::new() };
    assert_eq!(path_for_file(&file, 0, false, '/'), None);
}

#[test]
fn the_file_name_and_its_parents() {
    let file = project_file(&["src", "lib.rs"], "notes");
    assert_eq!(path_for_file(&file, 0, true, '/').as_deref(), Some("lib.rs"));
    assert_eq!(path_for_file(&file, 0, false, '/').as_deref(), Some(""));
    assert_eq!(path_for_file(&file, 1, false, '/').as_deref(), Some("src"));
    assert_eq!(path_for_file(&file, 1, true, '\\').as_deref(), Some("src\\lib.rs"));
}

#[test]
fn the_full_path_when_there_are_fewer_parents() {
    let file = project_file(&["src", "lib.rs"], "notes");
    assert_eq!(path_for_file(&file, 5, true, '/').as_deref(), Some("notes/src/lib.rs"));
    assert_eq!(path_for_file(&file, 5, false, '/').as_deref(), Some("notes/src"));
    let bare = project_file(&[], "");
    assert_eq!(path_for_file(&bare, 0, false, '/'), None);
    assert_eq!(path_for_file(&bare, 0, true, '/').as_deref(), Some(""));
}
