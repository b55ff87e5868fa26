use zen::markdown_path::{is_markdown_file_name, is_markdown_path, path_file_name};

#[test]
fn markdown_extensions_in_any_case() {
    assert!(is_markdown_path("/a/b/notes.md"));
    assert!(is_markdown_path("notes.MD"));
    assert!(is_markdown_path("/x/page.Markdown"));
    assert!(is_markdown_path("doc.mdx"));
    assert!(is_markdown_path("doc.mdwn"));
    assert!(is_markdown_path("doc.mdc"));
    assert!(!is_markdown_path("/x/foo.txt"));
    assert!(!is_markdown_path("/x/foo.md.txt"));
}

#[test]
fn documentation_file_names() {
    assert!(is_markdown_path("/x/README"));
    assert!(is_markdown_path("CHANGELOG"));
    assert!(is_markdown_path("/p/LICENSE"));
    assert!(is_markdown_path("NOTICE"));
    assert!(!is_markdown_path("/x/readme"));
    assert!(!is_markdown_path("/x/README.txt"));
}

#[test]
fn names_without_an_extension() {
    assert!(!is_markdown_path(".md"));
    assert!(!is_markdown_path("/a/b/"));
    assert!(!is_markdown_path("/"));
    assert!(!is_markdown_path(".."));
}

#[test]
fn markdown_file_names() {
    assert!(is_markdown_file_name("notes.MD"));
    assert!(is_markdown_file_name("README"));
    assert!(!is_markdown_file_name("README.txt"));
    assert!(!is_markdown_file_name(".md"));
}

#[test]
fn final_component_of_a_path() {
    assert_eq!(path_file_name("/a/b/notes.md"), Some("notes.md".to_string()));
    assert_eq!(path_file_name("notes.md"), Some("notes.md".to_string()));
    assert_eq!(path_file_name("/"), None);
    assert_eq!(path_file_name("a/.."), None);
}

#[test]
fn markdown_paths_with_directories() {
    assert!(is_markdown_path("docs/Guide.MD"));
    assert!(is_markdown_path("a/README"));
    assert!(is_markdown_path("x.mdx"));
    assert!(!is_markdown_path("README.txt"));
    assert!(!is_markdown_path("readme"));
    assert_eq!(path_file_name("docs/Guide.MD"), Some("Guide.MD".to_string()));
}

#[test]
fn markdown_paths_from_the_root() {
    assert!(is_markdown_path("/home/u/notes.md"));
    assert!(is_markdown_path("/README"));
    assert!(!is_markdown_path("/home/u/main.rs"));
    assert_eq!(path_file_name("/home/u/notes.md"), Some("notes.md".to_string()));
    assert_eq!(path_file_name("/notes.md"), Some("notes.md".to_string()));
}
