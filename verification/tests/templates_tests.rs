use zahuyach::templates::{list_basic_template_files, BasicTemplate};

#[test]
fn test_list_basic_template_files() {
    let files = list_basic_template_files();
    assert!(!files.is_empty(), "Should have some template files");
    // Check that config.toml exists
    assert!(files.iter().any(|f| f.ends_with("config.toml")));
}

#[test]
fn test_basic_template_files_have_content() {
    for path in BasicTemplate::iter() {
        let content = BasicTemplate::get(&path);
        assert!(content.is_some());
        assert!(!content.unwrap().is_empty());
    }
    assert!(BasicTemplate::get("missing.txt").is_none());
    assert_eq!(
        list_basic_template_files(),
        vec![
            "config.toml",
            "content/hello-world.md",
            "templates/index.html",
            "templates/post.html",
            "static/style.css"
        ]
    );
}
