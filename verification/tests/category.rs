use port::category::{find_categories, is_assets_dir, same, SourceFile};

fn file(dir: &str, extension: Option<&str>, path: &str) -> SourceFile {
    SourceFile {
        dir: dir.to_string(),
        extension: extension.map(|e| e.to_string()),
        path: path.to_string(),
    }
}

#[test]
fn assets_directory() {
    assert!(is_assets_dir("assets"));
    assert!(!is_assets_dir("asset"));
    assert!(!is_assets_dir("assets2"));
    assert!(!is_assets_dir("Assets"));
    assert!(!is_assets_dir(""));
}

#[test]
fn equal_strings() {
    assert!(same("", ""));
    assert!(same("md", "md"));
    assert!(!same("md", "mdx"));
    assert!(!same("amd", "md"));
    assert!(!same("ab", "ba"));
}

#[test]
fn files_grouped_by_directory() {
    let files = vec![
        file("", None, "/site"),
        file("", None, "/site/blog"),
        file("blog", Some("md"), "/site/blog/a.md"),
        file("blog", Some("png"), "/site/blog/a.png"),
        file("notes", Some("md"), "/site/notes/x.md"),
        file("blog", Some("md"), "/site/blog/b.md"),
        file("blog/tech", Some("md"), "/site/blog/tech/c.md"),
        file("notes", Some("markdown"), "/site/notes/y.markdown"),
        file("notes", Some("md"), "/site/notes/z.md"),
        file("", Some("md"), "/site/top.md"),
    ];
    let groups = find_categories(&files);
    let shown: Vec<(String, Vec<String>)> =
        groups.iter().map(|g| (g.slug.clone(), g.paths.clone())).collect();
    assert_eq!(
        shown,
        vec![
            ("blog".to_string(), vec!["/site/blog/a.md".to_string(), "/site/blog/b.md".to_string()]),
            ("notes".to_string(), vec!["/site/notes/x.md".to_string(), "/site/notes/z.md".to_string()]),
            ("blog/tech".to_string(), vec!["/site/blog/tech/c.md".to_string()]),
            ("".to_string(), vec!["/site/top.md".to_string()]),
        ]
    );
}

#[test]
fn no_posts_no_categories() {
    assert_eq!(find_categories(&Vec::new()).len(), 0);
    let files = vec![file("blog", Some("txt"), "/site/blog/a.txt"), file("blog", None, "/site/blog/b")];
    assert_eq!(find_categories(&files).len(), 0);
}
