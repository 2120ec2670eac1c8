use ohmyblog::auth::{AuthDecision, AuthMiddleware};
use ohmyblog::config::Config;
use ohmyblog::error::{GeneratorError, LinkFailCause, PipelineError};
use ohmyblog::pipeline::{
    build_tag_map, check_unused_files, collect_images, html_target_name, is_custom_post,
    posts_with_created, preview_image_jobs, sort_posts, tag_list_of, verify_links,
};
use ohmyblog::post::Post;
use ohmyblog::utils::{
    accept_name, get_entries, make_change, relative_name, search, ChangeKind, File,
};

fn post(filename: &str) -> Post {
    Post {
        filename: filename.to_string(),
        tags: Vec::new(),
        created: String::new(),
        status: None,
        links: Vec::new(),
        images: Vec::new(),
        preview_images: Vec::new(),
        headline_ids: Vec::new(),
    }
}

fn strs(v: &[&str]) -> Vec<String> {
    v.iter().map(|s| s.to_string()).collect()
}

#[test]
fn posts_sort_newest_first_and_stay_stable() {
    let mut a = post("a.md");
    a.created = "2024-01-01".to_string();
    let mut b = post("b.md");
    b.created = "2024-03-01".to_string();
    let mut c = post("c.md");
    c.created = "2024-01-01".to_string();
    let mut d = post("d.md");
    d.created = String::new();
    let mut posts = vec![a, b, c, d];
    sort_posts(&mut posts);
    let names: Vec<&str> = posts.iter().map(|p| p.filename.as_str()).collect();
    // newest first; equal dates keep discovery order; the empty date sorts last
    assert_eq!(names, vec!["b.md", "a.md", "c.md", "d.md"]);
}

#[test]
fn undated_posts_leave_the_listing() {
    let mut a = post("a.md");
    a.created = "2024-01-01".to_string();
    let b = post("b.md");
    let filtered = posts_with_created(&vec![a, b]);
    assert_eq!(filtered.len(), 1);
    assert_eq!(filtered[0].filename, "a.md");
}

#[test]
fn tag_map_keeps_first_seen_order() {
    let mut a = post("a.md");
    a.tags = strs(&["rust", "tools"]);
    let mut b = post("b.md");
    b.tags = strs(&["tools", "web"]);
    let map = build_tag_map(&vec![a, b]);
    let tags = tag_list_of(&map);
    assert_eq!(tags, strs(&["rust", "tools", "web"]));
    assert_eq!(map[1].1.len(), 2);
    assert_eq!(map[1].1[0].filename, "a.md");
    assert_eq!(map[1].1[1].filename, "b.md");
}

#[test]
fn missing_link_fails_as_unknown_file() {
    let mut a = post("a.md");
    a.links = strs(&["missing.md"]);
    let e = verify_links(&vec![a], &strs(&["a.md"]), &Vec::new()).unwrap_err();
    match e {
        PipelineError::LinkNotFound { link, cause } => {
            assert_eq!(link, "missing.md");
            assert!(matches!(cause, LinkFailCause::UnknownFile));
        },
        _ => panic!("wrong error"),
    }
}

#[test]
fn external_and_existing_links_pass() {
    let mut a = post("a.md");
    a.links = strs(&["http://example.org/x", "other.md"]);
    assert!(verify_links(&vec![a], &strs(&["other.md"]), &Vec::new()).is_ok());
}

#[test]
fn generated_page_link_with_known_fragment_passes() {
    let mut a = post("a.md");
    a.links = strs(&["b.html#My_Title"]);
    let mut b = post("b.md");
    b.headline_ids = strs(&["My_Title"]);
    let posts = vec![a, b];
    assert!(verify_links(&posts, &Vec::new(), &strs(&["b.html"])).is_ok());
}

#[test]
fn unknown_fragment_fails_as_unknown_headline_id() {
    let mut a = post("a.md");
    a.links = strs(&["b.html#Nope"]);
    let mut b = post("b.md");
    b.headline_ids = strs(&["My_Title"]);
    let posts = vec![a, b];
    let e = verify_links(&posts, &Vec::new(), &strs(&["b.html"])).unwrap_err();
    match e {
        PipelineError::LinkNotFound { link, cause } => {
            assert_eq!(link, "b.html#Nope");
            assert!(matches!(cause, LinkFailCause::UnknownHeadlineId));
        },
        _ => panic!("wrong error"),
    }
}

#[test]
fn orphans_are_reported_without_referenced_files() {
    let mut a = post("a.md");
    a.links = strs(&["../posts/doc.pdf"]);
    a.images = strs(&["pic.jpg"]);
    a.preview_images = vec![("pic.jpg".to_string(), "preview/pic.jpg".to_string())];
    let files = vec![
        File { name: "a.md".to_string(), is_dir: false },
        File { name: "a.html".to_string(), is_dir: false },
        File { name: "dir".to_string(), is_dir: true },
        File { name: "doc.pdf".to_string(), is_dir: false },
        File { name: "pic.jpg".to_string(), is_dir: false },
        File { name: "preview/pic.jpg".to_string(), is_dir: false },
        File { name: "overview/rust_cutout.jpg".to_string(), is_dir: false },
        File { name: "stray.bin".to_string(), is_dir: false },
    ];
    let orphans = check_unused_files(&vec![a], &strs(&["rust"]), &files);
    assert_eq!(orphans, strs(&["stray.bin"]));
}

#[test]
fn preview_jobs_skip_existing_and_duplicates() {
    let mut a = post("a.md");
    a.preview_images = vec![
        ("x.jpg".to_string(), "preview/x.jpg".to_string()),
        ("y.jpg".to_string(), "preview/y.jpg".to_string()),
    ];
    let mut b = post("b.md");
    b.preview_images = vec![("x.jpg".to_string(), "preview/x.jpg".to_string())];
    let jobs = preview_image_jobs(&vec![a, b], &strs(&["preview/y.jpg"]));
    assert_eq!(jobs, vec![("x.jpg".to_string(), "preview/x.jpg".to_string())]);
}

#[test]
fn collect_images_keeps_order_and_duplicates() {
    let mut a = post("a.md");
    a.images = strs(&["1.jpg", "2.jpg"]);
    let mut b = post("b.md");
    b.images = strs(&["1.jpg"]);
    assert_eq!(collect_images(&vec![a, b]), strs(&["1.jpg", "2.jpg", "1.jpg"]));
}

#[test]
fn target_names_and_custom_posts() {
    assert_eq!(html_target_name(&"dir/post.md".to_string()), "dir/post.html");
    assert!(is_custom_post(&"recent-posts.md".to_string()));
    assert!(is_custom_post(&"overview.md".to_string()));
    assert!(!is_custom_post(&"other.md".to_string()));
}

#[test]
fn discovery_filter_rules() {
    let root = "in/posts".to_string();
    let md = Some(".md".to_string());
    assert!(accept_name(&"a.md".to_string(), &root, &md));
    assert!(!accept_name(&"a.txt".to_string(), &root, &md));
    assert!(accept_name(&"a.txt".to_string(), &root, &None));
    assert!(!accept_name(&".git".to_string(), &root, &None));
    assert!(!accept_name(&"".to_string(), &root, &None));
    assert!(!accept_name(&root.clone(), &root, &None));
    assert_eq!(relative_name(&"in/posts/a/b.md".to_string(), &"in/posts".to_string()), "a/b.md");
}

#[test]
fn search_finds_first_match() {
    let names = strs(&["a", "b", "a"]);
    assert_eq!(search(&names, &"a".to_string()), Some(0));
    assert_eq!(search(&names, &"b".to_string()), Some(1));
    assert_eq!(search(&names, &"z".to_string()), None);
}

#[test]
fn entries_group_assets_and_report_unknowns() {
    let mut files = vec![
        File { name: "post.md".to_string(), is_dir: false },
        File { name: "post".to_string(), is_dir: true },
        File { name: "post/pic.jpg".to_string(), is_dir: false },
        File { name: "loose.bin".to_string(), is_dir: false },
    ];
    let (entries, unknowns) = get_entries(&mut files);
    assert_eq!(entries.len(), 1);
    assert_eq!(entries[0].name, "post.md");
    assert_eq!(entries[0].assets, strs(&["post/pic.jpg"]));
    assert_eq!(unknowns.len(), 1);
    assert_eq!(unknowns[0].name, "loose.bin");
    assert_eq!(files.len(), 1);
    assert_eq!(files[0].name, "loose.bin");
}

#[test]
fn auth_decisions() {
    let token = "secret".to_string();
    let path = "/api/files".to_string();
    assert_eq!(
        AuthMiddleware::decide(&"/other".to_string(), None, &token),
        AuthDecision::PassThrough
    );
    assert_eq!(AuthMiddleware::decide(&path, None, &token), AuthDecision::NoHeader);
    assert_eq!(
        AuthMiddleware::decide(&path, Some(&Vec::new()), &token),
        AuthDecision::EmptyHeader
    );
    assert_eq!(
        AuthMiddleware::decide(&path, Some(&strs(&["a", "b"])), &token),
        AuthDecision::MultipleHeaders
    );
    assert_eq!(
        AuthMiddleware::decide(&path, Some(&strs(&["Bearer x"])), &token),
        AuthDecision::InvalidTokenType
    );
    assert_eq!(
        AuthMiddleware::decide(&path, Some(&strs(&["Token wrong"])), &token),
        AuthDecision::InvalidToken
    );
    assert_eq!(
        AuthMiddleware::decide(&path, Some(&strs(&["Token secret"])), &token),
        AuthDecision::Authorized
    );
}

#[test]
fn config_paths_derive_from_working_path() {
    let c = Config::new("work".to_string(), "t".to_string(), "key".to_string());
    assert_eq!(c.get_input_path(), "work/posts");
    assert_eq!(c.get_output_path(), "work/p");
}

#[test]
fn change_records_keep_rename_information() {
    let c = make_change("old.md".to_string(), ChangeKind::Renamed, Some("new.md".to_string()), true, false);
    assert_eq!(c.name, "new.md");
    assert_eq!(c.old_name, Some("old.md".to_string()));
    assert_eq!(c.change, "Renamed");
    let c2 = make_change("a.md".to_string(), ChangeKind::Untracked, None, false, true);
    assert_eq!(c2.name, "a.md");
    assert_eq!(c2.old_name, None);
    assert_eq!(c2.change, "Untracked");
}

#[test]
fn generator_error_carries_its_message() {
    let e = GeneratorError::new("boom".to_string());
    assert_eq!(e.message, "boom");
}

#[test]
fn relative_prefix_links_resolve_under_the_input_root() {
    let mut a = post("a.md");
    a.links = strs(&["../posts/pic.jpg"]);
    assert!(verify_links(&vec![a], &strs(&["pic.jpg"]), &Vec::new()).is_ok());
}
