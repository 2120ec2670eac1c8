use ohmyblog::error::ScanError;
use ohmyblog::post::new_post;
use ohmyblog::rewrite::{apply_edits_checked, Edit};

fn chars(s: &str) -> Vec<char> {
    s.chars().collect()
}

fn text(v: &[char]) -> String {
    v.iter().collect()
}

#[test]
fn created_attribute_is_recorded_and_removed() {
    let mut content = String::from("[created:2024-01-01]\nHello world");
    let post = new_post(String::from("a.md"), &mut content).unwrap();
    assert_eq!(post.created, "2024-01-01");
    assert_eq!(content, "Hello world");
}

#[test]
fn tags_and_status_are_recorded_in_order() {
    let mut content = String::from("[tag:rust][tag:tools][status:draft]\nBody");
    let post = new_post(String::from("a.md"), &mut content).unwrap();
    assert_eq!(post.tags, vec!["rust".to_string(), "tools".to_string()]);
    assert_eq!(post.status, Some("draft".to_string()));
    assert_eq!(content, "Body");
}

#[test]
fn backtick_fenced_tag_is_inert() {
    let original = "before `[not a tag]` after";
    let mut content = String::from(original);
    let post = new_post(String::from("a.md"), &mut content).unwrap();
    assert_eq!(content, original);
    assert!(post.tags.is_empty());
    assert!(post.links.is_empty());
    assert!(post.images.is_empty());
    assert_eq!(post.created, "");
    assert!(post.status.is_none());
}

#[test]
fn fenced_block_keeps_annotations_inert() {
    let original = "```\n[created:2024]\n```\nrest";
    let mut content = String::from(original);
    let post = new_post(String::from("a.md"), &mut content).unwrap();
    assert_eq!(content, original);
    assert_eq!(post.created, "");
}

#[test]
fn escaped_brackets_are_inert() {
    let original = "a \\[created:2024] b";
    let mut content = String::from(original);
    let post = new_post(String::from("a.md"), &mut content).unwrap();
    assert_eq!(content, original);
    assert_eq!(post.created, "");
}

#[test]
fn preview_image_is_rewritten_and_recorded() {
    let mut content = String::from("![alt](img/photo.jpg){preview}");
    let post = new_post(String::from("a.md"), &mut content).unwrap();
    assert_eq!(post.images, vec!["img/photo.jpg".to_string()]);
    assert_eq!(
        post.preview_images,
        vec![("img/photo.jpg".to_string(), "img/preview/photo.jpg".to_string())]
    );
    assert!(content.contains("img/preview/photo.jpg"));
    assert!(!content.contains("{preview}"));
    assert_eq!(content, "![alt](img/preview/photo.jpg)");
}

#[test]
fn plain_image_and_link_are_recorded() {
    let mut content = String::from("![alt](img/a.png) and [text](other.md) end");
    let post = new_post(String::from("a.md"), &mut content).unwrap();
    assert_eq!(post.images, vec!["img/a.png".to_string()]);
    assert_eq!(post.links, vec!["other.md".to_string()]);
    assert_eq!(content, "![alt](img/a.png) and [text](other.md) end");
}

#[test]
fn rewritten_text_length_matches_edit_arithmetic() {
    // one deleted span (with its newline) and one replaced span
    let input = "[created:2024-01-01]\n![alt](img/photo.jpg){preview} x";
    let mut content = String::from(input);
    new_post(String::from("a.md"), &mut content).unwrap();
    // deleted: 21 chars; replaced span: 30 chars -> 29 chars
    assert_eq!(content.chars().count(), input.chars().count() - 21 - 1);
}

#[test]
fn rescanning_rewritten_text_finds_no_known_attributes() {
    let mut content = String::from("[created:2024-01-01]\n[tag:a][status:x]\n![p](img/a.jpg){preview} done");
    new_post(String::from("a.md"), &mut content).unwrap();
    let mut again = content.clone();
    let post = new_post(String::from("a.md"), &mut again).unwrap();
    assert_eq!(post.created, "");
    assert!(post.tags.is_empty());
    assert!(post.status.is_none());
    assert_eq!(again, content);
}

#[test]
fn scanning_twice_is_deterministic() {
    let input = "[created:2024]\n![a](img/b.jpg){preview} [x](y.md) z";
    let mut c1 = String::from(input);
    let mut c2 = String::from(input);
    let p1 = new_post(String::from("a.md"), &mut c1).unwrap();
    let p2 = new_post(String::from("a.md"), &mut c2).unwrap();
    assert_eq!(c1, c2);
    assert_eq!(p1.created, p2.created);
    assert_eq!(p1.preview_images, p2.preview_images);
    assert_eq!(p1.links, p2.links);
}

#[test]
fn tag_opened_twice_is_fatal() {
    let mut content = String::from("[[a]x");
    let e = new_post(String::from("a.md"), &mut content).unwrap_err();
    assert!(matches!(e, ScanError::TagOpenedTwice { pos: 1 }));
    assert_eq!(content, "[[a]x");
}

#[test]
fn link_opened_twice_is_fatal() {
    let mut content = String::from("[a](b [c](d)x");
    let e = new_post(String::from("a.md"), &mut content).unwrap_err();
    assert!(matches!(e, ScanError::LinkOpenedTwice { .. }));
}

#[test]
fn too_many_code_ticks_is_fatal() {
    let mut content = String::from("````x");
    let e = new_post(String::from("a.md"), &mut content).unwrap_err();
    assert!(matches!(e, ScanError::TooManyCodeTicks { .. }));
}

#[test]
fn unbalanced_code_fence_is_fatal() {
    let mut content = String::from("`abc");
    let e = new_post(String::from("a.md"), &mut content).unwrap_err();
    assert!(matches!(e, ScanError::UnbalancedCodeFence));
}

#[test]
fn late_tag_closing_is_fatal() {
    let mut content = String::from("[created:2024]");
    let e = new_post(String::from("a.md"), &mut content).unwrap_err();
    assert!(matches!(e, ScanError::LateTagClosing));
}

#[test]
fn unknown_attribute_with_value_is_fatal() {
    let mut content = String::from("[foo:bar] x");
    let e = new_post(String::from("a.md"), &mut content).unwrap_err();
    assert!(matches!(e, ScanError::UnknownAttribute { .. }));
}

#[test]
fn known_attribute_without_value_is_fatal() {
    let mut content = String::from("[tag] x");
    let e = new_post(String::from("a.md"), &mut content).unwrap_err();
    assert!(matches!(e, ScanError::KnownAttributeWithoutHandler { .. }));
}

#[test]
fn unknown_simple_tag_without_value_is_ignored() {
    let original = "[foo] x";
    let mut content = String::from(original);
    let post = new_post(String::from("a.md"), &mut content).unwrap();
    assert_eq!(content, original);
    assert!(post.tags.is_empty());
}

#[test]
fn ascending_edits_apply() {
    let t = chars("abcdef");
    let edits = vec![
        Edit { start: 0, end: 2, replacement: Vec::new() },
        Edit { start: 3, end: 4, replacement: chars("XY") },
    ];
    let out = apply_edits_checked(&t, &edits).unwrap();
    assert_eq!(text(&out), "cXYef");
}

#[test]
fn out_of_order_edits_are_rejected() {
    let t = chars("abcdef");
    let edits = vec![
        Edit { start: 3, end: 4, replacement: Vec::new() },
        Edit { start: 0, end: 2, replacement: Vec::new() },
    ];
    assert!(apply_edits_checked(&t, &edits).is_none());
}

#[test]
fn overlapping_edits_are_rejected() {
    let t = chars("abcdef");
    let edits = vec![
        Edit { start: 0, end: 3, replacement: Vec::new() },
        Edit { start: 2, end: 4, replacement: Vec::new() },
    ];
    assert!(apply_edits_checked(&t, &edits).is_none());
}

#[test]
fn out_of_bounds_edits_are_rejected() {
    let t = chars("abc");
    let edits = vec![Edit { start: 1, end: 9, replacement: Vec::new() }];
    assert!(apply_edits_checked(&t, &edits).is_none());
}

#[test]
fn empty_input_scans_to_an_empty_post() {
    let mut content = String::new();
    let post = new_post(String::from("a.md"), &mut content).unwrap();
    assert_eq!(content, "");
    assert_eq!(post.created, "");
    assert!(post.tags.is_empty());
    assert!(post.links.is_empty());
}

#[test]
fn multibyte_text_keeps_character_offsets() {
    let mut content = String::from("héllo wörld [created:2024-02-03]\nrest");
    let post = new_post(String::from("a.md"), &mut content).unwrap();
    assert_eq!(post.created, "2024-02-03");
    assert_eq!(content, "héllo wörld rest");
}

#[test]
fn adjacent_annotations_are_each_recognized() {
    let mut content = String::from("[created:2024-05-06][tag:a] x");
    let post = new_post(String::from("a.md"), &mut content).unwrap();
    assert_eq!(post.created, "2024-05-06");
    assert_eq!(post.tags, vec!["a".to_string()]);
    assert_eq!(content, " x");
}

#[test]
fn value_keeps_text_after_further_colons() {
    let mut content = String::from("[created:2024-01-01T10:30] x");
    let post = new_post(String::from("a.md"), &mut content).unwrap();
    assert_eq!(post.created, "2024-01-01T10:30");
}

#[test]
fn unterminated_tag_open_is_fatal() {
    let mut content = String::from("[abc");
    let e = new_post(String::from("a.md"), &mut content).unwrap_err();
    assert!(matches!(e, ScanError::LateTagClosing));
    assert_eq!(content, "[abc");
}

#[test]
fn unterminated_link_open_is_fatal() {
    let mut content = String::from("[a](b");
    let e = new_post(String::from("a.md"), &mut content).unwrap_err();
    assert!(matches!(e, ScanError::LateTagClosing));
}

#[test]
fn unterminated_class_open_is_fatal() {
    let mut content = String::from("![a](b){c");
    let e = new_post(String::from("a.md"), &mut content).unwrap_err();
    assert!(matches!(e, ScanError::LateTagClosing));
}

#[test]
fn image_recognized_before_following_tag() {
    let mut content = String::from("![x](a)[b] z");
    let post = new_post(String::from("a.md"), &mut content).unwrap();
    assert_eq!(post.images, vec!["a".to_string()]);
    assert_eq!(content, "![x](a)[b] z");
}

#[test]
fn link_recognized_before_backtick() {
    let mut content = String::from("[x](a)`c` z");
    let post = new_post(String::from("a.md"), &mut content).unwrap();
    assert_eq!(post.links, vec!["a".to_string()]);
    assert_eq!(content, "[x](a)`c` z");
}

#[test]
fn link_closed_by_final_character_is_recorded() {
    let mut content = String::from("see [x](a.md)");
    let post = new_post(String::from("a.md"), &mut content).unwrap();
    assert_eq!(post.links, vec!["a.md".to_string()]);
}
