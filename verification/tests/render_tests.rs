use ohmyblog::error::RenderError;
use ohmyblog::htmlrw::{generate_extra_context, heading_pass, wrap_previews};
use ohmyblog::post::Post;
use ohmyblog::render::{render_body, Generator};

fn chars(s: &str) -> Vec<char> {
    s.chars().collect()
}

fn text(v: &[char]) -> String {
    v.iter().collect()
}

fn empty_post(filename: &str) -> Post {
    Post {
        filename: filename.to_string(),
        tags: Vec::new(),
        created: String::new(),
        status: None,
        links: Vec::new(),
        images: Vec::new(),
        preview_images: Vec::new(),
        headline_ids: Vec::new(),
    }
}

#[test]
fn heading_gets_an_id() {
    let (out, hls) = heading_pass(&chars("<h2>My Title</h2>")).unwrap();
    assert_eq!(text(&out), "<h2 id=\"My_Title\">My Title</h2>");
    assert!(text(&out).contains("id=\"My_Title\""));
    assert_eq!(hls.len(), 1);
    assert_eq!(hls[0].htype, '2');
    assert_eq!(hls[0].title, "My Title");
    assert_eq!(hls[0].id, "My_Title");
}

#[test]
fn mismatched_heading_levels_are_fatal() {
    let e = heading_pass(&chars("<h2>A</h3>")).unwrap_err();
    assert!(matches!(e, RenderError::HeadingTagMismatch));
}

#[test]
fn non_heading_lines_pass_through() {
    let (out, hls) = heading_pass(&chars("<p>hi</p>\n<h3>X y</h3>\nrest")).unwrap();
    assert_eq!(text(&out), "<p>hi</p>\n<h3 id=\"X_y\">X y</h3>\nrest");
    assert_eq!(hls.len(), 1);
}

#[test]
fn derived_preview_image_is_wrapped_in_anchor() {
    let pairs = vec![("img/photo.jpg".to_string(), "img/preview/photo.jpg".to_string())];
    let html = chars("<p><img src=\"img/preview/photo.jpg\" alt=\"alt\" /></p>");
    let out = wrap_previews(&html, &pairs);
    assert_eq!(
        text(&out),
        "<p><a href=\"img/photo.jpg\" class=\"preview-image\"><img src=\"img/preview/photo.jpg\" alt=\"alt\" /></a></p>"
    );
}

#[test]
fn unrelated_image_is_not_wrapped() {
    let pairs = vec![("img/photo.jpg".to_string(), "img/preview/photo.jpg".to_string())];
    let html = chars("<img src=\"img/other.jpg\" alt=\"a\" />");
    let out = wrap_previews(&html, &pairs);
    assert_eq!(text(&out), "<img src=\"img/other.jpg\" alt=\"a\" />");
}

#[test]
fn render_body_converts_markup_and_injects_ids() {
    let (html, hls) = render_body("## My Title", None, &Vec::new()).unwrap();
    assert!(html.contains("<h2 id=\"My_Title\">My Title</h2>"));
    assert_eq!(hls.len(), 1);
    assert_eq!(hls[0].id, "My_Title");
}

#[test]
fn render_body_supports_strikethrough_and_tables() {
    let (html, _) = render_body("a ~~x~~ b", None, &Vec::new()).unwrap();
    assert!(html.contains("<del>x</del>"));
    let (html2, _) = render_body("| a | b |\n|---|---|\n| c | d |", None, &Vec::new()).unwrap();
    assert!(html2.contains("<table>"));
}

#[test]
fn render_body_appends_fragment() {
    let extra = String::from("<p>extra</p>");
    let (html, _) = render_body("hello", Some(&extra), &Vec::new()).unwrap();
    assert!(html.ends_with("<p>extra</p>"));
    assert!(html.contains("<p>hello</p>"));
}

#[test]
fn render_body_is_deterministic() {
    let a = render_body("# T\n\nbody ~~x~~", None, &Vec::new()).unwrap();
    let b = render_body("# T\n\nbody ~~x~~", None, &Vec::new()).unwrap();
    assert_eq!(a.0, b.0);
}

#[test]
fn extra_context_reports_features_and_status() {
    let mut post = empty_post("a.md");
    post.preview_images.push(("a".to_string(), "b".to_string()));
    post.links.push("model.stl".to_string());
    post.status = Some("draft".to_string());
    let ec = generate_extra_context(&post).unwrap();
    assert_eq!(ec.features, vec!["preview".to_string(), "3d".to_string()]);
    assert_eq!(ec.status, Some("draft".to_string()));
}

#[test]
fn extra_context_absent_without_features_or_status() {
    let post = empty_post("a.md");
    assert!(generate_extra_context(&post).is_none());
}

#[test]
fn render_post_fills_headline_ids_and_renders_template() {
    let mut tera = tera::Tera::default();
    tera.add_raw_template("post.html", "[{{ content | safe }}]").unwrap();
    let gen = Generator::new(&tera, "in".to_string(), "out".to_string());
    let mut post = empty_post("a.md");
    let html = gen
        .render_post(&String::from("## My Title"), None, &mut post)
        .unwrap();
    assert!(html.starts_with("["));
    assert!(html.contains("<h2 id=\"My_Title\">My Title</h2>"));
    assert_eq!(post.headline_ids, vec!["My_Title".to_string()]);
}

#[test]
fn render_post_reports_template_failure() {
    let tera = tera::Tera::default();
    let gen = Generator::new(&tera, "in".to_string(), "out".to_string());
    let mut post = empty_post("a.md");
    let e = gen
        .render_post(&String::from("hello"), None, &mut post)
        .unwrap_err();
    assert!(matches!(e, RenderError::TemplateFailure { .. }));
}

#[test]
fn generate_preview_scans_and_renders() {
    let mut tera = tera::Tera::default();
    tera.add_raw_template("post.html", "{{ content | safe }}").unwrap();
    let gen = Generator::new(&tera, "in".to_string(), "out".to_string());
    let mut content = String::from("[created:2024-01-01]\n## My Title");
    let html = gen.generate_preview(&mut content).unwrap();
    assert_eq!(content, "## My Title");
    assert!(html.contains("<h2 id=\"My_Title\">My Title</h2>"));
}

#[test]
fn generate_preview_surfaces_scan_errors() {
    let tera = tera::Tera::default();
    let gen = Generator::new(&tera, "in".to_string(), "out".to_string());
    let mut content = String::from("[[x] y");
    let e = gen.generate_preview(&mut content).unwrap_err();
    assert_eq!(e.message, "tag opened twice");
}

#[test]
fn aggregate_pages_render_listing_and_deferred_content() {
    let mut tera = tera::Tera::default();
    tera.add_raw_template("post.html", "{{ content | safe }}").unwrap();
    tera.add_raw_template(
        "recent-posts.html",
        "{% for p in posts %}<li>{{ p.filename }}</li>{% endfor %}",
    )
    .unwrap();
    tera.add_raw_template(
        "overview.html",
        "{% for tag, group in tag_map %}<i>{{ tag }}:{{ group | length }}</i>{% endfor %}",
    )
    .unwrap();
    let gen = Generator::new(&tera, "in".to_string(), "out".to_string());
    let mut p1 = empty_post("a.md");
    p1.created = "2024-01-02".to_string();
    p1.tags.push("rust".to_string());
    let posts = vec![p1];
    let html = gen
        .recent_posts_page(&posts, &String::from("recent"))
        .unwrap();
    assert!(html.contains("<p>recent</p>"));
    assert!(html.contains("<li>a.md</li>"));
    let map = ohmyblog::pipeline::build_tag_map(&posts);
    let html2 = gen.overview_page(&map, &String::from("overview")).unwrap();
    assert!(html2.contains("<p>overview</p>"));
    assert!(html2.contains("<i>rust:1</i>"));
}

#[test]
fn idempotent_page_rendering() {
    let mut tera = tera::Tera::default();
    tera.add_raw_template("post.html", "{{ content | safe }}").unwrap();
    let gen = Generator::new(&tera, "in".to_string(), "out".to_string());
    let source = "[created:2024]\n## A b\n\n![x](img/i.jpg){preview}\n";
    let render_once = || {
        let mut content = String::from(source);
        let mut post = gen.new_post("a.md".to_string(), &mut content).unwrap();
        let extra = generate_extra_context(&post);
        gen.render_post(&content, extra.as_ref(), &mut post).unwrap()
    };
    assert_eq!(render_once(), render_once());
}

#[test]
fn heading_id_keeps_punctuation() {
    let (out, hls) = heading_pass(&chars("<h2>A, b.c!</h2>")).unwrap();
    assert_eq!(hls[0].id, "A,_b.c!");
    assert!(text(&out).contains("id=\"A,_b.c!\""));
}

#[test]
fn top_level_heading_still_gets_an_id() {
    let (out, hls) = heading_pass(&chars("<h1>Top</h1>")).unwrap();
    assert_eq!(hls[0].htype, '1');
    assert!(text(&out).contains("<h1 id=\"Top\">Top</h1>"));
}

#[test]
fn overview_keeps_first_seen_tag_order() {
    let mut tera = tera::Tera::default();
    tera.add_raw_template("post.html", "{{ content | safe }}").unwrap();
    tera.add_raw_template(
        "overview.html",
        "{% for tag, group in tag_map %}<i>{{ tag }}</i>{% endfor %}",
    )
    .unwrap();
    let gen = Generator::new(&tera, "in".to_string(), "out".to_string());
    let mut p1 = empty_post("a.md");
    p1.created = "2024-01-01".to_string();
    p1.tags = vec!["zeta".to_string(), "alpha".to_string()];
    let map = ohmyblog::pipeline::build_tag_map(&vec![p1]);
    let html = gen.overview_page(&map, &String::from("x")).unwrap();
    assert!(html.contains("<i>zeta</i><i>alpha</i>"));
}
