use vstd::prelude::*;

use crate::error::GeneratorError;
use crate::error::RenderError;
use crate::error::ScanError;
use crate::error::render_error_message;
use crate::error::scan_error_message;
use crate::error::spec_render_error_message;
use crate::error::spec_scan_error_message;
use crate::htmlrw::ExtraContext;
use crate::htmlrw::Headline;
use crate::htmlrw::SpecHeadline;
use crate::htmlrw::generate_extra_context;
use crate::htmlrw::heading_fold;
use crate::htmlrw::heading_pass;
use crate::htmlrw::headlines_view;
use crate::htmlrw::spec_features;
use crate::htmlrw::spec_heading_pass;
use crate::htmlrw::spec_wrap_previews;
use crate::htmlrw::wrap_previews;
use crate::post::Post;
use crate::post::SpecPost;
use crate::post::pairs_view;
use crate::post::posts_view;
use crate::post::spec_new_post;
use crate::post::strings_view;
use crate::pipeline::tag_map_view;
use crate::strutil::char_string;
use crate::strutil::chars_of;
use crate::strutil::push_all;
use crate::strutil::string_of;

verus! {

// ---------------------------------------------------------------------------
// The markup engine. Its output for a given text is a fixed value, named
// here; everything the pipeline does afterwards is specified against that
// name.
// ---------------------------------------------------------------------------

pub uninterp spec fn markdown_html_of(text: Seq<char>) -> Seq<char>;

/// Relies on comrak's `markdown_to_html`: the conversion of annotation-free
/// markup to HTML, with the strikethrough, table and footnote extensions
/// enabled; the result depends on the input text alone. Raw HTML in the
/// markup is not passed through (the engine's switch for it is a raw
/// identifier, which these sources avoid): inline HTML comes out as the
/// engine's placeholder comment.
#[verifier::external_body]
fn render_markdown(text: &str) -> (r: String)
    ensures
        r@ == markdown_html_of(text@),
{
    let mut options = comrak::Options::default();
    options.extension.strikethrough = true;
    options.extension.table = true;
    options.extension.footnotes = true;
    comrak::markdown_to_html(text, &options)
}

// ---------------------------------------------------------------------------
// The templating engine and the JSON values handed into its contexts. The
// values themselves are opaque; what they hold is modelled: `json_view`
// names the content of a JSON value, `ctx_entries` names a context's
// bindings, and `spec_rendered` records which template and entries each
// engine call was handed. The rendering itself stays the engine's.
// ---------------------------------------------------------------------------

/// The model of a JSON value handed to the templating engine. Objects are
/// modelled as unordered key-to-value maps; the order in which the engine
/// prints an object's keys is not modelled.
#[verifier::ext_equal]
pub enum JsonSpec {
    Null,
    Str(Seq<char>),
    Arr(Seq<JsonSpec>),
    Obj(Map<Seq<char>, JsonSpec>),
}

/// What a JSON value holds.
pub uninterp spec fn json_view(v: serde_json::Value) -> JsonSpec;

/// What a rendering context binds: key to JSON content.
pub uninterp spec fn ctx_entries(c: tera::Context) -> Map<Seq<char>, JsonSpec>;

/// The bindings of a fresh context.
pub open spec fn no_entries() -> Map<Seq<char>, JsonSpec> {
    Map::empty()
}

/// One engine call with this template name and these context entries had
/// this outcome (`Some` page, `None` failure). A relation, not a function:
/// nothing is assumed about which outputs a template set can produce.
pub uninterp spec fn spec_rendered(
    template: Seq<char>,
    entries: Map<Seq<char>, JsonSpec>,
    output: Option<Seq<char>>,
) -> bool;

pub open spec fn jsons_view(items: Seq<serde_json::Value>) -> Seq<JsonSpec> {
    items.map_values(|v: serde_json::Value| json_view(v))
}

/// The bindings of a key-value list collected into a map; a repeated key
/// keeps its last value, as the underlying map does.
pub open spec fn json_pairs_map(pairs: Seq<(String, serde_json::Value)>) -> Map<
    Seq<char>,
    JsonSpec,
>
    decreases pairs.len(),
{
    if pairs.len() == 0 {
        Map::empty()
    } else {
        json_pairs_map(pairs.drop_last()).insert(
            pairs.last().0@,
            json_view(pairs.last().1),
        )
    }
}

#[verifier::external_type_specification]
#[verifier::external_body]
pub struct ExTera(tera::Tera);

#[verifier::external_type_specification]
#[verifier::external_body]
pub struct ExContext(tera::Context);

#[verifier::external_type_specification]
#[verifier::external_body]
pub struct ExTeraError(tera::Error);

#[verifier::external_type_specification]
#[verifier::external_body]
pub struct ExJsonValue(serde_json::Value);

/// Relies on tera's `Context::new`: a fresh context with no bindings.
#[verifier::external_body]
fn context_new() -> (r: tera::Context)
    ensures
        ctx_entries(r) == no_entries(),
{
    tera::Context::new()
}

/// Relies on tera's `Context::insert`, binding the key to a string value;
/// a string always serializes.
#[verifier::external_body]
fn context_insert_str(ctx: &mut tera::Context, key: &str, value: &String)
    ensures
        ctx_entries(*final(ctx)) == ctx_entries(*old(ctx)).insert(
            key@,
            JsonSpec::Str(value@),
        ),
{
    ctx.insert(key.to_owned(), value);
}

/// Relies on tera's `Context::insert`, binding the key to a JSON value;
/// a JSON value always serializes, structure preserved.
#[verifier::external_body]
fn context_insert_json(ctx: &mut tera::Context, key: &str, value: &serde_json::Value)
    ensures
        ctx_entries(*final(ctx)) == ctx_entries(*old(ctx)).insert(key@, json_view(*value)),
{
    ctx.insert(key.to_owned(), value);
}

/// Relies on tera's `Tera::render` with the named template and context; the
/// outcome is recorded against the template name and the context's entries.
#[verifier::external_body]
fn tera_render(t: &tera::Tera, template: &str, ctx: &tera::Context) -> (r: Result<
    String,
    tera::Error,
>)
    ensures
        r matches Ok(s) ==> spec_rendered(template@, ctx_entries(*ctx), Some(s@)),
        r is Err ==> spec_rendered(template@, ctx_entries(*ctx), None),
{
    t.render(template, ctx)
}

/// Relies on the `Display` form of tera's errors for the failure message.
#[verifier::external_body]
fn tera_error_message(e: &tera::Error) -> String {
    format!("{}", e)
}

/// Relies on serde_json's `Value::String`.
#[verifier::external_body]
fn json_string(s: &String) -> (r: serde_json::Value)
    ensures
        json_view(r) == JsonSpec::Str(s@),
{
    serde_json::Value::String(s.clone())
}

/// Relies on serde_json's `Value::Array`.
#[verifier::external_body]
fn json_array(items: Vec<serde_json::Value>) -> (r: serde_json::Value)
    ensures
        json_view(r) == JsonSpec::Arr(jsons_view(items@)),
{
    serde_json::Value::Array(items)
}

/// Relies on serde_json's `Value::Null`.
#[verifier::external_body]
fn json_null() -> (r: serde_json::Value)
    ensures
        json_view(r) == JsonSpec::Null,
{
    serde_json::Value::Null
}

/// Relies on serde_json's `Value::Object` over a map collected from the
/// given keys and values; a repeated key keeps its last value.
#[verifier::external_body]
fn json_object(pairs: Vec<(String, serde_json::Value)>) -> (r: serde_json::Value)
    ensures
        json_view(r) == JsonSpec::Obj(json_pairs_map(pairs@)),
{
    serde_json::Value::Object(pairs.into_iter().collect())
}

// ---------------------------------------------------------------------------
// The JSON content the pages are rendered from, as spec-level models and
// the exact builders that realize them.
// ---------------------------------------------------------------------------

/// A list of strings as JSON.
pub open spec fn json_strs(items: Seq<Seq<char>>) -> JsonSpec {
    JsonSpec::Arr(items.map_values(|s: Seq<char>| JsonSpec::Str(s)))
}

/// A list of string pairs as JSON: an array of two-element arrays.
pub open spec fn json_str_pairs(pairs: Seq<(Seq<char>, Seq<char>)>) -> JsonSpec {
    JsonSpec::Arr(
        pairs.map_values(
            |p: (Seq<char>, Seq<char>)|
                JsonSpec::Arr(seq![JsonSpec::Str(p.0), JsonSpec::Str(p.1)]),
        ),
    )
}

/// An optional status as JSON.
pub open spec fn json_status(st: Option<Seq<char>>) -> JsonSpec {
    match st {
        Some(v) => JsonSpec::Str(v),
        None => JsonSpec::Null,
    }
}

/// A post as the JSON object the templates consume.
pub open spec fn json_post(p: SpecPost) -> JsonSpec {
    JsonSpec::Obj(
        Map::<Seq<char>, JsonSpec>::empty().insert("filename"@, JsonSpec::Str(p.filename)).insert(
            "tags"@,
            json_strs(p.tags),
        ).insert("created"@, JsonSpec::Str(p.created)).insert("status"@, json_status(p.status))
            .insert("links"@, json_strs(p.links)).insert("images"@, json_strs(p.images)).insert(
            "preview_images"@,
            json_str_pairs(p.preview_images),
        ).insert("headline_ids"@, json_strs(p.headline_ids)),
    )
}

pub open spec fn json_posts(ps: Seq<SpecPost>) -> JsonSpec {
    JsonSpec::Arr(ps.map_values(|p: SpecPost| json_post(p)))
}

/// A heading as the JSON object the templates consume.
pub open spec fn json_headline(h: SpecHeadline) -> JsonSpec {
    JsonSpec::Obj(
        Map::<Seq<char>, JsonSpec>::empty().insert("htype"@, JsonSpec::Str(seq![h.htype])).insert(
            "title"@,
            JsonSpec::Str(h.title),
        ).insert("id"@, JsonSpec::Str(h.id)),
    )
}

pub open spec fn json_headlines(hls: Seq<SpecHeadline>) -> JsonSpec {
    JsonSpec::Arr(hls.map_values(|h: SpecHeadline| json_headline(h)))
}

/// The tag map as a JSON object: tag to the posts carrying it.
pub open spec fn json_tag_entries(m: Seq<(Seq<char>, Seq<SpecPost>)>) -> Map<Seq<char>, JsonSpec>
    decreases m.len(),
{
    if m.len() == 0 {
        Map::empty()
    } else {
        json_tag_entries(m.drop_last()).insert(m.last().0, json_posts(m.last().1))
    }
}

pub open spec fn json_tag_map(m: Seq<(Seq<char>, Seq<SpecPost>)>) -> JsonSpec {
    JsonSpec::Obj(json_tag_entries(m))
}

/// The page template's context: the rendered body, the non-top headings
/// when any exist, the features when any exist, and the status when
/// present.
pub open spec fn spec_page_context(
    body: Seq<char>,
    hls: Seq<SpecHeadline>,
    features: Seq<Seq<char>>,
    status: Option<Seq<char>>,
) -> Map<Seq<char>, JsonSpec> {
    let m0 = Map::<Seq<char>, JsonSpec>::empty().insert("content"@, JsonSpec::Str(body));
    let filtered = spec_filter_headlines(hls);
    let m1 = if filtered.len() > 0 {
        m0.insert("headlines"@, json_headlines(filtered))
    } else {
        m0
    };
    let m2 = if features.len() > 0 {
        m1.insert("features"@, json_strs(features))
    } else {
        m1
    };
    match status {
        Some(st) => m2.insert("status"@, JsonSpec::Str(st)),
        None => m2,
    }
}

/// The recent-posts listing template's context.
pub open spec fn spec_listing_context(posts: Seq<SpecPost>) -> Map<Seq<char>, JsonSpec> {
    Map::<Seq<char>, JsonSpec>::empty().insert("posts"@, json_posts(posts))
}

/// The overview template's context.
pub open spec fn spec_overview_context(m: Seq<(Seq<char>, Seq<SpecPost>)>) -> Map<
    Seq<char>,
    JsonSpec,
> {
    Map::<Seq<char>, JsonSpec>::empty().insert("tag_map"@, json_tag_map(m))
}

fn json_string_list(items: &Vec<String>) -> (r: serde_json::Value)
    ensures
        json_view(r) == json_strs(strings_view(items@)),
{
    let mut vals: Vec<serde_json::Value> = Vec::new();
    let n = items.len();
    let mut i: usize = 0;
    while i < n
        invariant
            0 <= i <= n,
            n == items@.len(),
            vals@.len() == i,
            forall|k: int|
                0 <= k < i ==> json_view(#[trigger] vals@[k]) == JsonSpec::Str(items@[k]@),
        decreases n - i,
    {
        vals.push(json_string(&items[i]));
        i += 1;
    }
    let r = json_array(vals);
    proof {
        assert(jsons_view(vals@) =~= strings_view(items@).map_values(
            |t: Seq<char>| JsonSpec::Str(t),
        ));
    }
    r
}

fn json_pair_list(items: &Vec<(String, String)>) -> (r: serde_json::Value)
    ensures
        json_view(r) == json_str_pairs(pairs_view(items@)),
{
    let mut vals: Vec<serde_json::Value> = Vec::new();
    let n = items.len();
    let mut i: usize = 0;
    while i < n
        invariant
            0 <= i <= n,
            n == items@.len(),
            vals@.len() == i,
            forall|k: int|
                0 <= k < i ==> json_view(#[trigger] vals@[k]) == JsonSpec::Arr(
                    seq![JsonSpec::Str(items@[k].0@), JsonSpec::Str(items@[k].1@)],
                ),
        decreases n - i,
    {
        let mut pair: Vec<serde_json::Value> = Vec::new();
        pair.push(json_string(&items[i].0));
        pair.push(json_string(&items[i].1));
        let v = json_array(pair);
        proof {
            assert(jsons_view(pair@) =~= seq![
                JsonSpec::Str(items@[i as int].0@),
                JsonSpec::Str(items@[i as int].1@),
            ]);
        }
        vals.push(v);
        i += 1;
    }
    let r = json_array(vals);
    proof {
        assert(jsons_view(vals@) =~= pairs_view(items@).map_values(
            |p: (Seq<char>, Seq<char>)|
                JsonSpec::Arr(seq![JsonSpec::Str(p.0), JsonSpec::Str(p.1)]),
        ));
    }
    r
}

fn post_to_json(post: &Post) -> (r: serde_json::Value)
    ensures
        json_view(r) == json_post(post@),
{
    let mut pairs: Vec<(String, serde_json::Value)> = Vec::new();
    let ghost mut gm = Map::<Seq<char>, JsonSpec>::empty();
    let ghost mut p0 = pairs@;
    proof {
        assert(json_pairs_map(p0) == Map::<Seq<char>, JsonSpec>::empty());
    }
    pairs.push(("filename".to_owned(), json_string(&post.filename)));
    proof {
        assert(pairs@.drop_last() =~= p0);
        gm = gm.insert("filename"@, JsonSpec::Str(post@.filename));
        assert(json_pairs_map(pairs@) == gm);
        p0 = pairs@;
    }
    pairs.push(("tags".to_owned(), json_string_list(&post.tags)));
    proof {
        assert(pairs@.drop_last() =~= p0);
        gm = gm.insert("tags"@, json_strs(post@.tags));
        assert(json_pairs_map(pairs@) == gm);
        p0 = pairs@;
    }
    pairs.push(("created".to_owned(), json_string(&post.created)));
    proof {
        assert(pairs@.drop_last() =~= p0);
        gm = gm.insert("created"@, JsonSpec::Str(post@.created));
        assert(json_pairs_map(pairs@) == gm);
        p0 = pairs@;
    }
    let status = match &post.status {
        Some(st) => json_string(st),
        None => json_null(),
    };
    pairs.push(("status".to_owned(), status));
    proof {
        assert(pairs@.drop_last() =~= p0);
        gm = gm.insert("status"@, json_status(post@.status));
        assert(json_pairs_map(pairs@) == gm);
        p0 = pairs@;
    }
    pairs.push(("links".to_owned(), json_string_list(&post.links)));
    proof {
        assert(pairs@.drop_last() =~= p0);
        gm = gm.insert("links"@, json_strs(post@.links));
        assert(json_pairs_map(pairs@) == gm);
        p0 = pairs@;
    }
    pairs.push(("images".to_owned(), json_string_list(&post.images)));
    proof {
        assert(pairs@.drop_last() =~= p0);
        gm = gm.insert("images"@, json_strs(post@.images));
        assert(json_pairs_map(pairs@) == gm);
        p0 = pairs@;
    }
    pairs.push(("preview_images".to_owned(), json_pair_list(&post.preview_images)));
    proof {
        assert(pairs@.drop_last() =~= p0);
        gm = gm.insert("preview_images"@, json_str_pairs(post@.preview_images));
        assert(json_pairs_map(pairs@) == gm);
        p0 = pairs@;
    }
    pairs.push(("headline_ids".to_owned(), json_string_list(&post.headline_ids)));
    proof {
        assert(pairs@.drop_last() =~= p0);
        gm = gm.insert("headline_ids"@, json_strs(post@.headline_ids));
        assert(json_pairs_map(pairs@) == gm);
    }
    json_object(pairs)
}

fn posts_to_json(posts: &Vec<Post>) -> (r: serde_json::Value)
    ensures
        json_view(r) == json_posts(posts_view(posts@)),
{
    let mut vals: Vec<serde_json::Value> = Vec::new();
    let n = posts.len();
    let mut i: usize = 0;
    while i < n
        invariant
            0 <= i <= n,
            n == posts@.len(),
            vals@.len() == i,
            forall|k: int|
                0 <= k < i ==> json_view(#[trigger] vals@[k]) == json_post(posts@[k]@),
        decreases n - i,
    {
        vals.push(post_to_json(&posts[i]));
        i += 1;
    }
    let r = json_array(vals);
    proof {
        assert(jsons_view(vals@) =~= posts_view(posts@).map_values(|p: SpecPost| json_post(p)));
    }
    r
}

fn tag_map_to_json(map: &Vec<(String, Vec<Post>)>) -> (r: serde_json::Value)
    ensures
        json_view(r) == json_tag_map(tag_map_view(map@)),
{
    let ghost tv = tag_map_view(map@);
    let mut pairs: Vec<(String, serde_json::Value)> = Vec::new();
    let n = map.len();
    let mut i: usize = 0;
    proof {
        assert(tv.take(0) =~= Seq::<(Seq<char>, Seq<SpecPost>)>::empty());
        assert(json_pairs_map(pairs@) == Map::<Seq<char>, JsonSpec>::empty());
        assert(json_tag_entries(tv.take(0)) == Map::<Seq<char>, JsonSpec>::empty());
    }
    while i < n
        invariant
            0 <= i <= n,
            n == map@.len(),
            tv == tag_map_view(map@),
            tv.len() == n,
            json_pairs_map(pairs@) == json_tag_entries(tv.take(i as int)),
        decreases n - i,
    {
        proof {
            assert(tv[i as int] == (map@[i as int].0@, crate::post::posts_view(
                map@[i as int].1@,
            )));
        }
        let ghost p0 = pairs@;
        pairs.push((map[i].0.clone(), posts_to_json(&map[i].1)));
        proof {
            assert(pairs@.drop_last() =~= p0);
            assert(tv.take(i + 1).drop_last() =~= tv.take(i as int));
            assert(tv.take(i + 1).last() == tv[i as int]);
        }
        i += 1;
    }
    proof {
        assert(tv.take(n as int) =~= tv);
    }
    json_object(pairs)
}

fn headlines_to_json(hls: &Vec<Headline>) -> (r: serde_json::Value)
    ensures
        json_view(r) == json_headlines(headlines_view(hls@)),
{
    let mut vals: Vec<serde_json::Value> = Vec::new();
    let n = hls.len();
    let mut i: usize = 0;
    while i < n
        invariant
            0 <= i <= n,
            n == hls@.len(),
            vals@.len() == i,
            forall|k: int|
                0 <= k < i ==> json_view(#[trigger] vals@[k]) == json_headline(hls@[k]@),
        decreases n - i,
    {
        let mut pairs: Vec<(String, serde_json::Value)> = Vec::new();
        let ghost mut gm = Map::<Seq<char>, JsonSpec>::empty();
        let ghost mut p0 = pairs@;
        proof {
            assert(json_pairs_map(p0) == Map::<Seq<char>, JsonSpec>::empty());
        }
        let htype = char_string(hls[i].htype);
        pairs.push(("htype".to_owned(), json_string(&htype)));
        proof {
            assert(pairs@.drop_last() =~= p0);
            gm = gm.insert("htype"@, JsonSpec::Str(seq![hls@[i as int]@.htype]));
            assert(json_pairs_map(pairs@) == gm);
            p0 = pairs@;
        }
        pairs.push(("title".to_owned(), json_string(&hls[i].title)));
        proof {
            assert(pairs@.drop_last() =~= p0);
            gm = gm.insert("title"@, JsonSpec::Str(hls@[i as int]@.title));
            assert(json_pairs_map(pairs@) == gm);
            p0 = pairs@;
        }
        pairs.push(("id".to_owned(), json_string(&hls[i].id)));
        proof {
            assert(pairs@.drop_last() =~= p0);
            gm = gm.insert("id"@, JsonSpec::Str(hls@[i as int]@.id));
            assert(json_pairs_map(pairs@) == gm);
        }
        vals.push(json_object(pairs));
        i += 1;
    }
    let r = json_array(vals);
    proof {
        assert(jsons_view(vals@) =~= headlines_view(hls@).map_values(
            |h: SpecHeadline| json_headline(h),
        ));
    }
    r
}

// ---------------------------------------------------------------------------
// The verified body pipeline: markup conversion, optional appended
// fragment, preview-image anchors, heading ids.
// ---------------------------------------------------------------------------

pub open spec fn spec_render_body(
    content: Seq<char>,
    append: Option<Seq<char>>,
    pairs: Seq<(Seq<char>, Seq<char>)>,
) -> Result<(Seq<char>, Seq<SpecHeadline>), RenderError> {
    let md0 = markdown_html_of(content);
    let md1 = match append {
        Some(a) => md0 + a,
        None => md0,
    };
    spec_heading_pass(spec_wrap_previews(md1, pairs))
}

/// A body-pipeline failure is always a heading mismatch.
pub proof fn lemma_heading_fold_err(
    lines: Seq<Seq<char>>,
    i: int,
    acc_lines: Seq<Seq<char>>,
    acc_heads: Seq<SpecHeadline>,
)
    ensures
        heading_fold(lines, i, acc_lines, acc_heads) matches Err(e) ==> e
            == RenderError::HeadingTagMismatch,
    decreases lines.len() - i,
{
    if !(i < 0 || i >= lines.len()) {
        match crate::htmlrw::parse_heading_line(lines[i]) {
            None => {
                lemma_heading_fold_err(lines, i + 1, acc_lines.push(lines[i]), acc_heads);
            },
            Some(h) => {
                if h.0 == h.2 {
                    let id = crate::htmlrw::spec_title_id(h.1);
                    lemma_heading_fold_err(
                        lines,
                        i + 1,
                        acc_lines.push(crate::htmlrw::spec_heading_line(h.0, h.1, id)),
                        acc_heads.push(SpecHeadline { htype: h.0, title: h.1, id }),
                    );
                }
            },
        }
    }
}

/// Renders the body of a page: the markup engine's HTML, an optional
/// pre-rendered appended fragment, preview-image anchors, heading ids; the
/// headings are reported alongside.
pub fn render_body(
    content: &str,
    html_append: Option<&String>,
    pairs: &Vec<(String, String)>,
) -> (r: Result<(String, Vec<Headline>), RenderError>)
    ensures
        ({
            let appv = match html_append {
                Some(a) => Some(a@),
                None => None,
            };
            match r {
                Ok(p) => spec_render_body(content@, appv, pairs_view(pairs@)) == Ok::<
                    (Seq<char>, Seq<SpecHeadline>),
                    RenderError,
                >((p.0@, headlines_view(p.1@))),
                Err(e) => spec_render_body(content@, appv, pairs_view(pairs@)) == Err::<
                    (Seq<char>, Seq<SpecHeadline>),
                    RenderError,
                >(e),
            }
        }),
{
    let md = render_markdown(content);
    let mut mdv = chars_of(md.as_str());
    match html_append {
        Some(a) => {
            let av = chars_of(a.as_str());
            push_all(&mut mdv, &av);
        },
        None => {},
    }
    let wrapped = wrap_previews(&mdv, pairs);
    match heading_pass(&wrapped) {
        Err(e) => Err(e),
        Ok(p) => Ok((string_of(&p.0), p.1)),
    }
}

/// The ids of the reported headings, in order.
pub open spec fn headline_ids_of(hls: Seq<SpecHeadline>) -> Seq<Seq<char>> {
    hls.map_values(|h: SpecHeadline| h.id)
}

fn collect_headline_ids(hls: &Vec<Headline>) -> (r: Vec<String>)
    ensures
        strings_view(r@) == headline_ids_of(headlines_view(hls@)),
{
    let n = hls.len();
    let mut r: Vec<String> = Vec::new();
    let mut i: usize = 0;
    while i < n
        invariant
            0 <= i <= n,
            n == hls@.len(),
            r@.len() == i,
            forall|k: int| 0 <= k < i ==> (#[trigger] r@[k])@ == hls@[k]@.id,
        decreases n - i,
    {
        r.push(hls[i].id.clone());
        i += 1;
    }
    proof {
        assert(strings_view(r@) =~= headline_ids_of(headlines_view(hls@)));
    }
    r
}

/// The headings handed to the page template: every heading but the top
/// level ones.
pub open spec fn filter_headlines_fold(
    hls: Seq<SpecHeadline>,
    i: int,
    acc: Seq<SpecHeadline>,
) -> Seq<SpecHeadline>
    decreases hls.len() - i,
{
    if i < 0 || i >= hls.len() {
        acc
    } else if hls[i].htype != '1' {
        filter_headlines_fold(hls, i + 1, acc.push(hls[i]))
    } else {
        filter_headlines_fold(hls, i + 1, acc)
    }
}

pub open spec fn spec_filter_headlines(hls: Seq<SpecHeadline>) -> Seq<SpecHeadline> {
    filter_headlines_fold(hls, 0, Seq::empty())
}

fn filter_headlines(hls: &Vec<Headline>) -> (r: Vec<Headline>)
    ensures
        headlines_view(r@) == spec_filter_headlines(headlines_view(hls@)),
{
    let ghost hv = headlines_view(hls@);
    let n = hls.len();
    let mut r: Vec<Headline> = Vec::new();
    let mut i: usize = 0;
    proof {
        assert(headlines_view(r@) =~= Seq::<SpecHeadline>::empty());
    }
    while i < n
        invariant
            0 <= i <= n,
            n == hls@.len(),
            hv == headlines_view(hls@),
            hv.len() == n,
            spec_filter_headlines(hv) == filter_headlines_fold(hv, i as int, headlines_view(r@)),
        decreases n - i,
    {
        let ghost r0 = headlines_view(r@);
        proof {
            assert(hv[i as int] == hls@[i as int]@);
        }
        if hls[i].htype != '1' {
            let copy = Headline {
                htype: hls[i].htype,
                title: hls[i].title.clone(),
                id: hls[i].id.clone(),
            };
            r.push(copy);
            proof {
                assert(headlines_view(r@) =~= r0.push(hv[i as int]));
            }
        }
        i += 1;
    }
    r
}

// ---------------------------------------------------------------------------
// The generator: the render pipeline bound to a template engine and the
// run's paths and filter.
// ---------------------------------------------------------------------------

/// Drives one generation run's rendering: holds the templating engine, the
/// input and output roots, and the active filename filter.
pub struct Generator<'a> {
    pub tera: &'a tera::Tera,
    pub input_path: String,
    pub output_path: String,
    pub filter: String,
}

impl<'a> Generator<'a> {
    /// A generator with the default post-source filter.
    pub fn new(tera: &'a tera::Tera, input_path: String, output_path: String) -> (g: Generator<
        'a,
    >)
        ensures
            g.input_path@ == input_path@,
            g.output_path@ == output_path@,
            g.filter@ == ".md"@,
    {
        Generator { tera, input_path, output_path, filter: ".md".to_owned() }
    }

    /// A run with the default post-source filter builds the whole site:
    /// only then are the aggregate pages assembled and the links verified.
    pub fn is_full_build(&self) -> (r: bool)
        ensures
            r == (self.filter@ == ".md"@),
    {
        let fv = crate::strutil::chars_of(self.filter.as_str());
        crate::strutil::chars_eq_str(&fv, ".md")
    }

    /// Narrows the run to sources matching the given suffix.
    pub fn set_filter(&mut self, filter: String)
        ensures
            final(self).filter@ == filter@,
            final(self).input_path == old(self).input_path,
            final(self).output_path == old(self).output_path,
            final(self).tera == old(self).tera,
    {
        self.filter = filter;
    }

    /// Scans one document: its annotations become the post, the text is
    /// rewritten in place.
    pub fn new_post(&self, filename: String, file_content: &mut String) -> (r: Result<
        Post,
        ScanError,
    >)
        ensures
            match spec_new_post(filename@, old(file_content)@) {
                Ok(res) => {
                    &&& r matches Ok(p) && p@ == res.1
                    &&& final(file_content)@ == res.0
                },
                Err(e) => {
                    &&& r matches Err(e2) && e2 == e
                    &&& final(file_content)@ == old(file_content)@
                },
            },
    {
        crate::post::new_post(filename, file_content)
    }

    /// Renders one post's page: the verified body pipeline, then the page
    /// template with the body, the non-top headings and the extra context.
    /// The post receives the heading ids.
    pub fn render_post(
        &self,
        file_content: &String,
        extra: Option<&ExtraContext>,
        post: &mut Post,
    ) -> (r: Result<String, RenderError>)
        ensures
            ({
                let pipeline = spec_render_body(
                    file_content@,
                    None,
                    old(post)@.preview_images,
                );
                match pipeline {
                    Err(e) => {
                        &&& *final(post) == *old(post)
                        &&& r matches Err(e2) && e2 == e
                    },
                    Ok(bh) => {
                        let fv = (match extra {
                            Some(ec) => strings_view(ec.features@),
                            None => Seq::<Seq<char>>::empty(),
                        });
                        let sv = (match extra {
                            Some(ec) => (match ec.status {
                                Some(st) => Some(st@),
                                None => None,
                            }),
                            None => None::<Seq<char>>,
                        });
                        let entries = spec_page_context(bh.0, bh.1, fv, sv);
                        &&& final(post)@ == SpecPost {
                            headline_ids: headline_ids_of(bh.1),
                            ..old(post)@
                        }
                        &&& (r matches Ok(html) ==> spec_rendered(
                            "post.html"@,
                            entries,
                            Some(html@),
                        ))
                        &&& (r matches Err(e2) ==> e2 is TemplateFailure && spec_rendered(
                            "post.html"@,
                            entries,
                            None,
                        ))
                    },
                }
            }),
    {
        match render_body(file_content.as_str(), None, &post.preview_images) {
            Err(e) => Err(e),
            Ok(bh) => {
                let (body, hls) = bh;
                post.headline_ids = collect_headline_ids(&hls);
                proof {
                    assert(post@ =~= SpecPost {
                        headline_ids: headline_ids_of(headlines_view(hls@)),
                        ..old(post)@
                    });
                }
                let mut ctx = context_new();
                context_insert_str(&mut ctx, "content", &body);
                let filtered = filter_headlines(&hls);
                if filtered.len() > 0 {
                    let hj = headlines_to_json(&filtered);
                    context_insert_json(&mut ctx, "headlines", &hj);
                }
                match extra {
                    Some(ec) => {
                        if ec.features.len() > 0 {
                            let fj = json_string_list(&ec.features);
                            context_insert_json(&mut ctx, "features", &fj);
                        }
                        match &ec.status {
                            Some(st) => context_insert_str(&mut ctx, "status", st),
                            None => {},
                        }
                    },
                    None => {},
                }
                proof {
                    let fv = (match extra {
                        Some(ec) => strings_view(ec.features@),
                        None => Seq::<Seq<char>>::empty(),
                    });
                    let sv = (match extra {
                        Some(ec) => (match &ec.status {
                            Some(st) => Some(st@),
                            None => None,
                        }),
                        None => None::<Seq<char>>,
                    });
                    assert(ctx_entries(ctx) =~= spec_page_context(
                        body@,
                        headlines_view(hls@),
                        fv,
                        sv,
                    ));
                }
                match tera_render(self.tera, "post.html", &ctx) {
                    Ok(html) => Ok(html),
                    Err(e) => Err(
                        RenderError::TemplateFailure { message: tera_error_message(&e) },
                    ),
                }
            },
        }
    }

    /// Renders an aggregate page: the deferred source's body with a
    /// pre-rendered listing fragment appended, through the page template.
    pub fn render_aggregate(&self, file_content: &String, html_append: &String) -> (r: Result<
        String,
        RenderError,
    >)
        ensures
            ({
                let pipeline = spec_render_body(
                    file_content@,
                    Some(html_append@),
                    Seq::empty(),
                );
                match pipeline {
                    Err(e) => r matches Err(e2) && e2 == e,
                    Ok(bh) => {
                        let entries = spec_page_context(
                            bh.0,
                            bh.1,
                            Seq::<Seq<char>>::empty(),
                            None,
                        );
                        &&& (r matches Ok(html) ==> spec_rendered(
                            "post.html"@,
                            entries,
                            Some(html@),
                        ))
                        &&& (r matches Err(e2) ==> e2 is TemplateFailure && spec_rendered(
                            "post.html"@,
                            entries,
                            None,
                        ))
                    },
                }
            }),
    {
        let empty_pairs: Vec<(String, String)> = Vec::new();
        proof {
            assert(pairs_view(empty_pairs@) =~= Seq::<(Seq<char>, Seq<char>)>::empty());
        }
        match render_body(file_content.as_str(), Some(html_append), &empty_pairs) {
            Err(e) => Err(e),
            Ok(bh) => {
                let (body, hls) = bh;
                let mut ctx = context_new();
                context_insert_str(&mut ctx, "content", &body);
                let filtered = filter_headlines(&hls);
                if filtered.len() > 0 {
                    let hj = headlines_to_json(&filtered);
                    context_insert_json(&mut ctx, "headlines", &hj);
                }
                proof {
                    assert(ctx_entries(ctx) =~= spec_page_context(
                        body@,
                        headlines_view(hls@),
                        Seq::<Seq<char>>::empty(),
                        None,
                    ));
                }
                match tera_render(self.tera, "post.html", &ctx) {
                    Ok(html) => Ok(html),
                    Err(e) => Err(
                        RenderError::TemplateFailure { message: tera_error_message(&e) },
                    ),
                }
            },
        }
    }

    /// Renders the recent-posts page: the given listing posts through the
    /// listing template, appended to the deferred source's body.
    pub fn recent_posts_page(&self, posts: &Vec<Post>, deferred_md: &String) -> (r: Result<
        String,
        RenderError,
    >)
        ensures
            r matches Ok(html) ==> exists|listing: Seq<char>|
                {
                    &&& #[trigger] spec_rendered(
                        "recent-posts.html"@,
                        spec_listing_context(posts_view(posts@)),
                        Some(listing),
                    )
                    &&& (spec_render_body(
                        deferred_md@,
                        Some(listing),
                        Seq::<(Seq<char>, Seq<char>)>::empty(),
                    ) matches Ok(bh) && spec_rendered(
                        "post.html"@,
                        spec_page_context(bh.0, bh.1, Seq::<Seq<char>>::empty(), None),
                        Some(html@),
                    ))
                },
            r matches Err(e) ==> (e is TemplateFailure || e is HeadingTagMismatch),
    {
        let mut ctx = context_new();
        let pj = posts_to_json(posts);
        context_insert_json(&mut ctx, "posts", &pj);
        proof {
            assert(ctx_entries(ctx) =~= spec_listing_context(posts_view(posts@)));
        }
        match tera_render(self.tera, "recent-posts.html", &ctx) {
            Err(e) => Err(RenderError::TemplateFailure { message: tera_error_message(&e) }),
            Ok(listing) => {
                let r = self.render_aggregate(deferred_md, &listing);
                proof {
                    lemma_render_body_err(deferred_md@, Some(listing@), Seq::empty());
                    assert(spec_rendered(
                        "recent-posts.html"@,
                        spec_listing_context(posts_view(posts@)),
                        Some(listing@),
                    ));
                }
                r
            },
        }
    }

    /// Renders the overview page: the tag map through the overview
    /// template, appended to the deferred source's body.
    pub fn overview_page(&self, tag_map: &Vec<(String, Vec<Post>)>, deferred_md: &String) -> (r:
        Result<String, RenderError>)
        ensures
            r matches Ok(html) ==> exists|listing: Seq<char>|
                {
                    &&& #[trigger] spec_rendered(
                        "overview.html"@,
                        spec_overview_context(tag_map_view(tag_map@)),
                        Some(listing),
                    )
                    &&& (spec_render_body(
                        deferred_md@,
                        Some(listing),
                        Seq::<(Seq<char>, Seq<char>)>::empty(),
                    ) matches Ok(bh) && spec_rendered(
                        "post.html"@,
                        spec_page_context(bh.0, bh.1, Seq::<Seq<char>>::empty(), None),
                        Some(html@),
                    ))
                },
            r matches Err(e) ==> (e is TemplateFailure || e is HeadingTagMismatch),
    {
        let mut ctx = context_new();
        let tj = tag_map_to_json(tag_map);
        context_insert_json(&mut ctx, "tag_map", &tj);
        proof {
            assert(ctx_entries(ctx) =~= spec_overview_context(tag_map_view(tag_map@)));
        }
        match tera_render(self.tera, "overview.html", &ctx) {
            Err(e) => Err(RenderError::TemplateFailure { message: tera_error_message(&e) }),
            Ok(listing) => {
                let r = self.render_aggregate(deferred_md, &listing);
                proof {
                    lemma_render_body_err(deferred_md@, Some(listing@), Seq::empty());
                    assert(spec_rendered(
                        "overview.html"@,
                        spec_overview_context(tag_map_view(tag_map@)),
                        Some(listing@),
                    ));
                }
                r
            },
        }
    }

    /// Scans and renders one document without touching the output tree; the
    /// editing API uses it to preview unsaved text.
    pub fn generate_preview(&self, content: &mut String) -> (r: Result<String, GeneratorError>)
        ensures
            ({
                match spec_new_post("preview"@, old(content)@) {
                    Err(e) => {
                        &&& final(content)@ == old(content)@
                        &&& r matches Err(ge) && ge.message@ == spec_scan_error_message(e)
                    },
                    Ok(np) => {
                        &&& final(content)@ == np.0
                        &&& (match spec_render_body(np.0, None, np.1.preview_images) {
                            Err(e) => r matches Err(ge) && ge.message@
                                == spec_render_error_message(e),
                            Ok(bh) => {
                                let entries = spec_page_context(
                                    bh.0,
                                    bh.1,
                                    spec_features(np.1),
                                    np.1.status,
                                );
                                &&& (r matches Ok(html) ==> spec_rendered(
                                    "post.html"@,
                                    entries,
                                    Some(html@),
                                ))
                                &&& (r matches Err(ge) ==> spec_rendered(
                                    "post.html"@,
                                    entries,
                                    None,
                                ))
                            },
                        })
                    },
                }
            }),
    {
        let mut post = match crate::post::new_post("preview".to_owned(), content) {
            Err(e) => {
                return Err(GeneratorError::new(scan_error_message(&e)));
            },
            Ok(p) => p,
        };
        let extra = generate_extra_context(&post);
        let extra_ref = match &extra {
            Some(ec) => Some(ec),
            None => None,
        };
        proof {
            let fv = (match extra_ref {
                Some(ec) => strings_view(ec.features@),
                None => Seq::<Seq<char>>::empty(),
            });
            let sv = (match extra_ref {
                Some(ec) => (match &ec.status {
                    Some(st) => Some(st@),
                    None => None,
                }),
                None => None::<Seq<char>>,
            });
            assert(fv =~= spec_features(post@));
            assert(sv == post@.status);
        }
        match self.render_post(content, extra_ref, &mut post) {
            Ok(html) => Ok(html),
            Err(e) => Err(GeneratorError::new(render_error_message(&e))),
        }
    }
}

/// An error of the body pipeline is a heading mismatch.
pub proof fn lemma_render_body_err(
    content: Seq<char>,
    append: Option<Seq<char>>,
    pairs: Seq<(Seq<char>, Seq<char>)>,
)
    ensures
        spec_render_body(content, append, pairs) matches Err(e) ==> e
            == RenderError::HeadingTagMismatch,
{
    let md0 = markdown_html_of(content);
    let md1 = match append {
        Some(a) => md0 + a,
        None => md0,
    };
    let md2 = spec_wrap_previews(md1, pairs);
    lemma_heading_fold_err(
        crate::htmlrw::split_lines(md2),
        0,
        Seq::empty(),
        Seq::empty(),
    );
}

} // verus!
