use vstd::prelude::*;

use crate::error::ScanError;
use crate::rewrite::Edit;
use crate::rewrite::SpecEdit;
use crate::rewrite::apply_edits;
use crate::rewrite::edits_view;
use crate::rewrite::edits_wf;
use crate::rewrite::lemma_apply_edits_len;
use crate::rewrite::spec_apply_edits;
use crate::rewrite::sum_inserted;
use crate::rewrite::sum_removed;
use crate::scanner::Annotation;
use crate::scanner::SpecAnnotation;
use crate::scanner::annotations_view;
use crate::scanner::scan_annotations;
use crate::scanner::spec_scan;
use crate::strutil::chars_eq_str;
use crate::strutil::chars_of;
use crate::strutil::contains_char;
use crate::strutil::find_char_in;
use crate::strutil::push_all;
use crate::strutil::push_range;
use crate::strutil::replace_all;
use crate::strutil::rfind_char;
use crate::strutil::rfind_char_in;
use crate::strutil::spec_replace_all;
use crate::strutil::string_of;

verus! {

pub open spec fn strings_view(v: Seq<String>) -> Seq<Seq<char>> {
    v.map_values(|s: String| s@)
}

pub open spec fn pairs_view(v: Seq<(String, String)>) -> Seq<(Seq<char>, Seq<char>)> {
    v.map_values(|p: (String, String)| (p.0@, p.1@))
}

// ---------------------------------------------------------------------------
// The structured view of one annotated document.
// ---------------------------------------------------------------------------

/// Metadata extracted from one post source: its tags, creation date, status,
/// links, images and preview-image pairs; `headline_ids` is filled only by
/// the render pipeline afterwards.
#[derive(Debug)]
pub struct Post {
    pub filename: String,
    pub tags: Vec<String>,
    pub created: String,
    pub status: Option<String>,
    pub links: Vec<String>,
    pub images: Vec<String>,
    pub preview_images: Vec<(String, String)>,
    pub headline_ids: Vec<String>,
}

#[verifier::ext_equal]
pub struct SpecPost {
    pub filename: Seq<char>,
    pub tags: Seq<Seq<char>>,
    pub created: Seq<char>,
    pub status: Option<Seq<char>>,
    pub links: Seq<Seq<char>>,
    pub images: Seq<Seq<char>>,
    pub preview_images: Seq<(Seq<char>, Seq<char>)>,
    pub headline_ids: Seq<Seq<char>>,
}

impl View for Post {
    type V = SpecPost;

    open spec fn view(&self) -> SpecPost {
        SpecPost {
            filename: self.filename@,
            tags: strings_view(self.tags@),
            created: self.created@,
            status: match self.status {
                Some(s) => Some(s@),
                None => None,
            },
            links: strings_view(self.links@),
            images: strings_view(self.images@),
            preview_images: pairs_view(self.preview_images@),
            headline_ids: strings_view(self.headline_ids@),
        }
    }
}

/// A sequence of posts seen through their views.
pub open spec fn posts_view(v: Seq<Post>) -> Seq<SpecPost> {
    v.map_values(|p: Post| p@)
}

fn clone_strings(v: &Vec<String>) -> (r: Vec<String>)
    ensures
        r@ == v@,
{
    let mut r: Vec<String> = Vec::new();
    let n = v.len();
    let mut i: usize = 0;
    while i < n
        invariant
            0 <= i <= n,
            n == v@.len(),
            r@ == v@.take(i as int),
        decreases n - i,
    {
        r.push(v[i].clone());
        proof {
            assert(v@.take(i + 1) =~= v@.take(i as int).push(v@[i as int]));
        }
        i += 1;
    }
    proof {
        assert(v@.take(n as int) =~= v@);
    }
    r
}

fn clone_pairs(v: &Vec<(String, String)>) -> (r: Vec<(String, String)>)
    ensures
        r@ == v@,
{
    let mut r: Vec<(String, String)> = Vec::new();
    let n = v.len();
    let mut i: usize = 0;
    while i < n
        invariant
            0 <= i <= n,
            n == v@.len(),
            r@ == v@.take(i as int),
        decreases n - i,
    {
        let a = v[i].0.clone();
        let b = v[i].1.clone();
        r.push((a, b));
        proof {
            assert((a, b) == v@[i as int]);
            assert(v@.take(i + 1) =~= v@.take(i as int).push(v@[i as int]));
        }
        i += 1;
    }
    proof {
        assert(v@.take(n as int) =~= v@);
    }
    r
}

impl Clone for Post {
    /// A clone carries exactly the same abstract post.
    fn clone(&self) -> (res: Self)
        ensures
            res@ == self@,
    {
        let res = Post {
            filename: self.filename.clone(),
            tags: clone_strings(&self.tags),
            created: self.created.clone(),
            status: match &self.status {
                Some(s) => Some(s.clone()),
                None => None,
            },
            links: clone_strings(&self.links),
            images: clone_strings(&self.images),
            preview_images: clone_pairs(&self.preview_images),
            headline_ids: clone_strings(&self.headline_ids),
        };
        proof {
            assert(res@ =~= self@);
        }
        res
    }
}

pub open spec fn empty_post(filename: Seq<char>) -> SpecPost {
    SpecPost {
        filename,
        tags: Seq::empty(),
        created: Seq::empty(),
        status: None,
        links: Seq::empty(),
        images: Seq::empty(),
        preview_images: Seq::empty(),
        headline_ids: Seq::empty(),
    }
}

/// The attribute names the scanner records into a post.
pub open spec fn spec_known_name(name: Seq<char>) -> bool {
    name == "created"@ || name == "status"@ || name == "tag"@
}

fn is_known_name(name: &Vec<char>) -> (b: bool)
    ensures
        b == spec_known_name(name@),
{
    chars_eq_str(name, "created") || chars_eq_str(name, "status") || chars_eq_str(name, "tag")
}

/// The derived preview path: a `/preview` segment inserted immediately
/// before the filename component.
pub open spec fn spec_preview_url(l: Seq<char>) -> Seq<char> {
    match rfind_char(l, '/') {
        Some(k) => l.take(k) + "/preview"@ + l.skip(k),
        None => l,
    }
}

fn preview_url(l: &Vec<char>) -> (r: Vec<char>)
    ensures
        r@ == spec_preview_url(l@),
{
    match rfind_char_in(l, '/') {
        Some(k) => {
            proof {
                crate::strutil::lemma_rfind_char_bounds(l@, '/');
            }
            let llen = l.len();
            let ins = chars_of("/preview");
            let mut r: Vec<char> = Vec::new();
            push_range(&mut r, l, 0, k);
            push_all(&mut r, &ins);
            push_range(&mut r, l, k, llen);
            proof {
                assert(r@ =~= spec_preview_url(l@));
            }
            r
        },
        None => {
            let llen = l.len();
            let mut r: Vec<char> = Vec::new();
            push_range(&mut r, l, 0, llen);
            proof {
                assert(r@ =~= l@);
            }
            r
        },
    }
}

// ---------------------------------------------------------------------------
// Applying the scanned annotations, in ascending source order: known
// attributes are recorded and their spans deleted (extended over a directly
// following newline); preview images are recorded and their spans rewritten;
// other images and links are recorded without a rewrite. An annotation whose
// span would fall out of order or out of bounds yields no edit: rewriting is
// only ever done in ascending order.
// ---------------------------------------------------------------------------

pub open spec fn collect_from(
    text: Seq<char>,
    tags: Seq<SpecAnnotation>,
    i: int,
    post: SpecPost,
    edits: Seq<SpecEdit>,
    cur: int,
) -> Result<(SpecPost, Seq<SpecEdit>), ScanError>
    decreases tags.len() - i,
{
    if i < 0 || i >= tags.len() {
        Ok((post, edits))
    } else {
        let t = tags[i];
        if spec_known_name(t.name) {
            match t.value {
                None => Err(ScanError::KnownAttributeWithoutHandler { pos: t.start as usize }),
                Some(v) => {
                    let post1 = if t.name == "created"@ {
                        SpecPost { created: v, ..post }
                    } else if t.name == "tag"@ {
                        SpecPost { tags: post.tags.push(v), ..post }
                    } else {
                        SpecPost { status: Some(v), ..post }
                    };
                    if cur <= t.start && t.start < t.end && t.end <= text.len() {
                        let ext: int = if t.end < text.len() && text[t.end] == '\n' {
                            1
                        } else {
                            0
                        };
                        collect_from(
                            text,
                            tags,
                            i + 1,
                            post1,
                            edits.push(
                                SpecEdit {
                                    start: t.start,
                                    end: t.end + ext,
                                    replacement: Seq::empty(),
                                },
                            ),
                            t.end + ext,
                        )
                    } else {
                        collect_from(text, tags, i + 1, post1, edits, cur)
                    }
                },
            }
        } else if t.is_image {
            match t.link {
                None => collect_from(text, tags, i + 1, post, edits, cur),
                Some(l) => {
                    let post1 = SpecPost { images: post.images.push(l), ..post };
                    if t.class == Some("preview"@) && contains_char(l, '/') {
                        let post2 = SpecPost {
                            preview_images: post1.preview_images.push((l, spec_preview_url(l))),
                            ..post1
                        };
                        if cur <= t.start && t.start < t.end && t.end <= text.len() {
                            let span = text.subrange(t.start, t.end);
                            let without = spec_replace_all(span, "{preview}"@, Seq::empty());
                            match rfind_char(without, '/') {
                                Some(k) => collect_from(
                                    text,
                                    tags,
                                    i + 1,
                                    post2,
                                    edits.push(
                                        SpecEdit {
                                            start: t.start,
                                            end: t.end,
                                            replacement: without.take(k) + "/preview"@
                                                + without.skip(k),
                                        },
                                    ),
                                    t.end,
                                ),
                                None => collect_from(text, tags, i + 1, post2, edits, cur),
                            }
                        } else {
                            collect_from(text, tags, i + 1, post2, edits, cur)
                        }
                    } else {
                        collect_from(text, tags, i + 1, post1, edits, cur)
                    }
                },
            }
        } else {
            match t.link {
                Some(l) => collect_from(
                    text,
                    tags,
                    i + 1,
                    SpecPost { links: post.links.push(l), ..post },
                    edits,
                    cur,
                ),
                None => match t.value {
                    Some(_) => Err(ScanError::UnknownAttribute { pos: t.start as usize }),
                    None => collect_from(text, tags, i + 1, post, edits, cur),
                },
            }
        }
    }
}

pub open spec fn spec_collect(text: Seq<char>, filename: Seq<char>, tags: Seq<SpecAnnotation>) -> Result<
    (SpecPost, Seq<SpecEdit>),
    ScanError,
> {
    collect_from(text, tags, 0, empty_post(filename), Seq::empty(), 0)
}

/// Every edit list the collection fold produces is well formed: ascending,
/// non-overlapping, within the text.
pub proof fn lemma_collect_from_wf(
    text: Seq<char>,
    tags: Seq<SpecAnnotation>,
    i: int,
    post: SpecPost,
    edits: Seq<SpecEdit>,
    cur: int,
)
    requires
        0 <= cur,
        edits_wf(edits, text.len() as int),
        forall|j: int| 0 <= j < edits.len() ==> (#[trigger] edits[j]).end <= cur,
    ensures
        collect_from(text, tags, i, post, edits, cur) matches Ok(pe) ==> edits_wf(
            pe.1,
            text.len() as int,
        ),
    decreases tags.len() - i,
{
    if i < 0 || i >= tags.len() {
    } else {
        let t = tags[i];
        if spec_known_name(t.name) {
            match t.value {
                None => {},
                Some(v) => {
                    let post1 = if t.name == "created"@ {
                        SpecPost { created: v, ..post }
                    } else if t.name == "tag"@ {
                        SpecPost { tags: post.tags.push(v), ..post }
                    } else {
                        SpecPost { status: Some(v), ..post }
                    };
                    if cur <= t.start && t.start < t.end && t.end <= text.len() {
                        let ext: int = if t.end < text.len() && text[t.end] == '\n' {
                            1
                        } else {
                            0
                        };
                        let e = SpecEdit { start: t.start, end: t.end + ext, replacement: Seq::empty() };
                        assert(edits_wf(edits.push(e), text.len() as int));
                        lemma_collect_from_wf(text, tags, i + 1, post1, edits.push(e), t.end + ext);
                    } else {
                        lemma_collect_from_wf(text, tags, i + 1, post1, edits, cur);
                    }
                },
            }
        } else if t.is_image {
            match t.link {
                None => {
                    lemma_collect_from_wf(text, tags, i + 1, post, edits, cur);
                },
                Some(l) => {
                    let post1 = SpecPost { images: post.images.push(l), ..post };
                    if t.class == Some("preview"@) && contains_char(l, '/') {
                        let post2 = SpecPost {
                            preview_images: post1.preview_images.push((l, spec_preview_url(l))),
                            ..post1
                        };
                        if cur <= t.start && t.start < t.end && t.end <= text.len() {
                            let span = text.subrange(t.start, t.end);
                            let without = spec_replace_all(span, "{preview}"@, Seq::empty());
                            match rfind_char(without, '/') {
                                Some(k) => {
                                    let e = SpecEdit {
                                        start: t.start,
                                        end: t.end,
                                        replacement: without.take(k) + "/preview"@ + without.skip(
                                            k,
                                        ),
                                    };
                                    assert(edits_wf(edits.push(e), text.len() as int));
                                    lemma_collect_from_wf(
                                        text,
                                        tags,
                                        i + 1,
                                        post2,
                                        edits.push(e),
                                        t.end,
                                    );
                                },
                                None => {
                                    lemma_collect_from_wf(text, tags, i + 1, post2, edits, cur);
                                },
                            }
                        } else {
                            lemma_collect_from_wf(text, tags, i + 1, post2, edits, cur);
                        }
                    } else {
                        lemma_collect_from_wf(text, tags, i + 1, post1, edits, cur);
                    }
                },
            }
        } else {
            match t.link {
                Some(l) => {
                    lemma_collect_from_wf(
                        text,
                        tags,
                        i + 1,
                        SpecPost { links: post.links.push(l), ..post },
                        edits,
                        cur,
                    );
                },
                None => {
                    match t.value {
                        Some(_) => {},
                        None => {
                            lemma_collect_from_wf(text, tags, i + 1, post, edits, cur);
                        },
                    }
                },
            }
        }
    }
}

/// Applies the scanned annotations of `text` to an empty post.
fn collect_annotations(text: &Vec<char>, filename: String, tags: &Vec<Annotation>) -> (r: Result<
    (Post, Vec<Edit>),
    ScanError,
>)
    ensures
        match r {
            Ok(pe) => spec_collect(text@, filename@, annotations_view(tags@)) == Ok::<
                (SpecPost, Seq<SpecEdit>),
                ScanError,
            >((pe.0@, edits_view(pe.1@))),
            Err(e) => spec_collect(text@, filename@, annotations_view(tags@)) == Err::<
                (SpecPost, Seq<SpecEdit>),
                ScanError,
            >(e),
        },
{
    let ghost fname = filename@;
    let ghost tv = annotations_view(tags@);
    let pat_preview = chars_of("{preview}");
    let ins_preview = chars_of("/preview");
    let empty_rep: Vec<char> = Vec::new();
    let mut post = Post {
        filename,
        tags: Vec::new(),
        created: String::new(),
        status: None,
        links: Vec::new(),
        images: Vec::new(),
        preview_images: Vec::new(),
        headline_ids: Vec::new(),
    };
    let mut edits: Vec<Edit> = Vec::new();
    let mut cur: usize = 0;
    let mut i: usize = 0;
    proof {
        assert(post@ =~= empty_post(fname));
        assert(edits_view(edits@) =~= Seq::<SpecEdit>::empty());
    }
    let n = text.len();
    while i < tags.len()
        invariant
            fname == filename@,
            tv == annotations_view(tags@),
            tv.len() == tags@.len(),
            0 <= i <= tags@.len(),
            n == text@.len(),
            pat_preview@ == "{preview}"@,
            ins_preview@ == "/preview"@,
            empty_rep@ == Seq::<char>::empty(),
            spec_collect(text@, fname, tv) == collect_from(
                text@,
                tv,
                i as int,
                post@,
                edits_view(edits@),
                cur as int,
            ),
        decreases tags@.len() - i,
    {
        let ghost post0 = post@;
        let ghost edits0 = edits_view(edits@);
        let ghost cur0 = cur as int;
        let t = &tags[i];
        proof {
            assert(tv[i as int] == tags@[i as int]@);
        }
        if is_known_name(&t.name) {
            match &t.value {
                None => {
                    proof {
                        assert(tv[i as int].value is None);
                        assert(collect_from(text@, tv, i as int, post@, edits_view(edits@), cur as int)
                            == Err::<(SpecPost, Seq<SpecEdit>), ScanError>(
                            ScanError::KnownAttributeWithoutHandler {
                                pos: tv[i as int].start as usize,
                            },
                        ));
                        assert(tv[i as int].start as usize == t.start);
                    }
                    return Err(ScanError::KnownAttributeWithoutHandler { pos: t.start });
                },
                Some(v) => {
                    if chars_eq_str(&t.name, "created") {
                        post.created = string_of(v);
                    } else if chars_eq_str(&t.name, "tag") {
                        post.tags.push(string_of(v));
                    } else {
                        post.status = Some(string_of(v));
                    }
                    proof {
                        let spec_v = tv[i as int].value->Some_0;
                        let p1 = if tv[i as int].name == "created"@ {
                            SpecPost { created: spec_v, ..post0 }
                        } else if tv[i as int].name == "tag"@ {
                            SpecPost { tags: post0.tags.push(spec_v), ..post0 }
                        } else {
                            SpecPost { status: Some(spec_v), ..post0 }
                        };
                        assert(post@ =~= p1);
                    }
                    if cur <= t.start && t.start < t.end && t.end <= n {
                        let mut ext: usize = 0;
                        if t.end < n {
                            if text[t.end] == '\n' {
                                ext = 1;
                            }
                        }
                        edits.push(Edit { start: t.start, end: t.end + ext, replacement: Vec::new() });
                        cur = t.end + ext;
                        proof {
                            let e = SpecEdit {
                                start: tv[i as int].start,
                                end: tv[i as int].end + (ext as int),
                                replacement: Seq::empty(),
                            };
                            assert(edits_view(edits@) =~= edits0.push(e));
                        }
                    }
                },
            }
        } else if t.is_image {
            match &t.link {
                None => {},
                Some(l) => {
                    post.images.push(string_of(l));
                    proof {
                        assert(post@ =~= SpecPost {
                            images: post0.images.push(tv[i as int].link->Some_0),
                            ..post0
                        });
                    }
                    let ghost post1 = post@;
                    let is_prev = match &t.class {
                        Some(c) => chars_eq_str(c, "preview"),
                        None => false,
                    };
                    proof {
                        assert(is_prev == (tv[i as int].class == Some("preview"@)));
                    }
                    if is_prev && find_char_in(l, '/', 0).is_some() {
                        let pu = preview_url(l);
                        post.preview_images.push((string_of(l), string_of(&pu)));
                        proof {
                            let sl = tv[i as int].link->Some_0;
                            assert(post@ =~= SpecPost {
                                preview_images: post1.preview_images.push(
                                    (sl, spec_preview_url(sl)),
                                ),
                                ..post1
                            });
                        }
                        if cur <= t.start && t.start < t.end && t.end <= n {
                            let mut span: Vec<char> = Vec::new();
                            push_range(&mut span, text, t.start, t.end);
                            proof {
                                assert(span@ =~= text@.subrange(
                                    tv[i as int].start,
                                    tv[i as int].end,
                                ));
                            }
                            let without = replace_all(&span, &pat_preview, &empty_rep);
                            match rfind_char_in(&without, '/') {
                                Some(k) => {
                                    proof {
                                        crate::strutil::lemma_rfind_char_bounds(without@, '/');
                                    }
                                    let wlen = without.len();
                                    let mut rep: Vec<char> = Vec::new();
                                    push_range(&mut rep, &without, 0, k);
                                    push_all(&mut rep, &ins_preview);
                                    push_range(&mut rep, &without, k, wlen);
                                    proof {
                                        assert(rep@ =~= without@.take(k as int) + "/preview"@
                                            + without@.skip(k as int));
                                    }
                                    edits.push(
                                        Edit { start: t.start, end: t.end, replacement: rep },
                                    );
                                    cur = t.end;
                                    proof {
                                        let e = SpecEdit {
                                            start: tv[i as int].start,
                                            end: tv[i as int].end,
                                            replacement: without@.take(k as int) + "/preview"@
                                                + without@.skip(k as int),
                                        };
                                        assert(edits_view(edits@) =~= edits0.push(e));
                                    }
                                },
                                None => {},
                            }
                        }
                    }
                },
            }
        } else {
            match &t.link {
                Some(l) => {
                    post.links.push(string_of(l));
                    proof {
                        assert(post@ =~= SpecPost {
                            links: post0.links.push(tv[i as int].link->Some_0),
                            ..post0
                        });
                    }
                },
                None => {
                    match &t.value {
                        Some(_) => {
                            proof {
                                assert(tv[i as int].value is Some);
                                assert(collect_from(
                                    text@,
                                    tv,
                                    i as int,
                                    post@,
                                    edits_view(edits@),
                                    cur as int,
                                ) == Err::<(SpecPost, Seq<SpecEdit>), ScanError>(
                                    ScanError::UnknownAttribute { pos: tv[i as int].start as usize },
                                ));
                                assert(tv[i as int].start as usize == t.start);
                            }
                            return Err(ScanError::UnknownAttribute { pos: t.start });
                        },
                        None => {},
                    }
                },
            }
        }
        i += 1;
        proof {
            assert(collect_from(text@, tv, i - 1, post0, edits0, cur0) == collect_from(
                text@,
                tv,
                i as int,
                post@,
                edits_view(edits@),
                cur as int,
            ));
        }
    }
    proof {
        assert(collect_from(text@, tv, i as int, post@, edits_view(edits@), cur as int) == Ok::<
            (SpecPost, Seq<SpecEdit>),
            ScanError,
        >((post@, edits_view(edits@))));
    }
    Ok((post, edits))
}

// ---------------------------------------------------------------------------
// The public scanner entry point.
// ---------------------------------------------------------------------------

/// The whole scan of one document: its annotations, the post they make, and
/// the rewritten text.
pub open spec fn spec_new_post(filename: Seq<char>, text: Seq<char>) -> Result<
    (Seq<char>, SpecPost),
    ScanError,
> {
    match spec_scan(text) {
        Err(e) => Err(e),
        Ok(tags) => match spec_collect(text, filename, tags) {
            Err(e) => Err(e),
            Ok(pe) => Ok((spec_apply_edits(text, pe.1), pe.0)),
        },
    }
}

/// Scans `file_content` for annotations, records them into a post, and
/// replaces the content by the rewritten text. On an error the content is
/// left unchanged.
pub fn new_post(filename: String, file_content: &mut String) -> (r: Result<Post, ScanError>)
    ensures
        match spec_new_post(filename@, old(file_content)@) {
            Ok(res) => {
                &&& r matches Ok(p) && p@ == res.1
                &&& final(file_content)@ == res.0
            },
            Err(e) => {
                &&& r matches Err(e2) && e2 == e
                &&& final(file_content)@ == old(file_content)@
            },
        },
{
    let text = chars_of(file_content.as_str());
    match scan_annotations(&text) {
        Err(e) => Err(e),
        Ok(tags) => {
            match collect_annotations(&text, filename, &tags) {
                Err(e) => Err(e),
                Ok(pe) => {
                    let (post, edits) = pe;
                    proof {
                        lemma_collect_from_wf(
                            text@,
                            annotations_view(tags@),
                            0,
                            empty_post(filename@),
                            Seq::empty(),
                            0,
                        );
                    }
                    let out = apply_edits(&text, &edits);
                    *file_content = string_of(&out);
                    Ok(post)
                },
            }
        },
    }
}

/// Preview pairs have the documented shape and some fields never change
/// during collection: the fold preserves the pair shape, the filename and
/// the (still empty) heading ids.
proof fn lemma_collect_post_shape(
    text: Seq<char>,
    tags: Seq<SpecAnnotation>,
    i: int,
    post: SpecPost,
    edits: Seq<SpecEdit>,
    cur: int,
)
    requires
        forall|k: int|
            0 <= k < post.preview_images.len() ==> (#[trigger] post.preview_images[k]).1
                == spec_preview_url(post.preview_images[k].0),
    ensures
        collect_from(text, tags, i, post, edits, cur) matches Ok(pe) ==> {
            &&& forall|k: int|
                0 <= k < pe.0.preview_images.len() ==> (#[trigger] pe.0.preview_images[k]).1
                    == spec_preview_url(pe.0.preview_images[k].0)
            &&& pe.0.headline_ids == post.headline_ids
            &&& pe.0.filename == post.filename
        },
    decreases tags.len() - i,
{
    if i < 0 || i >= tags.len() {
    } else {
        let t = tags[i];
        if spec_known_name(t.name) {
            match t.value {
                None => {},
                Some(v) => {
                    let post1 = if t.name == "created"@ {
                        SpecPost { created: v, ..post }
                    } else if t.name == "tag"@ {
                        SpecPost { tags: post.tags.push(v), ..post }
                    } else {
                        SpecPost { status: Some(v), ..post }
                    };
                    if cur <= t.start && t.start < t.end && t.end <= text.len() {
                        let ext: int = if t.end < text.len() && text[t.end] == '\n' {
                            1
                        } else {
                            0
                        };
                        lemma_collect_post_shape(
                            text,
                            tags,
                            i + 1,
                            post1,
                            edits.push(
                                SpecEdit {
                                    start: t.start,
                                    end: t.end + ext,
                                    replacement: Seq::empty(),
                                },
                            ),
                            t.end + ext,
                        );
                    } else {
                        lemma_collect_post_shape(text, tags, i + 1, post1, edits, cur);
                    }
                },
            }
        } else if t.is_image {
            match t.link {
                None => {
                    lemma_collect_post_shape(text, tags, i + 1, post, edits, cur);
                },
                Some(l) => {
                    let post1 = SpecPost { images: post.images.push(l), ..post };
                    if t.class == Some("preview"@) && contains_char(l, '/') {
                        let post2 = SpecPost {
                            preview_images: post1.preview_images.push((l, spec_preview_url(l))),
                            ..post1
                        };
                        if cur <= t.start && t.start < t.end && t.end <= text.len() {
                            let span = text.subrange(t.start, t.end);
                            let without = spec_replace_all(span, "{preview}"@, Seq::empty());
                            match rfind_char(without, '/') {
                                Some(k) => {
                                    lemma_collect_post_shape(
                                        text,
                                        tags,
                                        i + 1,
                                        post2,
                                        edits.push(
                                            SpecEdit {
                                                start: t.start,
                                                end: t.end,
                                                replacement: without.take(k) + "/preview"@
                                                    + without.skip(k),
                                            },
                                        ),
                                        t.end,
                                    );
                                },
                                None => {
                                    lemma_collect_post_shape(text, tags, i + 1, post2, edits, cur);
                                },
                            }
                        } else {
                            lemma_collect_post_shape(text, tags, i + 1, post2, edits, cur);
                        }
                    } else {
                        lemma_collect_post_shape(text, tags, i + 1, post1, edits, cur);
                    }
                },
            }
        } else {
            match t.link {
                Some(l) => {
                    lemma_collect_post_shape(
                        text,
                        tags,
                        i + 1,
                        SpecPost { links: post.links.push(l), ..post },
                        edits,
                        cur,
                    );
                },
                None => {
                    match t.value {
                        Some(_) => {},
                        None => {
                            lemma_collect_post_shape(text, tags, i + 1, post, edits, cur);
                        },
                    }
                },
            }
        }
    }
}

/// Every preview pair of a scanned post is the original path beside the
/// original path with a `/preview` segment inserted before its filename.
pub proof fn lemma_preview_pairs_shape(filename: Seq<char>, text: Seq<char>)
    ensures
        spec_new_post(filename, text) matches Ok(res) ==> forall|k: int|
            0 <= k < res.1.preview_images.len() ==> (#[trigger] res.1.preview_images[k]).1
                == spec_preview_url(res.1.preview_images[k].0),
{
    if spec_new_post(filename, text) is Ok {
        let tags = spec_scan(text)->Ok_0;
        lemma_collect_post_shape(text, tags, 0, empty_post(filename), Seq::empty(), 0);
    }
}

/// A freshly scanned post carries no heading ids yet; the render pipeline
/// alone fills them.
pub proof fn lemma_new_post_headline_ids_empty(filename: Seq<char>, text: Seq<char>)
    ensures
        spec_new_post(filename, text) matches Ok(res) ==> res.1.headline_ids.len() == 0,
{
    if spec_new_post(filename, text) is Ok {
        let tags = spec_scan(text)->Ok_0;
        lemma_collect_post_shape(text, tags, 0, empty_post(filename), Seq::empty(), 0);
    }
}

/// The scanner applies its rewrites only in ascending source order: the
/// edit list collected from any document's annotations is well formed, with
/// spans in bounds, ascending and non-overlapping.
pub proof fn lemma_new_post_edits_ordered(filename: Seq<char>, text: Seq<char>)
    ensures
        spec_scan(text) matches Ok(tags) ==> (spec_collect(text, filename, tags) matches Ok(pe)
            ==> edits_wf(pe.1, text.len() as int)),
{
    if spec_scan(text) is Ok {
        let tags = spec_scan(text)->Ok_0;
        lemma_collect_from_wf(text, tags, 0, empty_post(filename), Seq::empty(), 0);
    }
}

/// The length of the rewritten text of an accepted document: the original
/// length minus every deleted span plus every inserted replacement.
pub proof fn lemma_new_post_length(filename: Seq<char>, text: Seq<char>)
    ensures
        spec_new_post(filename, text) matches Ok(res) ==> {
            let edits = spec_collect(text, filename, spec_scan(text)->Ok_0)->Ok_0.1;
            res.0.len() == text.len() - sum_removed(edits, 0) + sum_inserted(edits, 0)
        },
{
    if spec_new_post(filename, text) is Ok {
        let tags = spec_scan(text)->Ok_0;
        let edits = spec_collect(text, filename, tags)->Ok_0.1;
        lemma_collect_from_wf(text, tags, 0, empty_post(filename), Seq::empty(), 0);
        lemma_apply_edits_len(text, edits);
    }
}

} // verus!
