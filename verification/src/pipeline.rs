use vstd::prelude::*;

use crate::error::LinkFailCause;
use crate::error::PipelineError;
use crate::post::Post;
use crate::post::SpecPost;
use crate::post::posts_view;
use crate::post::strings_view;
use crate::strutil::chars_of;
use crate::strutil::chars_eq_str;
use crate::strutil::ends_with;
use crate::strutil::find_char_from;
use crate::strutil::find_char_in;
use crate::strutil::push_range;
use crate::strutil::seq_ends_with;
use crate::strutil::seq_starts_with;
use crate::strutil::spec_replace_all;
use crate::strutil::starts_with;
use crate::strutil::string_of;
use crate::strutil::string_replace;
use crate::utils::File;
use crate::utils::SpecFile;
use crate::utils::files_view;
use crate::utils::spec_search;
use crate::utils::lemma_search_bounds;
use crate::utils::search;

verus! {

// ---------------------------------------------------------------------------
// Ordering posts by their creation date, newest first. Dates are
// lexicographically sortable strings, so the order is plain lexicographic
// string order, and the sort is stable: posts with equal dates keep their
// discovery order.
// ---------------------------------------------------------------------------

/// Strict lexicographic order on character sequences, by code point.
pub open spec fn str_lt(a: Seq<char>, b: Seq<char>) -> bool
    decreases a.len(),
{
    if b.len() == 0 {
        false
    } else if a.len() == 0 {
        true
    } else if (a[0] as u32) < (b[0] as u32) {
        true
    } else if (a[0] as u32) > (b[0] as u32) {
        false
    } else {
        str_lt(a.drop_first(), b.drop_first())
    }
}

/// Compares two strings in lexicographic order.
pub fn string_lt(a: &String, b: &String) -> (r: bool)
    ensures
        r == str_lt(a@, b@),
{
    let av = chars_of(a.as_str());
    let bv = chars_of(b.as_str());
    let an = av.len();
    let bn = bv.len();
    let mut i: usize = 0;
    proof {
        assert(a@.skip(0) =~= a@);
        assert(b@.skip(0) =~= b@);
    }
    loop
        invariant
            0 <= i <= an,
            i <= bn,
            an == av@.len(),
            bn == bv@.len(),
            av@ == a@,
            bv@ == b@,
            str_lt(a@, b@) == str_lt(a@.skip(i as int), b@.skip(i as int)),
        decreases an - i,
    {
        if i >= bn {
            proof {
                assert(b@.skip(i as int).len() == 0);
            }
            return false;
        }
        if i >= an {
            proof {
                assert(a@.skip(i as int).len() == 0);
                assert(b@.skip(i as int).len() > 0);
            }
            return true;
        }
        let ac = av[i];
        let bc = bv[i];
        proof {
            assert(a@.skip(i as int)[0] == a@[i as int]);
            assert(b@.skip(i as int)[0] == b@[i as int]);
            assert(a@.skip(i as int).drop_first() =~= a@.skip(i + 1));
            assert(b@.skip(i as int).drop_first() =~= b@.skip(i + 1));
        }
        if (ac as u32) < (bc as u32) {
            return true;
        }
        if (ac as u32) > (bc as u32) {
            return false;
        }
        i += 1;
    }
}

/// Where a post is inserted into a descending-sorted run: after every entry
/// whose date is not strictly older, so equal dates keep their order.
pub open spec fn insert_pos(x: SpecPost, s: Seq<SpecPost>) -> int
    decreases s.len(),
{
    if s.len() == 0 {
        0
    } else if str_lt(s[0].created, x.created) {
        0
    } else {
        1 + insert_pos(x, s.drop_first())
    }
}

pub proof fn lemma_insert_pos(x: SpecPost, s: Seq<SpecPost>)
    ensures
        0 <= insert_pos(x, s) <= s.len(),
        insert_pos(x, s) < s.len() ==> str_lt(s[insert_pos(x, s)].created, x.created),
        forall|j: int| 0 <= j < insert_pos(x, s) ==> !str_lt((#[trigger] s[j]).created, x.created),
    decreases s.len(),
{
    if s.len() > 0 && !str_lt(s[0].created, x.created) {
        lemma_insert_pos(x, s.drop_first());
        assert forall|j: int| 0 <= j < insert_pos(x, s) implies !str_lt(
            (#[trigger] s[j]).created,
            x.created,
        ) by {
            if j > 0 {
                assert(s.drop_first()[j - 1] == s[j]);
            }
        }
        if insert_pos(x, s) < s.len() {
            assert(s.drop_first()[insert_pos(x, s.drop_first())] == s[insert_pos(x, s)]);
        }
    }
}

fn stable_insert_pos(out: &Vec<Post>, p: &Post) -> (r: usize)
    ensures
        r as int == insert_pos(p@, posts_view(out@)),
{
    let ghost sorted0 = posts_view(out@);
    let n = out.len();
    let mut k: usize = 0;
    while k < n
        invariant
            0 <= k <= n,
            n == out@.len(),
            sorted0 == posts_view(out@),
            sorted0.len() == n,
            forall|j: int| 0 <= j < k ==> !str_lt((#[trigger] sorted0[j]).created, p@.created),
        decreases n - k,
    {
        proof {
            assert(sorted0[k as int] == out@[k as int]@);
        }
        if string_lt(&out[k].created, &p.created) {
            proof {
                lemma_insert_pos(p@, sorted0);
                let ip = insert_pos(p@, sorted0);
                if ip < k {
                    assert(!str_lt(sorted0[ip].created, p@.created));
                }
                if k < ip {
                    assert(!str_lt(sorted0[k as int].created, p@.created));
                }
            }
            return k;
        }
        k += 1;
    }
    proof {
        lemma_insert_pos(p@, sorted0);
        let ip = insert_pos(p@, sorted0);
        if ip < n {
            assert(!str_lt(sorted0[ip].created, p@.created));
        }
    }
    n
}

proof fn lemma_str_lt_irrefl(a: Seq<char>)
    ensures
        !str_lt(a, a),
    decreases a.len(),
{
    if a.len() > 0 {
        lemma_str_lt_irrefl(a.drop_first());
    }
}

proof fn lemma_str_lt_trans(a: Seq<char>, b: Seq<char>, c: Seq<char>)
    requires
        str_lt(a, b),
        str_lt(b, c),
    ensures
        str_lt(a, c),
    decreases a.len(),
{
    if c.len() == 0 || b.len() == 0 {
    } else if a.len() == 0 {
    } else {
        if (a[0] as u32) == (b[0] as u32) && (b[0] as u32) == (c[0] as u32) {
            lemma_str_lt_trans(a.drop_first(), b.drop_first(), c.drop_first());
        }
    }
}

/// One stable descending insertion.
pub open spec fn insert_desc(x: SpecPost, s: Seq<SpecPost>) -> Seq<SpecPost> {
    s.insert(insert_pos(x, s), x)
}

/// Stable insertion sort, descending by creation date.
pub open spec fn spec_sort_desc(s: Seq<SpecPost>) -> Seq<SpecPost>
    decreases s.len(),
{
    if s.len() == 0 {
        Seq::empty()
    } else {
        insert_desc(s.last(), spec_sort_desc(s.drop_last()))
    }
}

/// Non-ascending order by creation date: no entry is strictly older than a
/// later one.
pub open spec fn sorted_desc(s: Seq<SpecPost>) -> bool {
    forall|i: int, j: int|
        0 <= i < j < s.len() ==> !str_lt((#[trigger] s[i]).created, (#[trigger] s[j]).created)
}

proof fn lemma_insert_desc_sorted(x: SpecPost, s: Seq<SpecPost>)
    requires
        sorted_desc(s),
    ensures
        sorted_desc(insert_desc(x, s)),
{
    lemma_insert_pos(x, s);
    let ip = insert_pos(x, s);
    let r = insert_desc(x, s);
    assert(r == s.insert(ip, x));
    assert forall|i: int, j: int|
        0 <= i < j < r.len() implies !str_lt((#[trigger] r[i]).created, (#[trigger] r[j]).created) by {
        assert(forall|k: int| 0 <= k < ip ==> r[k] == s[k]);
        assert(r[ip] == x);
        assert(forall|k: int| ip < k < r.len() ==> r[k] == s[k - 1]);
        if j < ip {
        } else if j == ip {
            assert(!str_lt(s[i].created, x.created));
        } else if i < ip {
        } else if i == ip {
            if str_lt(x.created, s[j - 1].created) {
                assert(str_lt(s[ip].created, x.created));
                lemma_str_lt_trans(s[ip].created, x.created, s[j - 1].created);
                if ip == j - 1 {
                    lemma_str_lt_irrefl(s[ip].created);
                }
                assert(false);
            }
        } else {
        }
    }
}

/// The recent-posts order: the sorted listing is descending by creation
/// date, newest first.
pub proof fn lemma_sort_desc_sorted(s: Seq<SpecPost>)
    ensures
        sorted_desc(spec_sort_desc(s)),
    decreases s.len(),
{
    if s.len() > 0 {
        lemma_sort_desc_sorted(s.drop_last());
        lemma_insert_desc_sorted(s.last(), spec_sort_desc(s.drop_last()));
    }
}

/// Sorts posts by creation date, newest first; posts with equal dates keep
/// their order.
pub fn sort_posts(posts: &mut Vec<Post>)
    ensures
        posts_view(final(posts)@) == spec_sort_desc(posts_view(old(posts)@)),
{
    let ghost orig = posts_view(old(posts)@);
    let mut out: Vec<Post> = Vec::new();
    let ghost mut taken: int = 0;
    proof {
        assert(posts_view(out@) =~= Seq::<SpecPost>::empty());
        assert(orig.take(0) =~= Seq::<SpecPost>::empty());
        assert(posts_view(posts@) =~= orig.skip(0));
    }
    while posts.len() > 0
        invariant
            0 <= taken <= orig.len(),
            posts_view(posts@) == orig.skip(taken),
            posts_view(out@) == spec_sort_desc(orig.take(taken)),
        decreases posts@.len(),
    {
        let ghost rem0 = posts_view(posts@);
        let p = posts.remove(0);
        proof {
            assert(posts_view(posts@) =~= rem0.drop_first());
            assert(rem0.drop_first() =~= orig.skip(taken + 1));
            assert(p@ == rem0[0]);
            assert(rem0[0] == orig[taken]);
        }
        let ghost sorted0 = posts_view(out@);
        let k = stable_insert_pos(&out, &p);
        proof {
            lemma_insert_pos(p@, sorted0);
        }
        out.insert(k, p);
        proof {
            assert(posts_view(out@) =~= sorted0.insert(k as int, p@));
            assert(orig.take(taken + 1).drop_last() =~= orig.take(taken));
            assert(orig.take(taken + 1).last() == orig[taken]);
            assert(posts_view(out@) == spec_sort_desc(orig.take(taken + 1)));
            taken = taken + 1;
        }
    }
    proof {
        assert(posts_view(posts@).len() == 0);
        assert(taken == orig.len());
        assert(orig.take(taken) =~= orig);
    }
    *posts = out;
}

// ---------------------------------------------------------------------------
// The recent-posts listing: only posts that carry a creation date.
// ---------------------------------------------------------------------------

pub open spec fn filter_created_fold(s: Seq<SpecPost>, i: int, acc: Seq<SpecPost>) -> Seq<
    SpecPost,
>
    decreases s.len() - i,
{
    if i < 0 || i >= s.len() {
        acc
    } else if s[i].created.len() > 0 {
        filter_created_fold(s, i + 1, acc.push(s[i]))
    } else {
        filter_created_fold(s, i + 1, acc)
    }
}

/// The posts that carry a creation date, in order.
pub open spec fn spec_filter_created(s: Seq<SpecPost>) -> Seq<SpecPost> {
    filter_created_fold(s, 0, Seq::empty())
}

/// Keeps the posts with a nonempty creation date.
pub fn posts_with_created(posts: &Vec<Post>) -> (r: Vec<Post>)
    ensures
        posts_view(r@) == spec_filter_created(posts_view(posts@)),
{
    let ghost pv = posts_view(posts@);
    let n = posts.len();
    let mut out: Vec<Post> = Vec::new();
    let mut i: usize = 0;
    proof {
        assert(posts_view(out@) =~= Seq::<SpecPost>::empty());
    }
    while i < n
        invariant
            0 <= i <= n,
            n == posts@.len(),
            pv == posts_view(posts@),
            pv.len() == n,
            spec_filter_created(pv) == filter_created_fold(pv, i as int, posts_view(out@)),
        decreases n - i,
    {
        let ghost out0 = posts_view(out@);
        proof {
            assert(pv[i as int] == posts@[i as int]@);
        }
        if !posts[i].created.as_str().is_empty() {
            out.push(posts[i].clone());
            proof {
                assert(posts_view(out@) =~= out0.push(pv[i as int]));
            }
        }
        i += 1;
    }
    out
}

// ---------------------------------------------------------------------------
// The overview's tag map: each tag in order of first appearance, with the
// posts that carry it, in post order; a post appears once per time it
// carries the tag.
// ---------------------------------------------------------------------------

pub open spec fn tag_map_view(v: Seq<(String, Vec<Post>)>) -> Seq<(Seq<char>, Seq<SpecPost>)> {
    v.map_values(|e: (String, Vec<Post>)| (e.0@, posts_view(e.1@)))
}

pub open spec fn find_tag_from(
    acc: Seq<(Seq<char>, Seq<SpecPost>)>,
    tag: Seq<char>,
    k: int,
) -> Option<int>
    decreases acc.len() - k,
{
    if k < 0 || k >= acc.len() {
        None
    } else if acc[k].0 == tag {
        Some(k)
    } else {
        find_tag_from(acc, tag, k + 1)
    }
}

proof fn lemma_find_tag_bounds(acc: Seq<(Seq<char>, Seq<SpecPost>)>, tag: Seq<char>, k: int)
    ensures
        find_tag_from(acc, tag, k) matches Some(q) ==> k <= q < acc.len() && acc[q].0 == tag,
    decreases acc.len() - k,
{
    if !(k < 0 || k >= acc.len()) && acc[k].0 != tag {
        lemma_find_tag_bounds(acc, tag, k + 1);
    }
}

fn find_tag_idx(out: &Vec<(String, Vec<Post>)>, tag: &String) -> (r: Option<usize>)
    ensures
        match r {
            Some(k) => find_tag_from(tag_map_view(out@), tag@, 0) == Some(k as int),
            None => find_tag_from(tag_map_view(out@), tag@, 0) is None,
        },
{
    let ghost acc = tag_map_view(out@);
    let n = out.len();
    let mut k: usize = 0;
    while k < n
        invariant
            0 <= k <= n,
            n == out@.len(),
            acc == tag_map_view(out@),
            acc.len() == n,
            find_tag_from(acc, tag@, 0) == find_tag_from(acc, tag@, k as int),
        decreases n - k,
    {
        proof {
            assert(acc[k as int] == (out@[k as int].0@, posts_view(out@[k as int].1@)));
        }
        if out[k].0.eq(tag) {
            return Some(k);
        }
        k += 1;
    }
    None
}

/// Adds one (tag, post) occurrence to the map.
pub open spec fn add_post_tag(
    acc: Seq<(Seq<char>, Seq<SpecPost>)>,
    tag: Seq<char>,
    post: SpecPost,
) -> Seq<(Seq<char>, Seq<SpecPost>)> {
    match find_tag_from(acc, tag, 0) {
        Some(k) => acc.update(k, (acc[k].0, acc[k].1.push(post))),
        None => acc.push((tag, seq![post])),
    }
}

pub open spec fn tag_fold_tags(
    acc: Seq<(Seq<char>, Seq<SpecPost>)>,
    post: SpecPost,
    j: int,
) -> Seq<(Seq<char>, Seq<SpecPost>)>
    decreases post.tags.len() - j,
{
    if j < 0 || j >= post.tags.len() {
        acc
    } else {
        tag_fold_tags(add_post_tag(acc, post.tags[j], post), post, j + 1)
    }
}

pub open spec fn tag_fold(
    posts: Seq<SpecPost>,
    i: int,
    acc: Seq<(Seq<char>, Seq<SpecPost>)>,
) -> Seq<(Seq<char>, Seq<SpecPost>)>
    decreases posts.len() - i,
{
    if i < 0 || i >= posts.len() {
        acc
    } else {
        tag_fold(posts, i + 1, tag_fold_tags(acc, posts[i], 0))
    }
}

/// The tag map of the given posts.
pub open spec fn spec_tag_map(posts: Seq<SpecPost>) -> Seq<(Seq<char>, Seq<SpecPost>)> {
    tag_fold(posts, 0, Seq::empty())
}

/// Builds the tag map: tags in order of first appearance, each with the
/// posts carrying it.
pub fn build_tag_map(posts: &Vec<Post>) -> (r: Vec<(String, Vec<Post>)>)
    ensures
        tag_map_view(r@) == spec_tag_map(posts_view(posts@)),
{
    let ghost pv = posts_view(posts@);
    let n = posts.len();
    let mut out: Vec<(String, Vec<Post>)> = Vec::new();
    let mut i: usize = 0;
    proof {
        assert(tag_map_view(out@) =~= Seq::<(Seq<char>, Seq<SpecPost>)>::empty());
    }
    while i < n
        invariant
            0 <= i <= n,
            n == posts@.len(),
            pv == posts_view(posts@),
            pv.len() == n,
            spec_tag_map(pv) == tag_fold(pv, i as int, tag_map_view(out@)),
        decreases n - i,
    {
        proof {
            assert(pv[i as int] == posts@[i as int]@);
        }
        let post = &posts[i];
        let tn = post.tags.len();
        let mut j: usize = 0;
        while j < tn
            invariant
                0 <= j <= tn,
                0 <= i < n,
                n == posts@.len(),
                pv == posts_view(posts@),
                pv.len() == n,
                post == &posts[i as int],
                post@ == pv[i as int],
                tn == post.tags@.len(),
                spec_tag_map(pv) == tag_fold(
                    pv,
                    i + 1,
                    tag_fold_tags(tag_map_view(out@), pv[i as int], j as int),
                ),
            decreases tn - j,
        {
            proof {
                assert(pv[i as int].tags[j as int] == post.tags@[j as int]@);
            }
            let tag = &post.tags[j];
            let ghost acc0 = tag_map_view(out@);
            match find_tag_idx(&out, tag) {
                Some(k2) => {
                    proof {
                        lemma_find_tag_bounds(acc0, tag@, 0);
                    }
                    let mut entry = out.remove(k2);
                    entry.1.push(post.clone());
                    out.insert(k2, entry);
                    proof {
                        assert(tag_map_view(out@) =~~= add_post_tag(acc0, tag@, pv[i as int]));
                    }
                },
                None => {
                    let mut group: Vec<Post> = Vec::new();
                    group.push(post.clone());
                    out.push((tag.clone(), group));
                    proof {
                        assert(tag_map_view(out@) =~~= add_post_tag(acc0, tag@, pv[i as int]));
                    }
                },
            }
            j += 1;
            proof {
                assert(tag_fold_tags(acc0, pv[i as int], j - 1) == tag_fold_tags(
                    tag_map_view(out@),
                    pv[i as int],
                    j as int,
                ));
            }
        }
        i += 1;
        proof {
            assert(tag_fold_tags(tag_map_view(out@), pv[i - 1], tn as int) == tag_map_view(out@));
        }
    }
    out
}

/// The tags of a tag map, in order: the overview's tag list.
pub fn tag_list_of(map: &Vec<(String, Vec<Post>)>) -> (r: Vec<String>)
    ensures
        r@.len() == map@.len(),
        forall|k: int| 0 <= k < r@.len() ==> (#[trigger] r@[k])@ == tag_map_view(map@)[k].0,
{
    let n = map.len();
    let mut r: Vec<String> = Vec::new();
    let mut i: usize = 0;
    while i < n
        invariant
            0 <= i <= n,
            n == map@.len(),
            r@.len() == i,
            forall|k: int| 0 <= k < i ==> (#[trigger] r@[k])@ == tag_map_view(map@)[k].0,
        decreases n - i,
    {
        proof {
            assert(tag_map_view(map@)[i as int].0 == map@[i as int].0@);
        }
        r.push(map[i].0.clone());
        i += 1;
    }
    r
}


// ---------------------------------------------------------------------------
// Per-file naming decisions of the generation run.
// ---------------------------------------------------------------------------

/// The output name of a post source: every `.md` becomes `.html`.
pub fn html_target_name(name: &String) -> (r: String)
    ensures
        r@ == spec_replace_all(name@, ".md"@, ".html"@),
{
    string_replace(name.as_str(), ".md", ".html")
}

/// The two reserved sources whose content is deferred to the aggregate
/// pages instead of being rendered per file.
pub open spec fn spec_is_custom_post(name: Seq<char>) -> bool {
    name == "recent-posts.md"@ || name == "overview.md"@
}

/// Whether a source is one of the reserved aggregate documents.
pub fn is_custom_post(name: &String) -> (r: bool)
    ensures
        r == spec_is_custom_post(name@),
{
    let nv = chars_of(name.as_str());
    chars_eq_str(&nv, "recent-posts.md") || chars_eq_str(&nv, "overview.md")
}

// ---------------------------------------------------------------------------
// Link verification: every non-external link must resolve under the input
// root, or be a generated page under the output root whose fragment, if
// any, names a heading id of the matching post.
// ---------------------------------------------------------------------------

/// `x` occurs in `list`.
pub open spec fn seq_str_contains(list: Seq<Seq<char>>, x: Seq<char>) -> bool {
    exists|k: int| 0 <= k < list.len() && #[trigger] list[k] == x
}

fn str_list_contains(v: &Vec<String>, x: &String) -> (r: bool)
    ensures
        r == seq_str_contains(strings_view(v@), x@),
{
    let ghost lv = strings_view(v@);
    let n = v.len();
    let mut i: usize = 0;
    while i < n
        invariant
            0 <= i <= n,
            n == v@.len(),
            lv == strings_view(v@),
            lv.len() == n,
            forall|k: int| 0 <= k < i ==> #[trigger] lv[k] != x@,
        decreases n - i,
    {
        proof {
            assert(lv[i as int] == v@[i as int]@);
        }
        if v[i].eq(x) {
            return true;
        }
        i += 1;
    }
    false
}

/// A link split at its first `#` into path and fragment.
pub open spec fn spec_link_split(link: Seq<char>) -> (Seq<char>, Option<Seq<char>>) {
    match find_char_from(link, '#', 0) {
        Some(i) => (link.take(i), Some(link.skip(i + 1))),
        None => (link, None),
    }
}

fn split_link(link: &String) -> (r: (String, Option<String>))
    ensures
        r.0@ == spec_link_split(link@).0,
        match r.1 {
            Some(f) => spec_link_split(link@).1 == Some(f@),
            None => spec_link_split(link@).1 is None,
        },
{
    let lv = chars_of(link.as_str());
    match find_char_in(&lv, '#', 0) {
        Some(i) => {
            proof {
                crate::strutil::lemma_find_char_from_bounds(lv@, '#', 0);
            }
            let n = lv.len();
            let mut url: Vec<char> = Vec::new();
            push_range(&mut url, &lv, 0, i);
            let mut frag: Vec<char> = Vec::new();
            push_range(&mut frag, &lv, i + 1, n);
            proof {
                assert(url@ =~= spec_link_split(link@).0);
                assert(frag@ =~= spec_link_split(link@).1->Some_0);
            }
            (string_of(&url), Some(string_of(&frag)))
        },
        None => (link.clone(), None),
    }
}

/// A fragment is good when some post whose filename is the link's source
/// name carries it as a heading id.
pub open spec fn fragment_ok(posts: Seq<SpecPost>, md_name: Seq<char>, frag: Seq<char>) -> bool {
    exists|p: int|
        0 <= p < posts.len() && (#[trigger] posts[p]).filename == md_name && seq_str_contains(
            posts[p].headline_ids,
            frag,
        )
}

fn fragment_ok_exec(posts: &Vec<Post>, md_name: &String, frag: &String) -> (r: bool)
    ensures
        r == fragment_ok(posts_view(posts@), md_name@, frag@),
{
    let ghost pv = posts_view(posts@);
    let n = posts.len();
    let mut i: usize = 0;
    while i < n
        invariant
            0 <= i <= n,
            n == posts@.len(),
            pv == posts_view(posts@),
            pv.len() == n,
            forall|p: int|
                0 <= p < i ==> !((#[trigger] pv[p]).filename == md_name@ && seq_str_contains(
                    pv[p].headline_ids,
                    frag@,
                )),
        decreases n - i,
    {
        proof {
            assert(pv[i as int] == posts@[i as int]@);
        }
        if posts[i].filename.eq(md_name) && str_list_contains(&posts[i].headline_ids, frag) {
            return true;
        }
        i += 1;
    }
    false
}

/// The verdict on one link: accepted when external, when it resolves under
/// the input root (directly, or with the known relative prefix dropped, as
/// the filesystem would resolve it), or when it is a generated page under
/// the output root whose fragment (if any) is a heading id of the matching
/// post.
pub open spec fn spec_link_check(
    link: Seq<char>,
    posts: Seq<SpecPost>,
    inputs: Seq<Seq<char>>,
    outputs: Seq<Seq<char>>,
) -> Option<LinkFailCause> {
    if starts_with(link, "http"@) {
        None
    } else if seq_str_contains(inputs, link) || seq_str_contains(inputs, spec_handle(link)) {
        None
    } else {
        let us = spec_link_split(link);
        if ends_with(us.0, ".html"@) && seq_str_contains(outputs, us.0) {
            match us.1 {
                None => None,
                Some(frag) => {
                    if fragment_ok(posts, spec_replace_all(us.0, ".html"@, ".md"@), frag) {
                        None
                    } else {
                        Some(LinkFailCause::UnknownHeadlineId)
                    }
                },
            }
        } else {
            Some(LinkFailCause::UnknownFile)
        }
    }
}

fn link_check(
    link: &String,
    posts: &Vec<Post>,
    inputs: &Vec<String>,
    outputs: &Vec<String>,
) -> (r: Option<LinkFailCause>)
    ensures
        r == spec_link_check(
            link@,
            posts_view(posts@),
            strings_view(inputs@),
            strings_view(outputs@),
        ),
{
    let lv = chars_of(link.as_str());
    let http = chars_of("http");
    if seq_starts_with(&lv, &http) {
        return None;
    }
    if str_list_contains(inputs, link) {
        return None;
    }
    let handle = string_replace(link.as_str(), "../posts/", "");
    if str_list_contains(inputs, &handle) {
        return None;
    }
    let us = split_link(link);
    let url = us.0;
    let uv = chars_of(url.as_str());
    let html = chars_of(".html");
    if seq_ends_with(&uv, &html) && str_list_contains(outputs, &url) {
        match us.1 {
            None => None,
            Some(frag) => {
                let md_name = string_replace(url.as_str(), ".html", ".md");
                if fragment_ok_exec(posts, &md_name, &frag) {
                    None
                } else {
                    Some(LinkFailCause::UnknownHeadlineId)
                }
            },
        }
    } else {
        Some(LinkFailCause::UnknownFile)
    }
}

/// The first failing link, scanning posts in order and each post's links in
/// order.
pub open spec fn link_scan(
    posts: Seq<SpecPost>,
    inputs: Seq<Seq<char>>,
    outputs: Seq<Seq<char>>,
    pi: int,
    li: int,
) -> Option<(int, int, LinkFailCause)>
    decreases posts.len() - pi, (if 0 <= pi < posts.len() {
        posts[pi].links.len() + 1 - li
    } else {
        0
    }),
{
    if pi < 0 || li < 0 || pi >= posts.len() {
        None
    } else if li >= posts[pi].links.len() {
        link_scan(posts, inputs, outputs, pi + 1, 0)
    } else {
        match spec_link_check(posts[pi].links[li], posts, inputs, outputs) {
            None => link_scan(posts, inputs, outputs, pi, li + 1),
            Some(c) => Some((pi, li, c)),
        }
    }
}

/// Checks every link of every post, in order, against the discovered input
/// and output paths; the first failing link aborts with its cause.
pub fn verify_links(
    posts: &Vec<Post>,
    input_files: &Vec<String>,
    output_files: &Vec<String>,
) -> (r: Result<(), PipelineError>)
    ensures
        ({
            let scan = link_scan(
                posts_view(posts@),
                strings_view(input_files@),
                strings_view(output_files@),
                0,
                0,
            );
            match scan {
                None => r is Ok,
                Some(f) => r matches Err(e) && e matches PipelineError::LinkNotFound {
                    link,
                    cause,
                } && link@ == posts_view(posts@)[f.0].links[f.1] && cause == f.2,
            }
        }),
{
    let ghost pv = posts_view(posts@);
    let ghost iv = strings_view(input_files@);
    let ghost ov = strings_view(output_files@);
    let n = posts.len();
    let mut pi: usize = 0;
    while pi < n
        invariant
            0 <= pi <= n,
            n == posts@.len(),
            pv == posts_view(posts@),
            iv == strings_view(input_files@),
            ov == strings_view(output_files@),
            pv.len() == n,
            link_scan(pv, iv, ov, 0, 0) == link_scan(pv, iv, ov, pi as int, 0),
        decreases n - pi,
    {
        proof {
            assert(pv[pi as int] == posts@[pi as int]@);
        }
        let post = &posts[pi];
        let ln = post.links.len();
        let mut li: usize = 0;
        while li < ln
            invariant
                0 <= li <= ln,
                0 <= pi < n,
                n == posts@.len(),
                pv == posts_view(posts@),
                iv == strings_view(input_files@),
                ov == strings_view(output_files@),
                pv.len() == n,
                post == &posts[pi as int],
                post@ == pv[pi as int],
                ln == post.links@.len(),
                link_scan(pv, iv, ov, 0, 0) == link_scan(pv, iv, ov, pi as int, li as int),
            decreases ln - li,
        {
            proof {
                assert(pv[pi as int].links[li as int] == post.links@[li as int]@);
            }
            match link_check(&post.links[li], posts, input_files, output_files) {
                None => {},
                Some(c) => {
                    return Err(
                        PipelineError::LinkNotFound { link: post.links[li].clone(), cause: c },
                    );
                },
            }
            li += 1;
        }
        pi += 1;
    }
    Ok(())
}

// ---------------------------------------------------------------------------
// Preview-image derivation and the image list for metadata stripping.
// ---------------------------------------------------------------------------

/// A derived path is already covered when it exists in the output tree or
/// an earlier job will produce it.
pub open spec fn jobs_has_derived(acc: Seq<(Seq<char>, Seq<char>)>, d: Seq<char>) -> bool {
    exists|k: int| 0 <= k < acc.len() && (#[trigger] acc[k]).1 == d
}

pub open spec fn jobs_fold_pairs(
    pairs: Seq<(Seq<char>, Seq<char>)>,
    j: int,
    existing: Seq<Seq<char>>,
    acc: Seq<(Seq<char>, Seq<char>)>,
) -> Seq<(Seq<char>, Seq<char>)>
    decreases pairs.len() - j,
{
    if j < 0 || j >= pairs.len() {
        acc
    } else {
        let p = pairs[j];
        if !seq_str_contains(existing, p.1) && !jobs_has_derived(acc, p.1) {
            jobs_fold_pairs(pairs, j + 1, existing, acc.push(p))
        } else {
            jobs_fold_pairs(pairs, j + 1, existing, acc)
        }
    }
}

pub open spec fn jobs_fold(
    posts: Seq<SpecPost>,
    i: int,
    existing: Seq<Seq<char>>,
    acc: Seq<(Seq<char>, Seq<char>)>,
) -> Seq<(Seq<char>, Seq<char>)>
    decreases posts.len() - i,
{
    if i < 0 || i >= posts.len() {
        acc
    } else {
        jobs_fold(posts, i + 1, existing, jobs_fold_pairs(posts[i].preview_images, 0, existing, acc))
    }
}

/// The conversion jobs of a run: every preview pair whose derived file does
/// not exist yet and is not already scheduled, in order.
pub open spec fn spec_preview_jobs(
    posts: Seq<SpecPost>,
    existing: Seq<Seq<char>>,
) -> Seq<(Seq<char>, Seq<char>)> {
    jobs_fold(posts, 0, existing, Seq::empty())
}

fn jobs_contains_derived(acc: &Vec<(String, String)>, d: &String) -> (r: bool)
    ensures
        r == jobs_has_derived(crate::post::pairs_view(acc@), d@),
{
    let ghost av = crate::post::pairs_view(acc@);
    let n = acc.len();
    let mut k: usize = 0;
    while k < n
        invariant
            0 <= k <= n,
            n == acc@.len(),
            av == crate::post::pairs_view(acc@),
            av.len() == n,
            forall|q: int| 0 <= q < k ==> (#[trigger] av[q]).1 != d@,
        decreases n - k,
    {
        proof {
            assert(av[k as int] == (acc@[k as int].0@, acc@[k as int].1@));
        }
        if acc[k].1.eq(d) {
            return true;
        }
        k += 1;
    }
    false
}

/// The preview-image conversion jobs: each (original, derived) pair whose
/// derived output does not already exist, scheduled once.
pub fn preview_image_jobs(posts: &Vec<Post>, existing: &Vec<String>) -> (r: Vec<(String, String)>)
    ensures
        crate::post::pairs_view(r@) == spec_preview_jobs(
            posts_view(posts@),
            strings_view(existing@),
        ),
{
    let ghost pv = posts_view(posts@);
    let ghost ev = strings_view(existing@);
    let n = posts.len();
    let mut acc: Vec<(String, String)> = Vec::new();
    let mut i: usize = 0;
    proof {
        assert(crate::post::pairs_view(acc@) =~= Seq::<(Seq<char>, Seq<char>)>::empty());
    }
    while i < n
        invariant
            0 <= i <= n,
            n == posts@.len(),
            pv == posts_view(posts@),
            ev == strings_view(existing@),
            pv.len() == n,
            spec_preview_jobs(pv, ev) == jobs_fold(pv, i as int, ev, crate::post::pairs_view(acc@)),
        decreases n - i,
    {
        proof {
            assert(pv[i as int] == posts@[i as int]@);
        }
        let post = &posts[i];
        let pn = post.preview_images.len();
        let mut j: usize = 0;
        while j < pn
            invariant
                0 <= j <= pn,
                0 <= i < n,
                n == posts@.len(),
                pv == posts_view(posts@),
                ev == strings_view(existing@),
                pv.len() == n,
                post == &posts[i as int],
                post@ == pv[i as int],
                pn == post.preview_images@.len(),
                spec_preview_jobs(pv, ev) == jobs_fold(
                    pv,
                    i + 1,
                    ev,
                    jobs_fold_pairs(
                        pv[i as int].preview_images,
                        j as int,
                        ev,
                        crate::post::pairs_view(acc@),
                    ),
                ),
            decreases pn - j,
        {
            proof {
                assert(pv[i as int].preview_images[j as int] == (
                    post.preview_images@[j as int].0@,
                    post.preview_images@[j as int].1@,
                ));
            }
            let ghost acc0 = crate::post::pairs_view(acc@);
            let derived = &post.preview_images[j].1;
            if !str_list_contains(existing, derived) && !jobs_contains_derived(&acc, derived) {
                let orig = post.preview_images[j].0.clone();
                let der = post.preview_images[j].1.clone();
                acc.push((orig, der));
                proof {
                    assert(crate::post::pairs_view(acc@) =~= acc0.push(
                        pv[i as int].preview_images[j as int],
                    ));
                }
            }
            j += 1;
            proof {
                assert(jobs_fold_pairs(pv[i as int].preview_images, j - 1, ev, acc0)
                    == jobs_fold_pairs(
                    pv[i as int].preview_images,
                    j as int,
                    ev,
                    crate::post::pairs_view(acc@),
                ));
            }
        }
        i += 1;
    }
    acc
}

pub open spec fn images_fold(posts: Seq<SpecPost>, i: int, acc: Seq<Seq<char>>) -> Seq<Seq<char>>
    decreases posts.len() - i,
{
    if i < 0 || i >= posts.len() {
        acc
    } else {
        images_fold(posts, i + 1, acc + posts[i].images)
    }
}

/// Every image referenced by any post, in order, one entry per reference.
pub open spec fn spec_collect_images(posts: Seq<SpecPost>) -> Seq<Seq<char>> {
    images_fold(posts, 0, Seq::empty())
}

/// Collects every image referenced by the posts, for metadata stripping.
pub fn collect_images(posts: &Vec<Post>) -> (r: Vec<String>)
    ensures
        strings_view(r@) == spec_collect_images(posts_view(posts@)),
{
    let ghost pv = posts_view(posts@);
    let n = posts.len();
    let mut acc: Vec<String> = Vec::new();
    let mut i: usize = 0;
    proof {
        assert(strings_view(acc@) =~= Seq::<Seq<char>>::empty());
    }
    while i < n
        invariant
            0 <= i <= n,
            n == posts@.len(),
            pv == posts_view(posts@),
            pv.len() == n,
            spec_collect_images(pv) == images_fold(pv, i as int, strings_view(acc@)),
        decreases n - i,
    {
        proof {
            assert(pv[i as int] == posts@[i as int]@);
        }
        let ghost acc0 = strings_view(acc@);
        let post = &posts[i];
        let im = post.images.len();
        let mut j: usize = 0;
        while j < im
            invariant
                0 <= j <= im,
                0 <= i < n,
                pv == posts_view(posts@),
                pv.len() == n,
                post == &posts[i as int],
                post@ == pv[i as int],
                im == post.images@.len(),
                strings_view(acc@) == acc0 + pv[i as int].images.take(j as int),
            decreases im - j,
        {
            proof {
                assert(pv[i as int].images[j as int] == post.images@[j as int]@);
            }
            let ghost a1 = strings_view(acc@);
            acc.push(post.images[j].clone());
            proof {
                assert(strings_view(acc@) =~= a1.push(pv[i as int].images[j as int]));
                assert(pv[i as int].images.take(j + 1) =~= pv[i as int].images.take(
                    j as int,
                ).push(pv[i as int].images[j as int]));
                assert(a1.push(pv[i as int].images[j as int]) =~= acc0 + pv[i as int].images.take(
                    j + 1,
                ));
            }
            j += 1;
        }
        proof {
            assert(pv[i as int].images.take(im as int) =~= pv[i as int].images);
        }
        i += 1;
    }
    acc
}


// ---------------------------------------------------------------------------
// Orphan detection: input files that are neither post sources nor generated
// pages, and that no post references through its links, images or derived
// preview paths, less the recognized per-tag cutout images. Matched entries
// leave the worklist by a swap with the last element, as the advisory
// report's order reflects.
// ---------------------------------------------------------------------------

pub open spec fn swap_remove_seq(list: Seq<Seq<char>>, i: int) -> Seq<Seq<char>> {
    list.update(i, list.last()).drop_last()
}

/// Removes the first occurrence of `handle`, if any, by a swap with the
/// last element.
pub open spec fn remove_handle(list: Seq<Seq<char>>, handle: Seq<char>) -> Seq<Seq<char>> {
    match spec_search(list, handle, 0) {
        Some(i) => swap_remove_seq(list, i),
        None => list,
    }
}

/// The reference made comparable to a discovered name: a known relative
/// prefix is dropped.
pub open spec fn spec_handle(reference: Seq<char>) -> Seq<char> {
    spec_replace_all(reference, "../posts/"@, ""@)
}

/// The orphan candidates: every discovered file that is not a directory,
/// not a post source and not a generated page.
pub open spec fn candidates_fold(files: Seq<SpecFile>, i: int, acc: Seq<Seq<char>>) -> Seq<
    Seq<char>,
>
    decreases files.len() - i,
{
    if i < 0 || i >= files.len() {
        acc
    } else {
        let f = files[i];
        if f.is_dir || ends_with(f.name, ".md"@) || ends_with(f.name, ".html"@) {
            candidates_fold(files, i + 1, acc)
        } else {
            candidates_fold(files, i + 1, acc.push(f.name))
        }
    }
}

pub open spec fn remove_links_fold(list: Seq<Seq<char>>, links: Seq<Seq<char>>, j: int) -> Seq<
    Seq<char>,
>
    decreases links.len() - j,
{
    if j < 0 || j >= links.len() {
        list
    } else if starts_with(links[j], "http"@) {
        remove_links_fold(list, links, j + 1)
    } else {
        remove_links_fold(remove_handle(list, spec_handle(links[j])), links, j + 1)
    }
}

pub open spec fn remove_images_fold(list: Seq<Seq<char>>, images: Seq<Seq<char>>, j: int) -> Seq<
    Seq<char>,
>
    decreases images.len() - j,
{
    if j < 0 || j >= images.len() {
        list
    } else {
        remove_images_fold(remove_handle(list, spec_handle(images[j])), images, j + 1)
    }
}

pub open spec fn remove_previews_fold(
    list: Seq<Seq<char>>,
    pairs: Seq<(Seq<char>, Seq<char>)>,
    j: int,
) -> Seq<Seq<char>>
    decreases pairs.len() - j,
{
    if j < 0 || j >= pairs.len() {
        list
    } else {
        remove_previews_fold(remove_handle(list, spec_handle(pairs[j].1)), pairs, j + 1)
    }
}

pub open spec fn remove_posts_fold(list: Seq<Seq<char>>, posts: Seq<SpecPost>, i: int) -> Seq<
    Seq<char>,
>
    decreases posts.len() - i,
{
    if i < 0 || i >= posts.len() {
        list
    } else {
        let p = posts[i];
        remove_posts_fold(
            remove_previews_fold(
                remove_images_fold(remove_links_fold(list, p.links, 0), p.images, 0),
                p.preview_images,
                0,
            ),
            posts,
            i + 1,
        )
    }
}

/// The cutout image name of a tag.
pub open spec fn spec_cutout_name(tag: Seq<char>) -> Seq<char> {
    "overview/"@ + tag + "_cutout.jpg"@
}

pub open spec fn cutout_tags_fold(
    name: Seq<char>,
    tags: Seq<Seq<char>>,
    t: int,
    acc: Seq<Seq<char>>,
) -> Seq<Seq<char>>
    decreases tags.len() - t,
{
    if t < 0 || t >= tags.len() {
        acc
    } else {
        let acc2 = if name == spec_cutout_name(tags[t]) {
            acc.push(name)
        } else {
            acc
        };
        cutout_tags_fold(name, tags, t + 1, acc2)
    }
}

pub open spec fn cutouts_fold(
    list: Seq<Seq<char>>,
    tags: Seq<Seq<char>>,
    k: int,
    acc: Seq<Seq<char>>,
) -> Seq<Seq<char>>
    decreases list.len() - k,
{
    if k < 0 || k >= list.len() {
        acc
    } else {
        cutouts_fold(list, tags, k + 1, cutout_tags_fold(list[k], tags, 0, acc))
    }
}

pub open spec fn remove_found_fold(list: Seq<Seq<char>>, found: Seq<Seq<char>>, k: int) -> Seq<
    Seq<char>,
>
    decreases found.len() - k,
{
    if k < 0 || k >= found.len() {
        list
    } else {
        remove_found_fold(remove_handle(list, found[k]), found, k + 1)
    }
}

/// The advisory orphan report.
pub open spec fn spec_unused_files(
    files: Seq<SpecFile>,
    posts: Seq<SpecPost>,
    tags: Seq<Seq<char>>,
) -> Seq<Seq<char>> {
    let l1 = candidates_fold(files, 0, Seq::empty());
    let l2 = remove_posts_fold(l1, posts, 0);
    let found = cutouts_fold(l2, tags, 0, Seq::empty());
    remove_found_fold(l2, found, 0)
}

/// Removes the first occurrence of `handle` from the worklist by a swap
/// with the last element.
fn remove_handle_exec(list: &mut Vec<String>, handle: &String)
    ensures
        strings_view(final(list)@) == remove_handle(strings_view(old(list)@), handle@),
{
    let ghost l0 = strings_view(list@);
    match search(list, handle) {
        Some(i) => {
            proof {
                lemma_search_bounds(l0, handle@, 0);
            }
            list.swap_remove(i);
            proof {
                assert(strings_view(list@) =~= swap_remove_seq(l0, i as int));
            }
        },
        None => {},
    }
}

/// Reports the input files no post references: the orphan candidates, less
/// everything some post links, shows or previews, less the tag cutout
/// images.
pub fn check_unused_files(posts: &Vec<Post>, tag_list: &Vec<String>, files: &Vec<File>) -> (r:
    Vec<String>)
    ensures
        strings_view(r@) == spec_unused_files(
            files_view(files@),
            posts_view(posts@),
            strings_view(tag_list@),
        ),
{
    let ghost fv = files_view(files@);
    let ghost pv = posts_view(posts@);
    let ghost tv = strings_view(tag_list@);
    // candidates
    let n = files.len();
    let mut list: Vec<String> = Vec::new();
    let mut i: usize = 0;
    let md = chars_of(".md");
    let html = chars_of(".html");
    proof {
        assert(strings_view(list@) =~= Seq::<Seq<char>>::empty());
    }
    while i < n
        invariant
            0 <= i <= n,
            n == files@.len(),
            fv == files_view(files@),
            fv.len() == n,
            md@ == ".md"@,
            html@ == ".html"@,
            candidates_fold(fv, 0, Seq::empty()) == candidates_fold(
                fv,
                i as int,
                strings_view(list@),
            ),
        decreases n - i,
    {
        let ghost l0 = strings_view(list@);
        proof {
            assert(fv[i as int] == files@[i as int]@);
        }
        let nv = chars_of(files[i].name.as_str());
        if !files[i].is_dir && !seq_ends_with(&nv, &md) && !seq_ends_with(&nv, &html) {
            list.push(files[i].name.clone());
            proof {
                assert(strings_view(list@) =~= l0.push(fv[i as int].name));
            }
        }
        i += 1;
    }
    let ghost l1 = candidates_fold(fv, 0, Seq::empty());
    proof {
        assert(strings_view(list@) == l1);
    }
    // per-post removals
    let pn = posts.len();
    let mut pi: usize = 0;
    while pi < pn
        invariant
            0 <= pi <= pn,
            pn == posts@.len(),
            pv == posts_view(posts@),
            pv.len() == pn,
            remove_posts_fold(l1, pv, 0) == remove_posts_fold(strings_view(list@), pv, pi as int),
        decreases pn - pi,
    {
        proof {
            assert(pv[pi as int] == posts@[pi as int]@);
        }
        let post = &posts[pi];
        let ghost entry_list = strings_view(list@);
        // links
        let ln = post.links.len();
        let mut j: usize = 0;
        let http = chars_of("http");
        while j < ln
            invariant
                0 <= j <= ln,
                0 <= pi < pn,
                pv == posts_view(posts@),
                pv.len() == pn,
                post == &posts[pi as int],
                post@ == pv[pi as int],
                ln == post.links@.len(),
                http@ == "http"@,
                remove_links_fold(entry_list, pv[pi as int].links, 0) == remove_links_fold(
                    strings_view(list@),
                    pv[pi as int].links,
                    j as int,
                ),
            decreases ln - j,
        {
            proof {
                assert(pv[pi as int].links[j as int] == post.links@[j as int]@);
            }
            let lv = chars_of(post.links[j].as_str());
            if !seq_starts_with(&lv, &http) {
                let handle = string_replace(post.links[j].as_str(), "../posts/", "");
                remove_handle_exec(&mut list, &handle);
            }
            j += 1;
        }
        let ghost after_links = remove_links_fold(entry_list, pv[pi as int].links, 0);
        proof {
            assert(strings_view(list@) == after_links);
        }
        // images
        let im = post.images.len();
        let mut j2: usize = 0;
        while j2 < im
            invariant
                0 <= j2 <= im,
                0 <= pi < pn,
                pv == posts_view(posts@),
                pv.len() == pn,
                post == &posts[pi as int],
                post@ == pv[pi as int],
                im == post.images@.len(),
                remove_images_fold(after_links, pv[pi as int].images, 0) == remove_images_fold(
                    strings_view(list@),
                    pv[pi as int].images,
                    j2 as int,
                ),
            decreases im - j2,
        {
            proof {
                assert(pv[pi as int].images[j2 as int] == post.images@[j2 as int]@);
            }
            let handle = string_replace(post.images[j2].as_str(), "../posts/", "");
            remove_handle_exec(&mut list, &handle);
            j2 += 1;
        }
        let ghost after_images = remove_images_fold(after_links, pv[pi as int].images, 0);
        proof {
            assert(strings_view(list@) == after_images);
        }
        // preview images
        let pm = post.preview_images.len();
        let mut j3: usize = 0;
        while j3 < pm
            invariant
                0 <= j3 <= pm,
                0 <= pi < pn,
                pv == posts_view(posts@),
                pv.len() == pn,
                post == &posts[pi as int],
                post@ == pv[pi as int],
                pm == post.preview_images@.len(),
                remove_previews_fold(after_images, pv[pi as int].preview_images, 0)
                    == remove_previews_fold(
                    strings_view(list@),
                    pv[pi as int].preview_images,
                    j3 as int,
                ),
            decreases pm - j3,
        {
            proof {
                assert(pv[pi as int].preview_images[j3 as int] == (
                    post.preview_images@[j3 as int].0@,
                    post.preview_images@[j3 as int].1@,
                ));
            }
            let handle = string_replace(post.preview_images[j3].1.as_str(), "../posts/", "");
            remove_handle_exec(&mut list, &handle);
            j3 += 1;
        }
        pi += 1;
        proof {
            assert(strings_view(list@) == remove_previews_fold(
                after_images,
                pv[pi - 1].preview_images,
                0,
            ));
        }
    }
    let ghost l2 = remove_posts_fold(l1, pv, 0);
    proof {
        assert(strings_view(list@) == l2);
    }
    // tag cutout images
    let cn = list.len();
    let tn = tag_list.len();
    let mut found: Vec<String> = Vec::new();
    let mut k: usize = 0;
    proof {
        assert(strings_view(found@) =~= Seq::<Seq<char>>::empty());
    }
    while k < cn
        invariant
            0 <= k <= cn,
            cn == list@.len(),
            tn == tag_list@.len(),
            tv == strings_view(tag_list@),
            tv.len() == tn,
            l2 == strings_view(list@),
            cutouts_fold(l2, tv, 0, Seq::empty()) == cutouts_fold(
                l2,
                tv,
                k as int,
                strings_view(found@),
            ),
        decreases cn - k,
    {
        proof {
            assert(l2[k as int] == list@[k as int]@);
        }
        let name = &list[k];
        let ghost facc = strings_view(found@);
        let mut t: usize = 0;
        while t < tn
            invariant
                0 <= t <= tn,
                0 <= k < cn,
                cn == list@.len(),
                tn == tag_list@.len(),
                tv == strings_view(tag_list@),
                tv.len() == tn,
                l2 == strings_view(list@),
                name == &list[k as int],
                name@ == l2[k as int],
                cutout_tags_fold(l2[k as int], tv, 0, facc) == cutout_tags_fold(
                    l2[k as int],
                    tv,
                    t as int,
                    strings_view(found@),
                ),
            decreases tn - t,
        {
            proof {
                assert(tv[t as int] == tag_list@[t as int]@);
            }
            let ghost f0 = strings_view(found@);
            let mut cname = String::new();
            cname.append("overview/");
            cname.append(tag_list[t].as_str());
            cname.append("_cutout.jpg");
            if name.eq(&cname) {
                found.push(name.clone());
                proof {
                    assert(strings_view(found@) =~= f0.push(l2[k as int]));
                }
            }
            t += 1;
            proof {
                assert(cutout_tags_fold(l2[k as int], tv, t - 1, f0) == cutout_tags_fold(
                    l2[k as int],
                    tv,
                    t as int,
                    strings_view(found@),
                ));
            }
        }
        k += 1;
    }
    let ghost foundv = cutouts_fold(l2, tv, 0, Seq::empty());
    proof {
        assert(strings_view(found@) == foundv);
    }
    // remove the cutouts
    let fnn = found.len();
    let mut fk: usize = 0;
    while fk < fnn
        invariant
            0 <= fk <= fnn,
            fnn == found@.len(),
            foundv == strings_view(found@),
            foundv.len() == fnn,
            remove_found_fold(l2, foundv, 0) == remove_found_fold(
                strings_view(list@),
                foundv,
                fk as int,
            ),
        decreases fnn - fk,
    {
        proof {
            assert(foundv[fk as int] == found@[fk as int]@);
        }
        let handle = found[fk].clone();
        remove_handle_exec(&mut list, &handle);
        fk += 1;
    }
    list
}

} // verus!


