use vstd::prelude::*;

use crate::error::RenderError;
use crate::post::Post;
use crate::post::SpecPost;
use crate::post::pairs_view;
use crate::post::strings_view;
use crate::strutil::chars_eq_str;
use crate::strutil::chars_of;
use crate::strutil::contains_at;
use crate::strutil::ends_with;
use crate::strutil::find_char_from;
use crate::strutil::find_char_in;
use crate::strutil::lemma_find_char_from_bounds;
use crate::strutil::match_at;
use crate::strutil::push_all;
use crate::strutil::push_range;
use crate::strutil::seq_ends_with;
use crate::strutil::string_of;

verus! {

// ---------------------------------------------------------------------------
// Lines.
// ---------------------------------------------------------------------------

pub open spec fn lines_view(v: Seq<Vec<char>>) -> Seq<Seq<char>> {
    v.map_values(|l: Vec<char>| l@)
}

/// The lines of `s` from position `from` on, split on `'\n'`; the separators
/// are not part of the lines.
pub open spec fn split_lines_from(s: Seq<char>, from: int) -> Seq<Seq<char>>
    decreases s.len() - from when 0 <= from <= s.len() via split_lines_from_decreases
{
    if from < 0 || from > s.len() {
        Seq::empty()
    } else {
        match find_char_from(s, '\n', from) {
            None => seq![s.subrange(from, s.len() as int)],
            Some(i) => seq![s.subrange(from, i)] + split_lines_from(s, i + 1),
        }
    }
}

#[via_fn]
proof fn split_lines_from_decreases(s: Seq<char>, from: int) {
    lemma_find_char_from_bounds(s, '\n', from);
}

pub open spec fn split_lines(s: Seq<char>) -> Seq<Seq<char>> {
    split_lines_from(s, 0)
}

/// The lines joined back with `'\n'`.
pub open spec fn join_lines(lines: Seq<Seq<char>>) -> Seq<char>
    decreases lines.len(),
{
    if lines.len() == 0 {
        Seq::empty()
    } else if lines.len() == 1 {
        lines[0]
    } else {
        lines[0] + seq!['\n'] + join_lines(lines.drop_first())
    }
}

/// Splits a text into its lines.
pub fn split_lines_vec(s: &Vec<char>) -> (r: Vec<Vec<char>>)
    ensures
        lines_view(r@) == split_lines(s@),
{
    let n = s.len();
    let mut out: Vec<Vec<char>> = Vec::new();
    let mut from: usize = 0;
    loop
        invariant
            0 <= from <= n,
            n == s@.len(),
            split_lines(s@) == lines_view(out@) + split_lines_from(s@, from as int),
        decreases n - from,
    {
        let ghost out0 = lines_view(out@);
        match find_char_in(s, '\n', from) {
            Some(i) => {
                proof {
                    lemma_find_char_from_bounds(s@, '\n', from as int);
                }
                let mut line: Vec<char> = Vec::new();
                push_range(&mut line, s, from, i);
                out.push(line);
                proof {
                    assert(lines_view(out@) =~= out0.push(s@.subrange(from as int, i as int)));
                    assert(out0.push(s@.subrange(from as int, i as int)) + split_lines_from(
                        s@,
                        i + 1,
                    ) =~= out0 + (seq![s@.subrange(from as int, i as int)] + split_lines_from(
                        s@,
                        i + 1,
                    )));
                }
                from = i + 1;
            },
            None => {
                let mut line: Vec<char> = Vec::new();
                push_range(&mut line, s, from, n);
                out.push(line);
                proof {
                    assert(lines_view(out@) =~= out0.push(s@.subrange(from as int, n as int)));
                    assert(out0.push(s@.subrange(from as int, n as int)) =~= out0 + seq![
                        s@.subrange(from as int, n as int),
                    ]);
                    assert(split_lines(s@) =~= lines_view(out@));
                }
                return out;
            },
        }
    }
}

/// Joins lines with `'\n'`.
pub fn join_lines_vec(lines: &Vec<Vec<char>>) -> (r: Vec<char>)
    ensures
        r@ == join_lines(lines_view(lines@)),
{
    let mut out: Vec<char> = Vec::new();
    let n = lines.len();
    let mut i: usize = 0;
    proof {
        lemma_join_tail(lines_view(lines@), 0);
        assert(lines_view(lines@).skip(0) =~= lines_view(lines@));
        assert(Seq::<char>::empty() + join_lines_tail(lines_view(lines@), 0) =~= join_lines_tail(
            lines_view(lines@),
            0,
        ));
    }
    while i < n
        invariant
            0 <= i <= n,
            n == lines@.len(),
            join_lines(lines_view(lines@)) == out@ + join_lines_tail(lines_view(lines@), i as int),
        decreases n - i,
    {
        proof {
            assert(join_lines_tail(lines_view(lines@), i as int) == (if i + 1 < n {
                lines_view(lines@)[i as int] + seq!['\n'] + join_lines_tail(
                    lines_view(lines@),
                    i + 1,
                )
            } else {
                lines_view(lines@)[i as int]
            }));
        }
        let ghost out0 = out@;
        let line = &lines[i];
        push_all(&mut out, line);
        if i + 1 < n {
            out.push('\n');
            proof {
                assert(out@ =~= out0 + (lines_view(lines@)[i as int] + seq!['\n']));
                assert(out0 + (lines_view(lines@)[i as int] + seq!['\n']) + join_lines_tail(
                    lines_view(lines@),
                    i + 1,
                ) =~= out0 + (lines_view(lines@)[i as int] + seq!['\n'] + join_lines_tail(
                    lines_view(lines@),
                    i + 1,
                )));
            }
        } else {
            proof {
                assert(out@ + join_lines_tail(lines_view(lines@), i + 1) =~= out@);
            }
        }
        i += 1;
    }
    proof {
        if n == 0 {
            assert(join_lines(lines_view(lines@)) =~= out@);
        }
    }
    out
}

/// The lines from index `i` on, joined with `'\n'`.
pub open spec fn join_lines_tail(lines: Seq<Seq<char>>, i: int) -> Seq<char>
    decreases lines.len() - i,
{
    if i < 0 || i >= lines.len() {
        Seq::empty()
    } else if i == lines.len() - 1 {
        lines[i]
    } else {
        lines[i] + seq!['\n'] + join_lines_tail(lines, i + 1)
    }
}

proof fn lemma_join_tail(lines: Seq<Seq<char>>, i: int)
    requires
        0 <= i <= lines.len(),
    ensures
        join_lines_tail(lines, i) == join_lines(lines.skip(i)),
    decreases lines.len() - i,
{
    if i < lines.len() {
        lemma_join_tail(lines, i + 1);
        assert(lines.skip(i).drop_first() =~= lines.skip(i + 1));
        assert(lines.skip(i)[0] == lines[i]);
    } else {
        assert(lines.skip(i) =~= Seq::<Seq<char>>::empty());
    }
}

// ---------------------------------------------------------------------------
// Headings: `<hN>title</hN>` lines get an id derived from the title, and the
// set of headings is reported.
// ---------------------------------------------------------------------------

/// One heading found during the render pass.
#[derive(Debug, Clone)]
pub struct Headline {
    pub htype: char,
    pub title: String,
    pub id: String,
}

#[verifier::ext_equal]
pub struct SpecHeadline {
    pub htype: char,
    pub title: Seq<char>,
    pub id: Seq<char>,
}

impl View for Headline {
    type V = SpecHeadline;

    open spec fn view(&self) -> SpecHeadline {
        SpecHeadline { htype: self.htype, title: self.title@, id: self.id@ }
    }
}

pub open spec fn headlines_view(v: Seq<Headline>) -> Seq<SpecHeadline> {
    v.map_values(|h: Headline| h@)
}

pub open spec fn is_heading_digit(c: char) -> bool {
    c == '1' || c == '2' || c == '3' || c == '4' || c == '5' || c == '6'
}

fn heading_digit(c: char) -> (b: bool)
    ensures
        b == is_heading_digit(c),
{
    c == '1' || c == '2' || c == '3' || c == '4' || c == '5' || c == '6'
}

/// A line of the exact shape `<h` level `>` title `</h` level' `>`, with a
/// nonempty title; the closing tag is the line's very end.
pub open spec fn parse_heading_line(line: Seq<char>) -> Option<(char, Seq<char>, char)> {
    if line.len() >= 10 && line[0] == '<' && line[1] == 'h' && is_heading_digit(line[2])
        && line[3] == '>' && line[line.len() - 5] == '<' && line[line.len() - 4] == '/'
        && line[line.len() - 3] == 'h' && is_heading_digit(line[line.len() - 2]) && line[line.len()
        - 1] == '>' {
        Some((line[2], line.subrange(4, line.len() - 5), line[line.len() - 2]))
    } else {
        None
    }
}

/// The id of a heading: its title with spaces replaced by underscores.
pub open spec fn spec_title_id(title: Seq<char>) -> Seq<char> {
    title.map_values(|c: char| if c == ' ' { '_' } else { c })
}

/// Derives a heading id from its title.
pub fn title_to_id(title: &Vec<char>) -> (r: Vec<char>)
    ensures
        r@ == spec_title_id(title@),
{
    let mut r: Vec<char> = Vec::new();
    let n = title.len();
    let mut i: usize = 0;
    while i < n
        invariant
            0 <= i <= n,
            n == title@.len(),
            r@.len() == i,
            forall|k: int| 0 <= k < i ==> r@[k] == (if title@[k] == ' ' { '_' } else { title@[k] }),
        decreases n - i,
    {
        let c = title[i];
        if c == ' ' {
            r.push('_');
        } else {
            r.push(c);
        }
        i += 1;
    }
    proof {
        assert(r@ =~= spec_title_id(title@));
    }
    r
}

/// The rewritten heading line: the id attribute injected into the open tag.
pub open spec fn spec_heading_line(d: char, title: Seq<char>, id: Seq<char>) -> Seq<char> {
    "<h"@ + seq![d] + " id=\""@ + id + "\">"@ + title + "</h"@ + seq![d] + ">"@
}

/// The heading pass over the lines from index `i` on: every heading line
/// gains an id, mismatched open and close levels are fatal, and the headings
/// are collected in order.
pub open spec fn heading_fold(
    lines: Seq<Seq<char>>,
    i: int,
    acc_lines: Seq<Seq<char>>,
    acc_heads: Seq<SpecHeadline>,
) -> Result<(Seq<Seq<char>>, Seq<SpecHeadline>), RenderError>
    decreases lines.len() - i,
{
    if i < 0 || i >= lines.len() {
        Ok((acc_lines, acc_heads))
    } else {
        match parse_heading_line(lines[i]) {
            None => heading_fold(lines, i + 1, acc_lines.push(lines[i]), acc_heads),
            Some(h) => {
                if h.0 != h.2 {
                    Err(RenderError::HeadingTagMismatch)
                } else {
                    let id = spec_title_id(h.1);
                    heading_fold(
                        lines,
                        i + 1,
                        acc_lines.push(spec_heading_line(h.0, h.1, id)),
                        acc_heads.push(SpecHeadline { htype: h.0, title: h.1, id }),
                    )
                }
            },
        }
    }
}

pub open spec fn spec_heading_pass(text: Seq<char>) -> Result<
    (Seq<char>, Seq<SpecHeadline>),
    RenderError,
> {
    match heading_fold(split_lines(text), 0, Seq::empty(), Seq::empty()) {
        Err(e) => Err(e),
        Ok(r) => Ok((join_lines(r.0), r.1)),
    }
}

fn parse_heading_vec(line: &Vec<char>) -> (r: Option<(char, Vec<char>, char)>)
    ensures
        match r {
            Some(h) => parse_heading_line(line@) == Some((h.0, h.1@, h.2)),
            None => parse_heading_line(line@) is None,
        },
{
    let n = line.len();
    if n < 10 {
        return None;
    }
    if line[0] == '<' && line[1] == 'h' && heading_digit(line[2]) && line[3] == '>' && line[n - 5]
        == '<' && line[n - 4] == '/' && line[n - 3] == 'h' && heading_digit(line[n - 2]) && line[n
        - 1] == '>' {
        let mut title: Vec<char> = Vec::new();
        push_range(&mut title, line, 4, n - 5);
        Some((line[2], title, line[n - 2]))
    } else {
        None
    }
}

fn build_heading_line(d: char, title: &Vec<char>, id: &Vec<char>) -> (r: Vec<char>)
    ensures
        r@ == spec_heading_line(d, title@, id@),
{
    let mut r = chars_of("<h");
    r.push(d);
    let p1 = chars_of(" id=\"");
    push_all(&mut r, &p1);
    push_all(&mut r, id);
    let p2 = chars_of("\">");
    push_all(&mut r, &p2);
    push_all(&mut r, title);
    let p3 = chars_of("</h");
    push_all(&mut r, &p3);
    r.push(d);
    let p4 = chars_of(">");
    push_all(&mut r, &p4);
    proof {
        assert(r@ =~= spec_heading_line(d, title@, id@));
    }
    r
}

/// Injects heading ids into the rendered text and reports the headings, or
/// fails on the first heading whose open and close levels differ.
pub fn heading_pass(text: &Vec<char>) -> (r: Result<(Vec<char>, Vec<Headline>), RenderError>)
    ensures
        match r {
            Ok(p) => spec_heading_pass(text@) == Ok::<(Seq<char>, Seq<SpecHeadline>), RenderError>(
                (p.0@, headlines_view(p.1@)),
            ),
            Err(e) => spec_heading_pass(text@) == Err::<
                (Seq<char>, Seq<SpecHeadline>),
                RenderError,
            >(e),
        },
{
    let lines = split_lines_vec(text);
    let ghost lv = lines_view(lines@);
    let n = lines.len();
    let mut out_lines: Vec<Vec<char>> = Vec::new();
    let mut headlines: Vec<Headline> = Vec::new();
    let mut i: usize = 0;
    proof {
        assert(lines_view(out_lines@) =~= Seq::<Seq<char>>::empty());
        assert(headlines_view(headlines@) =~= Seq::<SpecHeadline>::empty());
    }
    while i < n
        invariant
            0 <= i <= n,
            n == lines@.len(),
            lv == lines_view(lines@),
            lv == split_lines(text@),
            lv.len() == n,
            heading_fold(lv, 0, Seq::empty(), Seq::empty()) == heading_fold(
                lv,
                i as int,
                lines_view(out_lines@),
                headlines_view(headlines@),
            ),
        decreases n - i,
    {
        let ghost out0 = lines_view(out_lines@);
        let ghost heads0 = headlines_view(headlines@);
        let line = &lines[i];
        proof {
            assert(lv[i as int] == lines@[i as int]@);
        }
        match parse_heading_vec(line) {
            None => {
                let mut copy: Vec<char> = Vec::new();
                push_all(&mut copy, line);
                out_lines.push(copy);
                proof {
                    assert(lines_view(out_lines@) =~= out0.push(lv[i as int]));
                }
            },
            Some(h) => {
                if h.0 != h.2 {
                    return Err(RenderError::HeadingTagMismatch);
                }
                let id = title_to_id(&h.1);
                let new_line = build_heading_line(h.0, &h.1, &id);
                out_lines.push(new_line);
                headlines.push(Headline { htype: h.0, title: string_of(&h.1), id: string_of(&id) });
                proof {
                    assert(lines_view(out_lines@) =~= out0.push(
                        spec_heading_line(h.0, h.1@, spec_title_id(h.1@)),
                    ));
                    assert(headlines_view(headlines@) =~= heads0.push(
                        SpecHeadline { htype: h.0, title: h.1@, id: spec_title_id(h.1@) },
                    ));
                }
            },
        }
        i += 1;
        proof {
            assert(heading_fold(lv, i - 1, out0, heads0) == heading_fold(
                lv,
                i as int,
                lines_view(out_lines@),
                headlines_view(headlines@),
            ));
        }
    }
    let joined = join_lines_vec(&out_lines);
    Ok((joined, headlines))
}


// ---------------------------------------------------------------------------
// Preview images: every `<img src="S" alt="A" />` span whose source `S` is
// the derived path of some preview pair is wrapped in an anchor that points
// at the pair's original path.
// ---------------------------------------------------------------------------

/// Whether a newline occurs in `s` at a position in `a..b`.
pub open spec fn newline_between(s: Seq<char>, a: int, b: int) -> bool {
    match find_char_from(s, '\n', a) {
        Some(m) => m < b,
        None => false,
    }
}

/// An image span at position `i`: `<img src="` S `" alt="` A `" />` with S
/// and A nonempty and free of quotes and newlines. Yields the source S and
/// the position directly after the span.
pub open spec fn match_img_at(s: Seq<char>, i: int) -> Option<(Seq<char>, Seq<char>, int)> {
    if !contains_at(s, i, "<img src=\""@) {
        None
    } else {
        match find_char_from(s, '"', i + 10) {
            None => None,
            Some(j) => {
                if j <= i + 10 || newline_between(s, i + 10, j) || !contains_at(
                    s,
                    j,
                    "\" alt=\""@,
                ) {
                    None
                } else {
                    match find_char_from(s, '"', j + 7) {
                        None => None,
                        Some(k) => {
                            if k <= j + 7 || newline_between(s, j + 7, k) || !contains_at(
                                s,
                                k,
                                "\" />"@,
                            ) {
                                None
                            } else {
                                Some((s.subrange(i + 10, j), s.subrange(j + 7, k), k + 4))
                            }
                        },
                    }
                }
            },
        }
    }
}

pub proof fn lemma_match_img_bounds(s: Seq<char>, i: int)
    ensures
        match_img_at(s, i) matches Some(m) ==> i < m.2 <= s.len(),
{
    reveal_strlit("<img src=\"");
    reveal_strlit("\" alt=\"");
    reveal_strlit("\" />");
    if match_img_at(s, i) is Some {
        lemma_find_char_from_bounds(s, '"', i + 10);
        let j = find_char_from(s, '"', i + 10)->Some_0;
        lemma_find_char_from_bounds(s, '"', j + 7);
    }
}

/// First preview pair whose derived path is `src`.
pub open spec fn find_derived_from(
    pairs: Seq<(Seq<char>, Seq<char>)>,
    src: Seq<char>,
    p: int,
) -> Option<int>
    decreases pairs.len() - p,
{
    if p < 0 || p >= pairs.len() {
        None
    } else if pairs[p].1 == src {
        Some(p)
    } else {
        find_derived_from(pairs, src, p + 1)
    }
}

pub proof fn lemma_find_derived_bounds(pairs: Seq<(Seq<char>, Seq<char>)>, src: Seq<char>, p: int)
    ensures
        find_derived_from(pairs, src, p) matches Some(q) ==> p <= q < pairs.len() && pairs[q].1
            == src,
    decreases pairs.len() - p,
{
    if !(p < 0 || p >= pairs.len()) && pairs[p].1 != src {
        lemma_find_derived_bounds(pairs, src, p + 1);
    }
}

/// The anchor wrapped around a preview image span.
pub open spec fn spec_anchor(orig: Seq<char>, span: Seq<char>) -> Seq<char> {
    "<a href=\""@ + orig + "\" class=\"preview-image\">"@ + span + "</a>"@
}

/// One left-to-right pass over the rendered text: matched image spans whose
/// source is a derived preview path are wrapped, all else is copied.
pub open spec fn wrap_fold(
    s: Seq<char>,
    pairs: Seq<(Seq<char>, Seq<char>)>,
    i: int,
    acc: Seq<char>,
) -> Seq<char>
    decreases s.len() - i when 0 <= i via wrap_fold_decreases
{
    if i < 0 || i >= s.len() {
        acc
    } else {
        match match_img_at(s, i) {
            Some(m) => match find_derived_from(pairs, m.0, 0) {
                Some(p) => wrap_fold(
                    s,
                    pairs,
                    m.2,
                    acc + spec_anchor(pairs[p].0, s.subrange(i, m.2)),
                ),
                None => wrap_fold(s, pairs, i + 1, acc.push(s[i])),
            },
            None => wrap_fold(s, pairs, i + 1, acc.push(s[i])),
        }
    }
}

#[via_fn]
proof fn wrap_fold_decreases(s: Seq<char>, pairs: Seq<(Seq<char>, Seq<char>)>, i: int, acc: Seq<
    char,
>) {
    lemma_match_img_bounds(s, i);
}

pub open spec fn spec_wrap_previews(s: Seq<char>, pairs: Seq<(Seq<char>, Seq<char>)>) -> Seq<
    char,
> {
    wrap_fold(s, pairs, 0, Seq::empty())
}

fn has_nl(s: &Vec<char>, a: usize, b: usize) -> (r: bool)
    ensures
        r == newline_between(s@, a as int, b as int),
{
    match find_char_in(s, '\n', a) {
        Some(m) => m < b,
        None => false,
    }
}

fn img_at(
    s: &Vec<char>,
    i: usize,
    pat_img: &Vec<char>,
    pat_alt: &Vec<char>,
    pat_close: &Vec<char>,
) -> (r: Option<(Vec<char>, usize)>)
    requires
        pat_img@ == "<img src=\""@,
        pat_alt@ == "\" alt=\""@,
        pat_close@ == "\" />"@,
    ensures
        match r {
            Some(m) => match_img_at(s@, i as int) matches Some(sm) && sm.0 == m.0@ && sm.2 == m.1
                as int,
            None => match_img_at(s@, i as int) is None,
        },
{
    proof {
        reveal_strlit("<img src=\"");
        reveal_strlit("\" alt=\"");
        reveal_strlit("\" />");
    }
    let n = s.len();
    if i > n || n - i < 10 {
        return None;
    }
    if !match_at(s, pat_img, i) {
        return None;
    }
    match find_char_in(s, '"', i + 10) {
        None => None,
        Some(j) => {
            proof {
                lemma_find_char_from_bounds(s@, '"', i + 10);
            }
            if j <= i + 10 || has_nl(s, i + 10, j) {
                return None;
            }
            if j > n || n - j < 7 {
                return None;
            }
            if !match_at(s, pat_alt, j) {
                return None;
            }
            match find_char_in(s, '"', j + 7) {
                None => None,
                Some(k) => {
                    proof {
                        lemma_find_char_from_bounds(s@, '"', j + 7);
                    }
                    if k <= j + 7 || has_nl(s, j + 7, k) {
                        return None;
                    }
                    if k > n || n - k < 4 {
                        return None;
                    }
                    if !match_at(s, pat_close, k) {
                        return None;
                    }
                    let mut src: Vec<char> = Vec::new();
                    push_range(&mut src, s, i + 10, j);
                    proof {
                        assert(src@ =~= s@.subrange(i + 10, j as int));
                    }
                    Some((src, k + 4))
                },
            }
        },
    }
}

fn find_derived(pairs: &Vec<(String, String)>, src: &Vec<char>) -> (r: Option<usize>)
    ensures
        match r {
            Some(p) => find_derived_from(pairs_view(pairs@), src@, 0) == Some(p as int),
            None => find_derived_from(pairs_view(pairs@), src@, 0) is None,
        },
{
    let ghost pv = pairs_view(pairs@);
    let n = pairs.len();
    let mut p: usize = 0;
    while p < n
        invariant
            0 <= p <= n,
            n == pairs@.len(),
            pv == pairs_view(pairs@),
            pv.len() == n,
            find_derived_from(pv, src@, 0) == find_derived_from(pv, src@, p as int),
        decreases n - p,
    {
        proof {
            assert(pv[p as int] == (pairs@[p as int].0@, pairs@[p as int].1@));
        }
        if chars_eq_str(src, pairs[p].1.as_str()) {
            return Some(p);
        }
        p += 1;
    }
    None
}

/// Wraps every image span whose source is a derived preview path in an
/// anchor pointing at the pair's original path.
pub fn wrap_previews(text: &Vec<char>, pairs: &Vec<(String, String)>) -> (r: Vec<char>)
    ensures
        r@ == spec_wrap_previews(text@, pairs_view(pairs@)),
{
    let ghost pv = pairs_view(pairs@);
    let pat_img = chars_of("<img src=\"");
    let pat_alt = chars_of("\" alt=\"");
    let pat_close = chars_of("\" />");
    let a1 = chars_of("<a href=\"");
    let a2 = chars_of("\" class=\"preview-image\">");
    let a3 = chars_of("</a>");
    let n = text.len();
    let mut out: Vec<char> = Vec::new();
    let mut i: usize = 0;
    while i < n
        invariant
            0 <= i <= n,
            n == text@.len(),
            pv == pairs_view(pairs@),
            pat_img@ == "<img src=\""@,
            pat_alt@ == "\" alt=\""@,
            pat_close@ == "\" />"@,
            a1@ == "<a href=\""@,
            a2@ == "\" class=\"preview-image\">"@,
            a3@ == "</a>"@,
            spec_wrap_previews(text@, pv) == wrap_fold(text@, pv, i as int, out@),
        decreases n - i,
    {
        let ghost out0 = out@;
        match img_at(text, i, &pat_img, &pat_alt, &pat_close) {
            Some(m) => {
                proof {
                    lemma_match_img_bounds(text@, i as int);
                }
                match find_derived(pairs, &m.0) {
                    Some(p) => {
                        proof {
                            lemma_find_derived_bounds(pv, m.0@, 0);
                        }
                        push_all(&mut out, &a1);
                        let orig = chars_of(pairs[p].0.as_str());
                        push_all(&mut out, &orig);
                        push_all(&mut out, &a2);
                        push_range(&mut out, text, i, m.1);
                        push_all(&mut out, &a3);
                        proof {
                            assert(out@ =~= out0 + spec_anchor(
                                pv[p as int].0,
                                text@.subrange(i as int, m.1 as int),
                            ));
                        }
                        i = m.1;
                    },
                    None => {
                        out.push(text[i]);
                        proof {
                            assert(out@ =~= out0.push(text@[i as int]));
                        }
                        i += 1;
                    },
                }
            },
            None => {
                out.push(text[i]);
                proof {
                    assert(out@ =~= out0.push(text@[i as int]));
                }
                i += 1;
            },
        }
    }
    out
}

// ---------------------------------------------------------------------------
// Extra template context derived from a post: its feature list and status.
// ---------------------------------------------------------------------------

/// Extra values merged into the page template's context.
#[derive(Debug, Clone)]
pub struct ExtraContext {
    pub features: Vec<String>,
    pub status: Option<String>,
}

/// The features of a post: `preview` when it has preview images, `3d` when
/// some link ends in a recognized 3-d model extension.
pub open spec fn spec_features(post: SpecPost) -> Seq<Seq<char>> {
    let f0: Seq<Seq<char>> = if post.preview_images.len() > 0 {
        seq!["preview"@]
    } else {
        Seq::empty()
    };
    if exists|i: int| 0 <= i < post.links.len() && ends_with(#[trigger] post.links[i], ".stl"@) {
        f0 + seq!["3d"@]
    } else {
        f0
    }
}

/// Builds the extra context of a post, if it has any features or a status.
pub fn generate_extra_context(post: &Post) -> (r: Option<ExtraContext>)
    ensures
        match r {
            Some(ec) => {
                &&& strings_view(ec.features@) == spec_features(post@)
                &&& (match ec.status {
                    Some(st) => post@.status == Some(st@),
                    None => post@.status is None,
                })
                &&& spec_features(post@).len() > 0 || post@.status is Some
            },
            None => spec_features(post@).len() == 0 && post@.status is None,
        },
{
    let mut features: Vec<String> = Vec::new();
    if post.preview_images.len() > 0 {
        features.push(string_of(&chars_of("preview")));
    }
    let pat_stl = chars_of(".stl");
    let nl = post.links.len();
    let mut has3d = false;
    let mut li: usize = 0;
    while li < nl
        invariant
            0 <= li <= nl,
            nl == post.links@.len(),
            pat_stl@ == ".stl"@,
            has3d == exists|i: int|
                0 <= i < li && ends_with(#[trigger] post@.links[i], ".stl"@),
        decreases nl - li,
    {
        let lc = chars_of(post.links[li].as_str());
        if seq_ends_with(&lc, &pat_stl) {
            proof {
                assert(post@.links[li as int] == post.links@[li as int]@);
                assert(ends_with(post@.links[li as int], ".stl"@));
            }
            has3d = true;
        }
        proof {
            assert(post@.links[li as int] == post.links@[li as int]@);
        }
        li += 1;
    }
    if has3d {
        features.push(string_of(&chars_of("3d")));
    }
    proof {
        assert(strings_view(features@) =~= spec_features(post@));
    }
    let has_features = features.len() > 0;
    let status = match &post.status {
        Some(s) => Some(s.clone()),
        None => None,
    };
    let has_status = match &status {
        Some(_) => true,
        None => false,
    };
    if has_features || has_status {
        Some(ExtraContext { features, status })
    } else {
        None
    }
}

} // verus!

