use vstd::prelude::*;

use crate::strutil::push_all;
use crate::strutil::push_range;

verus! {

// ---------------------------------------------------------------------------
// Rewriting a text as an edit list: non-overlapping spans in ascending order,
// each deleted or replaced, materialized in one forward pass over an
// untouched snapshot of the original. This removes all running-shift
// arithmetic from the rewrite.
// ---------------------------------------------------------------------------

/// One edit: the span `start..end` of the original text is replaced by
/// `replacement` (empty for a deletion).
pub struct Edit {
    pub start: usize,
    pub end: usize,
    pub replacement: Vec<char>,
}

#[verifier::ext_equal]
pub struct SpecEdit {
    pub start: int,
    pub end: int,
    pub replacement: Seq<char>,
}

impl View for Edit {
    type V = SpecEdit;

    open spec fn view(&self) -> SpecEdit {
        SpecEdit {
            start: self.start as int,
            end: self.end as int,
            replacement: self.replacement@,
        }
    }
}

pub open spec fn edits_view(es: Seq<Edit>) -> Seq<SpecEdit> {
    es.map_values(|e: Edit| e@)
}

/// Well-formed edit lists: spans within the text, in ascending order, never
/// overlapping.
pub open spec fn edits_wf(edits: Seq<SpecEdit>, textlen: int) -> bool {
    forall|i: int|
        0 <= i < edits.len() ==> {
            &&& 0 <= (#[trigger] edits[i]).start
            &&& edits[i].start <= edits[i].end
            &&& edits[i].end <= textlen
            &&& (i + 1 < edits.len() ==> edits[i].end <= edits[i + 1].start)
        }
}

/// The rewritten text from position `from` on, applying the edits from index
/// `i` on: untouched spans are copied, edited spans substituted.
pub open spec fn apply_from(text: Seq<char>, edits: Seq<SpecEdit>, i: int, from: int) -> Seq<char>
    decreases edits.len() - i,
{
    if i < 0 || i >= edits.len() {
        if 0 <= from <= text.len() {
            text.subrange(from, text.len() as int)
        } else {
            Seq::empty()
        }
    } else {
        (if 0 <= from <= edits[i].start && edits[i].start <= text.len() {
            text.subrange(from, edits[i].start)
        } else {
            Seq::empty()
        }) + edits[i].replacement + apply_from(text, edits, i + 1, edits[i].end)
    }
}

/// The whole rewritten text.
pub open spec fn spec_apply_edits(text: Seq<char>, edits: Seq<SpecEdit>) -> Seq<char> {
    apply_from(text, edits, 0, 0)
}

/// Total length of the deleted spans from index `i` on.
pub open spec fn sum_removed(edits: Seq<SpecEdit>, i: int) -> int
    decreases edits.len() - i,
{
    if i < 0 || i >= edits.len() {
        0
    } else {
        (edits[i].end - edits[i].start) + sum_removed(edits, i + 1)
    }
}

/// Total length of the inserted replacements from index `i` on.
pub open spec fn sum_inserted(edits: Seq<SpecEdit>, i: int) -> int
    decreases edits.len() - i,
{
    if i < 0 || i >= edits.len() {
        0
    } else {
        edits[i].replacement.len() + sum_inserted(edits, i + 1)
    }
}

proof fn lemma_apply_from_len(text: Seq<char>, edits: Seq<SpecEdit>, i: int, from: int)
    requires
        edits_wf(edits, text.len() as int),
        0 <= from <= text.len(),
        0 <= i,
        i < edits.len() ==> from <= edits[i].start,
    ensures
        apply_from(text, edits, i, from).len() == text.len() - from - sum_removed(edits, i)
            + sum_inserted(edits, i),
    decreases edits.len() - i,
{
    if i < edits.len() {
        lemma_apply_from_len(text, edits, i + 1, edits[i].end);
    }
}

/// The rewritten text's length is the original length minus the sum of the
/// deleted spans plus the sum of the inserted replacements.
pub proof fn lemma_apply_edits_len(text: Seq<char>, edits: Seq<SpecEdit>)
    requires
        edits_wf(edits, text.len() as int),
    ensures
        spec_apply_edits(text, edits).len() == text.len() - sum_removed(edits, 0) + sum_inserted(
            edits,
            0,
        ),
{
    if edits.len() > 0 {
        assert(0 <= edits[0].start);
    }
    lemma_apply_from_len(text, edits, 0, 0);
}

/// Applies a well-formed edit list.
pub fn apply_edits(text: &Vec<char>, edits: &Vec<Edit>) -> (r: Vec<char>)
    requires
        edits_wf(edits_view(edits@), text@.len() as int),
    ensures
        r@ == spec_apply_edits(text@, edits_view(edits@)),
{
    let ghost ev = edits_view(edits@);
    let mut out: Vec<char> = Vec::new();
    let mut from: usize = 0;
    let mut i: usize = 0;
    while i < edits.len()
        invariant
            edits_wf(ev, text@.len() as int),
            ev == edits_view(edits@),
            ev.len() == edits@.len(),
            0 <= i <= edits@.len(),
            i == 0 ==> from == 0,
            i > 0 ==> from == ev[i - 1].end,
            0 <= from <= text@.len(),
            i < edits@.len() ==> from <= ev[i as int].start,
            spec_apply_edits(text@, ev) == out@ + apply_from(text@, ev, i as int, from as int),
        decreases edits@.len() - i,
    {
        let e = &edits[i];
        let ghost out0 = out@;
        push_range(&mut out, text, from, e.start);
        push_all(&mut out, &e.replacement);
        proof {
            assert(out@ =~= out0 + (text@.subrange(from as int, ev[i as int].start)
                + ev[i as int].replacement));
            assert(apply_from(text@, ev, i as int, from as int) == (text@.subrange(
                from as int,
                ev[i as int].start,
            ) + ev[i as int].replacement) + apply_from(text@, ev, i + 1, ev[i as int].end));
            assert(out0 + ((text@.subrange(from as int, ev[i as int].start)
                + ev[i as int].replacement) + apply_from(text@, ev, i + 1, ev[i as int].end)) =~= (
            out0 + (text@.subrange(from as int, ev[i as int].start) + ev[i as int].replacement))
                + apply_from(text@, ev, i + 1, ev[i as int].end));
        }
        from = e.end;
        i += 1;
    }
    let ghost out1 = out@;
    push_range(&mut out, text, from, text.len());
    proof {
        assert(out@ =~= out1 + text@.subrange(from as int, text@.len() as int));
    }
    out
}

/// Applies an edit list only after checking that it is well formed: spans in
/// bounds, ascending, non-overlapping. Anything else is rejected.
pub fn apply_edits_checked(text: &Vec<char>, edits: &Vec<Edit>) -> (r: Option<Vec<char>>)
    ensures
        edits_wf(edits_view(edits@), text@.len() as int) ==> (r matches Some(v) && v@
            == spec_apply_edits(text@, edits_view(edits@))),
        !edits_wf(edits_view(edits@), text@.len() as int) ==> r is None,
{
    let ghost ev = edits_view(edits@);
    let n = text.len();
    let mut i: usize = 0;
    let mut prev_end: usize = 0;
    while i < edits.len()
        invariant
            ev == edits_view(edits@),
            ev.len() == edits@.len(),
            0 <= i <= edits@.len(),
            n == text@.len(),
            i == 0 ==> prev_end == 0,
            i > 0 ==> prev_end == ev[i - 1].end,
            forall|j: int|
                0 <= j < i ==> {
                    &&& 0 <= (#[trigger] ev[j]).start
                    &&& ev[j].start <= ev[j].end
                    &&& ev[j].end <= n
                    &&& (j + 1 < ev.len() ==> j + 1 < i ==> ev[j].end <= ev[j + 1].start)
                    &&& (j + 1 == i ==> ev[j].end == prev_end)
                },
        decreases edits@.len() - i,
    {
        let e = &edits[i];
        if e.start > e.end || e.end > n {
            assert(!edits_wf(ev, n as int));
            return None;
        }
        if i > 0 && e.start < prev_end {
            assert(ev[i - 1].end > ev[i as int].start);
            assert(!edits_wf(ev, n as int));
            return None;
        }
        prev_end = e.end;
        i += 1;
    }
    assert(edits_wf(ev, n as int));
    Some(apply_edits(text, edits))
}

} // verus!
