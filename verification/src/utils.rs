use vstd::prelude::*;
use vstd::string::StringExecFns;

use crate::post::strings_view;
use crate::strutil::chars_of;
use crate::strutil::ends_with;
use crate::strutil::find_char_from;
use crate::strutil::find_char_in;
use crate::strutil::push_range;
use crate::strutil::seq_ends_with;
use crate::strutil::seq_starts_with;
use crate::strutil::spec_replace_all;
use crate::strutil::starts_with;
use crate::strutil::string_of;
use crate::strutil::string_replace;

verus! {

// ---------------------------------------------------------------------------
// Files discovered under a root, and their grouping into entries.
// ---------------------------------------------------------------------------

/// One discovered input file: its path relative to the root, and whether it
/// is a directory.
#[derive(Debug, Clone)]
pub struct File {
    pub name: String,
    pub is_dir: bool,
}

#[verifier::ext_equal]
pub struct SpecFile {
    pub name: Seq<char>,
    pub is_dir: bool,
}

impl View for File {
    type V = SpecFile;

    open spec fn view(&self) -> SpecFile {
        SpecFile { name: self.name@, is_dir: self.is_dir }
    }
}

pub open spec fn files_view(v: Seq<File>) -> Seq<SpecFile> {
    v.map_values(|f: File| f@)
}

/// One post source with the asset files grouped under it.
#[derive(Debug)]
pub struct Entry {
    pub name: String,
    pub assets: Vec<String>,
}

#[verifier::ext_equal]
pub struct SpecEntry {
    pub name: Seq<char>,
    pub assets: Seq<Seq<char>>,
}

impl View for Entry {
    type V = SpecEntry;

    open spec fn view(&self) -> SpecEntry {
        SpecEntry { name: self.name@, assets: strings_view(self.assets@) }
    }
}

pub open spec fn entries_view(v: Seq<Entry>) -> Seq<SpecEntry> {
    v.map_values(|e: Entry| e@)
}

/// A file under the root that belongs to no entry.
#[derive(Debug)]
pub struct UnknownEntry {
    pub name: String,
    pub is_dir: bool,
}

impl View for UnknownEntry {
    type V = SpecFile;

    open spec fn view(&self) -> SpecFile {
        SpecFile { name: self.name@, is_dir: self.is_dir }
    }
}

pub open spec fn unknowns_view(v: Seq<UnknownEntry>) -> Seq<SpecFile> {
    v.map_values(|e: UnknownEntry| e@)
}

/// One recorded working-tree change.
#[derive(Debug)]
pub struct Change {
    pub name: String,
    pub change: String,
    pub old_name: Option<String>,
    pub is_tracked: bool,
    pub staged: bool,
}

/// The whole listing handed to the editing front end.
#[derive(Debug)]
pub struct Content {
    pub entries: Vec<Entry>,
    pub unknown_entries: Vec<UnknownEntry>,
}

/// One file's textual difference against the committed state.
#[derive(Debug)]
pub struct Diff {
    pub name: String,
    pub content: String,
}

/// The listing of changes and diffs handed to the editing front end.
#[derive(Debug)]
pub struct ChangeResponse {
    pub changes: Vec<Change>,
    pub diffs: Vec<Diff>,
}

/// The outcome message of a pull from the remote.
#[derive(Debug)]
pub struct PullResponse {
    pub message: String,
}

/// The classification of one working-tree change, one variant per state the
/// version-control layer reports.
#[derive(Debug, Clone, Copy, PartialEq, Eq, Structural)]
pub enum ChangeKind {
    Unmodified,
    Added,
    Deleted,
    Modified,
    Renamed,
    Copied,
    Ignored,
    Untracked,
    Typechange,
    Unreadable,
    Conflicted,
}

/// The label of a change kind as the listing shows it.
pub open spec fn spec_change_label(k: ChangeKind) -> Seq<char> {
    match k {
        ChangeKind::Unmodified => "Unmodified"@,
        ChangeKind::Added => "Added"@,
        ChangeKind::Deleted => "Deleted"@,
        ChangeKind::Modified => "Modified"@,
        ChangeKind::Renamed => "Renamed"@,
        ChangeKind::Copied => "Copied"@,
        ChangeKind::Ignored => "Ignored"@,
        ChangeKind::Untracked => "Untracked"@,
        ChangeKind::Typechange => "Typechange"@,
        ChangeKind::Unreadable => "Unreadable"@,
        ChangeKind::Conflicted => "Conflicted"@,
    }
}

impl ChangeKind {
    /// Renders the kind as its listing label.
    pub fn label(&self) -> (r: String)
        ensures
            r@ == spec_change_label(*self),
    {
        match self {
            ChangeKind::Unmodified => "Unmodified".to_owned(),
            ChangeKind::Added => "Added".to_owned(),
            ChangeKind::Deleted => "Deleted".to_owned(),
            ChangeKind::Modified => "Modified".to_owned(),
            ChangeKind::Renamed => "Renamed".to_owned(),
            ChangeKind::Copied => "Copied".to_owned(),
            ChangeKind::Ignored => "Ignored".to_owned(),
            ChangeKind::Untracked => "Untracked".to_owned(),
            ChangeKind::Typechange => "Typechange".to_owned(),
            ChangeKind::Unreadable => "Unreadable".to_owned(),
            ChangeKind::Conflicted => "Conflicted".to_owned(),
        }
    }
}

/// Builds one change record: a rename keeps the old path under `old_name`
/// and takes the new path as its name; everything else keeps its path.
pub fn make_change(
    path: String,
    kind: ChangeKind,
    new_name: Option<String>,
    is_tracked: bool,
    staged: bool,
) -> (r: Change)
    ensures
        r.change@ == spec_change_label(kind),
        r.is_tracked == is_tracked,
        r.staged == staged,
        (match (kind, new_name) {
            (ChangeKind::Renamed, Some(nn)) => r.name@ == nn@ && (r.old_name matches Some(o)
                && o@ == path@),
            _ => r.name@ == path@ && r.old_name is None,
        }),
{
    let change = kind.label();
    if let ChangeKind::Renamed = kind {
        if let Some(nn) = new_name {
            return Change { name: nn, change, old_name: Some(path), is_tracked, staged };
        }
        return Change { name: path, change, old_name: None, is_tracked, staged };
    }
    Change { name: path, change, old_name: None, is_tracked, staged }
}

// ---------------------------------------------------------------------------
// The discovery filter: a walked path is kept as a relative name when it is
// nonempty, not the root itself, not hidden, and matches the active suffix
// filter.
// ---------------------------------------------------------------------------

/// The walked path made relative: every occurrence of `root` followed by a
/// slash is removed.
pub open spec fn spec_relative_name(full: Seq<char>, root: Seq<char>) -> Seq<char> {
    spec_replace_all(full, root + "/"@, Seq::empty())
}

/// Makes a walked path relative to the root.
pub fn relative_name(full: &String, root: &String) -> (r: String)
    ensures
        r@ == spec_relative_name(full@, root@),
{
    proof {
        reveal_strlit("");
        assert(""@ =~= Seq::<char>::empty());
    }
    let mut pat = root.clone();
    pat.append("/");
    string_replace(full.as_str(), pat.as_str(), "")
}

/// Whether a relative name passes the discovery filter.
pub open spec fn spec_accept_name(
    name: Seq<char>,
    root: Seq<char>,
    filter: Option<Seq<char>>,
) -> bool {
    &&& name.len() >= 1
    &&& name != root
    &&& !starts_with(name, "."@)
    &&& (match filter {
        Some(f) => ends_with(name, f),
        None => true,
    })
}

/// Applies the discovery filter to a relative name.
pub fn accept_name(name: &String, root: &String, filter: &Option<String>) -> (r: bool)
    ensures
        r == spec_accept_name(
            name@,
            root@,
            match filter {
                Some(f) => Some(f@),
                None => None,
            },
        ),
{
    if name.as_str().is_empty() {
        return false;
    }
    if name.eq(root) {
        return false;
    }
    let nv = chars_of(name.as_str());
    let dot = chars_of(".");
    if seq_starts_with(&nv, &dot) {
        proof {
            reveal_strlit(".");
        }
        return false;
    }
    proof {
        reveal_strlit(".");
    }
    match filter {
        Some(f) => {
            let fv = chars_of(f.as_str());
            seq_ends_with(&nv, &fv)
        },
        None => true,
    }
}

// ---------------------------------------------------------------------------
// Searching a list of names.
// ---------------------------------------------------------------------------

/// First index of `x` in `list` at or after `k`.
pub open spec fn spec_search(list: Seq<Seq<char>>, x: Seq<char>, k: int) -> Option<int>
    decreases list.len() - k,
{
    if k < 0 || k >= list.len() {
        None
    } else if list[k] == x {
        Some(k)
    } else {
        spec_search(list, x, k + 1)
    }
}

pub proof fn lemma_search_bounds(list: Seq<Seq<char>>, x: Seq<char>, k: int)
    ensures
        spec_search(list, x, k) matches Some(q) ==> k <= q < list.len() && list[q] == x,
    decreases list.len() - k,
{
    if !(k < 0 || k >= list.len()) && list[k] != x {
        lemma_search_bounds(list, x, k + 1);
    }
}

/// First position of `needle` in `haystack`.
pub fn search(haystack: &Vec<String>, needle: &String) -> (r: Option<usize>)
    ensures
        match r {
            Some(i) => spec_search(strings_view(haystack@), needle@, 0) == Some(i as int),
            None => spec_search(strings_view(haystack@), needle@, 0) is None,
        },
{
    let ghost hv = strings_view(haystack@);
    let n = haystack.len();
    let mut i: usize = 0;
    while i < n
        invariant
            0 <= i <= n,
            n == haystack@.len(),
            hv == strings_view(haystack@),
            hv.len() == n,
            spec_search(hv, needle@, 0) == spec_search(hv, needle@, i as int),
        decreases n - i,
    {
        proof {
            assert(hv[i as int] == haystack@[i as int]@);
        }
        if haystack[i].eq(needle) {
            return Some(i);
        }
        i += 1;
    }
    None
}

// ---------------------------------------------------------------------------
// Grouping discovered files into entries: every post source becomes an
// entry; every other file is attached to the entry whose base name is its
// first path component, or reported as unknown.
// ---------------------------------------------------------------------------

/// The first path component of a name: up to the first slash, or the whole
/// name.
pub open spec fn first_component(name: Seq<char>) -> Seq<char> {
    match find_char_from(name, '/', 0) {
        Some(i) => name.take(i),
        None => name,
    }
}

/// An entry's base name: its name with every `.md` removed.
pub open spec fn entry_base(name: Seq<char>) -> Seq<char> {
    spec_replace_all(name, ".md"@, Seq::empty())
}

/// First entry whose base name is the given first component.
pub open spec fn find_entry_from(entries: Seq<SpecEntry>, comp: Seq<char>, k: int) -> Option<int>
    decreases entries.len() - k,
{
    if k < 0 || k >= entries.len() {
        None
    } else if entry_base(entries[k].name) == comp {
        Some(k)
    } else {
        find_entry_from(entries, comp, k + 1)
    }
}

proof fn lemma_find_entry_bounds(entries: Seq<SpecEntry>, comp: Seq<char>, k: int)
    ensures
        find_entry_from(entries, comp, k) matches Some(q) ==> k <= q < entries.len(),
    decreases entries.len() - k,
{
    if !(k < 0 || k >= entries.len()) && entry_base(entries[k].name) != comp {
        lemma_find_entry_bounds(entries, comp, k + 1);
    }
}

/// Phase one: post sources become entries, everything else remains.
pub open spec fn split_md_fold(
    files: Seq<SpecFile>,
    i: int,
    entries: Seq<SpecEntry>,
    rest: Seq<SpecFile>,
) -> (Seq<SpecEntry>, Seq<SpecFile>)
    decreases files.len() - i,
{
    if i < 0 || i >= files.len() {
        (entries, rest)
    } else if ends_with(files[i].name, ".md"@) {
        split_md_fold(
            files,
            i + 1,
            entries.push(SpecEntry { name: files[i].name, assets: Seq::empty() }),
            rest,
        )
    } else {
        split_md_fold(files, i + 1, entries, rest.push(files[i]))
    }
}

/// Phase two: each remaining file joins its entry's assets (directories are
/// skipped), or is reported unknown.
pub open spec fn assign_fold(
    rest: Seq<SpecFile>,
    j: int,
    entries: Seq<SpecEntry>,
    unknowns: Seq<SpecFile>,
) -> (Seq<SpecEntry>, Seq<SpecFile>)
    decreases rest.len() - j,
{
    if j < 0 || j >= rest.len() {
        (entries, unknowns)
    } else {
        let f = rest[j];
        match find_entry_from(entries, first_component(f.name), 0) {
            Some(k) => {
                let e = entries[k];
                let e2 = if !f.is_dir {
                    SpecEntry { name: e.name, assets: e.assets.push(f.name) }
                } else {
                    e
                };
                assign_fold(rest, j + 1, entries.update(k, e2), unknowns)
            },
            None => assign_fold(rest, j + 1, entries, unknowns.push(f)),
        }
    }
}

/// The grouping of the discovered files.
pub open spec fn spec_get_entries(files: Seq<SpecFile>) -> (Seq<SpecEntry>, Seq<SpecFile>) {
    let p1 = split_md_fold(files, 0, Seq::empty(), Seq::empty());
    assign_fold(p1.1, 0, p1.0, Seq::empty())
}

fn find_entry_idx(entries: &Vec<Entry>, comp: &Vec<char>) -> (r: Option<usize>)
    ensures
        match r {
            Some(k) => find_entry_from(entries_view(entries@), comp@, 0) == Some(k as int),
            None => find_entry_from(entries_view(entries@), comp@, 0) is None,
        },
{
    let ghost ev = entries_view(entries@);
    let n = entries.len();
    let mut k: usize = 0;
    while k < n
        invariant
            0 <= k <= n,
            n == entries@.len(),
            ev == entries_view(entries@),
            ev.len() == n,
            find_entry_from(ev, comp@, 0) == find_entry_from(ev, comp@, k as int),
        decreases n - k,
    {
        proof {
            assert(ev[k as int] == entries@[k as int]@);
            reveal_strlit("");
            assert(""@ =~= Seq::<char>::empty());
        }
        let base = string_replace(entries[k].name.as_str(), ".md", "");
        let bv = chars_of(base.as_str());
        if crate::strutil::vec_chars_eq(&bv, comp) {
            return Some(k);
        }
        k += 1;
    }
    None
}

fn first_component_vec(name: &String) -> (r: Vec<char>)
    ensures
        r@ == first_component(name@),
{
    let nv = chars_of(name.as_str());
    match find_char_in(&nv, '/', 0) {
        Some(i) => {
            proof {
                crate::strutil::lemma_find_char_from_bounds(nv@, '/', 0);
            }
            let mut r: Vec<char> = Vec::new();
            push_range(&mut r, &nv, 0, i);
            proof {
                assert(r@ =~= first_component(name@));
            }
            r
        },
        None => nv,
    }
}

/// Groups the discovered files: post sources become entries, other files
/// join their entry's assets or are reported unknown; the unknown files are
/// what remains in `files`.
pub fn get_entries(files: &mut Vec<File>) -> (r: (Vec<Entry>, Vec<UnknownEntry>))
    ensures
        ({
            let ge = spec_get_entries(files_view(old(files)@));
            &&& entries_view(r.0@) == ge.0
            &&& unknowns_view(r.1@) == ge.1
            &&& files_view(final(files)@) == ge.1
        }),
{
    let ghost fv = files_view(old(files)@);
    let n = files.len();
    let mut entries: Vec<Entry> = Vec::new();
    let mut rest: Vec<File> = Vec::new();
    let mut i: usize = 0;
    let md = chars_of(".md");
    proof {
        assert(entries_view(entries@) =~= Seq::<SpecEntry>::empty());
        assert(files_view(rest@) =~= Seq::<SpecFile>::empty());
    }
    while i < n
        invariant
            0 <= i <= n,
            n == files@.len(),
            fv == files_view(files@),
            fv.len() == n,
            md@ == ".md"@,
            split_md_fold(fv, 0, Seq::empty(), Seq::empty()) == split_md_fold(
                fv,
                i as int,
                entries_view(entries@),
                files_view(rest@),
            ),
        decreases n - i,
    {
        let ghost e0 = entries_view(entries@);
        let ghost r0 = files_view(rest@);
        proof {
            assert(fv[i as int] == files@[i as int]@);
        }
        let nv = chars_of(files[i].name.as_str());
        if seq_ends_with(&nv, &md) {
            entries.push(Entry { name: files[i].name.clone(), assets: Vec::new() });
            proof {
                assert(entries_view(entries@) =~~= e0.push(
                    SpecEntry { name: fv[i as int].name, assets: Seq::empty() },
                ));
            }
        } else {
            let copy = File { name: files[i].name.clone(), is_dir: files[i].is_dir };
            rest.push(copy);
            proof {
                assert(files_view(rest@) =~~= r0.push(fv[i as int]));
            }
        }
        i += 1;
    }
    let ghost p1 = split_md_fold(fv, 0, Seq::empty(), Seq::empty());
    proof {
        assert(p1.0 == entries_view(entries@));
        assert(p1.1 == files_view(rest@));
    }
    // phase two
    let ghost restv = files_view(rest@);
    let rn = rest.len();
    let mut unknowns: Vec<UnknownEntry> = Vec::new();
    let mut kept: Vec<File> = Vec::new();
    let mut j: usize = 0;
    proof {
        assert(unknowns_view(unknowns@) =~= Seq::<SpecFile>::empty());
        assert(files_view(kept@) =~= Seq::<SpecFile>::empty());
    }
    while j < rn
        invariant
            0 <= j <= rn,
            rn == rest@.len(),
            restv == files_view(rest@),
            restv.len() == rn,
            unknowns_view(unknowns@) == files_view(kept@),
            assign_fold(restv, 0, p1.0, Seq::empty()) == assign_fold(
                restv,
                j as int,
                entries_view(entries@),
                unknowns_view(unknowns@),
            ),
        decreases rn - j,
    {
        let ghost e0 = entries_view(entries@);
        let ghost u0 = unknowns_view(unknowns@);
        proof {
            assert(restv[j as int] == rest@[j as int]@);
        }
        let comp = first_component_vec(&rest[j].name);
        match find_entry_idx(&entries, &comp) {
            Some(k) => {
                proof {
                    lemma_find_entry_bounds(e0, comp@, 0);
                }
                if !rest[j].is_dir {
                    let mut entry = entries.remove(k);
                    entry.assets.push(rest[j].name.clone());
                    entries.insert(k, entry);
                    proof {
                        let e = e0[k as int];
                        assert(entries_view(entries@) =~~= e0.update(
                            k as int,
                            SpecEntry { name: e.name, assets: e.assets.push(restv[j as int].name) },
                        ));
                    }
                } else {
                    proof {
                        assert(entries_view(entries@) =~~= e0.update(k as int, e0[k as int]));
                    }
                }
            },
            None => {
                unknowns.push(
                    UnknownEntry { name: rest[j].name.clone(), is_dir: rest[j].is_dir },
                );
                let copy = File { name: rest[j].name.clone(), is_dir: rest[j].is_dir };
                kept.push(copy);
                proof {
                    assert(unknowns_view(unknowns@) =~~= u0.push(restv[j as int]));
                    assert(files_view(kept@) =~~= u0.push(restv[j as int]));
                }
            },
        }
        j += 1;
        proof {
            assert(assign_fold(restv, j - 1, e0, u0) == assign_fold(
                restv,
                j as int,
                entries_view(entries@),
                unknowns_view(unknowns@),
            ));
        }
    }
    *files = kept;
    (entries, unknowns)
}

} // verus!
