//! Building the namespace from snapshots: one entry per snapshot at the
//! path its template renders, identical neighbours folded into links, and
//! a `latest` link in every group.
use vstd::prelude::*;

use crate::template::{
    check_template, known_key, parsed_template, render, render_spec, template_error, Locator, SnapshotInfo, TemplateError,
};
use crate::text::{path_segments, split_path, str_eq, strings_view};
use crate::error::FsError;
use crate::tree::{
    check_prefix_free, entries_view, is_prefix, lemma_resolve_through, resolve_at, prefix_free, prefix_of, resolve_in, resolve_spec,
    Entry, EntryKind, EntryV, KindV, Resolved, ResolvedV,
};

verus! {

/// The parent of a path: all but its last segment.
pub open spec fn parent_of(p: Seq<Seq<char>>) -> Seq<Seq<char>> {
    if p.len() == 0 {
        p
    } else {
        p.drop_last()
    }
}

/// The last segment of a path.
pub open spec fn name_of(p: Seq<Seq<char>>) -> Seq<char> {
    if p.len() == 0 {
        Seq::empty()
    } else {
        p.last()
    }
}

/// The paths of a sequence of snapshots.
pub open spec fn paths_view(v: Seq<Vec<String>>) -> Seq<Seq<Seq<char>>> {
    v.map_values(|p: Vec<String>| strings_view(p@))
}

/// Snapshot `a` comes before snapshot `b`: by time, then by position.
pub open spec fn earlier(snaps: Seq<SnapshotInfo>, a: int, b: int) -> bool {
    let ta = snaps[a].time;
    let tb = snaps[b].time;
    ta.secs < tb.secs || (ta.secs == tb.secs && ta.nanos < tb.nanos) || (ta.secs == tb.secs
        && ta.nanos == tb.nanos && a < b)
}

/// Snapshots `a` and `b` share a parent directory.
pub open spec fn same_group(paths: Seq<Seq<Seq<char>>>, a: int, b: int) -> bool {
    parent_of(paths[a]) == parent_of(paths[b])
}

/// Snapshot `j` is the one just before `i` in `i`'s group.
pub open spec fn is_pred(snaps: Seq<SnapshotInfo>, paths: Seq<Seq<Seq<char>>>, j: int, i: int) -> bool {
    &&& 0 <= j < snaps.len()
    &&& j != i
    &&& same_group(paths, j, i)
    &&& earlier(snaps, j, i)
    &&& forall|k: int|
        0 <= k < snaps.len() && k != j && k != i && #[trigger] same_group(paths, k, i) && earlier(snaps, k, i)
            ==> earlier(snaps, k, j)
}

/// Snapshot `i` has the same root tree as `j`, the one just before it in
/// its group, and is shown as a link to `j`.
pub open spec fn folded_into(snaps: Seq<SnapshotInfo>, paths: Seq<Seq<Seq<char>>>, j: int, i: int) -> bool {
    is_pred(snaps, paths, j, i) && snaps[j].tree == snaps[i].tree
}

/// The entry of snapshot `i`.
pub open spec fn snapshot_entry(snaps: Seq<SnapshotInfo>, paths: Seq<Seq<Seq<char>>>, i: int) -> EntryV {
    if exists|j: int| #[trigger] folded_into(snaps, paths, j, i) {
        let j = choose|j: int| #[trigger] folded_into(snaps, paths, j, i);
        EntryV { path: paths[i], kind: KindV::Link(name_of(paths[j]), snaps[i].tree) }
    } else {
        EntryV { path: paths[i], kind: KindV::Real(snaps[i].tree) }
    }
}

/// Snapshot `i` is the last of its group.
pub open spec fn is_latest(snaps: Seq<SnapshotInfo>, paths: Seq<Seq<Seq<char>>>, i: int) -> bool {
    forall|k: int|
        0 <= k < snaps.len() && k != i && #[trigger] same_group(paths, k, i) ==> !earlier(snaps, i, k)
}

/// The `latest` entry of the group whose last snapshot is `i`.
pub open spec fn latest_entry(snaps: Seq<SnapshotInfo>, paths: Seq<Seq<Seq<char>>>, i: int) -> EntryV {
    EntryV {
        path: parent_of(paths[i]).push("latest"@),
        kind: KindV::Link(name_of(paths[i]), snaps[i].tree),
    }
}

/// The `latest` entries of the groups whose last snapshot is among the first `m`.
pub open spec fn latest_entries(snaps: Seq<SnapshotInfo>, paths: Seq<Seq<Seq<char>>>, m: int) -> Seq<EntryV>
    decreases m,
{
    if m <= 0 {
        Seq::empty()
    } else if is_latest(snaps, paths, m - 1) {
        latest_entries(snaps, paths, m - 1).push(latest_entry(snaps, paths, m - 1))
    } else {
        latest_entries(snaps, paths, m - 1)
    }
}

/// All entries of the namespace: the snapshots' in order, then the
/// `latest` ones.
pub open spec fn namespace_entries(snaps: Seq<SnapshotInfo>, paths: Seq<Seq<Seq<char>>>) -> Seq<EntryV> {
    Seq::new(snaps.len(), |i: int| snapshot_entry(snaps, paths, i)) + latest_entries(snaps, paths, snaps.len() as int)
}

/// The paths of the first `m` snapshots, or the first rendering error.
pub open spec fn rendered_paths(snaps: Seq<SnapshotInfo>, template: Seq<char>, fmt: Seq<char>, m: int) -> Result<Seq<Seq<Seq<char>>>, TemplateError>
    decreases m,
{
    if m <= 0 {
        Ok(Seq::empty())
    } else {
        match rendered_paths(snaps, template, fmt, m - 1) {
            Err(e) => Err(e),
            Ok(ps) => match render_spec(template, snaps[m - 1], fmt) {
                Err(e) => Err(e),
                Ok(t) => Ok(ps.push(path_segments(t))),
            },
        }
    }
}

/// Whether two paths share a parent directory.
fn same_parent(a: &Vec<String>, b: &Vec<String>) -> (r: bool)
    ensures
        r == (parent_of(strings_view(a@)) == parent_of(strings_view(b@))),
{
    let ghost av = strings_view(a@);
    let ghost bv = strings_view(b@);
    let la: usize = if a.len() == 0 { 0 } else { a.len() - 1 };
    let lb: usize = if b.len() == 0 { 0 } else { b.len() - 1 };
    assert(parent_of(av) =~= av.subrange(0, la as int));
    assert(parent_of(bv) =~= bv.subrange(0, lb as int));
    if la != lb {
        return false;
    }
    let mut k: usize = 0;
    while k < la
        invariant
            la == lb,
            la <= a.len(),
            lb <= b.len(),
            k <= la,
            av == strings_view(a@),
            bv == strings_view(b@),
            forall|m: int| 0 <= m < k ==> av[m] == bv[m],
            parent_of(av) == av.subrange(0, la as int),
            parent_of(bv) == bv.subrange(0, lb as int),
        decreases la - k,
    {
        if !str_eq(a[k].as_str(), b[k].as_str()) {
            assert(av.subrange(0, la as int)[k as int] != bv.subrange(0, lb as int)[k as int]);
            return false;
        }
        k = k + 1;
    }
    assert(av.subrange(0, la as int) =~= bv.subrange(0, lb as int));
    true
}

/// Whether snapshot `a` comes before snapshot `b`.
fn is_earlier(snaps: &Vec<SnapshotInfo>, a: usize, b: usize) -> (r: bool)
    requires
        a < snaps.len(),
        b < snaps.len(),
    ensures
        r == earlier(snaps@, a as int, b as int),
{
    let ta = snaps[a].time;
    let tb = snaps[b].time;
    ta.secs < tb.secs || (ta.secs == tb.secs && ta.nanos < tb.nanos) || (ta.secs == tb.secs
        && ta.nanos == tb.nanos && a < b)
}

/// The snapshot just before `i` in its group, if there is one.
fn find_pred(snaps: &Vec<SnapshotInfo>, paths: &Vec<Vec<String>>, i: usize) -> (r: Option<usize>)
    requires
        i < snaps.len(),
        paths.len() == snaps.len(),
    ensures
        match r {
            Some(j) => is_pred(snaps@, paths_view(paths@), j as int, i as int),
            None => forall|j: int| !is_pred(snaps@, paths_view(paths@), j, i as int),
        },
{
    let ghost pv = paths_view(paths@);
    let mut best: Option<usize> = None;
    let mut k: usize = 0;
    while k < snaps.len()
        invariant
            i < snaps.len(),
            paths.len() == snaps.len(),
            k <= snaps.len(),
            pv == paths_view(paths@),
            match best {
                Some(j) => {
                    &&& j < k
                    &&& j != i
                    &&& same_group(pv, j as int, i as int)
                    &&& earlier(snaps@, j as int, i as int)
                    &&& forall|m: int|
                        0 <= m < k && m != j && m != i && #[trigger] same_group(pv, m, i as int) && earlier(snaps@, m, i as int)
                            ==> earlier(snaps@, m, j as int)
                },
                None => forall|m: int|
                    0 <= m < k && m != i && #[trigger] same_group(pv, m, i as int) ==> !earlier(snaps@, m, i as int),
            },
        decreases snaps.len() - k,
    {
        assert(pv[k as int] == strings_view(paths@[k as int]@));
        assert(pv[i as int] == strings_view(paths@[i as int]@));
        if k != i && same_parent(&paths[k], &paths[i]) && is_earlier(snaps, k, i) {
            match best {
                None => {
                    best = Some(k);
                },
                Some(j) => {
                    if is_earlier(snaps, j, k) {
                        best = Some(k);
                    }
                },
            }
        }
        k = k + 1;
    }
    match best {
        Some(j) => {},
        None => {
            assert forall|j: int| !is_pred(snaps@, pv, j, i as int) by {
                if 0 <= j < snaps.len() && j != i && same_group(pv, j, i as int) {
                }
            }
        },
    }
    best
}

/// Whether snapshot `i` is the last of its group.
fn check_latest(snaps: &Vec<SnapshotInfo>, paths: &Vec<Vec<String>>, i: usize) -> (r: bool)
    requires
        i < snaps.len(),
        paths.len() == snaps.len(),
    ensures
        r == is_latest(snaps@, paths_view(paths@), i as int),
{
    let ghost pv = paths_view(paths@);
    let mut k: usize = 0;
    while k < snaps.len()
        invariant
            i < snaps.len(),
            paths.len() == snaps.len(),
            k <= snaps.len(),
            pv == paths_view(paths@),
            forall|m: int| 0 <= m < k && m != i && #[trigger] same_group(pv, m, i as int) ==> !earlier(snaps@, i as int, m),
        decreases snaps.len() - k,
    {
        assert(pv[k as int] == strings_view(paths@[k as int]@));
        assert(pv[i as int] == strings_view(paths@[i as int]@));
        if k != i && same_parent(&paths[k], &paths[i]) && is_earlier(snaps, i, k) {
            assert(same_group(pv, k as int, i as int));
            return false;
        }
        k = k + 1;
    }
    true
}

/// Two snapshots just before the same one are the same snapshot.
proof fn lemma_pred_unique(snaps: Seq<SnapshotInfo>, paths: Seq<Seq<Seq<char>>>, j1: int, j2: int, i: int)
    requires
        is_pred(snaps, paths, j1, i),
        is_pred(snaps, paths, j2, i),
    ensures
        j1 == j2,
{
    if j1 != j2 {
        assert(same_group(paths, j2, i));
        assert(same_group(paths, j1, i));
    }
}

/// Once the first snapshots fail to render, all of them do, with the same error.
proof fn lemma_render_failure_stays(snaps: Seq<SnapshotInfo>, template: Seq<char>, fmt: Seq<char>, k: int, n: int)
    requires
        0 <= k <= n,
        rendered_paths(snaps, template, fmt, k) is Err,
    ensures
        rendered_paths(snaps, template, fmt, n) == rendered_paths(snaps, template, fmt, k),
    decreases n - k,
{
    if k < n {
        lemma_render_failure_stays(snaps, template, fmt, k + 1, n);
    }
}

/// A copy of a path.
fn copy_path(p: &Vec<String>) -> (r: Vec<String>)
    ensures
        strings_view(r@) == strings_view(p@),
{
    let mut out: Vec<String> = Vec::new();
    let mut k: usize = 0;
    while k < p.len()
        invariant
            k <= p.len(),
            strings_view(out@) == strings_view(p@).subrange(0, k as int),
        decreases p.len() - k,
    {
        let ghost before = strings_view(out@);
        let s = p[k].clone();
        out.push(s);
        assert(strings_view(out@) =~= before.push(p@[k as int]@));
        assert(strings_view(p@).subrange(0, k + 1) =~= strings_view(p@).subrange(0, k as int).push(p@[k as int]@));
        k = k + 1;
    }
    assert(strings_view(p@).subrange(0, p.len() as int) =~= strings_view(p@));
    out
}

/// The last segment of a path.
fn last_name(p: &Vec<String>) -> (r: String)
    ensures
        r@ == name_of(strings_view(p@)),
{
    if p.len() == 0 {
        String::new()
    } else {
        p[p.len() - 1].clone()
    }
}

/// The path of the `latest` entry beside `p`.
fn latest_path(p: &Vec<String>) -> (r: Vec<String>)
    ensures
        strings_view(r@) == parent_of(strings_view(p@)).push("latest"@),
{
    let mut out = copy_path(p);
    if out.len() > 0 {
        let ghost before = strings_view(out@);
        out.pop();
        assert(strings_view(out@) =~= before.drop_last());
    }
    let ghost before = strings_view(out@);
    out.push(String::from_str("latest"));
    assert(strings_view(out@) =~= before.push("latest"@));
    out
}

/// The entries of the namespace built from `snaps`, or why it cannot be built.
pub open spec fn build_spec(snaps: Seq<SnapshotInfo>, template: Seq<char>, fmt: Seq<char>) -> Result<Seq<EntryV>, BuildError> {
    match template_error(template) {
        Some(e) => Err(BuildError::Template(e)),
        None => match rendered_paths(snaps, template, fmt, snaps.len() as int) {
            Err(e) => Err(BuildError::Template(e)),
            Ok(ps) => if prefix_free(namespace_entries(snaps, ps)) {
                Ok(namespace_entries(snaps, ps))
            } else {
                Err(BuildError::Conflict)
            },
        },
    }
}

/// `r` is what listing directory `p` gives.
pub open spec fn listing_matches(es: Seq<EntryV>, as_link: bool, p: Seq<Seq<char>>, r: Result<Listing, FsError>) -> bool {
    match resolve_spec(es, as_link, p) {
        ResolvedV::Real(l, rest) => r is Ok && r->Ok_0 is Real && r->Ok_0->tree == l
            && strings_view(r->Ok_0->rest@) == rest,
        ResolvedV::Virtual => r is Ok && r->Ok_0 is Virtual && children_match(es, as_link, p, r->Ok_0->Virtual_0@),
        _ => r == Err::<Listing, FsError>(FsError::NotFound),
    }
}

/// `items` lists each child of synthetic directory `p` once, with what it
/// stands for.
pub open spec fn children_match(es: Seq<EntryV>, as_link: bool, p: Seq<Seq<char>>, items: Seq<DirItem>) -> bool {
    &&& forall|a: int, b: int| 0 <= a < b < items.len() ==> #[trigger] items[a].name@ != #[trigger] items[b].name@
    &&& forall|a: int| 0 <= a < items.len() ==> is_child(es, p, #[trigger] items[a].name@)
        && items[a].kind@ == item_kind_of(resolve_spec(es, as_link, p.push(items[a].name@)))
    &&& forall|name: Seq<char>| is_child(es, p, name) ==> exists|a: int| 0 <= a < items.len() && #[trigger] items[a].name@ == name
}

/// `r` is what opening `p` with `o` gives.
pub open spec fn open_matches(es: Seq<EntryV>, as_link: bool, p: Seq<Seq<char>>, o: OpenOptions, r: Result<(Locator, Vec<String>), FsError>) -> bool {
    if writes(o) {
        r == Err::<(Locator, Vec<String>), FsError>(FsError::Forbidden)
    } else {
        match resolve_spec(es, as_link, p) {
            ResolvedV::Real(l, rest) => r is Ok && r->Ok_0.0 == l && strings_view(r->Ok_0.1@) == rest,
            ResolvedV::NotFound => r == Err::<(Locator, Vec<String>), FsError>(FsError::NotFound),
            _ => r == Err::<(Locator, Vec<String>), FsError>(FsError::WrongType),
        }
    }
}

/// What a listed name stands for.
#[derive(Clone, Debug)]
pub enum ItemKind {
    /// A synthetic directory.
    Dir,
    /// A directory tree of the store.
    Real(Locator),
    /// A symlink to the sibling named here.
    Symlink(String),
}

/// The mathematical value of an `ItemKind`.
pub enum ItemKindV {
    Dir,
    Real(Locator),
    Symlink(Seq<char>),
}

impl View for ItemKind {
    type V = ItemKindV;

    open spec fn view(&self) -> ItemKindV {
        match self {
            ItemKind::Dir => ItemKindV::Dir,
            ItemKind::Real(l) => ItemKindV::Real(*l),
            ItemKind::Symlink(t) => ItemKindV::Symlink(t@),
        }
    }
}

/// One name in a listing of a synthetic directory.
#[derive(Clone, Debug)]
pub struct DirItem {
    pub name: String,
    pub kind: ItemKind,
}

/// What a listed name stands for, from where its path leads.
pub open spec fn item_kind_of(r: ResolvedV) -> ItemKindV {
    match r {
        ResolvedV::Real(l, _) => ItemKindV::Real(l),
        ResolvedV::Symlink(t) => ItemKindV::Symlink(t),
        _ => ItemKindV::Dir,
    }
}

/// Some entry lies below directory `p`, through its child `name`.
pub open spec fn is_child(es: Seq<EntryV>, p: Seq<Seq<char>>, name: Seq<char>) -> bool {
    exists|i: int| 0 <= i < es.len() && #[trigger] is_prefix(p, es[i].path) && es[i].path.len() > p.len()
        && es[i].path[p.len() as int] == name
}

/// A listing: the children of a synthetic directory, or a directory of the
/// store to be listed there.
#[derive(Clone, Debug)]
pub enum Listing {
    Virtual(Vec<DirItem>),
    Real { tree: Locator, rest: Vec<String> },
}

/// What an open request asks for.
#[derive(Clone, Copy, Debug, PartialEq, Eq, Structural)]
pub struct OpenOptions {
    pub read: bool,
    pub write: bool,
    pub append: bool,
    pub truncate: bool,
    pub create: bool,
    pub create_new: bool,
}

/// The request would write.
pub open spec fn writes(o: OpenOptions) -> bool {
    o.write || o.append || o.truncate || o.create || o.create_new
}

/// Why a namespace could not be built.
#[derive(Clone, Copy, Debug, PartialEq, Eq, Structural)]
pub enum BuildError {
    /// The path template is invalid or cannot be rendered.
    Template(TemplateError),
    /// Two entries would stand at one path, or one above another.
    Conflict,
}

/// The namespace tree: entries whose paths are prefix-free, and whether
/// links are shown as symlinks (else as the directories they lead to).
#[derive(Clone, Debug)]
pub struct FsTree {
    pub entries: Vec<Entry>,
    pub links_as_symlinks: bool,
}

impl FsTree {
    /// The tree is well formed: no entry stands at or above another.
    pub open spec fn wf(&self) -> bool {
        prefix_free(entries_view(self.entries@))
    }

    /// The tree's entries, as values.
    pub open spec fn entries_v(&self) -> Seq<EntryV> {
        entries_view(self.entries@)
    }

    /// A tree of one real directory at its root.
    pub fn from_node(tree: Locator) -> (r: FsTree)
        ensures
            r.wf(),
            r.entries_v() == seq![EntryV { path: Seq::empty(), kind: KindV::Real(tree) }],
            !r.links_as_symlinks,
    {
        let mut entries: Vec<Entry> = Vec::new();
        let path: Vec<String> = Vec::new();
        assert(strings_view(path@) =~= Seq::<Seq<char>>::empty());
        entries.push(Entry { path, kind: EntryKind::Real(tree) });
        let r = FsTree { entries, links_as_symlinks: false };
        assert(r.entries_v() =~= seq![EntryV { path: Seq::empty(), kind: KindV::Real(tree) }]);
        r
    }

    /// Builds the namespace of `snapshots`: each at the path that
    /// `path_template` renders (times in `time_template`), identical
    /// neighbours in a group folded into links, and a `latest` link in each
    /// group. An invalid template fails first, whatever the snapshots.
    pub fn from_snapshots(
        snapshots: Vec<SnapshotInfo>,
        path_template: &str,
        time_template: &str,
        symlinks: bool,
    ) -> (r: Result<FsTree, BuildError>)
        ensures
            match build_spec(snapshots@, path_template@, time_template@) {
                Ok(es) => r is Ok && r->Ok_0.entries_v() == es && r->Ok_0.links_as_symlinks == symlinks && r->Ok_0.wf(),
                Err(e) => r == Err::<FsTree, BuildError>(e),
            },
    {
        match check_template(path_template) {
            Some(e) => {
                return Err(BuildError::Template(e));
            },
            None => {},
        }
        let n = snapshots.len();
        let ghost sv = snapshots@;
        let mut paths: Vec<Vec<String>> = Vec::new();
        assert(paths_view(paths@) =~= Seq::<Seq<Seq<char>>>::empty());
        let mut i: usize = 0;
        while i < n
            invariant
                n == snapshots.len(),
                sv == snapshots@,
                i <= n,
                paths.len() == i,
                template_error(path_template@) is None,
                rendered_paths(sv, path_template@, time_template@, i as int) == Ok::<Seq<Seq<Seq<char>>>, TemplateError>(paths_view(paths@)),
            decreases n - i,
        {
            match render(path_template, &snapshots[i], time_template) {
                Ok(t) => {
                    let segs = split_path(t.as_str());
                    let ghost before = paths_view(paths@);
                    paths.push(segs);
                    assert(paths_view(paths@) =~= before.push(path_segments(t@)));
                },
                Err(e) => {
                    assert(rendered_paths(sv, path_template@, time_template@, i + 1) == Err::<Seq<Seq<Seq<char>>>, TemplateError>(e));
                    proof {
                        lemma_render_failure_stays(sv, path_template@, time_template@, i + 1, n as int);
                    }
                    return Err(BuildError::Template(e));
                },
            }
            i = i + 1;
        }
        let ghost pv = paths_view(paths@);
        let mut entries: Vec<Entry> = Vec::new();
        let mut i: usize = 0;
        while i < n
            invariant
                n == snapshots.len(),
                paths.len() == n,
                sv == snapshots@,
                pv == paths_view(paths@),
                i <= n,
                entries_view(entries@) == Seq::new(i as nat, |k: int| snapshot_entry(sv, pv, k)),
            decreases n - i,
        {
            let tree = snapshots[i].tree;
            let kind = match find_pred(&snapshots, &paths, i) {
                Some(j) => {
                    if snapshots[j].tree == tree {
                        assert(folded_into(sv, pv, j as int, i as int));
                        proof {
                            let c = choose|c: int| #[trigger] folded_into(sv, pv, c, i as int);
                            lemma_pred_unique(sv, pv, c, j as int, i as int);
                        }
                        assert(pv[j as int] == strings_view(paths@[j as int]@));
                        EntryKind::Link { target: last_name(&paths[j]), tree }
                    } else {
                        assert forall|c: int| !folded_into(sv, pv, c, i as int) by {
                            if is_pred(sv, pv, c, i as int) {
                                lemma_pred_unique(sv, pv, c, j as int, i as int);
                            }
                        }
                        EntryKind::Real(tree)
                    }
                },
                None => EntryKind::Real(tree),
            };
            assert(pv[i as int] == strings_view(paths@[i as int]@));
            let e = Entry { path: copy_path(&paths[i]), kind };
            assert(e@ == snapshot_entry(sv, pv, i as int));
            let ghost before = entries_view(entries@);
            entries.push(e);
            assert(entries_view(entries@) =~= before.push(e@));
            assert(entries_view(entries@) =~= Seq::new((i + 1) as nat, |k: int| snapshot_entry(sv, pv, k)));
            i = i + 1;
        }
        let ghost base = entries_view(entries@);
        let mut i: usize = 0;
        while i < n
            invariant
                n == snapshots.len(),
                paths.len() == n,
                sv == snapshots@,
                pv == paths_view(paths@),
                i <= n,
                base == Seq::new(n as nat, |k: int| snapshot_entry(sv, pv, k)),
                entries_view(entries@) == base + latest_entries(sv, pv, i as int),
            decreases n - i,
        {
            if check_latest(&snapshots, &paths, i) {
                assert(pv[i as int] == strings_view(paths@[i as int]@));
                let e = Entry {
                    path: latest_path(&paths[i]),
                    kind: EntryKind::Link { target: last_name(&paths[i]), tree: snapshots[i].tree },
                };
                assert(e@ == latest_entry(sv, pv, i as int));
                let ghost before = entries_view(entries@);
                entries.push(e);
                assert(entries_view(entries@) =~= before.push(e@));
                assert(entries_view(entries@) =~= base + latest_entries(sv, pv, i + 1));
            }
            i = i + 1;
        }
        assert(entries_view(entries@) == namespace_entries(sv, pv));
        if check_prefix_free(&entries) {
            Ok(FsTree { entries, links_as_symlinks: symlinks })
        } else {
            Err(BuildError::Conflict)
        }
    }

    /// Where `path` leads.
    pub fn resolve(&self, path: &Vec<String>) -> (r: Resolved)
        requires
            self.wf(),
        ensures
            r@ == resolve_spec(self.entries_v(), self.links_as_symlinks, strings_view(path@)),
    {
        resolve_in(&self.entries, self.links_as_symlinks, path)
    }

    /// Where a `/`-separated path leads.
    pub fn node_from_path(&self, path: &str) -> (r: Resolved)
        requires
            self.wf(),
        ensures
            r@ == resolve_spec(self.entries_v(), self.links_as_symlinks, path_segments(path@)),
    {
        let segs = split_path(path);
        self.resolve(&segs)
    }

    /// Opens `path` for reading. Any request that would write is
    /// forbidden, whatever stands there; a synthetic directory or a
    /// symlink cannot be opened. On success, the store's directory tree and
    /// the path below it.
    pub fn open(&self, path: &Vec<String>, options: OpenOptions) -> (r: Result<(Locator, Vec<String>), FsError>)
        requires
            self.wf(),
        ensures
            open_matches(self.entries_v(), self.links_as_symlinks, strings_view(path@), options, r),
    {
        if options.write || options.append || options.truncate || options.create || options.create_new {
            return Err(FsError::Forbidden);
        }
        match self.resolve(path) {
            Resolved::Real { tree, rest } => Ok((tree, rest)),
            Resolved::NotFound => Err(FsError::NotFound),
            _ => Err(FsError::WrongType),
        }
    }

    /// Lists directory `path`. A synthetic directory lists each child name
    /// once, with what it stands for; a directory of the store is handed
    /// back to be listed there; a symlink or a missing path is not found.
    pub fn dir_entries(&self, path: &Vec<String>) -> (r: Result<Listing, FsError>)
        requires
            self.wf(),
        ensures
            listing_matches(self.entries_v(), self.links_as_symlinks, strings_view(path@), r),
    {
        match self.resolve(path) {
            Resolved::Real { tree, rest } => Ok(Listing::Real { tree, rest }),
            Resolved::Virtual => Ok(Listing::Virtual(self.children(path))),
            _ => Err(FsError::NotFound),
        }
    }

    /// The child names below `path`, each once, with what they stand for.
    fn children(&self, path: &Vec<String>) -> (items: Vec<DirItem>)
        requires
            self.wf(),
        ensures
            children_match(self.entries_v(), self.links_as_symlinks, strings_view(path@), items@),
    {
        let ghost pv = strings_view(path@);
        let ghost es = self.entries_v();
        let d = path.len();
        let mut items: Vec<DirItem> = Vec::new();
        let mut i: usize = 0;
        while i < self.entries.len()
            invariant
                self.wf(),
                i <= self.entries.len(),
                pv == strings_view(path@),
                es == self.entries_v(),
                d == path.len(),
                forall|a: int, b: int| 0 <= a < b < items@.len() ==> #[trigger] items@[a].name@ != #[trigger] items@[b].name@,
                forall|a: int| 0 <= a < items@.len() ==> is_child(es, pv, #[trigger] items@[a].name@)
                    && items@[a].kind@ == item_kind_of(resolve_spec(es, self.links_as_symlinks, pv.push(items@[a].name@))),
                forall|k: int| 0 <= k < i && is_prefix(pv, #[trigger] es[k].path) && es[k].path.len() > d
                    ==> exists|a: int| 0 <= a < items@.len() && #[trigger] items@[a].name@ == es[k].path[d as int],
            decreases self.entries.len() - i,
        {
            assert(es[i as int] == self.entries@[i as int]@);
            if prefix_of(path, &self.entries[i].path) && self.entries[i].path.len() > d {
                let name = &self.entries[i].path[d];
                assert(name@ == es[i as int].path[d as int]);
                let mut seen = false;
                let mut a: usize = 0;
                while a < items.len()
                    invariant
                        a <= items.len(),
                        !seen ==> forall|b: int| 0 <= b < a ==> items@[b].name@ != name@,
                        seen ==> exists|b: int| 0 <= b < items@.len() && #[trigger] items@[b].name@ == name@,
                    decreases items.len() - a,
                {
                    if !seen && str_eq(items[a].name.as_str(), name.as_str()) {
                        seen = true;
                    }
                    a = a + 1;
                }
                if !seen {
                    let mut child = copy_path(path);
                    let ghost before = strings_view(child@);
                    child.push(name.clone());
                    assert(strings_view(child@) =~= pv.push(name@));
                    let kind = match self.resolve(&child) {
                        Resolved::Real { tree, rest } => ItemKind::Real(tree),
                        Resolved::Symlink { target } => ItemKind::Symlink(target),
                        _ => ItemKind::Dir,
                    };
                    let item = DirItem { name: name.clone(), kind };
                    assert(is_prefix(pv, es[i as int].path));
                    assert(is_child(es, pv, item.name@));
                    let ghost old_items = items@;
                    items.push(item);
                    assert(items@[old_items.len() as int].name@ == name@);
                    assert forall|k: int| 0 <= k < i + 1 && is_prefix(pv, #[trigger] es[k].path) && es[k].path.len() > d
                        implies exists|a: int| 0 <= a < items@.len() && #[trigger] items@[a].name@ == es[k].path[d as int] by {
                        if k < i {
                            let a = choose|a: int| 0 <= a < old_items.len() && #[trigger] old_items[a].name@ == es[k].path[d as int];
                            assert(items@[a].name@ == es[k].path[d as int]);
                        } else {
                            assert(items@[old_items.len() as int].name@ == es[k].path[d as int]);
                        }
                    }
                }
            }
            i = i + 1;
        }
        assert forall|name: Seq<char>| is_child(es, pv, name) implies exists|a: int| 0 <= a < items@.len() && #[trigger] items@[a].name@ == name by {
            let k = choose|k: int| 0 <= k < es.len() && #[trigger] is_prefix(pv, es[k].path) && es[k].path.len() > pv.len()
                && es[k].path[pv.len() as int] == name;
        }
        items
    }
}

/// Every snapshot can be found again at the path its template renders: it
/// leads to the snapshot's root tree, or, when links are shown as symlinks
/// and the snapshot is folded into the one before it, to a symlink to that
/// one.
pub proof fn law_snapshot_path_round_trip(snaps: Seq<SnapshotInfo>, ps: Seq<Seq<Seq<char>>>, as_link: bool, i: int)
    requires
        ps.len() == snaps.len(),
        prefix_free(namespace_entries(snaps, ps)),
        0 <= i < snaps.len(),
    ensures
        !(as_link && exists|j: int| folded_into(snaps, ps, j, i)) ==> resolve_spec(namespace_entries(snaps, ps), as_link, ps[i])
            == ResolvedV::Real(snaps[i].tree, Seq::empty()),
        forall|j: int| as_link && #[trigger] folded_into(snaps, ps, j, i) ==> resolve_spec(namespace_entries(snaps, ps), as_link, ps[i])
            == ResolvedV::Symlink(name_of(ps[j])),
{
    let es = namespace_entries(snaps, ps);
    assert(es[i] == snapshot_entry(snaps, ps, i));
    assert(ps[i].subrange(0, ps[i].len() as int) =~= ps[i]);
    lemma_resolve_through(es, as_link, i, ps[i]);
    assert(ps[i].subrange(ps[i].len() as int, ps[i].len() as int) =~= Seq::<Seq<char>>::empty());
    assert forall|j: int| as_link && #[trigger] folded_into(snaps, ps, j, i) implies resolve_spec(es, as_link, ps[i])
        == ResolvedV::Symlink(name_of(ps[j])) by {
        let c = choose|c: int| #[trigger] folded_into(snaps, ps, c, i);
        lemma_pred_unique(snaps, ps, c, j, i);
    }
}

/// A snapshot folded into the one before it is listed as a link, and
/// below it lie the same contents as below that one: every path under
/// either leads to the same place in the same root tree.
pub proof fn law_identical_snapshots_share_content(
    snaps: Seq<SnapshotInfo>,
    ps: Seq<Seq<Seq<char>>>,
    as_link: bool,
    j: int,
    i: int,
    rest: Seq<Seq<char>>,
)
    requires
        ps.len() == snaps.len(),
        prefix_free(namespace_entries(snaps, ps)),
        0 <= i < snaps.len(),
        folded_into(snaps, ps, j, i),
        rest.len() > 0 || !as_link,
    ensures
        namespace_entries(snaps, ps)[i].kind == KindV::Link(name_of(ps[j]), snaps[i].tree),
        resolve_spec(namespace_entries(snaps, ps), as_link, ps[i] + rest) == ResolvedV::Real(snaps[j].tree, rest),
        resolve_spec(namespace_entries(snaps, ps), as_link, ps[j] + rest) == ResolvedV::Real(snaps[j].tree, rest),
{
    let es = namespace_entries(snaps, ps);
    assert(es[i] == snapshot_entry(snaps, ps, i));
    assert(es[j] == snapshot_entry(snaps, ps, j));
    let c = choose|c: int| #[trigger] folded_into(snaps, ps, c, i);
    lemma_pred_unique(snaps, ps, c, j, i);
    assert((ps[i] + rest).subrange(0, ps[i].len() as int) =~= ps[i]);
    assert((ps[j] + rest).subrange(0, ps[j].len() as int) =~= ps[j]);
    assert((ps[i] + rest).subrange(ps[i].len() as int, (ps[i] + rest).len() as int) =~= rest);
    assert((ps[j] + rest).subrange(ps[j].len() as int, (ps[j] + rest).len() as int) =~= rest);
    lemma_resolve_through(es, as_link, i, ps[i] + rest);
    lemma_resolve_through(es, as_link, j, ps[j] + rest);
}

/// A template with a placeholder that names no snapshot field fails the
/// build, whatever the snapshots, before any of them is rendered.
pub proof fn law_unknown_placeholder_fails(snaps: Seq<SnapshotInfo>, template: Seq<char>, fmt: Seq<char>, k: int)
    requires
        0 <= k < parsed_template(template).0.len(),
        parsed_template(template).0[k].0,
        !known_key(parsed_template(template).0[k].1),
    ensures
        build_spec(snaps, template, fmt) == Err::<Seq<EntryV>, BuildError>(BuildError::Template(TemplateError::UnknownKey)),
{
}

} // verus!
