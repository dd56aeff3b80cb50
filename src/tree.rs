//! The namespace tree: entries placed at paths built from snapshots, and
//! the synthetic directories above them.
use vstd::prelude::*;

use crate::template::{Locator, TemplateError};
use crate::text::{str_eq, strings_eq, strings_view};

verus! {

/// What stands at an entry's path.
#[derive(Clone, Debug)]
pub enum EntryKind {
    /// A directory tree of the backing store.
    Real(Locator),
    /// A link to the sibling named `target`, whose directory tree is `tree`.
    Link { target: String, tree: Locator },
}

/// The mathematical value of an `EntryKind`.
pub enum KindV {
    Real(Locator),
    Link(Seq<char>, Locator),
}

impl View for EntryKind {
    type V = KindV;

    open spec fn view(&self) -> KindV {
        match self {
            EntryKind::Real(l) => KindV::Real(*l),
            EntryKind::Link { target, tree } => KindV::Link(target@, *tree),
        }
    }
}

/// An entry of the namespace: a path of segments and what stands there.
#[derive(Clone, Debug)]
pub struct Entry {
    pub path: Vec<String>,
    pub kind: EntryKind,
}

/// The mathematical value of an `Entry`.
pub struct EntryV {
    pub path: Seq<Seq<char>>,
    pub kind: KindV,
}

impl View for Entry {
    type V = EntryV;

    open spec fn view(&self) -> EntryV {
        EntryV { path: strings_view(self.path@), kind: self.kind@ }
    }
}

/// The values of a sequence of entries.
pub open spec fn entries_view(v: Seq<Entry>) -> Seq<EntryV> {
    v.map_values(|e: Entry| e@)
}

/// `a` is `b` or a path above it.
pub open spec fn is_prefix(a: Seq<Seq<char>>, b: Seq<Seq<char>>) -> bool {
    a.len() <= b.len() && b.subrange(0, a.len() as int) == a
}

/// No entry's path lies at or above another's: every name at one level is
/// unique, and no entry hides another.
pub open spec fn prefix_free(es: Seq<EntryV>) -> bool {
    forall|i: int, j: int|
        0 <= i < es.len() && 0 <= j < es.len() && i != j ==> !is_prefix(#[trigger] es[i].path, #[trigger] es[j].path)
}

/// Where a path leads.
#[derive(Clone, Debug)]
pub enum Resolved {
    /// Into the store: below directory tree `tree`, along `rest`.
    Real { tree: Locator, rest: Vec<String> },
    /// To a link shown as a symlink to the sibling `target`.
    Symlink { target: String },
    /// To a synthetic directory.
    Virtual,
    /// Nowhere.
    NotFound,
}

/// The mathematical value of a `Resolved`.
pub enum ResolvedV {
    Real(Locator, Seq<Seq<char>>),
    Symlink(Seq<char>),
    Virtual,
    NotFound,
}

impl View for Resolved {
    type V = ResolvedV;

    open spec fn view(&self) -> ResolvedV {
        match self {
            Resolved::Real { tree, rest } => ResolvedV::Real(*tree, strings_view(rest@)),
            Resolved::Symlink { target } => ResolvedV::Symlink(target@),
            Resolved::Virtual => ResolvedV::Virtual,
            Resolved::NotFound => ResolvedV::NotFound,
        }
    }
}

/// Where a path leads, once an entry at or above it is known.
pub open spec fn resolve_at(e: EntryV, as_link: bool, p: Seq<Seq<char>>) -> ResolvedV {
    let rest = p.subrange(e.path.len() as int, p.len() as int);
    match e.kind {
        KindV::Real(l) => ResolvedV::Real(l, rest),
        KindV::Link(t, l) => if as_link && rest.len() == 0 {
            ResolvedV::Symlink(t)
        } else {
            ResolvedV::Real(l, rest)
        },
    }
}

/// Where a path leads in a namespace: through the entry at or above it;
/// else to a synthetic directory if an entry lies below it; else nowhere.
pub open spec fn resolve_spec(es: Seq<EntryV>, as_link: bool, p: Seq<Seq<char>>) -> ResolvedV {
    if exists|i: int| 0 <= i < es.len() && is_prefix(#[trigger] es[i].path, p) {
        let i = choose|i: int| 0 <= i < es.len() && is_prefix(#[trigger] es[i].path, p);
        resolve_at(es[i], as_link, p)
    } else if exists|i: int| 0 <= i < es.len() && is_prefix(p, #[trigger] es[i].path) {
        ResolvedV::Virtual
    } else {
        ResolvedV::NotFound
    }
}

/// Whether `a` is `b` or a path above it.
pub fn prefix_of(a: &Vec<String>, b: &Vec<String>) -> (r: bool)
    ensures
        r == is_prefix(strings_view(a@), strings_view(b@)),
{
    if a.len() > b.len() {
        return false;
    }
    let ghost av = strings_view(a@);
    let ghost bv = strings_view(b@);
    let mut k: usize = 0;
    while k < a.len()
        invariant
            a.len() <= b.len(),
            k <= a.len(),
            av == strings_view(a@),
            bv == strings_view(b@),
            forall|m: int| 0 <= m < k ==> av[m] == bv[m],
        decreases a.len() - k,
    {
        if !str_eq(a[k].as_str(), b[k].as_str()) {
            assert(bv.subrange(0, av.len() as int)[k as int] != av[k as int]);
            return false;
        }
        k = k + 1;
    }
    assert(bv.subrange(0, av.len() as int) =~= av);
    true
}

/// Whether no entry's path lies at or above another's.
pub fn check_prefix_free(es: &Vec<Entry>) -> (r: bool)
    ensures
        r == prefix_free(entries_view(es@)),
{
    let ghost ev = entries_view(es@);
    let mut i: usize = 0;
    while i < es.len()
        invariant
            i <= es.len(),
            ev == entries_view(es@),
            forall|a: int, b: int|
                0 <= a < i && 0 <= b < ev.len() && a != b ==> !is_prefix(#[trigger] ev[a].path, #[trigger] ev[b].path),
        decreases es.len() - i,
    {
        let mut j: usize = 0;
        while j < es.len()
            invariant
                i < es.len(),
                j <= es.len(),
                ev == entries_view(es@),
                forall|a: int, b: int|
                    0 <= a < i && 0 <= b < ev.len() && a != b ==> !is_prefix(#[trigger] ev[a].path, #[trigger] ev[b].path),
                forall|b: int| 0 <= b < j && i != b ==> !is_prefix(ev[i as int].path, #[trigger] ev[b].path),
            decreases es.len() - j,
        {
            assert(ev[i as int] == es@[i as int]@ && ev[j as int] == es@[j as int]@);
            if i != j && prefix_of(&es[i].path, &es[j].path) {
                assert(is_prefix(ev[i as int].path, ev[j as int].path));
                assert(!prefix_free(ev));
                return false;
            }
            j = j + 1;
        }
        i = i + 1;
    }
    true
}

/// Finds where a path leads among entries whose paths are prefix-free.
pub fn resolve_in(es: &Vec<Entry>, as_link: bool, p: &Vec<String>) -> (r: Resolved)
    requires
        prefix_free(entries_view(es@)),
    ensures
        r@ == resolve_spec(entries_view(es@), as_link, strings_view(p@)),
{
    let ghost ev = entries_view(es@);
    let ghost pv = strings_view(p@);
    let mut i: usize = 0;
    while i < es.len()
        invariant
            i <= es.len(),
            ev == entries_view(es@),
            pv == strings_view(p@),
            forall|k: int| 0 <= k < i ==> !is_prefix(#[trigger] ev[k].path, pv),
            prefix_free(ev),
        decreases es.len() - i,
    {
        assert(ev[i as int] == es@[i as int]@);
        if prefix_of(&es[i].path, p) {
            assert(is_prefix(ev[i as int].path, pv));
            let n = es[i].path.len();
            let mut rest: Vec<String> = Vec::new();
            let mut k: usize = n;
            while k < p.len()
                invariant
                    n <= k <= p.len(),
                    pv == strings_view(p@),
                    strings_view(rest@) == pv.subrange(n as int, k as int),
                decreases p.len() - k,
            {
                assert(pv[k as int] == p@[k as int]@);
                let ghost before = strings_view(rest@);
                let s = p[k].clone();
                assert(s@ == pv[k as int]);
                rest.push(s);
                assert(strings_view(rest@) =~= before.push(pv[k as int]));
                assert(pv.subrange(n as int, k + 1) =~= pv.subrange(n as int, k as int).push(pv[k as int]));
                k = k + 1;
            }
            proof {
                let c = choose|c: int| 0 <= c < ev.len() && is_prefix(#[trigger] ev[c].path, pv);
                assert(prefix_free(ev));
                let a = ev[c].path;
                let b = ev[i as int].path;
                if c != i as int {
                    if a.len() <= b.len() {
                        assert(b.subrange(0, a.len() as int) =~= pv.subrange(0, a.len() as int));
                        assert(is_prefix(ev[c].path, ev[i as int].path));
                    } else {
                        assert(a.subrange(0, b.len() as int) =~= pv.subrange(0, b.len() as int));
                        assert(is_prefix(ev[i as int].path, ev[c].path));
                    }
                }
                assert(c == i as int);
                assert(b.len() == n);
                assert(ev[i as int].kind == es@[i as int].kind@);
                assert(resolve_spec(ev, as_link, pv) == resolve_at(ev[i as int], as_link, pv));
                assert(strings_view(rest@) == pv.subrange(n as int, pv.len() as int));
            }
            return match &es[i].kind {
                EntryKind::Real(l) => Resolved::Real { tree: *l, rest },
                EntryKind::Link { target, tree } => if as_link && n == p.len() {
                    Resolved::Symlink { target: target.clone() }
                } else {
                    Resolved::Real { tree: *tree, rest }
                },
            };
        }
        i = i + 1;
    }
    let mut j: usize = 0;
    while j < es.len()
        invariant
            j <= es.len(),
            ev == entries_view(es@),
            pv == strings_view(p@),
            forall|k: int| 0 <= k < es.len() ==> !is_prefix(#[trigger] ev[k].path, pv),
            forall|k: int| 0 <= k < j ==> !is_prefix(pv, #[trigger] ev[k].path),
        decreases es.len() - j,
    {
        assert(ev[j as int] == es@[j as int]@);
        if prefix_of(p, &es[j].path) {
            assert(is_prefix(pv, ev[j as int].path));
            return Resolved::Virtual;
        }
        j = j + 1;
    }
    Resolved::NotFound
}

/// In a prefix-free namespace, a path leads through the one entry at or
/// above it.
pub proof fn lemma_resolve_through(es: Seq<EntryV>, as_link: bool, k: int, p: Seq<Seq<char>>)
    requires
        prefix_free(es),
        0 <= k < es.len(),
        is_prefix(es[k].path, p),
    ensures
        resolve_spec(es, as_link, p) == resolve_at(es[k], as_link, p),
{
    let c = choose|c: int| 0 <= c < es.len() && is_prefix(#[trigger] es[c].path, p);
    let a = es[c].path;
    let b = es[k].path;
    if c != k {
        if a.len() <= b.len() {
            assert(b.subrange(0, a.len() as int) =~= p.subrange(0, a.len() as int));
            assert(is_prefix(es[c].path, es[k].path));
        } else {
            assert(a.subrange(0, b.len() as int) =~= p.subrange(0, b.len() as int));
            assert(is_prefix(es[k].path, es[c].path));
        }
    }
}

/// Resolution depends on the namespace and the path alone: asking twice,
/// or of two equal namespaces, gives the same answer.
pub proof fn law_resolve_repeatable(es1: Seq<EntryV>, es2: Seq<EntryV>, as_link: bool, p: Seq<Seq<char>>)
    requires
        es1 == es2,
    ensures
        resolve_spec(es1, as_link, p) == resolve_spec(es2, as_link, p),
{
}

} // verus!
