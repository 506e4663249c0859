//! Combining the entries of `git status` for display: one entry per file, sorted by name,
//! with a file that is both removed from the index and gone from disk shown as deleted
//! in both places.
use crate::text::chars_of;
use crate::worktree::{EntryLocationStatus, EntryState, EntryStateView, StatusEntry, StatusEntryView, StatusIter};
use vstd::prelude::*;

verus! {

/// Names in the order of `str`'s `Ord`: lexicographic by character (the order of their
/// UTF-8 bytes).
pub open spec fn name_lt(a: Seq<char>, b: Seq<char>) -> bool
    decreases a.len(),
{
    if a.len() == 0 {
        b.len() > 0
    } else if b.len() == 0 {
        false
    } else if a[0] == b[0] {
        name_lt(a.drop_first(), b.drop_first())
    } else {
        (a[0] as int) < (b[0] as int)
    }
}

/// No name comes before itself.
pub proof fn lemma_name_lt_irreflexive(a: Seq<char>)
    ensures
        !name_lt(a, a),
    decreases a.len(),
{
    if a.len() > 0 {
        lemma_name_lt_irreflexive(a.drop_first());
    }
}

/// Of two different names, one comes first.
pub proof fn lemma_name_lt_total(a: Seq<char>, b: Seq<char>)
    requires
        a != b,
    ensures
        name_lt(a, b) || name_lt(b, a),
    decreases a.len(),
{
    if a.len() > 0 && b.len() > 0 && a[0] == b[0] {
        if a.drop_first() == b.drop_first() {
            assert(a =~= seq![a[0]] + a.drop_first());
            assert(b =~= seq![b[0]] + b.drop_first());
        }
        lemma_name_lt_total(a.drop_first(), b.drop_first());
    } else if a.len() == 0 && b.len() == 0 {
        assert(a =~= b);
    } else if a.len() > 0 && b.len() > 0 {
        let (x, y) = (a[0], b[0]);
        assert(x != y);
        assert((x as int) != (y as int));
    }
}

/// The order is transitive.
pub proof fn lemma_name_lt_transitive(a: Seq<char>, b: Seq<char>, c: Seq<char>)
    requires
        name_lt(a, b),
        name_lt(b, c),
    ensures
        name_lt(a, c),
    decreases a.len(),
{
    if a.len() > 0 && b.len() > 0 && c.len() > 0 && a[0] == b[0] && b[0] == c[0] {
        lemma_name_lt_transitive(a.drop_first(), b.drop_first(), c.drop_first());
    }
}

/// Whether `a` comes before `b`.
pub fn name_less(a: &str, b: &str) -> (r: bool)
    ensures
        r == name_lt(a@, b@),
{
    let ca = chars_of(a);
    let cb = chars_of(b);
    let mut i: usize = 0;
    proof {
        assert(a@.skip(0) =~= a@);
        assert(b@.skip(0) =~= b@);
    }
    while i < ca.len() && i < cb.len() && ca[i] == cb[i]
        invariant
            ca@ == a@,
            cb@ == b@,
            i <= ca@.len(),
            i <= cb@.len(),
            name_lt(a@, b@) == name_lt(a@.skip(i as int), b@.skip(i as int)),
        decreases ca@.len() - i,
    {
        proof {
            assert(a@.skip(i as int).drop_first() =~= a@.skip(i + 1));
            assert(b@.skip(i as int).drop_first() =~= b@.skip(i + 1));
        }
        i = i + 1;
    }
    if i == ca.len() {
        i < cb.len()
    } else if i == cb.len() {
        false
    } else {
        ca[i] < cb[i]
    }
}

/// Untracked and ignored entries are kept apart from the others.
pub open spec fn is_untracked_kind(s: EntryStateView) -> bool {
    s is Untracked || s is Ignored
}

/// The last entry for each file name among the entries of one kind.
pub open spec fn last_by_name(es: Seq<StatusEntryView>, untracked: bool) -> Map<Seq<char>, StatusEntryView>
    decreases es.len(),
{
    if es.len() == 0 {
        Map::empty()
    } else {
        let m = last_by_name(es.drop_last(), untracked);
        if is_untracked_kind(es.last().state) == untracked {
            m.insert(es.last().filename, es.last())
        } else {
            m
        }
    }
}

/// A file removed from the index (`D.`) is shown as deleted on disk too (`DD`).
pub open spec fn mark_deleted(e: StatusEntryView) -> StatusEntryView {
    match e.state {
        EntryStateView::Changed { staged_status: EntryLocationStatus::Deleted, .. } => StatusEntryView {
            state: EntryStateView::Changed {
                staged_status: EntryLocationStatus::Deleted,
                tree_status: EntryLocationStatus::Deleted,
            },
            filename: e.filename,
        },
        _ => e,
    }
}

/// The entry shown for each file: its last indexed entry, marked deleted unless the file
/// is also listed as untracked (when it is still on disk); else its last untracked entry.
pub open spec fn fixed_entries(es: Seq<StatusEntryView>) -> Map<Seq<char>, StatusEntryView> {
    let t = last_by_name(es, false);
    let u = last_by_name(es, true);
    Map::new(
        |f: Seq<char>| t.contains_key(f) || u.contains_key(f),
        |f: Seq<char>|
            if t.contains_key(f) {
                if u.contains_key(f) {
                    t[f]
                } else {
                    mark_deleted(t[f])
                }
            } else {
                u[f]
            },
    )
}

/// The views of status entries.
pub open spec fn entry_views<'a>(v: Seq<StatusEntry<'a>>) -> Seq<StatusEntryView> {
    v.map_values(|e: StatusEntry<'a>| e@)
}

/// Some entry has file name `f`.
pub open spec fn has_name(s: Seq<StatusEntryView>, f: Seq<char>) -> bool {
    exists|i: int| 0 <= i < s.len() && #[trigger] s[i].filename == f
}

/// No two entries have the same file name.
pub open spec fn unique_names(s: Seq<StatusEntryView>) -> bool {
    forall|i: int, j: int| 0 <= i < s.len() && 0 <= j < s.len() && i != j ==> s[i].filename != s[j].filename
}

/// The entries are in strictly increasing order of file name.
pub open spec fn sorted_by_name(s: Seq<StatusEntryView>) -> bool {
    forall|i: int, j: int| 0 <= i < j < s.len() ==> name_lt(s[i].filename, s[j].filename)
}

/// The entries are exactly the values of `m`, one per key.
pub open spec fn holds_map(s: Seq<StatusEntryView>, m: Map<Seq<char>, StatusEntryView>) -> bool {
    &&& unique_names(s)
    &&& forall|f: Seq<char>| has_name(s, f) <==> m.contains_key(f)
    &&& forall|i: int| 0 <= i < s.len() ==> m[s[i].filename] == s[i]
}

/// An entry's name is a name of the entries.
pub proof fn lemma_has_name(s: Seq<StatusEntryView>, i: int)
    requires
        0 <= i < s.len(),
    ensures
        has_name(s, s[i].filename),
{
}

/// The index of the entry named `f`, if any.
fn find_name<'a>(v: &Vec<StatusEntry<'a>>, f: &str) -> (r: Option<usize>)
    ensures
        match r {
            Some(i) => i < v@.len() && v@[i as int].filename@ == f@,
            None => !has_name(entry_views(v@), f@),
        },
{
    let mut i: usize = 0;
    while i < v.len()
        invariant
            i <= v@.len(),
            forall|j: int| 0 <= j < i ==> v@[j].filename@ != f@,
        decreases v@.len() - i,
    {
        if crate::text::str_eq(v[i].filename, f) {
            return Some(i);
        }
        i = i + 1;
    }
    proof {
        assert forall|j: int| 0 <= j < entry_views(v@).len() implies #[trigger] entry_views(v@)[j].filename != f@ by {
            assert(entry_views(v@)[j] == v@[j]@);
        }
    }
    None
}

/// Record `e` as the last entry of its file name.
fn put_last<'a>(v: &mut Vec<StatusEntry<'a>>, e: StatusEntry<'a>, Ghost(m): Ghost<Map<Seq<char>, StatusEntryView>>)
    requires
        holds_map(entry_views(old(v)@), m),
    ensures
        holds_map(entry_views(final(v)@), m.insert(e.filename@, e@)),
{
    let ghost s = entry_views(v@);
    match find_name(v, e.filename) {
        Some(j) => {
            v.set(j, e);
            proof {
                let s2 = entry_views(v@);
                assert(s2 =~= s.update(j as int, e@));
                let m2 = m.insert(e.filename@, e@);
                assert forall|f: Seq<char>| has_name(s2, f) <==> m2.contains_key(f) by {
                    if has_name(s2, f) {
                        let i = choose|i: int| 0 <= i < s2.len() && #[trigger] s2[i].filename == f;
                        if i != j {
                            assert(s[i].filename == f);
                            assert(has_name(s, f));
                        }
                    }
                    if m2.contains_key(f) && f != e.filename@ {
                        assert(has_name(s, f));
                        let i = choose|i: int| 0 <= i < s.len() && #[trigger] s[i].filename == f;
                        assert(s2[i].filename == f);
                    }
                    if f == e.filename@ {
                        assert(s2[j as int].filename == f);
                    }
                }
                assert forall|i: int| 0 <= i < s2.len() implies m2[s2[i].filename] == s2[i] by {
                    if i != j {
                        assert(s[i].filename != s[j as int].filename);
                    }
                }
            }
        },
        None => {
            v.push(e);
            proof {
                let s2 = entry_views(v@);
                assert(s2 =~= s.push(e@));
                let m2 = m.insert(e.filename@, e@);
                assert forall|f: Seq<char>| has_name(s2, f) <==> m2.contains_key(f) by {
                    if has_name(s2, f) {
                        let i = choose|i: int| 0 <= i < s2.len() && #[trigger] s2[i].filename == f;
                        if i < s.len() {
                            assert(s[i].filename == f);
                            assert(has_name(s, f));
                        }
                    }
                    if m2.contains_key(f) && f != e.filename@ {
                        assert(has_name(s, f));
                        let i = choose|i: int| 0 <= i < s.len() && #[trigger] s[i].filename == f;
                        assert(s2[i].filename == f);
                    }
                    if f == e.filename@ {
                        assert(s2[s.len() as int].filename == f);
                    }
                }
                assert forall|i: int, k: int|
                    0 <= i < s2.len() && 0 <= k < s2.len() && i != k implies s2[i].filename
                    != s2[k].filename by {
                    if i == s.len() {
                        assert(s[k].filename != e.filename@ || !has_name(s, e.filename@));
                    }
                    if k == s.len() {
                        assert(s[i].filename != e.filename@ || !has_name(s, e.filename@));
                    }
                }
            }
        },
    }
}

/// Insert `e` into entries sorted by name, none of which has its name.
fn sorted_insert<'a>(v: &mut Vec<StatusEntry<'a>>, e: StatusEntry<'a>) -> (p: usize)
    requires
        sorted_by_name(entry_views(old(v)@)),
        !has_name(entry_views(old(v)@), e.filename@),
    ensures
        p <= old(v)@.len(),
        entry_views(final(v)@) == entry_views(old(v)@).take(p as int).push(e@) + entry_views(old(v)@).skip(
            p as int,
        ),
        sorted_by_name(entry_views(final(v)@)),
{
    let ghost s = entry_views(v@);
    let mut p: usize = 0;
    while p < v.len() && name_less(v[p].filename, e.filename)
        invariant
            s == entry_views(v@),
            p <= v@.len(),
            forall|j: int| 0 <= j < p ==> name_lt(s[j].filename, e.filename@),
        decreases v@.len() - p,
    {
        proof {
            assert(s[p as int] == v@[p as int]@);
        }
        p = p + 1;
    }
    proof {
        if p < s.len() {
            assert(s[p as int] == v@[p as int]@);
            assert(s[p as int].filename != e.filename@);
            lemma_name_lt_total(s[p as int].filename, e.filename@);
            assert(name_lt(e.filename@, s[p as int].filename));
        }
    }
    v.insert(p, e);
    proof {
        let s2 = entry_views(v@);
        assert(s2 =~= s.take(p as int).push(e@) + s.skip(p as int));
        assert forall|i: int, j: int| 0 <= i < j < s2.len() implies name_lt(s2[i].filename, s2[j].filename) by {
            if j < p {
            } else if j == p {
            } else if i < p {
                assert(s2[j] == s[j - 1]);
                if j - 1 > p {
                    lemma_name_lt_transitive(e.filename@, s[p as int].filename, s[j - 1].filename);
                }
                lemma_name_lt_transitive(s[i].filename, e.filename@, s[j - 1].filename);
            } else if i == p {
                assert(s2[j] == s[j - 1]);
                if j - 1 > p {
                    lemma_name_lt_transitive(e.filename@, s[p as int].filename, s[j - 1].filename);
                }
            } else {
                assert(s2[i] == s[i - 1]);
                assert(s2[j] == s[j - 1]);
            }
        }
    }
    p
}

impl<'a> StatusIter<'a> {
    /// All remaining entries, one per file and sorted by file name: a file listed both as
    /// removed from the index and as untracked is shown by its index entry; a file removed
    /// from the index and not untracked (gone from disk too) is shown as deleted in both.
    pub fn fix_removals(&mut self) -> (r: Vec<StatusEntry<'a>>)
        requires
            old(self).well_formed(),
        ensures
            final(self).well_formed(),
            final(self).remaining().len() == 0,
            sorted_by_name(entry_views(r@)),
            holds_map(entry_views(r@), fixed_entries(old(self).remaining())),
    {
        let ghost es = self.remaining();
        let mut indexed: Vec<StatusEntry<'a>> = Vec::new();
        let mut untracked: Vec<StatusEntry<'a>> = Vec::new();
        let ghost mut k: int = 0;
        proof {
            assert(es.take(0) =~= Seq::<StatusEntryView>::empty());
            assert(entry_views(indexed@) =~= Seq::<StatusEntryView>::empty());
            assert(entry_views(untracked@) =~= Seq::<StatusEntryView>::empty());
            assert(last_by_name(es.take(0), false) =~= Map::<Seq<char>, StatusEntryView>::empty());
            assert(last_by_name(es.take(0), true) =~= Map::<Seq<char>, StatusEntryView>::empty());
        }
        loop
            invariant
                self.well_formed(),
                0 <= k <= es.len(),
                self.remaining() == es.skip(k),
                holds_map(entry_views(indexed@), last_by_name(es.take(k), false)),
                holds_map(entry_views(untracked@), last_by_name(es.take(k), true)),
            ensures
                k == es.len(),
                self.remaining().len() == 0,
                holds_map(entry_views(indexed@), last_by_name(es, false)),
                holds_map(entry_views(untracked@), last_by_name(es, true)),
            decreases es.len() - k,
        {
            match self.next_entry() {
                None => {
                    proof {
                        assert(es.take(k) =~= es);
                    }
                    break;
                },
                Some(e) => {
                    proof {
                        assert(e@ == es[k]);
                        assert(es.take(k + 1).drop_last() =~= es.take(k));
                        assert(es.take(k + 1).last() == es[k]);
                    }
                    match e.state {
                        EntryState::Untracked | EntryState::Ignored => {
                            put_last(&mut untracked, e, Ghost(last_by_name(es.take(k), true)));
                        },
                        _ => {
                            put_last(&mut indexed, e, Ghost(last_by_name(es.take(k), false)));
                        },
                    }
                    proof {
                        assert(es.skip(k).drop_first() =~= es.skip(k + 1));
                        k = k + 1;
                    }
                },
            }
        }
        let ghost t = last_by_name(es, false);
        let ghost u = last_by_name(es, true);
        let ghost fx = fixed_entries(es);
        let mut out: Vec<StatusEntry<'a>> = Vec::new();
        proof {
            assert(entry_views(out@) =~= Seq::<StatusEntryView>::empty());
        }
        let mut i: usize = 0;
        while i < indexed.len()
            invariant
                i <= indexed@.len(),
                holds_map(entry_views(indexed@), t),
                holds_map(entry_views(untracked@), u),
                fx == fixed_entries(es),
                t == last_by_name(es, false),
                u == last_by_name(es, true),
                sorted_by_name(entry_views(out@)),
                forall|j: int| 0 <= j < out@.len() ==> fx[entry_views(out@)[j].filename] == entry_views(out@)[j],
                forall|f: Seq<char>| has_name(entry_views(out@), f) <==> has_name(entry_views(indexed@).take(i as int), f),
                unique_names(entry_views(out@)),
            decreases indexed@.len() - i,
        {
            let t_entry = indexed[i];
            let ghost tv = entry_views(indexed@);
            let ghost uv = entry_views(untracked@);
            let ghost f = t_entry.filename@;
            proof {
                assert(tv[i as int] == t_entry@);
                assert(t[tv[i as int].filename] == tv[i as int]);
                lemma_has_name(tv, i as int);
                assert(t.contains_key(f));
            }
            let in_untracked = find_name(&untracked, t_entry.filename);
            proof {
                match in_untracked {
                    Some(j) => {
                        assert(uv[j as int] == untracked@[j as int]@);
                        lemma_has_name(uv, j as int);
                        assert(u.contains_key(f));
                    },
                    None => {
                        assert(!u.contains_key(f));
                    },
                }
            }
            let shown = match in_untracked {
                Some(_) => t_entry,
                None => match t_entry.state {
                    EntryState::Changed { staged_status: EntryLocationStatus::Deleted, .. } => StatusEntry {
                        state: EntryState::Changed {
                            staged_status: EntryLocationStatus::Deleted,
                            tree_status: EntryLocationStatus::Deleted,
                        },
                        filename: t_entry.filename,
                    },
                    _ => t_entry,
                },
            };
            proof {
                assert(shown.filename@ == f);
                assert(fx[f] == shown@);
                assert(!has_name(entry_views(out@), f)) by {
                    if has_name(entry_views(out@), f) {
                        assert(has_name(tv.take(i as int), f));
                        let j = choose|j: int| 0 <= j < tv.take(i as int).len() && #[trigger] tv.take(i as int)[j].filename == f;
                        assert(tv[j] == tv.take(i as int)[j]);
                        assert(tv[j].filename == tv[i as int].filename);
                        assert(false);
                    }
                }
            }
            let ghost o = entry_views(out@);
            let p = sorted_insert(&mut out, shown);
            proof {
                let o2 = entry_views(out@);
                assert forall|j: int| 0 <= j < o2.len() implies fx[o2[j].filename] == o2[j] by {
                    if j < p {
                        assert(o2[j] == o[j]);
                    } else if j > p {
                        assert(o2[j] == o[j - 1]);
                    }
                }
                assert(tv.take(i + 1) =~= tv.take(i as int).push(tv[i as int]));
                assert forall|f: Seq<char>| has_name(o2, f) <==> has_name(tv.take(i + 1), f) by {
                    if has_name(o2, f) {
                        let j = choose|j: int| 0 <= j < o2.len() && #[trigger] o2[j].filename == f;
                        if j < p {
                            assert(o2[j] == o[j]);
                            assert(has_name(o, f));
                            let q = choose|q: int| 0 <= q < tv.take(i as int).len() && #[trigger] tv.take(i as int)[q].filename == f;
                            assert(tv.take(i + 1)[q].filename == f);
                        } else if j > p {
                            assert(o2[j] == o[j - 1]);
                            assert(has_name(o, f));
                            let q = choose|q: int| 0 <= q < tv.take(i as int).len() && #[trigger] tv.take(i as int)[q].filename == f;
                            assert(tv.take(i + 1)[q].filename == f);
                        } else {
                            assert(tv.take(i + 1)[i as int].filename == f);
                        }
                    }
                    if has_name(tv.take(i + 1), f) {
                        let q = choose|q: int| 0 <= q < tv.take(i + 1).len() && #[trigger] tv.take(i + 1)[q].filename == f;
                        if q < i {
                            assert(tv.take(i as int)[q].filename == f);
                            assert(has_name(o, f));
                            let j = choose|j: int| 0 <= j < o.len() && #[trigger] o[j].filename == f;
                            if j < p {
                                assert(o2[j] == o[j]);
                            } else {
                                assert(o2[j + 1] == o[j]);
                            }
                        } else {
                            assert(o2[p as int].filename == f);
                        }
                    }
                }
                assert forall|a: int, b: int| 0 <= a < o2.len() && 0 <= b < o2.len() && a != b implies o2[a].filename != o2[b].filename by {
                    if a < b {
                        lemma_name_lt_irreflexive(o2[a].filename);
                    } else {
                        lemma_name_lt_irreflexive(o2[b].filename);
                    }
                }
            }
            i = i + 1;
        }
        proof {
            assert(entry_views(indexed@).take(indexed@.len() as int) =~= entry_views(indexed@));
        }
        let mut i: usize = 0;
        while i < untracked.len()
            invariant
                i <= untracked@.len(),
                holds_map(entry_views(indexed@), t),
                holds_map(entry_views(untracked@), u),
                fx == fixed_entries(es),
                t == last_by_name(es, false),
                u == last_by_name(es, true),
                sorted_by_name(entry_views(out@)),
                forall|j: int| 0 <= j < out@.len() ==> fx[entry_views(out@)[j].filename] == entry_views(out@)[j],
                forall|f: Seq<char>| has_name(entry_views(out@), f) <==> (has_name(entry_views(indexed@), f) || has_name(entry_views(untracked@).take(i as int), f)),
                unique_names(entry_views(out@)),
            decreases untracked@.len() - i,
        {
            let u_entry = untracked[i];
            let ghost uv = entry_views(untracked@);
            proof {
                assert(uv[i as int] == u_entry@);
                assert(u[u_entry.filename@] == u_entry@);
                assert(has_name(uv, u_entry.filename@));
            }
            match find_name(&indexed, u_entry.filename) {
                Some(jt) => {
                    proof {
                        assert(entry_views(indexed@)[jt as int] == indexed@[jt as int]@);
                        lemma_has_name(entry_views(indexed@), jt as int);
                        assert(uv.take(i + 1) =~= uv.take(i as int).push(uv[i as int]));
                        assert forall|f: Seq<char>| has_name(entry_views(out@), f) <==> (has_name(entry_views(indexed@), f) || has_name(uv.take(i + 1), f)) by {
                            if has_name(uv.take(i + 1), f) {
                                let q = choose|q: int| 0 <= q < uv.take(i + 1).len() && #[trigger] uv.take(i + 1)[q].filename == f;
                                if q < i {
                                    assert(uv.take(i as int)[q].filename == f);
                                } else {
                                    assert(f == u_entry.filename@);
                                }
                            }
                            if has_name(uv.take(i as int), f) {
                                let q = choose|q: int| 0 <= q < uv.take(i as int).len() && #[trigger] uv.take(i as int)[q].filename == f;
                                assert(uv.take(i + 1)[q].filename == f);
                            }
                        }
                    }
                },
                None => {
                    proof {
                        assert(!t.contains_key(u_entry.filename@));
                        assert(fx[u_entry.filename@] == u_entry@);
                        assert(!has_name(entry_views(out@), u_entry.filename@)) by {
                            if has_name(entry_views(out@), u_entry.filename@) {
                                let q = choose|q: int| 0 <= q < uv.take(i as int).len() && #[trigger] uv.take(i as int)[q].filename == u_entry.filename@;
                                assert(uv[q].filename == uv[i as int].filename);
                            }
                        }
                    }
                    let ghost o = entry_views(out@);
                    let p = sorted_insert(&mut out, u_entry);
                    proof {
                        let o2 = entry_views(out@);
                        assert forall|j: int| 0 <= j < o2.len() implies fx[o2[j].filename] == o2[j] by {
                            if j < p {
                                assert(o2[j] == o[j]);
                            } else if j > p {
                                assert(o2[j] == o[j - 1]);
                            }
                        }
                        assert(uv.take(i + 1) =~= uv.take(i as int).push(uv[i as int]));
                        assert forall|f: Seq<char>| has_name(o2, f) <==> (has_name(entry_views(indexed@), f) || has_name(uv.take(i + 1), f)) by {
                            if has_name(o2, f) {
                                let j = choose|j: int| 0 <= j < o2.len() && #[trigger] o2[j].filename == f;
                                if j < p {
                                    assert(o2[j] == o[j]);
                                    assert(has_name(o, f));
                                    if has_name(uv.take(i as int), f) {
                                        let q = choose|q: int| 0 <= q < uv.take(i as int).len() && #[trigger] uv.take(i as int)[q].filename == f;
                                        assert(uv.take(i + 1)[q].filename == f);
                                    }
                                } else if j > p {
                                    assert(o2[j] == o[j - 1]);
                                    assert(has_name(o, f));
                                    if has_name(uv.take(i as int), f) {
                                        let q = choose|q: int| 0 <= q < uv.take(i as int).len() && #[trigger] uv.take(i as int)[q].filename == f;
                                        assert(uv.take(i + 1)[q].filename == f);
                                    }
                                } else {
                                    assert(uv.take(i + 1)[i as int].filename == f);
                                }
                            }
                            if has_name(uv.take(i + 1), f) || has_name(entry_views(indexed@), f) {
                                if f == u_entry.filename@ {
                                    assert(o2[p as int].filename == f);
                                } else {
                                    if has_name(uv.take(i + 1), f) {
                                        let q = choose|q: int| 0 <= q < uv.take(i + 1).len() && #[trigger] uv.take(i + 1)[q].filename == f;
                                        assert(q < i);
                                        assert(uv.take(i as int)[q].filename == f);
                                    }
                                    assert(has_name(o, f));
                                    let j = choose|j: int| 0 <= j < o.len() && #[trigger] o[j].filename == f;
                                    if j < p {
                                        assert(o2[j] == o[j]);
                                    } else {
                                        assert(o2[j + 1] == o[j]);
                                    }
                                }
                            }
                        }
                        assert forall|a: int, b: int| 0 <= a < o2.len() && 0 <= b < o2.len() && a != b implies o2[a].filename != o2[b].filename by {
                            if a < b {
                                lemma_name_lt_irreflexive(o2[a].filename);
                            } else {
                                lemma_name_lt_irreflexive(o2[b].filename);
                            }
                        }
                    }
                },
            }
            i = i + 1;
        }
        proof {
            let o = entry_views(out@);
            assert(entry_views(untracked@).take(untracked@.len() as int) =~= entry_views(untracked@));
            assert forall|f: Seq<char>| has_name(o, f) <==> fx.contains_key(f) by {
            }
        }
        out
    }
}


} // verus!
