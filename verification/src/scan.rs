//! The scanner: classifies every observed file against the persisted
//! store, derives the list of changed paths and the exact store mutations
//! that bring the store in line with reality, and applies those mutations
//! in one transaction.
//!
//! The walk itself (directory traversal, reading file contents) is I/O and
//! lives outside this crate; the scanner receives the observations — one
//! `Filehash` per eligible, readable file — and does everything that can
//! be reasoned about.

use vstd::prelude::*;
use crate::store;
use crate::store::StoreError;
use crate::strutil;

verus! {

/// One observed file: its canonical path and the hex-encoded SHA-512
/// digest of its current content.
#[derive(Debug)]
pub struct Filehash {
    pub file: String,
    pub hash: String,
}

/// How one observed file relates to the store's record of it.
#[derive(Debug, PartialEq, Eq, Structural)]
pub enum ScanClassification {
    /// The path is absent from the store: it becomes an insert and counts
    /// as changed.
    New,
    /// The path is recorded with a different hash: it becomes an update
    /// and counts as changed.
    Modified,
    /// The path is recorded with the same hash: no mutation, not changed.
    Unchanged,
}

/// The store has no record of this path.
pub open spec fn is_new(m: Map<Seq<char>, Seq<char>>, e: Filehash) -> bool {
    !m.contains_key(e.file@)
}

/// The store records this path under a different hash.
pub open spec fn is_modified(m: Map<Seq<char>, Seq<char>>, e: Filehash) -> bool {
    m.contains_key(e.file@) && m[e.file@] != e.hash@
}

/// The store records this path under the same hash.
pub open spec fn is_unchanged(m: Map<Seq<char>, Seq<char>>, e: Filehash) -> bool {
    m.contains_key(e.file@) && m[e.file@] == e.hash@
}

/// New or modified: the file belongs on the change list.
pub open spec fn is_changed(m: Map<Seq<char>, Seq<char>>, e: Filehash) -> bool {
    is_new(m, e) || is_modified(m, e)
}

/// How a file with stored hash `stored` (none when the path is unknown)
/// and freshly computed hash `computed` is classified. The classification
/// is a function of this pair alone; the order in which a walk visits
/// files cannot influence it.
pub open spec fn classification_of(stored: Option<Seq<char>>, computed: Seq<char>) -> ScanClassification {
    match stored {
        None => ScanClassification::New,
        Some(h) => if h == computed {
            ScanClassification::Unchanged
        } else {
            ScanClassification::Modified
        },
    }
}

/// For every (stored hash, computed hash) pair, exactly one of the three
/// classifications holds.
pub proof fn lemma_classification_exhaustive(m: Map<Seq<char>, Seq<char>>, e: Filehash)
    ensures
        is_new(m, e) || is_modified(m, e) || is_unchanged(m, e),
        is_new(m, e) ==> !is_modified(m, e) && !is_unchanged(m, e),
        is_modified(m, e) ==> !is_new(m, e) && !is_unchanged(m, e),
        is_unchanged(m, e) ==> !is_new(m, e) && !is_modified(m, e),
{
}

/// The spec-level view of an optional stored hash.
pub open spec fn stored_view(stored: Option<String>) -> Option<Seq<char>> {
    match stored {
        Some(h) => Some(h@),
        None => None,
    }
}

/// Classifies one observed file from its stored and computed hashes.
pub fn classify(stored: &Option<String>, computed: &String) -> (c: ScanClassification)
    ensures
        c == classification_of(stored_view(*stored), computed@),
{
    match stored {
        None => ScanClassification::New,
        Some(h) => {
            if *h == *computed {
                ScanClassification::Unchanged
            } else {
                ScanClassification::Modified
            }
        },
    }
}

/// No two observed files share a path; a filesystem walk visits each path
/// once.
pub open spec fn distinct_paths(es: Seq<Filehash>) -> bool {
    forall|i: int, j: int| 0 <= i < j < es.len() ==> es[i].file@ != es[j].file@
}

/// Whether some observed file has path `p`.
pub open spec fn has_path(es: Seq<Filehash>, p: Seq<char>) -> bool {
    exists|i: int| 0 <= i < es.len() && es[i].file@ == p
}

/// The observations as a map from path to hash (for duplicate paths the
/// later observation wins; a walk yields none).
pub open spec fn entries_map(es: Seq<Filehash>) -> Map<Seq<char>, Seq<char>>
    decreases es.len(),
{
    if es.len() == 0 {
        Map::empty()
    } else {
        entries_map(es.drop_last()).insert(es.last().file@, es.last().hash@)
    }
}

/// The observed files the store does not know, in traversal order.
pub open spec fn new_entries(m: Map<Seq<char>, Seq<char>>, es: Seq<Filehash>) -> Seq<Filehash>
    decreases es.len(),
{
    if es.len() == 0 {
        Seq::empty()
    } else {
        let rest = new_entries(m, es.drop_last());
        if is_new(m, es.last()) {
            rest.push(es.last())
        } else {
            rest
        }
    }
}

/// The observed files whose stored hash differs, in traversal order.
pub open spec fn modified_entries(m: Map<Seq<char>, Seq<char>>, es: Seq<Filehash>) -> Seq<Filehash>
    decreases es.len(),
{
    if es.len() == 0 {
        Seq::empty()
    } else {
        let rest = modified_entries(m, es.drop_last());
        if is_modified(m, es.last()) {
            rest.push(es.last())
        } else {
            rest
        }
    }
}

/// The paths of the new and modified files, in traversal order.
pub open spec fn changed_paths(m: Map<Seq<char>, Seq<char>>, es: Seq<Filehash>) -> Seq<String>
    decreases es.len(),
{
    if es.len() == 0 {
        Seq::empty()
    } else {
        let rest = changed_paths(m, es.drop_last());
        if is_changed(m, es.last()) {
            rest.push(es.last().file)
        } else {
            rest
        }
    }
}

/// What the store holds after a run: with purge, exactly the observed
/// files; without, the old contents overwritten by the observed files.
pub open spec fn scan_final_map(
    m: Map<Seq<char>, Seq<char>>,
    es: Seq<Filehash>,
    purge: bool,
) -> Map<Seq<char>, Seq<char>> {
    if purge {
        entries_map(es)
    } else {
        m.union_prefer_right(entries_map(es))
    }
}

/// The final component of a path: what follows the last slash.
pub open spec fn file_name_of(s: Seq<char>) -> Seq<char> {
    match strutil::last_index_of_char(s, '/') {
        Some(i) => s.skip(i + 1),
        None => s,
    }
}

/// Appending an observation extends the insert fold by one insertion.
proof fn lemma_after_inserts_push(m: Map<Seq<char>, Seq<char>>, a: Seq<Filehash>, e: Filehash)
    ensures
        store::after_inserts(m, a.push(e)) == store::after_inserts(m, a).insert(e.file@, e.hash@),
{
    assert(a.push(e).drop_last() =~= a);
}

/// Appending an observation extends the update fold by one conditional
/// update.
proof fn lemma_after_updates_push(m: Map<Seq<char>, Seq<char>>, a: Seq<Filehash>, e: Filehash)
    ensures
        store::after_updates(m, a.push(e)) == (if store::after_updates(m, a).contains_key(e.file@) {
            store::after_updates(m, a).insert(e.file@, e.hash@)
        } else {
            store::after_updates(m, a)
        }),
{
    assert(a.push(e).drop_last() =~= a);
}

/// Updates touching only other paths commute with inserting `p`.
proof fn lemma_after_updates_insert_commute(
    m: Map<Seq<char>, Seq<char>>,
    u: Seq<Filehash>,
    p: Seq<char>,
    h: Seq<char>,
)
    requires
        forall|i: int| 0 <= i < u.len() ==> (#[trigger] u[i].file@) != p,
    ensures
        store::after_updates(m.insert(p, h), u) == store::after_updates(m, u).insert(p, h),
    decreases u.len(),
{
    if u.len() > 0 {
        lemma_after_updates_insert_commute(m, u.drop_last(), p, h);
        let prev = store::after_updates(m, u.drop_last());
        let e = u.last();
        if prev.contains_key(e.file@) {
            assert(prev.insert(p, h).insert(e.file@, e.hash@) =~= prev.insert(e.file@, e.hash@).insert(p, h));
        } else {
            assert(prev.insert(p, h).insert(p, h) =~= prev.insert(p, h));
        }
    }
}

/// The observation map records exactly the observed paths.
pub proof fn lemma_entries_map_dom(es: Seq<Filehash>)
    ensures
        forall|p: Seq<char>| #[trigger] entries_map(es).contains_key(p) <==> has_path(es, p),
    decreases es.len(),
{
    if es.len() == 0 {
    } else {
        let es0 = es.drop_last();
        lemma_entries_map_dom(es0);
        assert forall|p: Seq<char>| #[trigger] entries_map(es).contains_key(p) implies has_path(
            es,
            p,
        ) by {
            if p == es.last().file@ {
                assert(es[es.len() - 1].file@ == p);
            } else {
                assert(entries_map(es0).contains_key(p));
                assert(has_path(es0, p));
                let i = choose|i: int| 0 <= i < es0.len() && es0[i].file@ == p;
                assert(es[i].file@ == p);
            }
        }
        assert forall|p: Seq<char>| has_path(es, p) implies entries_map(es).contains_key(p) by {
            let i = choose|i: int| 0 <= i < es.len() && es[i].file@ == p;
            if i < es.len() - 1 {
                assert(es0[i].file@ == p);
                assert(has_path(es0, p));
            }
        }
    }
}

/// Whether some entry of a path list is exactly `p`.
pub open spec fn has_str_path(ps: Seq<String>, p: Seq<char>) -> bool {
    exists|i: int| 0 <= i < ps.len() && (#[trigger] ps[i])@ == p
}

/// Every file selected as new, modified or changed is one of the
/// observations.
pub proof fn lemma_selected_have_path(m: Map<Seq<char>, Seq<char>>, es: Seq<Filehash>)
    ensures
        forall|p: Seq<char>| #[trigger] has_path(new_entries(m, es), p) ==> has_path(es, p),
        forall|p: Seq<char>| #[trigger] has_path(modified_entries(m, es), p) ==> has_path(es, p),
        forall|p: Seq<char>| #[trigger] has_str_path(changed_paths(m, es), p) ==> has_path(es, p),
    decreases es.len(),
{
    if es.len() > 0 {
        let es0 = es.drop_last();
        let e = es.last();
        lemma_selected_have_path(m, es0);
        assert(es[es.len() - 1] == e);
        assert forall|p: Seq<char>| has_path(es0, p) implies has_path(es, p) by {
            let i = choose|i: int| 0 <= i < es0.len() && es0[i].file@ == p;
            assert(es[i].file@ == p);
        }
        assert forall|p: Seq<char>| #[trigger] has_path(new_entries(m, es), p) implies has_path(
            es,
            p,
        ) by {
            let ni0 = new_entries(m, es0);
            let ni = new_entries(m, es);
            let i = choose|i: int| 0 <= i < ni.len() && ni[i].file@ == p;
            if is_new(m, e) && i == ni.len() - 1 {
                assert(ni[i] == e);
            } else {
                assert(ni0[i] == ni[i]);
                assert(has_path(ni0, p));
            }
        }
        assert forall|p: Seq<char>| #[trigger] has_path(
            modified_entries(m, es),
            p,
        ) implies has_path(es, p) by {
            let mu0 = modified_entries(m, es0);
            let mu = modified_entries(m, es);
            let i = choose|i: int| 0 <= i < mu.len() && mu[i].file@ == p;
            if is_modified(m, e) && i == mu.len() - 1 {
                assert(mu[i] == e);
            } else {
                assert(mu0[i] == mu[i]);
                assert(has_path(mu0, p));
            }
        }
        assert forall|p: Seq<char>| #[trigger] has_str_path(
            changed_paths(m, es),
            p,
        ) implies has_path(es, p) by {
            let cp0 = changed_paths(m, es0);
            let cp = changed_paths(m, es);
            let i = choose|i: int| 0 <= i < cp.len() && (#[trigger] cp[i])@ == p;
            if is_changed(m, e) && i == cp.len() - 1 {
                assert(cp[i] == e.file);
            } else {
                assert(cp0[i] == cp[i]);
                assert(has_str_path(cp0, p));
            }
        }
    }
}

/// The set of paths named by a deletion list.
pub open spec fn del_path_set(del: Seq<String>) -> Set<Seq<char>> {
    Set::new(|p: Seq<char>| has_str_path(del, p))
}

/// Folding deletions over a map removes exactly the named keys.
proof fn lemma_after_deletes_removes(x: Map<Seq<char>, Seq<char>>, del: Seq<String>)
    ensures
        store::after_deletes(x, del) == x.remove_keys(del_path_set(del)),
    decreases del.len(),
{
    if del.len() == 0 {
        assert(x.remove_keys(del_path_set(del)) =~= x);
    } else {
        let del0 = del.drop_last();
        lemma_after_deletes_removes(x, del0);
        assert forall|p: Seq<char>| #[trigger] del_path_set(del).contains(p) implies del_path_set(
            del0,
        ).contains(p) || p == del.last()@ by {
            let i = choose|i: int| 0 <= i < del.len() && del[i]@ == p;
            if i < del.len() - 1 {
                assert(del0[i]@ == p);
            }
        }
        assert forall|p: Seq<char>| del_path_set(del0).contains(p) implies del_path_set(
            del,
        ).contains(p) by {
            let i = choose|i: int| 0 <= i < del0.len() && del0[i]@ == p;
            assert(del[i]@ == p);
        }
        assert(del[del.len() - 1] == del.last());
        assert(del_path_set(del).contains(del.last()@));
        assert(x.remove_keys(del_path_set(del0)).remove(del.last()@) =~= x.remove_keys(
            del_path_set(del),
        ));
    }
}

/// The inserts and updates derived from classification rebuild exactly
/// "old contents overwritten by the observations".
proof fn lemma_classified_apply(m: Map<Seq<char>, Seq<char>>, es: Seq<Filehash>)
    requires
        distinct_paths(es),
    ensures
        store::after_updates(
            store::after_inserts(m, new_entries(m, es)),
            modified_entries(m, es),
        ) == m.union_prefer_right(entries_map(es)),
    decreases es.len(),
{
    if es.len() == 0 {
        assert(m.union_prefer_right(entries_map(es)) =~= m);
    } else {
        let es0 = es.drop_last();
        let e = es.last();
        assert(distinct_paths(es0));
        lemma_classified_apply(m, es0);
        lemma_selected_have_path(m, es0);
        let ni0 = new_entries(m, es0);
        let mu0 = modified_entries(m, es0);
        let e0map = entries_map(es0);
        assert forall|i: int| 0 <= i < mu0.len() implies (#[trigger] mu0[i].file@) != e.file@ by {
            assert(has_path(mu0, mu0[i].file@));
            assert(has_path(es0, mu0[i].file@));
            let j = choose|j: int| 0 <= j < es0.len() && es0[j].file@ == mu0[i].file@;
            assert(es[j].file@ == mu0[i].file@);
            assert(es[es.len() - 1] == e);
        }
        lemma_entries_map_dom(es0);
        assert(!has_path(es0, e.file@)) by {
            if has_path(es0, e.file@) {
                let j = choose|j: int| 0 <= j < es0.len() && es0[j].file@ == e.file@;
                assert(es[j].file@ == es[es.len() - 1].file@);
            }
        }
        if is_new(m, e) {
            lemma_after_inserts_push(m, ni0, e);
            lemma_after_updates_insert_commute(
                store::after_inserts(m, ni0),
                mu0,
                e.file@,
                e.hash@,
            );
            assert(m.union_prefer_right(e0map).insert(e.file@, e.hash@) =~= m.union_prefer_right(
                entries_map(es),
            ));
        } else if is_modified(m, e) {
            lemma_after_updates_push(store::after_inserts(m, ni0), mu0, e);
            let prev = store::after_updates(store::after_inserts(m, ni0), mu0);
            assert(prev.contains_key(e.file@));
            assert(m.union_prefer_right(e0map).insert(e.file@, e.hash@) =~= m.union_prefer_right(
                entries_map(es),
            ));
        } else {
            assert(is_unchanged(m, e));
            assert(m.union_prefer_right(e0map) =~= m.union_prefer_right(entries_map(es)));
        }
    }
}

/// With purge, deleting every stored path that was not observed leaves
/// exactly the observations.
proof fn lemma_purge_final(m: Map<Seq<char>, Seq<char>>, es: Seq<Filehash>, dels: Seq<String>)
    requires
        forall|j: int|
            0 <= j < dels.len() ==> m.contains_key((#[trigger] dels[j])@) && !has_path(
                es,
                dels[j]@,
            ),
        forall|k: Seq<char>|
            m.contains_key(k) && !has_path(es, k) ==> del_path_set(dels).contains(k),
    ensures
        store::after_deletes(m.union_prefer_right(entries_map(es)), dels) == entries_map(es),
{
    let x = m.union_prefer_right(entries_map(es));
    lemma_after_deletes_removes(x, dels);
    lemma_entries_map_dom(es);
    assert forall|k: Seq<char>| #[trigger] del_path_set(dels).contains(k) implies !has_path(
        es,
        k,
    ) by {
        let i = choose|i: int| 0 <= i < dels.len() && dels[i]@ == k;
    }
    assert(x.remove_keys(del_path_set(dels)) =~= entries_map(es));
}

/// Scanning an unchanged tree a second time is a no-op: nothing is
/// reported as changed, no insert or update is derived, with purge every
/// recorded path is still observed (so nothing is deleted either), and
/// the store contents stay exactly what the first run left.
pub proof fn lemma_scan_idempotent(m: Map<Seq<char>, Seq<char>>, es: Seq<Filehash>, purge: bool)
    requires
        distinct_paths(es),
    ensures
        changed_paths(scan_final_map(m, es, purge), es) == Seq::<String>::empty(),
        new_entries(scan_final_map(m, es, purge), es) == Seq::<Filehash>::empty(),
        modified_entries(scan_final_map(m, es, purge), es) == Seq::<Filehash>::empty(),
        purge ==> (forall|k: Seq<char>|
            #[trigger] scan_final_map(m, es, purge).contains_key(k) ==> has_path(es, k)),
        scan_final_map(scan_final_map(m, es, purge), es, purge) == scan_final_map(m, es, purge),
{
    let m1 = scan_final_map(m, es, purge);
    assert forall|i: int| 0 <= i < es.len() implies is_unchanged(m1, #[trigger] es[i]) by {
        lemma_entries_map_at(es, i);
    }
    lemma_changed_paths_all_unchanged(m1, es);
    lemma_entries_map_dom(es);
    assert forall|k: Seq<char>| #[trigger] entries_map(es).contains_key(k) implies m1.contains_key(
        k,
    ) && m1[k] == entries_map(es)[k] by {
        let i = choose|i: int| 0 <= i < es.len() && es[i].file@ == k;
        lemma_entries_map_at(es, i);
    }
    if purge {
        assert(entries_map(es) =~= m1);
    } else {
        assert(m1.union_prefer_right(entries_map(es)) =~= m1);
    }
}

/// Under distinct paths, the observation map records each observation's
/// own hash.
pub proof fn lemma_entries_map_at(es: Seq<Filehash>, i: int)
    requires
        distinct_paths(es),
        0 <= i < es.len(),
    ensures
        entries_map(es).contains_key(es[i].file@),
        entries_map(es)[es[i].file@] == es[i].hash@,
    decreases es.len(),
{
    let es0 = es.drop_last();
    assert(distinct_paths(es0));
    if i < es.len() - 1 {
        lemma_entries_map_at(es0, i);
        assert(es0[i] == es[i]);
        assert(es[i].file@ != es[es.len() - 1].file@);
    } else {
        assert(es[i] == es.last());
    }
}

/// When every observation is unchanged, nothing is reported as changed
/// and no insert or update is derived.
proof fn lemma_changed_paths_all_unchanged(m: Map<Seq<char>, Seq<char>>, es: Seq<Filehash>)
    requires
        forall|i: int| 0 <= i < es.len() ==> is_unchanged(m, #[trigger] es[i]),
    ensures
        changed_paths(m, es) == Seq::<String>::empty(),
        new_entries(m, es) == Seq::<Filehash>::empty(),
        modified_entries(m, es) == Seq::<Filehash>::empty(),
    decreases es.len(),
{
    if es.len() > 0 {
        let es0 = es.drop_last();
        assert(forall|i: int| 0 <= i < es0.len() ==> is_unchanged(m, #[trigger] es0[i]));
        lemma_changed_paths_all_unchanged(m, es0);
        assert(es[es.len() - 1] == es.last());
        assert(is_unchanged(m, es.last()));
    }
}

/// A path the store records but the walk did not observe is, with purge
/// on, gone from the store afterwards and never among the changed paths.
pub proof fn lemma_purge_correct(m: Map<Seq<char>, Seq<char>>, es: Seq<Filehash>, p: Seq<char>)
    requires
        m.contains_key(p),
        !has_path(es, p),
    ensures
        !scan_final_map(m, es, true).contains_key(p),
        forall|j: int| 0 <= j < changed_paths(m, es).len() ==> (#[trigger] changed_paths(m, es)[j])@ != p,
{
    lemma_entries_map_dom(es);
    lemma_selected_have_path(m, es);
    let cp = changed_paths(m, es);
    assert forall|j: int| 0 <= j < cp.len() implies (#[trigger] cp[j])@ != p by {
        assert(has_str_path(cp, cp[j]@));
    }
}

/// Whether some observation carries exactly this path.
fn contains_path(entries: &Vec<Filehash>, p: &String) -> (r: bool)
    ensures
        r == has_path(entries@, p@),
{
    let mut i: usize = 0;
    while i < entries.len()
        invariant
            i <= entries@.len(),
            forall|j: int| 0 <= j < i ==> (#[trigger] entries@[j].file@) != p@,
        decreases entries@.len() - i,
    {
        if entries[i].file == *p {
            assert(entries@[i as int].file@ == p@);
            return true;
        }
        i = i + 1;
    }
    false
}

/// Classifies every observation against the store, derives the change
/// list and the store mutations, and applies the mutations as one atomic
/// transaction.
///
/// On success the returned change list is exactly the new and modified
/// paths in traversal order, and the store holds `scan_final_map` of its
/// old contents: with purge, exactly the observations; without, the old
/// contents overwritten by the observations. On any failure the store is
/// untouched and no change list is produced.
///
/// With purge, every stored path that was not observed is removed — also
/// one whose file still exists but was not handed over, because its
/// extension left the allow-list or its content could not be read: the
/// store keeps only what the scan saw.
#[verifier::loop_isolation(false)]
pub fn build_update_list(
    db: &mut rusqlite::Connection,
    entries: Vec<Filehash>,
    purge: bool,
) -> (r: Result<Vec<String>, StoreError>)
    requires
        !store::db_in_tx(*old(db)),
        distinct_paths(entries@),
    ensures
        r matches Ok(changed) ==> changed@ == changed_paths(store::db_files(*old(db)), entries@),
        r is Ok ==> store::db_files(*final(db)) == scan_final_map(
            store::db_files(*old(db)),
            entries@,
            purge,
        ) && !store::db_in_tx(*final(db)),
        r is Err ==> store::db_files(*final(db)) == store::db_files(*old(db)),
{
    let ghost m0 = store::db_files(*db);
    let mut result: Vec<String> = Vec::new();
    let mut inserts: Vec<Filehash> = Vec::new();
    let mut updates: Vec<Filehash> = Vec::new();
    let mut deletes: Vec<String> = Vec::new();

    let mut idx: usize = 0;
    while idx < entries.len()
        invariant
            idx <= entries@.len(),
            *db == *old(db),
            inserts@ == new_entries(m0, entries@.take(idx as int)),
            updates@ == modified_entries(m0, entries@.take(idx as int)),
            result@ == changed_paths(m0, entries@.take(idx as int)),
        decreases entries@.len() - idx,
    {
        let e = &entries[idx];
        let stored = match store::file_sha512_from_db(db, e.file.as_str()) {
            Ok(v) => v,
            Err(err) => {
                return Err(err);
            },
        };
        proof {
            assert(entries@.take(idx + 1 as int).drop_last() =~= entries@.take(idx as int));
            assert(entries@.take(idx + 1 as int).last() == entries@[idx as int]);
        }
        match classify(&stored, &e.hash) {
            ScanClassification::New => {
                inserts.push(Filehash { file: e.file.clone(), hash: e.hash.clone() });
                result.push(e.file.clone());
            },
            ScanClassification::Modified => {
                updates.push(Filehash { file: e.file.clone(), hash: e.hash.clone() });
                result.push(e.file.clone());
            },
            ScanClassification::Unchanged => {},
        }
        idx = idx + 1;
    }
    proof {
        assert(entries@.take(entries@.len() as int) =~= entries@);
    }

    if purge {
        let all = match store::get_all_files(db) {
            Ok(v) => v,
            Err(err) => {
                return Err(err);
            },
        };
        let mut t: usize = 0;
        while t < all.len()
            invariant
                t <= all@.len(),
                *db == *old(db),
                store::lists_the_paths_of(all@, m0),
                forall|j: int|
                    0 <= j < deletes@.len() ==> m0.contains_key((#[trigger] deletes@[j])@)
                        && !has_path(entries@, deletes@[j]@),
                forall|u: int|
                    0 <= u < t ==> has_path(entries@, (#[trigger] all@[u])@) || del_path_set(
                        deletes@,
                    ).contains(all@[u]@),
            decreases all@.len() - t,
        {
            let ghost old_deletes = deletes@;
            if !contains_path(&entries, &all[t]) {
                deletes.push(all[t].clone());
                proof {
                    assert(deletes@[deletes@.len() - 1]@ == all@[t as int]@);
                    assert(del_path_set(deletes@).contains(all@[t as int]@));
                }
            }
            proof {
                assert forall|p: Seq<char>| del_path_set(old_deletes).contains(
                    p,
                ) implies del_path_set(deletes@).contains(p) by {
                    let i = choose|i: int| 0 <= i < old_deletes.len() && old_deletes[i]@ == p;
                    assert(deletes@[i]@ == p);
                }
            }
            t = t + 1;
        }
        proof {
            assert forall|k: Seq<char>|
                m0.contains_key(k) && !has_path(entries@, k) implies del_path_set(
                deletes@,
            ).contains(k) by {
                assert(m0.dom().contains(k));
                let u = choose|u: int| 0 <= u < all@.len() && (#[trigger] all@[u])@ == k;
                assert(has_path(entries@, all@[u]@) || del_path_set(deletes@).contains(all@[u]@));
            }
            lemma_classified_apply(m0, entries@);
            lemma_purge_final(m0, entries@, deletes@);
        }
    } else {
        proof {
            lemma_classified_apply(m0, entries@);
        }
    }

    match store::db_update(db, inserts, updates, deletes) {
        Ok(()) => Ok(result),
        Err(err) => Err(err),
    }
}

/// The extension of a path: the part of its final component after the
/// last dot, absent when the component has no dot or only a leading one.
/// The path is read as a `/`-separated string; for the regular-file paths
/// a walk hands the scanner this agrees with the platform's path parsing
/// (directories and paths with a trailing separator never reach it).
pub open spec fn extension_of(s: Seq<char>) -> Option<Seq<char>> {
    let name = file_name_of(s);
    match strutil::last_index_of_char(name, '.') {
        Some(i) => if i == 0 {
            None
        } else {
            Some(name.skip(i + 1))
        },
        None => None,
    }
}

/// Whether the path's extension is in the allow-list, compared after
/// Unicode lowercasing of both sides.
pub open spec fn matches_extension(f: Seq<char>, exts: Seq<String>) -> bool {
    match extension_of(f) {
        Some(x) => exists|i: int|
            0 <= i < exts.len() && strutil::lower_of(x) == strutil::lower_of(
                (#[trigger] exts[i])@,
            ),
        None => false,
    }
}

/// Whether the file at path `f` carries one of the allowed extensions,
/// compared case-insensitively. A file without an extension never
/// matches.
pub fn match_extension_list(f: &str, exts: &Vec<String>) -> (r: bool)
    ensures
        r == matches_extension(f@, exts@),
{
    let flen = f.unicode_len();
    let name: &str = match strutil::last_index_of(f, '/') {
        Some(i) => {
            proof {
                strutil::lemma_last_index_found(f@, '/', i as int);
                assert(f@.subrange(i + 1 as int, flen as int) =~= f@.skip(i + 1 as int));
            }
            f.substring_char(i + 1, flen)
        },
        None => f,
    };
    assert(name@ == file_name_of(f@));
    let nlen = name.unicode_len();
    let ext: &str = match strutil::last_index_of(name, '.') {
        Some(i) => {
            if i == 0 {
                return false;
            }
            proof {
                strutil::lemma_last_index_found(name@, '.', i as int);
                assert(name@.subrange(i + 1 as int, nlen as int) =~= name@.skip(i + 1 as int));
            }
            name.substring_char(i + 1, nlen)
        },
        None => {
            return false;
        },
    };
    assert(extension_of(f@) == Some(ext@));
    let ext_lower = strutil::to_lowercase(ext);
    let mut i: usize = 0;
    while i < exts.len()
        invariant
            i <= exts@.len(),
            extension_of(f@) == Some(ext@),
            ext_lower@ == strutil::lower_of(ext@),
            forall|j: int|
                0 <= j < i ==> strutil::lower_of(ext@) != strutil::lower_of(
                    (#[trigger] exts@[j])@,
                ),
        decreases exts@.len() - i,
    {
        let candidate = strutil::to_lowercase(exts[i].as_str());
        if ext_lower == candidate {
            assert(strutil::lower_of(ext@) == strutil::lower_of(exts@[i as int]@));
            return true;
        }
        i = i + 1;
    }
    false
}

} // verus!
