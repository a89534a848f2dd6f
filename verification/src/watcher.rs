//! Reconciling the staging folders with the stored items, when the user adds
//! or removes files by hand.

use vstd::prelude::*;

use crate::commands::{ext_of, ext_spec};
use crate::db::StagedItem;
use crate::settings::Pod;
use crate::text::{str_eq, to_owned_string};

verus! {

/// What the watcher loop does on a tick (`spawn`).
#[derive(Debug, Clone, Copy, PartialEq, Eq, Structural)]
pub enum WatchStep {
    /// Nothing changed.
    Idle,
    /// Something changed, but the app staged moments ago: look again later.
    Defer,
    /// Reconcile every folder now.
    Reconcile,
}

/// The step of a tick that took the dirty mark `dirty`, with the staging guard
/// `staged_recently`.
pub open spec fn watch_step_spec(dirty: bool, staged_recently: bool) -> WatchStep {
    if !dirty {
        WatchStep::Idle
    } else if staged_recently {
        WatchStep::Defer
    } else {
        WatchStep::Reconcile
    }
}

pub fn watcher_step(dirty: bool, staged_recently: bool) -> (r: WatchStep)
    ensures
        r == watch_step_spec(dirty, staged_recently),
{
    if !dirty {
        WatchStep::Idle
    } else if staged_recently {
        WatchStep::Defer
    } else {
        WatchStep::Reconcile
    }
}

/// Whether the tick puts the dirty mark back: a deferred tick does, and a
/// reconciliation that failed does, so that a later tick retries.
pub open spec fn mark_after_spec(step: WatchStep, reconciled: bool) -> bool {
    match step {
        WatchStep::Idle => false,
        WatchStep::Defer => true,
        WatchStep::Reconcile => !reconciled,
    }
}

pub fn mark_after_tick(step: WatchStep, reconciled: bool) -> (r: bool)
    ensures
        r == mark_after_spec(step, reconciled),
{
    match step {
        WatchStep::Idle => false,
        WatchStep::Defer => true,
        WatchStep::Reconcile => !reconciled,
    }
}

/// The dirty mark is never lost: a tick that took it either reconciled every
/// folder successfully or puts the mark back; a tick within the staging guard
/// defers and puts it back; and reconciliation only runs on a tick that took it.
pub proof fn law_dirty_mark_never_lost(dirty: bool, staged_recently: bool, reconciled: bool)
    ensures
        dirty ==> (mark_after_spec(watch_step_spec(dirty, staged_recently), reconciled) || (
        watch_step_spec(dirty, staged_recently) == WatchStep::Reconcile && reconciled)),
        dirty && staged_recently ==> watch_step_spec(dirty, staged_recently) == WatchStep::Defer
            && mark_after_spec(WatchStep::Defer, reconciled),
        watch_step_spec(dirty, staged_recently) == WatchStep::Reconcile ==> dirty,
{
}

/// The folders to watch (`restart_all`): those of enabled pods that have one.
pub open spec fn watched(pods: Seq<Pod>) -> Seq<(u64, Seq<char>)>
    decreases pods.len(),
{
    if pods.len() == 0 {
        Seq::empty()
    } else {
        let rest = watched(pods.drop_last());
        let p = pods.last();
        if p.enabled && p.staging_folder@.len() > 0 {
            rest.push((p.id, p.staging_folder@))
        } else {
            rest
        }
    }
}

pub fn watched_folders(pods: &Vec<Pod>) -> (r: Vec<(u64, String)>)
    ensures
        r@.map_values(|e: (u64, String)| (e.0, e.1@)) == watched(pods@),
{
    let mut out: Vec<(u64, String)> = Vec::new();
    let mut i: usize = 0;
    while i < pods.len()
        invariant
            i <= pods.len(),
            out@.map_values(|e: (u64, String)| (e.0, e.1@)) == watched(pods@.take(i as int)),
        decreases pods.len() - i,
    {
        assert(pods@.take(i + 1).drop_last() =~= pods@.take(i as int));
        let p = &pods[i];
        if p.enabled && p.staging_folder.as_str().unicode_len() > 0 {
            let ghost prev = out@;
            out.push((p.id, p.staging_folder.clone()));
            assert(out@.map_values(|e: (u64, String)| (e.0, e.1@)) =~= prev.map_values(
                |e: (u64, String)| (e.0, e.1@),
            ).push((p.id, p.staging_folder@)));
        }
        i = i + 1;
    }
    assert(pods@.take(pods.len() as int) =~= pods@);
    out
}

/// An entry of a staging folder on disk.
pub struct DiskEntry {
    pub path: String,
    pub name: String,
    pub is_dir: bool,
    pub size: i64,
}

/// The kind recorded for a file found on disk.
pub open spec fn entry_kind(is_dir: bool, ext: Option<Seq<char>>) -> Seq<char> {
    if is_dir {
        "folder"@
    } else if ext == Some("lnk"@) {
        "shortcut"@
    } else {
        "file"@
    }
}

/// Walking the entries in order: a path still expected is ticked off, any other
/// entry is new.  Gives the paths never seen and the new entries.
pub open spec fn reconcile(known: Set<Seq<char>>, es: Seq<DiskEntry>) -> (Set<Seq<char>>, Seq<
    DiskEntry,
>)
    decreases es.len(),
{
    if es.len() == 0 {
        (known, Seq::empty())
    } else {
        let (rem, ins) = reconcile(known, es.drop_last());
        let e = es.last();
        if rem.contains(e.path@) {
            (rem.remove(e.path@), ins)
        } else {
            (rem, ins.push(e))
        }
    }
}

/// The record stored for an entry found on disk.
pub open spec fn found_item(it: StagedItem, e: DiskEntry, pod_id: u64, now: i64) -> bool {
    &&& it.id == 0
    &&& it.pod_id == pod_id as i64
    &&& it.kind@ == entry_kind(e.is_dir, ext_spec(e.name@))
    &&& it.staging_path@ == e.path@
    &&& it.original_path is None
    &&& it.name@ == e.name@
    &&& match ext_spec(e.name@) {
        Some(x) => it.ext matches Some(y) && y@ == x,
        None => it.ext is None,
    }
    &&& it.size == e.size
    &&& it.created_at == now
}

pub open spec fn texts(v: Seq<String>) -> Seq<Seq<char>> {
    v.map_values(|s: String| s@)
}

/// What reconciling one pod's folder does (`reconcile_all`): the records of the
/// entries the store does not know, and the stored paths no longer on disk.
pub struct ReconcilePlan {
    pub inserts: Vec<StagedItem>,
    pub deletes: Vec<String>,
}

fn found_record(pod_id: u64, e: &DiskEntry, now: i64) -> (r: StagedItem)
    ensures
        found_item(r, *e, pod_id, now),
{
    let ext = ext_of(e.name.as_str());
    let is_lnk = match &ext {
        Some(x) => str_eq(x.as_str(), "lnk"),
        None => false,
    };
    let kind = if e.is_dir {
        to_owned_string("folder")
    } else if is_lnk {
        to_owned_string("shortcut")
    } else {
        to_owned_string("file")
    };
    StagedItem {
        id: 0,
        pod_id: pod_id as i64,
        kind,
        staging_path: e.path.clone(),
        original_path: None,
        name: e.name.clone(),
        ext,
        size: e.size,
        created_at: now,
    }
}

fn index_of_text(v: &Vec<String>, s: &String) -> (r: Option<usize>)
    ensures
        match r {
            Some(i) => i < v@.len() && v@[i as int]@ == s@,
            None => !texts(v@).contains(s@),
        },
{
    let mut i: usize = 0;
    while i < v.len()
        invariant
            i <= v.len(),
            forall|j: int| 0 <= j < i ==> v@[j]@ != s@,
        decreases v.len() - i,
    {
        if v[i] == *s {
            return Some(i);
        }
        i = i + 1;
    }
    proof {
        if texts(v@).contains(s@) {
            let j = choose|j: int| 0 <= j < texts(v@).len() && texts(v@)[j] == s@;
            assert(v@[j]@ == s@);
        }
    }
    None
}

proof fn lemma_push_to_set<A>(s: Seq<A>, x: A)
    ensures
        s.push(x).to_set() == s.to_set().insert(x),
{
    let t = s.push(x);
    assert forall|y: A| #[trigger] t.to_set().contains(y) == s.to_set().insert(x).contains(y) by {
        if t.contains(y) {
            let k = choose|k: int| 0 <= k < t.len() && t[k] == y;
            if k < s.len() {
                assert(s[k] == y);
            }
        }
        if s.contains(y) {
            let k = choose|k: int| 0 <= k < s.len() && s[k] == y;
            assert(t[k] == y);
        }
        if y == x {
            assert(t[s.len() as int] == y);
        }
    }
    assert(t.to_set() =~= s.to_set().insert(x));
}

proof fn lemma_remove_text(v: Seq<String>, i: int)
    requires
        0 <= i < v.len(),
        texts(v).no_duplicates(),
    ensures
        texts(v.remove(i)).no_duplicates(),
        texts(v.remove(i)).to_set() == texts(v).to_set().remove(v[i]@),
{
    let t = texts(v);
    let u = texts(v.remove(i));
    assert(u =~= t.remove(i));
    assert forall|a: int, b: int| 0 <= a < b < u.len() implies u[a] != u[b] by {
        let a2 = if a < i {
            a
        } else {
            a + 1
        };
        let b2 = if b < i {
            b
        } else {
            b + 1
        };
        assert(u[a] == t[a2] && u[b] == t[b2]);
    }
    assert forall|x: Seq<char>| #[trigger] u.to_set().contains(x) == t.to_set().remove(
        v[i]@,
    ).contains(x) by {
        if u.contains(x) {
            let k = choose|k: int| 0 <= k < u.len() && u[k] == x;
            let k2 = if k < i {
                k
            } else {
                k + 1
            };
            assert(t[k2] == x);
            assert(k2 != i);
            assert(t[i] == v[i]@);
        }
        if t.contains(x) && x != v[i]@ {
            let k = choose|k: int| 0 <= k < t.len() && t[k] == x;
            assert(k != i);
            let k2 = if k < i {
                k
            } else {
                k - 1
            };
            assert(u[k2] == x);
        }
    }
    assert(u.to_set() =~= t.to_set().remove(v[i]@));
}

/// Plans the reconciliation of one pod's folder: `known` are the stored paths,
/// `entries` what the folder holds, `now` the time stamp of new records.
pub fn plan_reconcile(pod_id: u64, known: &Vec<String>, entries: &Vec<DiskEntry>, now: i64) -> (r:
    ReconcilePlan)
    ensures
        ({
            let (rem, ins) = reconcile(texts(known@).to_set(), entries@);
            &&& texts(r.deletes@).to_set() == rem
            &&& texts(r.deletes@).no_duplicates()
            &&& r.inserts@.len() == ins.len()
            &&& forall|i: int|
                0 <= i < ins.len() ==> found_item(#[trigger] r.inserts@[i], ins[i], pod_id, now)
        }),
{
    // The stored paths, each once.
    let mut rem: Vec<String> = Vec::new();
    let mut i: usize = 0;
    while i < known.len()
        invariant
            i <= known.len(),
            texts(rem@).no_duplicates(),
            texts(rem@).to_set() == texts(known@.take(i as int)).to_set(),
        decreases known.len() - i,
    {
        let ghost prev = rem@;
        assert(texts(known@.take(i + 1)) =~= texts(known@.take(i as int)).push(known@[i as int]@));
        proof {
            lemma_push_to_set(texts(known@.take(i as int)), known@[i as int]@);
        }
        match index_of_text(&rem, &known[i]) {
            Some(k) => {
                assert(texts(prev)[k as int] == known@[i as int]@);
                assert(texts(prev).to_set().contains(known@[i as int]@));
                assert(texts(prev).to_set().insert(known@[i as int]@) =~= texts(prev).to_set());
            },
            None => {
                rem.push(known[i].clone());
                assert(texts(rem@) =~= texts(prev).push(known@[i as int]@));
                proof {
                    lemma_push_to_set(texts(prev), known@[i as int]@);
                    assert forall|a: int, b: int|
                        0 <= a < b < texts(rem@).len() implies texts(rem@)[a] != texts(rem@)[b] by {
                        if b == texts(prev).len() {
                            assert(texts(prev)[a] == texts(rem@)[a]);
                            assert(texts(prev).contains(texts(prev)[a]));
                        } else {
                            assert(texts(prev)[a] == texts(rem@)[a]);
                            assert(texts(prev)[b] == texts(rem@)[b]);
                        }
                    }
                }
            },
        }
        assert(texts(rem@).to_set() =~= texts(known@.take(i + 1)).to_set());
        i = i + 1;
    }
    assert(known@.take(known.len() as int) =~= known@);
    let ghost known_set = texts(known@).to_set();
    let mut inserts: Vec<StagedItem> = Vec::new();
    let ghost mut ins: Seq<DiskEntry> = Seq::empty();
    let mut j: usize = 0;
    while j < entries.len()
        invariant
            j <= entries.len(),
            known_set == texts(known@).to_set(),
            texts(rem@).no_duplicates(),
            (texts(rem@).to_set(), ins) == reconcile(known_set, entries@.take(j as int)),
            inserts@.len() == ins.len(),
            forall|k: int| 0 <= k < ins.len() ==> found_item(#[trigger] inserts@[k], ins[k], pod_id, now),
        decreases entries.len() - j,
    {
        assert(entries@.take(j + 1).drop_last() =~= entries@.take(j as int));
        let e = &entries[j];
        assert(entries@.take(j + 1).last() == *e);
        let ghost prev = rem@;
        match index_of_text(&rem, &e.path) {
            Some(k) => {
                proof {
                    lemma_remove_text(rem@, k as int);
                    assert(texts(prev)[k as int] == e.path@);
                    assert(texts(prev).to_set().contains(e.path@));
                }
                rem.remove(k);
                assert(rem@ == prev.remove(k as int));
            },
            None => {
                proof {
                    assert(!texts(rem@).to_set().contains(e.path@));
                }
                inserts.push(found_record(pod_id, e, now));
                proof {
                    ins = ins.push(*e);
                }
            },
        }
        j = j + 1;
    }
    assert(entries@.take(entries.len() as int) =~= entries@);
    ReconcilePlan { inserts, deletes: rem }
}

/// After a reconciliation the store holds exactly the paths on disk: the known
/// paths that were seen, plus the new entries.
pub proof fn law_reconcile_matches_disk(known: Set<Seq<char>>, es: Seq<DiskEntry>)
    ensures
        ({
            let (rem, ins) = reconcile(known, es);
            &&& rem.subset_of(known)
            &&& known.difference(rem).union(ins.map_values(|e: DiskEntry| e.path@).to_set())
                == es.map_values(|e: DiskEntry| e.path@).to_set()
        }),
    decreases es.len(),
{
    if es.len() == 0 {
        let (rem, ins) = reconcile(known, es);
        assert(known.difference(rem) =~= Set::empty());
        assert(ins.map_values(|e: DiskEntry| e.path@).to_set() =~= Set::empty());
        assert(es.map_values(|e: DiskEntry| e.path@).to_set() =~= Set::empty());
        assert(known.difference(rem).union(ins.map_values(|e: DiskEntry| e.path@).to_set())
            =~= Set::empty());
    } else {
        law_reconcile_matches_disk(known, es.drop_last());
        let (rem0, ins0) = reconcile(known, es.drop_last());
        let (rem, ins) = reconcile(known, es);
        let e = es.last();
        let p0 = ins0.map_values(|x: DiskEntry| x.path@);
        let d0 = es.drop_last().map_values(|x: DiskEntry| x.path@);
        let d = es.map_values(|x: DiskEntry| x.path@);
        assert(d =~= d0.push(e.path@));
        assert(d.to_set() =~= d0.to_set().insert(e.path@)) by {
            assert forall|x: Seq<char>| #[trigger] d.to_set().contains(x) == d0.to_set().insert(
                e.path@,
            ).contains(x) by {
                if d.contains(x) {
                    let k = choose|k: int| 0 <= k < d.len() && d[k] == x;
                    if k < d0.len() {
                        assert(d0[k] == x);
                    }
                }
                if d0.contains(x) {
                    let k = choose|k: int| 0 <= k < d0.len() && d0[k] == x;
                    assert(d[k] == x);
                }
                if x == e.path@ {
                    assert(d[d.len() - 1] == x);
                }
            }
        }
        if rem0.contains(e.path@) {
            assert(ins == ins0);
            assert(known.difference(rem).union(p0.to_set()) =~= known.difference(rem0).union(
                p0.to_set(),
            ).insert(e.path@));
        } else {
            let p = ins.map_values(|x: DiskEntry| x.path@);
            assert(p =~= p0.push(e.path@));
            assert(p.to_set() =~= p0.to_set().insert(e.path@)) by {
                assert forall|x: Seq<char>| #[trigger] p.to_set().contains(x) == p0.to_set().insert(
                    e.path@,
                ).contains(x) by {
                    if p.contains(x) {
                        let k = choose|k: int| 0 <= k < p.len() && p[k] == x;
                        if k < p0.len() {
                            assert(p0[k] == x);
                        }
                    }
                    if p0.contains(x) {
                        let k = choose|k: int| 0 <= k < p0.len() && p0[k] == x;
                        assert(p[k] == x);
                    }
                    if x == e.path@ {
                        assert(p[p.len() - 1] == x);
                    }
                }
            }
            assert(known.difference(rem).union(p.to_set()) =~= known.difference(rem0).union(
                p0.to_set(),
            ).insert(e.path@));
        }
    }
}

} // verus!
