//! Per-package fetch tracking.
//!
//! A forward scan over the decoded record stream maintains one
//! [`FetchStatus`] per package, keyed by package identity and kept in first-
//! insertion order. A `started` fetching-progress event inserts or resets the
//! package's status; an `in_progress` event whose `downloaded` amount equals
//! the tracked size marks the package finished at that record's time, and the
//! first such event wins: a finish time is never overwritten. An
//! `in_progress` event for a package that was never started yields one
//! diagnostic and changes nothing. At end of stream every finished package
//! yields one duration fact, in tracking order.

use vstd::prelude::*;

use crate::pnpm_log_line::{time_in_range, PackageId, PnpmFetchingProgress, PnpmFetchingProgressV,
    PnpmLogEvent, PnpmLogEventV, PnpmLogLine, PnpmLogLineV};

verus! {

/// Tracking state of one package's fetch: when it started, the declared
/// total size in bytes, and when (if ever) a progress event matched that
/// size.
#[derive(Debug)]
pub struct FetchStatus {
    pub started_at: i64,
    pub size: i32,
    pub finished_at: Option<i64>,
}

/// The mathematical value of a [`FetchStatus`].
pub struct FetchStatusV {
    pub started_at: int,
    pub size: int,
    pub finished_at: Option<int>,
}

impl View for FetchStatus {
    type V = FetchStatusV;

    open spec fn view(&self) -> FetchStatusV {
        FetchStatusV {
            started_at: self.started_at as int,
            size: self.size as int,
            finished_at: match self.finished_at {
                Some(f) => Some(f as int),
                None => None,
            },
        }
    }
}

/// The record sequence a record vector denotes.
pub open spec fn recs_view(rs: Seq<PnpmLogLine>) -> Seq<PnpmLogLineV> {
    rs.map_values(|r: PnpmLogLine| r@)
}

/// The tracking-state sequence an entry vector denotes.
pub open spec fn entries_view(es: Seq<(PackageId, FetchStatus)>) -> Seq<(Seq<char>, FetchStatusV)> {
    es.map_values(|e: (PackageId, FetchStatus)| (e.0@, e.1@))
}

/// The identity sequence a package vector denotes.
pub open spec fn pkgs_view(ps: Seq<PackageId>) -> Seq<Seq<char>> {
    ps.map_values(|p: PackageId| p@)
}

/// Index of the entry tracking `key`, if any.
pub open spec fn find_entry(es: Seq<(Seq<char>, FetchStatusV)>, key: Seq<char>) -> Option<int>
    decreases es.len(),
{
    if es.len() == 0 {
        None
    } else if es[0].0 == key {
        Some(0int)
    } else {
        match find_entry(es.drop_first(), key) {
            Some(i) => Some(i + 1),
            None => None,
        }
    }
}

/// Inserts or resets the status tracked for `key`.
pub open spec fn upsert(
    es: Seq<(Seq<char>, FetchStatusV)>,
    key: Seq<char>,
    st: FetchStatusV,
) -> Seq<(Seq<char>, FetchStatusV)> {
    match find_entry(es, key) {
        Some(i) => es.update(i, (key, st)),
        None => es.push((key, st)),
    }
}

/// Marks `key` finished at `t` when `downloaded` equals its tracked size and
/// no earlier progress event already finished it; otherwise changes nothing.
pub open spec fn mark_finished(
    es: Seq<(Seq<char>, FetchStatusV)>,
    key: Seq<char>,
    downloaded: int,
    t: int,
) -> Seq<(Seq<char>, FetchStatusV)> {
    match find_entry(es, key) {
        Some(i) => {
            let st = es[i].1;
            if downloaded == st.size && st.finished_at is None {
                es.update(
                    i,
                    (
                        key,
                        FetchStatusV {
                            started_at: st.started_at,
                            size: st.size,
                            finished_at: Some(t),
                        },
                    ),
                )
            } else {
                es
            }
        },
        None => es,
    }
}

/// How one record advances the tracking state.
pub open spec fn scan_step(
    es: Seq<(Seq<char>, FetchStatusV)>,
    rec: PnpmLogLineV,
) -> Seq<(Seq<char>, FetchStatusV)> {
    match rec.event {
        PnpmLogEventV::FetchingProgress(p) => match p {
            PnpmFetchingProgressV::Started { package_id, size, .. } => upsert(
                es,
                package_id,
                FetchStatusV { started_at: rec.time, size, finished_at: None },
            ),
            PnpmFetchingProgressV::InProgress { package_id, downloaded } => mark_finished(
                es,
                package_id,
                downloaded,
                rec.time,
            ),
        },
        _ => es,
    }
}

/// The tracking state after scanning a whole record sequence.
pub open spec fn scan_entries(recs: Seq<PnpmLogLineV>) -> Seq<(Seq<char>, FetchStatusV)>
    decreases recs.len(),
{
    if recs.len() == 0 {
        Seq::empty()
    } else {
        scan_step(scan_entries(recs.drop_last()), recs.last())
    }
}

/// The diagnostics one record adds: the package identity of an `in_progress`
/// event that no tracked package matches.
pub open spec fn diag_step(es: Seq<(Seq<char>, FetchStatusV)>, rec: PnpmLogLineV) -> Seq<
    Seq<char>,
> {
    match rec.event {
        PnpmLogEventV::FetchingProgress(PnpmFetchingProgressV::InProgress {
            package_id,
            ..
        }) => if find_entry(es, package_id) is None {
            seq![package_id]
        } else {
            Seq::empty()
        },
        _ => Seq::empty(),
    }
}

/// All diagnostics a scan emits, in input order.
pub open spec fn scan_diags(recs: Seq<PnpmLogLineV>) -> Seq<Seq<char>>
    decreases recs.len(),
{
    if recs.len() == 0 {
        Seq::empty()
    } else {
        scan_diags(recs.drop_last()) + diag_step(scan_entries(recs.drop_last()), recs.last())
    }
}

/// The duration facts the final tracking state yields: one
/// `(package, finish time - start time)` pair per finished package, in
/// tracking order. Unfinished packages yield nothing.
pub open spec fn fetch_facts_of(es: Seq<(Seq<char>, FetchStatusV)>) -> Seq<(Seq<char>, int)>
    decreases es.len(),
{
    if es.len() == 0 {
        Seq::empty()
    } else {
        let rest = fetch_facts_of(es.drop_last());
        match es.last().1.finished_at {
            Some(f) => rest.push((es.last().0, f - es.last().1.started_at)),
            None => rest,
        }
    }
}

/// The fact sequence a fact vector denotes.
pub open spec fn facts_view(fs: Seq<(PackageId, i64)>) -> Seq<(Seq<char>, int)> {
    fs.map_values(|f: (PackageId, i64)| (f.0@, f.1 as int))
}

/// Every tracked timestamp is a representable instant.
pub open spec fn entry_times_ok(es: Seq<(Seq<char>, FetchStatusV)>) -> bool {
    forall|j: int|
        0 <= j < es.len() ==> time_in_range(#[trigger] es[j].1.started_at) && match es[j].1.finished_at {
            Some(f) => time_in_range(f),
            None => true,
        }
}

/// The status tracked for `key`, if any.
pub open spec fn lookup_status(es: Seq<(Seq<char>, FetchStatusV)>, key: Seq<char>) -> Option<
    FetchStatusV,
> {
    match find_entry(es, key) {
        Some(i) => Some(es[i].1),
        None => None,
    }
}

/// A found entry lies inside the sequence, carries the searched key, and is
/// the first entry with that key; when nothing is found, no entry has it.
pub proof fn lemma_find_entry_range(es: Seq<(Seq<char>, FetchStatusV)>, key: Seq<char>)
    ensures
        match find_entry(es, key) {
            Some(i) => 0 <= i < es.len() && es[i].0 == key && forall|j: int|
                0 <= j < i ==> (#[trigger] es[j]).0 != key,
            None => forall|j: int| 0 <= j < es.len() ==> (#[trigger] es[j]).0 != key,
        },
    decreases es.len(),
{
    if es.len() > 0 && es[0].0 != key {
        lemma_find_entry_range(es.drop_first(), key);
        match find_entry(es.drop_first(), key) {
            Some(i) => {
                assert forall|j: int| 0 <= j < i + 1 implies (#[trigger] es[j]).0 != key by {
                    if j > 0 {
                        assert(es.drop_first()[j - 1].0 != key);
                    }
                }
            },
            None => {
                assert forall|j: int| 0 <= j < es.len() implies (#[trigger] es[j]).0 != key by {
                    if j > 0 {
                        assert(es.drop_first()[j - 1].0 != key);
                    }
                }
            },
        }
    }
}

proof fn lemma_step_times_ok(es: Seq<(Seq<char>, FetchStatusV)>, rec: PnpmLogLineV)
    requires
        entry_times_ok(es),
        time_in_range(rec.time),
    ensures
        entry_times_ok(scan_step(es, rec)),
{
    let es2 = scan_step(es, rec);
    match rec.event {
        PnpmLogEventV::FetchingProgress(p) => match p {
            PnpmFetchingProgressV::Started { package_id, .. } => {
                lemma_find_entry_range(es, package_id);
            },
            PnpmFetchingProgressV::InProgress { package_id, .. } => {
                lemma_find_entry_range(es, package_id);
            },
        },
        _ => {},
    }
    assert forall|j: int| 0 <= j < es2.len() implies time_in_range(
        #[trigger] es2[j].1.started_at,
    ) && (match es2[j].1.finished_at {
        Some(f) => time_in_range(f),
        None => true,
    }) by {
        if 0 <= j < es.len() {
            assert(time_in_range(es[j].1.started_at));
            assert(match es[j].1.finished_at {
                Some(f) => time_in_range(f),
                None => true,
            });
        }
    }
}

/// A scan over records whose timestamps are representable instants tracks
/// only representable instants.
pub proof fn lemma_scan_times_ok(recs: Seq<PnpmLogLineV>)
    requires
        forall|k: int| 0 <= k < recs.len() ==> time_in_range(#[trigger] recs[k].time),
    ensures
        entry_times_ok(scan_entries(recs)),
    decreases recs.len(),
{
    if recs.len() > 0 {
        lemma_scan_times_ok(recs.drop_last());
        assert(time_in_range(recs[recs.len() - 1].time));
        lemma_step_times_ok(scan_entries(recs.drop_last()), recs.last());
    }
}

pub(crate) proof fn lemma_find_at(es: Seq<(Seq<char>, FetchStatusV)>, key: Seq<char>, i: int)
    requires
        0 <= i < es.len(),
        es[i].0 == key,
        forall|j: int| 0 <= j < i ==> es[j].0 != key,
    ensures
        find_entry(es, key) == Some(i),
    decreases i,
{
    if i > 0 {
        lemma_find_at(es.drop_first(), key, i - 1);
    }
}

pub(crate) proof fn lemma_find_none(es: Seq<(Seq<char>, FetchStatusV)>, key: Seq<char>)
    requires
        forall|j: int| 0 <= j < es.len() ==> es[j].0 != key,
    ensures
        find_entry(es, key) is None,
    decreases es.len(),
{
    if es.len() > 0 {
        lemma_find_none(es.drop_first(), key);
    }
}

/// Index of the entry tracking `key`, searched front to back.
fn find_idx(entries: &Vec<(PackageId, FetchStatus)>, key: &str) -> (r: Option<usize>)
    ensures
        match r {
            Some(i) => i < entries@.len() && find_entry(entries_view(entries@), key@) == Some(
                i as int,
            ),
            None => find_entry(entries_view(entries@), key@) is None,
        },
{
    let mut i: usize = 0;
    while i < entries.len()
        invariant
            0 <= i <= entries@.len(),
            forall|j: int| 0 <= j < i ==> entries_view(entries@)[j].0 != key@,
        decreases entries@.len() - i,
    {
        if crate::json::str_eq(entries[i].0.0.as_str(), key) {
            proof {
                lemma_find_at(entries_view(entries@), key@, i as int);
            }
            return Some(i);
        }
        i = i + 1;
    }
    proof {
        lemma_find_none(entries_view(entries@), key@);
    }
    None
}

/// Scans the decoded records once, returning the final tracking state and
/// the diagnostics for progress events whose package was never started, both
/// in input order.
pub fn reconstruct_fetches(records: &Vec<PnpmLogLine>) -> (r: (
    Vec<(PackageId, FetchStatus)>,
    Vec<PackageId>,
))
    ensures
        entries_view(r.0@) == scan_entries(recs_view(records@)),
        pkgs_view(r.1@) == scan_diags(recs_view(records@)),
{
    let ghost all: Seq<PnpmLogLineV> = recs_view(records@);
    let mut entries: Vec<(PackageId, FetchStatus)> = Vec::new();
    let mut diags: Vec<PackageId> = Vec::new();
    let mut i: usize = 0;
    proof {
        assert(entries_view(entries@) =~= scan_entries(all.take(0)));
        assert(pkgs_view(diags@) =~= scan_diags(all.take(0)));
    }
    while i < records.len()
        invariant
            0 <= i <= records@.len(),
            all == recs_view(records@),
            entries_view(entries@) == scan_entries(all.take(i as int)),
            pkgs_view(diags@) == scan_diags(all.take(i as int)),
        decreases records@.len() - i,
    {
        let rec = &records[i];
        proof {
            assert(all.take(i + 1).drop_last() =~= all.take(i as int));
            assert(all.take(i + 1).last() == rec@);
        }
        match &rec.event {
            PnpmLogEvent::FetchingProgress(p) => match p {
                PnpmFetchingProgress::Started { package_id, size, .. } => {
                    let st = FetchStatus {
                        started_at: rec.time,
                        size: *size,
                        finished_at: None,
                    };
                    let owned = PackageId(package_id.0.as_str().to_owned());
                    match find_idx(&entries, package_id.0.as_str()) {
                        Some(j) => {
                            entries[j] = (owned, st);
                            proof {
                                assert(entries_view(entries@) =~= scan_entries(
                                    all.take(i + 1),
                                ));
                            }
                        },
                        None => {
                            entries.push((owned, st));
                            proof {
                                assert(entries_view(entries@) =~= scan_entries(
                                    all.take(i + 1),
                                ));
                            }
                        },
                    }
                    proof {
                        assert(pkgs_view(diags@) =~= scan_diags(all.take(i + 1)));
                    }
                },
                PnpmFetchingProgress::InProgress { package_id, downloaded } => {
                    match find_idx(&entries, package_id.0.as_str()) {
                        Some(j) => {
                            let started = entries[j].1.started_at;
                            let size = entries[j].1.size;
                            let fin = entries[j].1.finished_at;
                            if *downloaded == size && fin.is_none() {
                                let owned = PackageId(package_id.0.as_str().to_owned());
                                entries[j] = (
                                    owned,
                                    FetchStatus {
                                        started_at: started,
                                        size,
                                        finished_at: Some(rec.time),
                                    },
                                );
                            }
                            proof {
                                assert(entries_view(entries@) =~= scan_entries(
                                    all.take(i + 1),
                                ));
                                assert(pkgs_view(diags@) =~= scan_diags(all.take(i + 1)));
                            }
                        },
                        None => {
                            diags.push(PackageId(package_id.0.as_str().to_owned()));
                            proof {
                                assert(entries_view(entries@) =~= scan_entries(
                                    all.take(i + 1),
                                ));
                                assert(pkgs_view(diags@) =~= scan_diags(all.take(i + 1)));
                            }
                        },
                    }
                },
            },
            _ => {
                proof {
                    assert(entries_view(entries@) =~= scan_entries(all.take(i + 1)));
                    assert(pkgs_view(diags@) =~= scan_diags(all.take(i + 1)));
                }
            },
        }
        i = i + 1;
    }
    proof {
        assert(all.take(records@.len() as int) =~= all);
    }
    (entries, diags)
}

/// Reads the duration facts out of a final tracking state.
pub fn fetch_facts(entries: &Vec<(PackageId, FetchStatus)>) -> (r: Vec<(PackageId, i64)>)
    requires
        entry_times_ok(entries_view(entries@)),
    ensures
        facts_view(r@) == fetch_facts_of(entries_view(entries@)),
{
    let ghost all: Seq<(Seq<char>, FetchStatusV)> = entries_view(entries@);
    let mut out: Vec<(PackageId, i64)> = Vec::new();
    let mut i: usize = 0;
    proof {
        assert(facts_view(out@) =~= fetch_facts_of(all.take(0)));
    }
    while i < entries.len()
        invariant
            0 <= i <= entries@.len(),
            all == entries_view(entries@),
            entry_times_ok(all),
            facts_view(out@) == fetch_facts_of(all.take(i as int)),
        decreases entries@.len() - i,
    {
        proof {
            assert(all.take(i + 1).drop_last() =~= all.take(i as int));
        }
        match entries[i].1.finished_at {
            Some(f) => {
                proof {
                    assert(all[i as int] == (entries@[i as int].0@, entries@[i as int].1@));
                    assert(time_in_range(all[i as int].1.started_at));
                }
                let dur: i64 = f - entries[i].1.started_at;
                out.push((PackageId(entries[i].0.0.as_str().to_owned()), dur));
                proof {
                    assert(facts_view(out@) =~= fetch_facts_of(all.take(i + 1)));
                }
            },
            None => {
                proof {
                    assert(facts_view(out@) =~= fetch_facts_of(all.take(i + 1)));
                }
            },
        }
        i = i + 1;
    }
    proof {
        assert(all.take(entries@.len() as int) =~= all);
    }
    out
}

} // verus!
