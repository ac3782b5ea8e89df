//! Laws of the fetch-tracking scan.
//!
//! Each public proof function here states one guarantee of the reconstruction
//! over whole record streams: what duration fact a matched start/progress
//! pair yields, that unmatched sizes yield no fact, that progress without a
//! start yields exactly one diagnostic per event and no fact, and that a
//! repeated start resets the tracked values.

use vstd::prelude::*;

use crate::reconstruct::{diag_step, fetch_facts_of, find_entry, lemma_find_at,
    lemma_find_entry_range, lemma_find_none, lookup_status, mark_finished, scan_diags,
    scan_entries, scan_step, upsert, FetchStatusV};
use crate::pnpm_log_line::{PnpmFetchingProgressV, PnpmLogEventV, PnpmLogLineV};

verus! {

/// True when the record is a fetch-started event for `pid`.
pub open spec fn is_started_for(rec: PnpmLogLineV, pid: Seq<char>) -> bool {
    match rec.event {
        PnpmLogEventV::FetchingProgress(
            PnpmFetchingProgressV::Started { package_id, .. },
        ) => package_id == pid,
        _ => false,
    }
}

/// The declared size of a fetch-started event.
pub open spec fn started_size(rec: PnpmLogLineV) -> int {
    match rec.event {
        PnpmLogEventV::FetchingProgress(PnpmFetchingProgressV::Started { size, .. }) => size,
        _ => 0,
    }
}

/// True when the record is a fetch-progress event for `pid`.
pub open spec fn is_progress_for(rec: PnpmLogLineV, pid: Seq<char>) -> bool {
    match rec.event {
        PnpmLogEventV::FetchingProgress(
            PnpmFetchingProgressV::InProgress { package_id, .. },
        ) => package_id == pid,
        _ => false,
    }
}

/// The downloaded amount of a fetch-progress event.
pub open spec fn progress_amount(rec: PnpmLogLineV) -> int {
    match rec.event {
        PnpmLogEventV::FetchingProgress(
            PnpmFetchingProgressV::InProgress { downloaded, .. },
        ) => downloaded,
        _ => 0,
    }
}

/// How one record changes the status tracked for one package: a start for it
/// resets the status, a progress event for it at exactly the tracked size
/// finishes a not-yet-finished status, and everything else leaves it alone.
pub open spec fn spec_step_status(
    cur: Option<FetchStatusV>,
    rec: PnpmLogLineV,
    pid: Seq<char>,
) -> Option<FetchStatusV> {
    match rec.event {
        PnpmLogEventV::FetchingProgress(
            PnpmFetchingProgressV::Started { package_id, size, .. },
        ) => if package_id == pid {
            Some(FetchStatusV { started_at: rec.time, size, finished_at: None })
        } else {
            cur
        },
        PnpmLogEventV::FetchingProgress(
            PnpmFetchingProgressV::InProgress { package_id, downloaded },
        ) => if package_id == pid {
            match cur {
                Some(st) => if downloaded == st.size && st.finished_at is None {
                    Some(
                        FetchStatusV {
                            started_at: st.started_at,
                            size: st.size,
                            finished_at: Some(rec.time),
                        },
                    )
                } else {
                    Some(st)
                },
                None => None,
            }
        } else {
            cur
        },
        _ => cur,
    }
}

proof fn lemma_find_same_keys(
    es: Seq<(Seq<char>, FetchStatusV)>,
    es2: Seq<(Seq<char>, FetchStatusV)>,
    key: Seq<char>,
)
    requires
        es.len() == es2.len(),
        forall|j: int| 0 <= j < es.len() ==> (#[trigger] es2[j]).0 == es[j].0,
    ensures
        find_entry(es2, key) == find_entry(es, key),
    decreases es.len(),
{
    if es.len() > 0 {
        assert(es2[0].0 == es[0].0);
        assert forall|j: int| 0 <= j < es.drop_first().len() implies (#[trigger] es2.drop_first()[j]).0
            == es.drop_first()[j].0 by {
            assert(es2[j + 1].0 == es[j + 1].0);
        }
        lemma_find_same_keys(es.drop_first(), es2.drop_first(), key);
    }
}

proof fn lemma_status_upsert(
    es: Seq<(Seq<char>, FetchStatusV)>,
    key: Seq<char>,
    st: FetchStatusV,
    pid: Seq<char>,
)
    ensures
        lookup_status(upsert(es, key, st), pid) == (if pid == key {
            Some(st)
        } else {
            lookup_status(es, pid)
        }),
{
    lemma_find_entry_range(es, key);
    lemma_find_entry_range(es, pid);
    match find_entry(es, key) {
        Some(i) => {
            let es2 = es.update(i, (key, st));
            if pid == key {
                assert forall|j: int| 0 <= j < i implies es2[j].0 != key by {
                    assert(es[j].0 != key);
                }
                lemma_find_at(es2, key, i);
            } else {
                assert forall|j: int| 0 <= j < es.len() implies (#[trigger] es2[j]).0
                    == es[j].0 by {}
                lemma_find_same_keys(es, es2, pid);
            }
        },
        None => {
            let es2 = es.push((key, st));
            if pid == key {
                assert forall|j: int| 0 <= j < es.len() implies es2[j].0 != key by {
                    assert(es[j].0 != key);
                }
                lemma_find_at(es2, key, es.len() as int);
            } else {
                match find_entry(es, pid) {
                    Some(f) => {
                        lemma_find_at(es2, pid, f);
                    },
                    None => {
                        assert forall|j: int| 0 <= j < es2.len() implies es2[j].0 != pid by {
                            if j < es.len() {
                                assert(es[j].0 != pid);
                            }
                        }
                        lemma_find_none(es2, pid);
                    },
                }
            }
        },
    }
}

proof fn lemma_status_mark(
    es: Seq<(Seq<char>, FetchStatusV)>,
    key: Seq<char>,
    downloaded: int,
    t: int,
    pid: Seq<char>,
)
    ensures
        lookup_status(mark_finished(es, key, downloaded, t), pid) == (if pid == key {
            match lookup_status(es, key) {
                Some(st) => if downloaded == st.size && st.finished_at is None {
                    Some(
                        FetchStatusV {
                            started_at: st.started_at,
                            size: st.size,
                            finished_at: Some(t),
                        },
                    )
                } else {
                    Some(st)
                },
                None => None,
            }
        } else {
            lookup_status(es, pid)
        }),
{
    lemma_find_entry_range(es, key);
    lemma_find_entry_range(es, pid);
    match find_entry(es, key) {
        Some(i) => {
            let st = es[i].1;
            if downloaded == st.size && st.finished_at is None {
                let st2 = FetchStatusV {
                    started_at: st.started_at,
                    size: st.size,
                    finished_at: Some(t),
                };
                let es2 = es.update(i, (key, st2));
                if pid == key {
                    assert forall|j: int| 0 <= j < i implies es2[j].0 != key by {
                        assert(es[j].0 != key);
                    }
                    lemma_find_at(es2, key, i);
                } else {
                    assert forall|j: int| 0 <= j < es.len() implies (#[trigger] es2[j]).0
                        == es[j].0 by {}
                    lemma_find_same_keys(es, es2, pid);
                }
            }
        },
        None => {},
    }
}

/// The scan, projected onto one package: each record changes the status
/// tracked for that package exactly as [`spec_step_status`] says.
pub proof fn lemma_step_status(
    es: Seq<(Seq<char>, FetchStatusV)>,
    rec: PnpmLogLineV,
    pid: Seq<char>,
)
    ensures
        lookup_status(scan_step(es, rec), pid) == spec_step_status(
            lookup_status(es, pid),
            rec,
            pid,
        ),
{
    match rec.event {
        PnpmLogEventV::FetchingProgress(p) => match p {
            PnpmFetchingProgressV::Started { package_id, size, .. } => {
                lemma_status_upsert(
                    es,
                    package_id,
                    FetchStatusV { started_at: rec.time, size, finished_at: None },
                    pid,
                );
            },
            PnpmFetchingProgressV::InProgress { package_id, downloaded } => {
                lemma_status_mark(es, package_id, downloaded, rec.time, pid);
            },
        },
        _ => {},
    }
}

proof fn lemma_status_after_start(recs: Seq<PnpmLogLineV>, pid: Seq<char>, i: int, m: int)
    requires
        0 <= i < m <= recs.len(),
        is_started_for(recs[i], pid),
        forall|k: int| i < k < m ==> !is_started_for(#[trigger] recs[k], pid),
        forall|k: int|
            i < k < m ==> !(is_progress_for(#[trigger] recs[k], pid) && progress_amount(recs[k])
                == started_size(recs[i])),
    ensures
        lookup_status(scan_entries(recs.take(m)), pid) == Some(
            FetchStatusV {
                started_at: recs[i].time,
                size: started_size(recs[i]),
                finished_at: None,
            },
        ),
    decreases m,
{
    assert(recs.take(m).drop_last() =~= recs.take(m - 1));
    assert(recs.take(m).last() == recs[m - 1]);
    lemma_step_status(scan_entries(recs.take(m - 1)), recs[m - 1], pid);
    if m == i + 1 {
    } else {
        lemma_status_after_start(recs, pid, i, m - 1);
        assert(!is_started_for(recs[m - 1], pid));
        assert(!(is_progress_for(recs[m - 1], pid) && progress_amount(recs[m - 1])
            == started_size(recs[i])));
    }
}

proof fn lemma_status_after_completion(
    recs: Seq<PnpmLogLineV>,
    pid: Seq<char>,
    i: int,
    j: int,
    m: int,
)
    requires
        0 <= i < j < m <= recs.len(),
        is_started_for(recs[i], pid),
        is_progress_for(recs[j], pid),
        progress_amount(recs[j]) == started_size(recs[i]),
        forall|k: int| i < k < m ==> !is_started_for(#[trigger] recs[k], pid),
        forall|k: int|
            i < k < j ==> !(is_progress_for(#[trigger] recs[k], pid) && progress_amount(recs[k])
                == started_size(recs[i])),
    ensures
        lookup_status(scan_entries(recs.take(m)), pid) == Some(
            FetchStatusV {
                started_at: recs[i].time,
                size: started_size(recs[i]),
                finished_at: Some(recs[j].time),
            },
        ),
    decreases m,
{
    assert(recs.take(m).drop_last() =~= recs.take(m - 1));
    assert(recs.take(m).last() == recs[m - 1]);
    lemma_step_status(scan_entries(recs.take(m - 1)), recs[m - 1], pid);
    if m == j + 1 {
        lemma_status_after_start(recs, pid, i, j);
    } else {
        lemma_status_after_completion(recs, pid, i, j, m - 1);
        assert(!is_started_for(recs[m - 1], pid));
    }
}

proof fn lemma_fact_at(es: Seq<(Seq<char>, FetchStatusV)>, i: int)
    requires
        0 <= i < es.len(),
        es[i].1.finished_at is Some,
    ensures
        fetch_facts_of(es).contains(
            (es[i].0, es[i].1.finished_at->Some_0 - es[i].1.started_at),
        ),
    decreases es.len(),
{
    let fact = (es[i].0, es[i].1.finished_at->Some_0 - es[i].1.started_at);
    if i == es.len() - 1 {
        let fs = fetch_facts_of(es);
        assert(fs.last() == fact);
        assert(fs[fs.len() - 1] == fact);
    } else {
        lemma_fact_at(es.drop_last(), i);
        let rest = fetch_facts_of(es.drop_last());
        let w = choose|w: int| 0 <= w < rest.len() && rest[w] == fact;
        assert(fetch_facts_of(es)[w] == fact);
    }
}

/// A start for package `pid` at position `i` with no later start for it, and
/// a first matching progress event at position `j`, yield exactly one
/// duration fact for `pid`: the time at `j` minus the time at `i`.
pub proof fn lemma_fetch_duration_fact(recs: Seq<PnpmLogLineV>, pid: Seq<char>, i: int, j: int)
    requires
        0 <= i < j < recs.len(),
        is_started_for(recs[i], pid),
        is_progress_for(recs[j], pid),
        progress_amount(recs[j]) == started_size(recs[i]),
        forall|k: int| i < k < recs.len() ==> !is_started_for(#[trigger] recs[k], pid),
        forall|k: int|
            i < k < j ==> !(is_progress_for(#[trigger] recs[k], pid) && progress_amount(recs[k])
                == started_size(recs[i])),
    ensures
        fetch_facts_of(scan_entries(recs)).contains((pid, recs[j].time - recs[i].time)),
{
    lemma_status_after_completion(recs, pid, i, j, recs.len() as int);
    assert(recs.take(recs.len() as int) =~= recs);
    let es = scan_entries(recs);
    lemma_find_entry_range(es, pid);
    let f = find_entry(es, pid)->Some_0;
    lemma_fact_at(es, f);
}

/// A start arriving for an already-tracked package resets its tracked start
/// time and size to the new event's values, and clears any finish time.
pub proof fn lemma_restart_resets(recs: Seq<PnpmLogLineV>, rec: PnpmLogLineV, pid: Seq<char>)
    requires
        is_started_for(rec, pid),
    ensures
        lookup_status(scan_entries(recs.push(rec)), pid) == Some(
            FetchStatusV {
                started_at: rec.time,
                size: started_size(rec),
                finished_at: None,
            },
        ),
{
    assert(recs.push(rec).drop_last() =~= recs);
    assert(recs.push(rec).last() == rec);
    lemma_step_status(scan_entries(recs), rec, pid);
}

/// Every key occurs at most once in the tracking state.
pub open spec fn unique_keys(es: Seq<(Seq<char>, FetchStatusV)>) -> bool {
    forall|a: int, b: int|
        0 <= a < b < es.len() ==> (#[trigger] es[a]).0 != (#[trigger] es[b]).0
}

proof fn lemma_step_unique(es: Seq<(Seq<char>, FetchStatusV)>, rec: PnpmLogLineV)
    requires
        unique_keys(es),
    ensures
        unique_keys(scan_step(es, rec)),
{
    let es2 = scan_step(es, rec);
    match rec.event {
        PnpmLogEventV::FetchingProgress(p) => {
            let key = match p {
                PnpmFetchingProgressV::Started { package_id, .. } => package_id,
                PnpmFetchingProgressV::InProgress { package_id, .. } => package_id,
            };
            lemma_find_entry_range(es, key);
            assert forall|a: int, b: int| 0 <= a < b < es2.len() implies (#[trigger] es2[a]).0
                != (#[trigger] es2[b]).0 by {
                if b < es.len() {
                    assert(es[a].0 != es[b].0);
                    match find_entry(es, key) {
                        Some(i) => {
                            assert(es[i].0 == key);
                        },
                        None => {},
                    }
                } else {
                    if a < es.len() {
                        assert(es[a].0 != key);
                    }
                }
            }
        },
        _ => {},
    }
}

/// The scan never tracks two entries with the same key.
pub proof fn lemma_scan_unique(recs: Seq<PnpmLogLineV>)
    ensures
        unique_keys(scan_entries(recs)),
    decreases recs.len(),
{
    if recs.len() > 0 {
        lemma_scan_unique(recs.drop_last());
        lemma_step_unique(scan_entries(recs.drop_last()), recs.last());
    }
}

proof fn lemma_no_fact_unfinished(es: Seq<(Seq<char>, FetchStatusV)>, pid: Seq<char>)
    requires
        unique_keys(es),
        match lookup_status(es, pid) {
            Some(st) => st.finished_at is None,
            None => true,
        },
    ensures
        forall|d: int| !(#[trigger] fetch_facts_of(es).contains((pid, d))),
    decreases es.len(),
{
    lemma_find_entry_range(es, pid);
    if es.len() == 0 {
        assert forall|d: int| !(#[trigger] fetch_facts_of(es).contains((pid, d))) by {}
    } else {
        let prev = es.drop_last();
        assert forall|a: int, b: int| 0 <= a < b < prev.len() implies (#[trigger] prev[a]).0
            != (#[trigger] prev[b]).0 by {
            assert(es[a].0 != es[b].0);
        }
        lemma_find_entry_range(prev, pid);
        if es.last().0 == pid {
            // With unique keys the only entry for `pid` is the last one.
            match find_entry(es, pid) {
                Some(i) => {
                    if i < es.len() - 1 {
                        assert(es[i].0 != es[es.len() - 1].0);
                        assert(false);
                    }
                },
                None => {
                    assert(es[es.len() - 1].0 != pid);
                    assert(false);
                },
            }
            assert forall|j: int| 0 <= j < prev.len() implies prev[j].0 != pid by {
                assert(es[j].0 != es[es.len() - 1].0);
            }
            lemma_find_none(prev, pid);
            lemma_no_fact_unfinished(prev, pid);
            let fs = fetch_facts_of(es);
            let rest = fetch_facts_of(prev);
            assert forall|d: int| !(#[trigger] fs.contains((pid, d))) by {
                if fs.contains((pid, d)) {
                    let w = choose|w: int| 0 <= w < fs.len() && fs[w] == (pid, d);
                    assert(!rest.contains((pid, d)));
                    if w < rest.len() {
                        assert(rest[w] == (pid, d));
                    }
                }
            }
        } else {
            match find_entry(es, pid) {
                Some(i) => {
                    assert(es[i].0 == pid);
                    assert(i < es.len() - 1);
                    assert forall|j: int| 0 <= j < i implies prev[j].0 != pid by {
                        assert(es[j].0 != pid);
                    }
                    lemma_find_at(prev, pid, i);
                },
                None => {
                    assert forall|j: int| 0 <= j < prev.len() implies prev[j].0 != pid by {
                        assert(es[j].0 != pid);
                    }
                    lemma_find_none(prev, pid);
                },
            }
            lemma_no_fact_unfinished(prev, pid);
            let fs = fetch_facts_of(es);
            let rest = fetch_facts_of(prev);
            assert forall|d: int| !(#[trigger] fs.contains((pid, d))) by {
                if fs.contains((pid, d)) {
                    let w = choose|w: int| 0 <= w < fs.len() && fs[w] == (pid, d);
                    assert(!rest.contains((pid, d)));
                    if w < rest.len() {
                        assert(rest[w] == (pid, d));
                    } else {
                        assert(fs[w].0 == es.last().0);
                    }
                }
            }
        }
    }
}

proof fn lemma_no_match_scan(recs: Seq<PnpmLogLineV>, pid: Seq<char>, m: int)
    requires
        0 <= m <= recs.len(),
        forall|k: int, l: int|
            0 <= k < recs.len() && 0 <= l < recs.len() && is_progress_for(
                #[trigger] recs[k],
                pid,
            ) && is_started_for(#[trigger] recs[l], pid) ==> progress_amount(recs[k])
                != started_size(recs[l]),
    ensures
        match lookup_status(scan_entries(recs.take(m)), pid) {
            Some(st) => st.finished_at is None && exists|l: int|
                0 <= l < m && is_started_for(#[trigger] recs[l], pid) && st.size == started_size(
                    recs[l],
                ),
            None => true,
        },
    decreases m,
{
    if m > 0 {
        lemma_no_match_scan(recs, pid, m - 1);
        assert(recs.take(m).drop_last() =~= recs.take(m - 1));
        assert(recs.take(m).last() == recs[m - 1]);
        lemma_step_status(scan_entries(recs.take(m - 1)), recs[m - 1], pid);
        let cur = lookup_status(scan_entries(recs.take(m - 1)), pid);
        if is_started_for(recs[m - 1], pid) {
            assert(lookup_status(scan_entries(recs.take(m)), pid) == Some(
                FetchStatusV {
                    started_at: recs[m - 1].time,
                    size: started_size(recs[m - 1]),
                    finished_at: None,
                },
            ));
        } else if is_progress_for(recs[m - 1], pid) {
            match cur {
                Some(st) => {
                    let l = choose|l: int|
                        0 <= l < m - 1 && is_started_for(#[trigger] recs[l], pid) && st.size
                            == started_size(recs[l]);
                    assert(progress_amount(recs[m - 1]) != started_size(recs[l]));
                },
                None => {},
            }
        }
    }
}

/// A package whose progress events never report any size that a start for it
/// declared yields no duration fact at all.
pub proof fn lemma_unmatched_size_no_fact(recs: Seq<PnpmLogLineV>, pid: Seq<char>)
    requires
        forall|k: int, l: int|
            0 <= k < recs.len() && 0 <= l < recs.len() && is_progress_for(
                #[trigger] recs[k],
                pid,
            ) && is_started_for(#[trigger] recs[l], pid) ==> progress_amount(recs[k])
                != started_size(recs[l]),
    ensures
        forall|d: int| !(#[trigger] fetch_facts_of(scan_entries(recs)).contains((pid, d))),
{
    lemma_no_match_scan(recs, pid, recs.len() as int);
    assert(recs.take(recs.len() as int) =~= recs);
    lemma_scan_unique(recs);
    lemma_no_fact_unfinished(scan_entries(recs), pid);
}

/// Occurrences of one identity among the emitted diagnostics.
pub open spec fn count_key(s: Seq<Seq<char>>, pid: Seq<char>) -> int
    decreases s.len(),
{
    if s.len() == 0 {
        0
    } else {
        count_key(s.drop_last(), pid) + if s.last() == pid {
            1int
        } else {
            0int
        }
    }
}

/// Fetch-progress events for one package in a record stream.
pub open spec fn count_progress_for(recs: Seq<PnpmLogLineV>, pid: Seq<char>) -> int
    decreases recs.len(),
{
    if recs.len() == 0 {
        0
    } else {
        count_progress_for(recs.drop_last(), pid) + if is_progress_for(recs.last(), pid) {
            1int
        } else {
            0int
        }
    }
}

proof fn lemma_never_tracked(recs: Seq<PnpmLogLineV>, pid: Seq<char>)
    requires
        forall|k: int| 0 <= k < recs.len() ==> !is_started_for(#[trigger] recs[k], pid),
    ensures
        lookup_status(scan_entries(recs), pid) is None,
    decreases recs.len(),
{
    if recs.len() == 0 {
        lemma_find_none(scan_entries(recs), pid);
    } else {
        assert forall|k: int| 0 <= k < recs.drop_last().len() implies !is_started_for(
            #[trigger] recs.drop_last()[k],
            pid,
        ) by {
            assert(!is_started_for(recs[k], pid));
        }
        lemma_never_tracked(recs.drop_last(), pid);
        lemma_step_status(scan_entries(recs.drop_last()), recs.last(), pid);
        assert(!is_started_for(recs[recs.len() - 1], pid));
    }
}

/// For a package that no start event ever tracks, every progress event for
/// it yields exactly one diagnostic — and the package yields no fact.
pub proof fn lemma_progress_without_start(recs: Seq<PnpmLogLineV>, pid: Seq<char>)
    requires
        forall|k: int| 0 <= k < recs.len() ==> !is_started_for(#[trigger] recs[k], pid),
    ensures
        count_key(scan_diags(recs), pid) == count_progress_for(recs, pid),
        forall|d: int| !(#[trigger] fetch_facts_of(scan_entries(recs)).contains((pid, d))),
    decreases recs.len(),
{
    lemma_never_tracked(recs, pid);
    lemma_scan_unique(recs);
    lemma_no_fact_unfinished(scan_entries(recs), pid);
    if recs.len() > 0 {
        let prev = recs.drop_last();
        assert forall|k: int| 0 <= k < prev.len() implies !is_started_for(
            #[trigger] prev[k],
            pid,
        ) by {
            assert(!is_started_for(recs[k], pid));
        }
        lemma_progress_without_start(prev, pid);
        let step = diag_step(scan_entries(prev), recs.last());
        assert(scan_diags(recs) == scan_diags(prev) + step);
        match recs.last().event {
            PnpmLogEventV::FetchingProgress(
                PnpmFetchingProgressV::InProgress { package_id, .. },
            ) => {
                if package_id == pid {
                    lemma_never_tracked(prev, pid);
                    assert(step =~= seq![pid]);
                    assert((scan_diags(prev) + step).drop_last() =~= scan_diags(prev));
                    assert((scan_diags(prev) + step).last() == pid);
                } else {
                    match find_entry(scan_entries(prev), package_id) {
                        Some(_) => {
                            assert(scan_diags(prev) + step =~= scan_diags(prev));
                        },
                        None => {
                            assert((scan_diags(prev) + step).drop_last() =~= scan_diags(
                                prev,
                            ));
                            assert((scan_diags(prev) + step).last() == package_id);
                        },
                    }
                }
            },
            _ => {
                assert(scan_diags(prev) + step =~= scan_diags(prev));
            },
        }
    }
}

} // verus!
