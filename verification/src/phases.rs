//! Per-phase timing windows.
//!
//! For each tracked phase tag the window is the pair (time of the first
//! matching record, time of the last matching record), where first and last
//! are positions in the input order, not timestamp order. A phase with no
//! matching record has no window. The overall-install window is taken over
//! every record regardless of tag.

use vstd::prelude::*;

use crate::pnpm_log_line::{PnpmLogEvent, PnpmLogLine, PnpmLogLineV};
use crate::reconstruct::recs_view;

verus! {

/// A tracked phase of the install run.
#[derive(Clone, Copy, Debug, PartialEq, Eq, Structural)]
pub enum Phase {
    DependencyResolution,
    Hook,
    Link,
    Lifecycle,
}

/// True when a record belongs to the phase's event tag.
pub open spec fn phase_matches(rec: PnpmLogLineV, ph: Phase) -> bool {
    match ph {
        Phase::DependencyResolution => rec.event is DependencyResolved,
        Phase::Hook => rec.event is Hook,
        Phase::Link => rec.event is Link,
        Phase::Lifecycle => rec.event is Lifecycle,
    }
}

/// The phase's window over a record sequence: the times of its first and
/// last matching records in input order, if it has any.
pub open spec fn phase_window(recs: Seq<PnpmLogLineV>, ph: Phase) -> Option<(int, int)>
    decreases recs.len(),
{
    if recs.len() == 0 {
        None
    } else {
        let w = phase_window(recs.drop_last(), ph);
        if phase_matches(recs.last(), ph) {
            match w {
                None => Some((recs.last().time, recs.last().time)),
                Some(p) => Some((p.0, recs.last().time)),
            }
        } else {
            w
        }
    }
}

/// The overall-install window: times of the very first and very last
/// records, whatever their tags.
pub open spec fn overall_window(recs: Seq<PnpmLogLineV>) -> Option<(int, int)> {
    if recs.len() == 0 {
        None
    } else {
        Some((recs[0].time, recs[recs.len() - 1].time))
    }
}

/// A phase without matching records has no window.
pub proof fn lemma_phase_window_none(recs: Seq<PnpmLogLineV>, ph: Phase)
    requires
        forall|k: int| 0 <= k < recs.len() ==> !phase_matches(recs[k], ph),
    ensures
        phase_window(recs, ph) is None,
    decreases recs.len(),
{
    if recs.len() > 0 {
        lemma_phase_window_none(recs.drop_last(), ph);
    }
}

/// A phase with a matching record has a window.
pub proof fn lemma_phase_window_some(recs: Seq<PnpmLogLineV>, ph: Phase, k: int)
    requires
        0 <= k < recs.len(),
        phase_matches(recs[k], ph),
    ensures
        phase_window(recs, ph) is Some,
    decreases recs.len(),
{
    if k < recs.len() - 1 {
        lemma_phase_window_some(recs.drop_last(), ph, k);
    }
}

proof fn lemma_phase_window_first(recs: Seq<PnpmLogLineV>, ph: Phase, i: int)
    requires
        0 <= i < recs.len(),
        phase_matches(recs[i], ph),
        forall|k: int| 0 <= k < i ==> !phase_matches(recs[k], ph),
    ensures
        phase_window(recs, ph) is Some,
        phase_window(recs, ph)->Some_0.0 == recs[i].time,
    decreases recs.len(),
{
    if i == recs.len() - 1 {
        lemma_phase_window_none(recs.drop_last(), ph);
    } else {
        lemma_phase_window_first(recs.drop_last(), ph, i);
    }
}

proof fn lemma_phase_window_last(recs: Seq<PnpmLogLineV>, ph: Phase, j: int)
    requires
        0 <= j < recs.len(),
        phase_matches(recs[j], ph),
        forall|k: int| j < k < recs.len() ==> !phase_matches(recs[k], ph),
    ensures
        phase_window(recs, ph) is Some,
        phase_window(recs, ph)->Some_0.1 == recs[j].time,
    decreases recs.len(),
{
    if j < recs.len() - 1 {
        lemma_phase_window_last(recs.drop_last(), ph, j);
    }
}

/// The window of a phase whose first matching record, by input position,
/// stands at `i` and whose last stands at `j` is exactly
/// `(time at i, time at j)` — whatever the timestamps in between.
pub proof fn lemma_phase_window_first_last(recs: Seq<PnpmLogLineV>, ph: Phase, i: int, j: int)
    requires
        0 <= i <= j < recs.len(),
        phase_matches(recs[i], ph),
        phase_matches(recs[j], ph),
        forall|k: int| 0 <= k < i ==> !phase_matches(recs[k], ph),
        forall|k: int| j < k < recs.len() ==> !phase_matches(recs[k], ph),
    ensures
        phase_window(recs, ph) == Some((recs[i].time, recs[j].time)),
{
    lemma_phase_window_first(recs, ph, i);
    lemma_phase_window_last(recs, ph, j);
}

/// A window over records whose timestamps are representable instants holds
/// representable instants.
pub proof fn lemma_phase_window_times_ok(recs: Seq<PnpmLogLineV>, ph: Phase)
    requires
        forall|k: int| 0 <= k < recs.len() ==> crate::pnpm_log_line::time_in_range(
            #[trigger] recs[k].time,
        ),
    ensures
        match phase_window(recs, ph) {
            Some(w) => crate::pnpm_log_line::time_in_range(w.0)
                && crate::pnpm_log_line::time_in_range(w.1),
            None => true,
        },
    decreases recs.len(),
{
    if recs.len() > 0 {
        lemma_phase_window_times_ok(recs.drop_last(), ph);
        assert(crate::pnpm_log_line::time_in_range(recs[recs.len() - 1].time));
    }
}

/// True when a record belongs to the phase's event tag.
fn rec_matches(rec: &PnpmLogLine, ph: Phase) -> (b: bool)
    ensures
        b == phase_matches(rec@, ph),
{
    match ph {
        Phase::DependencyResolution => matches!(&rec.event, PnpmLogEvent::DependencyResolved(_)),
        Phase::Hook => matches!(&rec.event, PnpmLogEvent::Hook),
        Phase::Link => matches!(&rec.event, PnpmLogEvent::Link),
        Phase::Lifecycle => matches!(&rec.event, PnpmLogEvent::Lifecycle),
    }
}

/// Computes a phase's window over the decoded records.
pub fn find_phase_window(records: &Vec<PnpmLogLine>, ph: Phase) -> (r: Option<(i64, i64)>)
    ensures
        match r {
            Some(p) => phase_window(recs_view(records@), ph) == Some((p.0 as int, p.1 as int)),
            None => phase_window(recs_view(records@), ph) is None,
        },
{
    let ghost all: Seq<PnpmLogLineV> = recs_view(records@);
    let mut w: Option<(i64, i64)> = None;
    let mut i: usize = 0;
    proof {
        assert(all.take(0) =~= Seq::<PnpmLogLineV>::empty());
    }
    while i < records.len()
        invariant
            0 <= i <= records@.len(),
            all == recs_view(records@),
            match w {
                Some(p) => phase_window(all.take(i as int), ph) == Some(
                    (p.0 as int, p.1 as int),
                ),
                None => phase_window(all.take(i as int), ph) is None,
            },
        decreases records@.len() - i,
    {
        proof {
            assert(all.take(i + 1).drop_last() =~= all.take(i as int));
            assert(all.take(i + 1).last() == records@[i as int]@);
        }
        if rec_matches(&records[i], ph) {
            let t = records[i].time;
            w = match w {
                None => Some((t, t)),
                Some(p) => Some((p.0, t)),
            };
        }
        i = i + 1;
    }
    proof {
        assert(all.take(records@.len() as int) =~= all);
    }
    w
}

/// Computes the overall-install window: the times of the very first and
/// very last decoded records, in input order.
pub fn find_overall_window(records: &Vec<PnpmLogLine>) -> (r: Option<(i64, i64)>)
    ensures
        match r {
            Some(p) => overall_window(recs_view(records@)) == Some((p.0 as int, p.1 as int)),
            None => overall_window(recs_view(records@)) is None,
        },
        records@.len() > 0 ==> r == Some(
            (records@[0].time, records@[records@.len() - 1].time),
        ),
        records@.len() == 0 ==> r is None,
{
    if records.len() == 0 {
        None
    } else {
        Some((records[0].time, records[records.len() - 1].time))
    }
}

} // verus!
