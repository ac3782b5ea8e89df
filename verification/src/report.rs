//! Rendering of derived facts and the end-to-end analysis pipeline.
//!
//! Every duration is printed in milliseconds with thousands separators, as
//! `num-format` writes integers for the `en` locale; that rendering is pinned
//! down exactly by [`comma_separated`].

use vstd::prelude::*;

use crate::classify::spec_probe;
use crate::json::{lookup, parse_json_object, JsonValue};
use crate::phases::{overall_window, phase_window, Phase};
use crate::pnpm_log_line::{spec_decode_line, time_in_range, DecodeError, PackageId, PnpmLogLine,
    PnpmLogLineV};
use crate::reconstruct::{fetch_facts, fetch_facts_of, recs_view, reconstruct_fetches, scan_diags,
    scan_entries};

verus! {

/// The decimal digit character for one digit value.
pub open spec fn dec_digit(d: int) -> char {
    if d == 0 {
        '0'
    } else if d == 1 {
        '1'
    } else if d == 2 {
        '2'
    } else if d == 3 {
        '3'
    } else if d == 4 {
        '4'
    } else if d == 5 {
        '5'
    } else if d == 6 {
        '6'
    } else if d == 7 {
        '7'
    } else if d == 8 {
        '8'
    } else {
        '9'
    }
}

/// The decimal digits of a non-negative integer, most significant first.
pub open spec fn dec_digits(n: int) -> Seq<char>
    decreases n,
{
    if n < 10 {
        seq![dec_digit(n)]
    } else {
        dec_digits(n / 10).push(dec_digit(n % 10))
    }
}

/// Inserts a comma after every third digit, counted from the right.
pub open spec fn group3(s: Seq<char>) -> Seq<char>
    decreases s.len(),
{
    if s.len() <= 3 {
        s
    } else {
        group3(s.take(s.len() - 3)) + seq![','] + s.skip(s.len() - 3)
    }
}

/// An integer written in decimal with commas between three-digit groups and
/// a leading minus sign when negative.
pub open spec fn comma_separated(n: int) -> Seq<char> {
    if n < 0 {
        seq!['-'] + group3(dec_digits(-n))
    } else {
        group3(dec_digits(n))
    }
}

/// Relies on `num_format::ToFormattedString::to_formatted_string` with
/// `num_format::Locale::en`: decimal digits in groups of three separated by
/// commas, a leading `-` for negative values.
#[verifier::external_body]
fn format_thousands(n: i64) -> (r: String)
    ensures
        r@ == comma_separated(n as int),
{
    num_format::ToFormattedString::to_formatted_string(&n, &num_format::Locale::en)
}

/// A package identity as printed: the identity string in double quotes.
pub open spec fn quoted(pkg: Seq<char>) -> Seq<char> {
    "\""@ + pkg + "\""@
}

/// The report line for one finished fetch.
pub open spec fn fact_line(pkg: Seq<char>, dur: int) -> Seq<char> {
    quoted(pkg) + " finished fetching in "@ + comma_separated(dur) + "ms"@
}

/// The diagnostic line for a progress event whose package never started.
pub open spec fn diag_line(pkg: Seq<char>) -> Seq<char> {
    "Fetching progress for a package that never started: "@ + quoted(pkg)
}

/// The report line for one phase window.
pub open spec fn phase_line(name: Seq<char>, dur: int) -> Seq<char> {
    "pnpm "@ + name + " finished in "@ + comma_separated(dur) + "ms"@
}

/// The printable name of a tracked phase.
pub open spec fn phase_name(ph: Phase) -> Seq<char> {
    match ph {
        Phase::DependencyResolution => "dependency resolution"@,
        Phase::Hook => "hook"@,
        Phase::Link => "link"@,
        Phase::Lifecycle => "lifecycle"@,
    }
}

fn render_fact_line(pkg: &PackageId, dur: i64) -> (r: String)
    ensures
        r@ == fact_line(pkg@, dur as int),
{
    let mut s = String::new();
    s.append("\"");
    s.append(pkg.0.as_str());
    s.append("\"");
    s.append(" finished fetching in ");
    let d = format_thousands(dur);
    s.append(d.as_str());
    s.append("ms");
    proof {
        assert(s@ =~= fact_line(pkg@, dur as int));
    }
    s
}

fn render_diag_line(pkg: &PackageId) -> (r: String)
    ensures
        r@ == diag_line(pkg@),
{
    let mut s = String::new();
    s.append("Fetching progress for a package that never started: ");
    s.append("\"");
    s.append(pkg.0.as_str());
    s.append("\"");
    proof {
        assert(s@ =~= diag_line(pkg@));
    }
    s
}

fn render_phase_line(name: &str, dur: i64) -> (r: String)
    ensures
        r@ == phase_line(name@, dur as int),
{
    let mut s = String::new();
    s.append("pnpm ");
    s.append(name);
    s.append(" finished in ");
    let d = format_thousands(dur);
    s.append(d.as_str());
    s.append("ms");
    proof {
        assert(s@ =~= phase_line(name@, dur as int));
    }
    s
}

/// The fact lines one phase contributes: one line when it has a window,
/// nothing otherwise.
pub open spec fn phase_fact_lines(recs: Seq<PnpmLogLineV>, ph: Phase) -> Seq<Seq<char>> {
    match phase_window(recs, ph) {
        Some(w) => seq![phase_line(phase_name(ph), w.1 - w.0)],
        None => Seq::empty(),
    }
}

/// The overall-install fact line, when any record exists.
pub open spec fn overall_fact_lines(recs: Seq<PnpmLogLineV>) -> Seq<Seq<char>> {
    match overall_window(recs) {
        Some(w) => seq![phase_line("install"@, w.1 - w.0)],
        None => Seq::empty(),
    }
}

/// Every report line a decoded record stream yields, in output order:
/// diagnostics in scan order, then per-package fetch durations in tracking
/// order, then one line per phase with a window, then the overall-install
/// line.
pub open spec fn spec_report(recs: Seq<PnpmLogLineV>) -> Seq<Seq<char>> {
    scan_diags(recs).map_values(|p: Seq<char>| diag_line(p)) + fetch_facts_of(
        scan_entries(recs),
    ).map_values(|f: (Seq<char>, int)| fact_line(f.0, f.1)) + phase_fact_lines(
        recs,
        Phase::DependencyResolution,
    ) + phase_fact_lines(recs, Phase::Hook) + phase_fact_lines(recs, Phase::Link)
        + phase_fact_lines(recs, Phase::Lifecycle) + overall_fact_lines(recs)
}

/// The character sequences a string vector denotes.
pub open spec fn lines_view(v: Seq<String>) -> Seq<Seq<char>> {
    v.map_values(|s: String| s@)
}

/// What scanning the raw lines yields: the decoded records of the lines that
/// pass the probe, in input order — or the first decode error among them.
pub open spec fn spec_decode_stream(ls: Seq<Seq<char>>) -> Result<Seq<PnpmLogLineV>, DecodeError>
    decreases ls.len(),
{
    if ls.len() == 0 {
        Ok(Seq::empty())
    } else {
        match spec_decode_stream(ls.drop_last()) {
            Err(e) => Err(e),
            Ok(recs) => if !spec_probe(ls.last()) {
                Ok(recs)
            } else {
                match spec_decode_line(ls.last()) {
                    Ok(r) => Ok(recs.push(r)),
                    Err(e) => Err(e),
                }
            },
        }
    }
}

/// What analysing the raw lines yields: the report, or the first hard decode
/// error.
pub open spec fn spec_analyze(ls: Seq<Seq<char>>) -> Result<Seq<Seq<char>>, DecodeError> {
    match spec_decode_stream(ls) {
        Ok(recs) => Ok(spec_report(recs)),
        Err(e) => Err(e),
    }
}

proof fn lemma_decode_stream_err(ls: Seq<Seq<char>>, m: int)
    requires
        0 <= m <= ls.len(),
        spec_decode_stream(ls.take(m)) is Err,
    ensures
        spec_decode_stream(ls) == spec_decode_stream(ls.take(m)),
    decreases ls.len() - m,
{
    if m < ls.len() {
        assert(ls.take(m + 1).drop_last() =~= ls.take(m));
        lemma_decode_stream_err(ls, m + 1);
    } else {
        assert(ls.take(m) =~= ls);
    }
}

proof fn lemma_decode_stream_skip(ls: Seq<Seq<char>>, i: int, l: Seq<char>)
    requires
        0 <= i <= ls.len(),
        !spec_probe(l),
    ensures
        spec_decode_stream(ls.insert(i, l)) == spec_decode_stream(ls),
    decreases ls.len(),
{
    let ls2 = ls.insert(i, l);
    if i == ls.len() {
        assert(ls2.drop_last() =~= ls);
        assert(ls2.last() == l);
    } else {
        assert(ls2.drop_last() =~= ls.drop_last().insert(i, l));
        assert(ls2.last() == ls.last());
        lemma_decode_stream_skip(ls.drop_last(), i, l);
    }
}

/// A line that fails the classification probe never reaches the
/// reconstruction: inserting it anywhere in the input leaves every derived
/// fact — the whole analysis result — unchanged.
pub proof fn lemma_unclassified_line_ignored(ls: Seq<Seq<char>>, i: int, l: Seq<char>)
    requires
        0 <= i <= ls.len(),
        !spec_probe(l),
    ensures
        spec_analyze(ls.insert(i, l)) == spec_analyze(ls),
{
    lemma_decode_stream_skip(ls, i, l);
}

/// Analyses a whole log: classifies each line, decodes every line that
/// passes the probe (failing fast on the first decode error), reconstructs
/// per-package fetch durations and phase windows, and renders the report
/// lines in output order.
pub fn analyze_log(lines: &Vec<String>) -> (r: Result<Vec<String>, DecodeError>)
    ensures
        match r {
            Ok(out) => spec_analyze(lines_view(lines@)) == Ok::<Seq<Seq<char>>, DecodeError>(
                lines_view(out@),
            ),
            Err(e) => spec_analyze(lines_view(lines@)) == Err::<Seq<Seq<char>>, DecodeError>(e),
        },
{
    let ghost ls: Seq<Seq<char>> = lines_view(lines@);
    let mut records: Vec<PnpmLogLine> = Vec::new();
    let mut i: usize = 0;
    proof {
        assert(ls.take(0) =~= Seq::<Seq<char>>::empty());
        assert(recs_view(records@) =~= Seq::<PnpmLogLineV>::empty());
    }
    while i < lines.len()
        invariant
            0 <= i <= lines@.len(),
            ls == lines_view(lines@),
            spec_decode_stream(ls.take(i as int)) == Ok::<Seq<PnpmLogLineV>, DecodeError>(
                recs_view(records@),
            ),
            forall|k: int| 0 <= k < records@.len() ==> time_in_range(
                #[trigger] recs_view(records@)[k].time,
            ),
        decreases lines@.len() - i,
    {
        proof {
            assert(ls.take(i + 1).drop_last() =~= ls.take(i as int));
            assert(ls.take(i + 1).last() == lines@[i as int]@);
        }
        let line: &String = &lines[i];
        let ghost prev: Seq<PnpmLogLine> = records@;
        match parse_json_object(line.as_str()) {
            None => {
                proof {
                    assert(!spec_probe(ls[i as int]));
                }
            },
            Some(fields) => {
                let probe_ok = match lookup(&fields, "time") {
                    Some(JsonValue::Int(_)) => true,
                    _ => false,
                };
                proof {
                    assert(probe_ok == spec_probe(ls[i as int]));
                }
                if probe_ok {
                    match crate::pnpm_log_line::decode_record(&fields) {
                        Ok(rec) => {
                            proof {
                                assert(spec_decode_line(ls[i as int])
                                    == Ok::<PnpmLogLineV, DecodeError>(rec@));
                            }
                            records.push(rec);
                            proof {
                                assert(recs_view(records@) =~= recs_view(prev).push(
                                    records@.last()@,
                                ));
                                assert forall|k: int| 0 <= k < records@.len() implies time_in_range(
                                    #[trigger] recs_view(records@)[k].time,
                                ) by {
                                    if k < prev.len() {
                                        assert(time_in_range(recs_view(prev)[k].time));
                                    }
                                }
                            }
                        },
                        Err(e) => {
                            proof {
                                assert(spec_decode_line(ls[i as int])
                                    == Err::<PnpmLogLineV, DecodeError>(e));
                                assert(spec_decode_stream(ls.take(i + 1)) == Err::<
                                    Seq<PnpmLogLineV>,
                                    DecodeError,
                                >(e));
                                lemma_decode_stream_err(ls, i + 1);
                            }
                            return Err(e);
                        },
                    }
                }
            },
        }
        i = i + 1;
    }
    proof {
        assert(ls.take(lines@.len() as int) =~= ls);
    }
    let ghost recsv: Seq<PnpmLogLineV> = recs_view(records@);
    let (entries, diag_pkgs) = reconstruct_fetches(&records);
    proof {
        crate::reconstruct::lemma_scan_times_ok(recsv);
    }
    let facts = fetch_facts(&entries);

    let ghost diag_lines_v: Seq<Seq<char>> = scan_diags(recsv).map_values(
        |p: Seq<char>| diag_line(p),
    );
    let ghost fact_lines_v: Seq<Seq<char>> = fetch_facts_of(scan_entries(recsv)).map_values(
        |f: (Seq<char>, int)| fact_line(f.0, f.1),
    );

    let mut out: Vec<String> = Vec::new();
    let mut j: usize = 0;
    proof {
        assert(lines_view(out@) =~= diag_lines_v.take(0));
    }
    while j < diag_pkgs.len()
        invariant
            0 <= j <= diag_pkgs@.len(),
            crate::reconstruct::pkgs_view(diag_pkgs@) == scan_diags(recsv),
            diag_lines_v == scan_diags(recsv).map_values(|p: Seq<char>| diag_line(p)),
            lines_view(out@) == diag_lines_v.take(j as int),
        decreases diag_pkgs@.len() - j,
    {
        let s = render_diag_line(&diag_pkgs[j]);
        let ghost prev_out: Seq<String> = out@;
        let ghost sv: Seq<char> = s@;
        out.push(s);
        proof {
            assert(crate::reconstruct::pkgs_view(diag_pkgs@)[j as int] == diag_pkgs@[j as int]@);
            assert(diag_lines_v[j as int] == diag_line(scan_diags(recsv)[j as int]));
            assert(sv == diag_lines_v[j as int]);
            assert(lines_view(out@) =~= lines_view(prev_out).push(sv));
            assert(diag_lines_v.take(j + 1) =~= diag_lines_v.take(j as int).push(
                diag_lines_v[j as int],
            ));
        }
        j = j + 1;
    }
    proof {
        assert(diag_lines_v.take(diag_pkgs@.len() as int) =~= diag_lines_v);
    }

    let mut k: usize = 0;
    while k < facts.len()
        invariant
            0 <= k <= facts@.len(),
            crate::reconstruct::facts_view(facts@) == fetch_facts_of(scan_entries(recsv)),
            fact_lines_v == fetch_facts_of(scan_entries(recsv)).map_values(
                |f: (Seq<char>, int)| fact_line(f.0, f.1),
            ),
            lines_view(out@) == diag_lines_v + fact_lines_v.take(k as int),
        decreases facts@.len() - k,
    {
        let s = render_fact_line(&facts[k].0, facts[k].1);
        let ghost prev_out: Seq<String> = out@;
        let ghost sv: Seq<char> = s@;
        out.push(s);
        proof {
            assert(crate::reconstruct::facts_view(facts@)[k as int] == (
                facts@[k as int].0@,
                facts@[k as int].1 as int,
            ));
            assert(fact_lines_v[k as int] == fact_line(
                fetch_facts_of(scan_entries(recsv))[k as int].0,
                fetch_facts_of(scan_entries(recsv))[k as int].1,
            ));
            assert(sv == fact_lines_v[k as int]);
            assert(lines_view(out@) =~= lines_view(prev_out).push(sv));
            assert(fact_lines_v.take(k + 1) =~= fact_lines_v.take(k as int).push(
                fact_lines_v[k as int],
            ));
        }
        k = k + 1;
    }
    proof {
        assert(fact_lines_v.take(facts@.len() as int) =~= fact_lines_v);
    }

    let ghost mid: Seq<Seq<char>> = diag_lines_v + fact_lines_v;
    proof {
        crate::phases::lemma_phase_window_times_ok(recsv, Phase::DependencyResolution);
        crate::phases::lemma_phase_window_times_ok(recsv, Phase::Hook);
        crate::phases::lemma_phase_window_times_ok(recsv, Phase::Link);
        crate::phases::lemma_phase_window_times_ok(recsv, Phase::Lifecycle);
    }
    match crate::phases::find_phase_window(&records, Phase::DependencyResolution) {
        Some(p) => {
            let s = render_phase_line("dependency resolution", p.1 - p.0);
            out.push(s);
        },
        None => {},
    }
    proof {
        assert(lines_view(out@) =~= mid + phase_fact_lines(recsv, Phase::DependencyResolution));
    }
    let ghost mid: Seq<Seq<char>> = mid + phase_fact_lines(recsv, Phase::DependencyResolution);
    match crate::phases::find_phase_window(&records, Phase::Hook) {
        Some(p) => {
            let s = render_phase_line("hook", p.1 - p.0);
            out.push(s);
        },
        None => {},
    }
    proof {
        assert(lines_view(out@) =~= mid + phase_fact_lines(recsv, Phase::Hook));
    }
    let ghost mid: Seq<Seq<char>> = mid + phase_fact_lines(recsv, Phase::Hook);
    match crate::phases::find_phase_window(&records, Phase::Link) {
        Some(p) => {
            let s = render_phase_line("link", p.1 - p.0);
            out.push(s);
        },
        None => {},
    }
    proof {
        assert(lines_view(out@) =~= mid + phase_fact_lines(recsv, Phase::Link));
    }
    let ghost mid: Seq<Seq<char>> = mid + phase_fact_lines(recsv, Phase::Link);
    match crate::phases::find_phase_window(&records, Phase::Lifecycle) {
        Some(p) => {
            let s = render_phase_line("lifecycle", p.1 - p.0);
            out.push(s);
        },
        None => {},
    }
    proof {
        assert(lines_view(out@) =~= mid + phase_fact_lines(recsv, Phase::Lifecycle));
    }
    let ghost mid: Seq<Seq<char>> = mid + phase_fact_lines(recsv, Phase::Lifecycle);
    match crate::phases::find_overall_window(&records) {
        Some(p) => {
            proof {
                assert(time_in_range(recsv[0].time));
                assert(time_in_range(recsv[recsv.len() - 1].time));
            }
            let s = render_phase_line("install", p.1 - p.0);
            out.push(s);
        },
        None => {},
    }
    proof {
        assert(lines_view(out@) =~= mid + overall_fact_lines(recsv));
        assert(lines_view(out@) =~= spec_report(recsv));
    }
    Ok(out)
}

} // verus!
