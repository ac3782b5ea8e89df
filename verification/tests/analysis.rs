use pnpm_timings::classify::looks_like_log_line;
use pnpm_timings::pnpm_log_line::{decode_line, decode_record, encode_record, DecodeError,
    LogLevel, PnpmLogEvent, PnpmLogLine};
use pnpm_timings::report::analyze_log;

fn run(lines: &[&str]) -> Vec<String> {
    let owned: Vec<String> = lines.iter().map(|l| l.to_string()).collect();
    analyze_log(&owned).expect("analysis should succeed")
}

fn run_err(lines: &[&str]) -> DecodeError {
    let owned: Vec<String> = lines.iter().map(|l| l.to_string()).collect();
    analyze_log(&owned).expect_err("analysis should fail")
}

fn header(time: i64, name: &str) -> String {
    format!(
        "{{\"time\":{},\"hostname\":\"h\",\"pid\":1,\"level\":\"info\",\"name\":\"{}\"}}",
        time, name
    )
}

#[test]
fn probe_accepts_integer_time() {
    assert!(looks_like_log_line("{\"time\":0}"));
    assert!(looks_like_log_line("{\"time\":-5,\"extra\":\"x\"}"));
}

#[test]
fn probe_rejects_noise() {
    assert!(!looks_like_log_line(""));
    assert!(!looks_like_log_line("progress update: 50%"));
    assert!(!looks_like_log_line("{\"hostname\":\"h\"}"));
    assert!(!looks_like_log_line("{\"time\":\"later\"}"));
    assert!(!looks_like_log_line("{\"time\":1.5}"));
    assert!(!looks_like_log_line("{\"time\":1} trailing"));
    assert!(!looks_like_log_line("[1,2,3]"));
}

#[test]
fn unclassified_lines_change_nothing() {
    let base = [
        "{\"time\":0,\"hostname\":\"h\",\"pid\":1,\"level\":\"info\",\"name\":\"pnpm:hook\"}",
        "{\"time\":70,\"hostname\":\"h\",\"pid\":1,\"level\":\"info\",\"name\":\"pnpm:hook\"}",
    ];
    let noisy = [
        "banner text",
        base[0],
        "{\"nota\":\"record\"}",
        base[1],
        "more noise",
    ];
    assert_eq!(run(&base), run(&noisy));
}

#[test]
fn matched_fetch_emits_duration() {
    let out = run(&[
        "{\"time\":0,\"hostname\":\"h\",\"pid\":1,\"level\":\"debug\",\"name\":\"pnpm:fetching-progress\",\"status\":\"started\",\"attempt\":1,\"packageId\":\"a\",\"size\":10}",
        "{\"time\":50,\"hostname\":\"h\",\"pid\":1,\"level\":\"debug\",\"name\":\"pnpm:fetching-progress\",\"status\":\"in_progress\",\"packageId\":\"a\",\"downloaded\":10}",
    ]);
    assert!(out.contains(&"\"a\" finished fetching in 50ms".to_string()));
}

#[test]
fn unmatched_size_emits_no_fact() {
    let out = run(&[
        "{\"time\":0,\"hostname\":\"h\",\"pid\":1,\"level\":\"debug\",\"name\":\"pnpm:fetching-progress\",\"status\":\"started\",\"attempt\":1,\"packageId\":\"a\",\"size\":10}",
        "{\"time\":50,\"hostname\":\"h\",\"pid\":1,\"level\":\"debug\",\"name\":\"pnpm:fetching-progress\",\"status\":\"in_progress\",\"packageId\":\"a\",\"downloaded\":7}",
    ]);
    assert!(out.iter().all(|l| !l.contains("finished fetching")));
}

#[test]
fn progress_without_start_is_diagnosed_once() {
    let out = run(&[
        "{\"time\":50,\"hostname\":\"h\",\"pid\":1,\"level\":\"debug\",\"name\":\"pnpm:fetching-progress\",\"status\":\"in_progress\",\"packageId\":\"ghost\",\"downloaded\":10}",
    ]);
    let diags: Vec<&String> = out
        .iter()
        .filter(|l| l.contains("never started"))
        .collect();
    assert_eq!(diags.len(), 1);
    assert_eq!(
        diags[0],
        "Fetching progress for a package that never started: \"ghost\""
    );
    assert!(out.iter().all(|l| !l.contains("finished fetching")));
}

#[test]
fn restart_resets_tracking() {
    let out = run(&[
        "{\"time\":0,\"hostname\":\"h\",\"pid\":1,\"level\":\"debug\",\"name\":\"pnpm:fetching-progress\",\"status\":\"started\",\"attempt\":1,\"packageId\":\"a\",\"size\":10}",
        "{\"time\":100,\"hostname\":\"h\",\"pid\":1,\"level\":\"debug\",\"name\":\"pnpm:fetching-progress\",\"status\":\"started\",\"attempt\":2,\"packageId\":\"a\",\"size\":20}",
        "{\"time\":150,\"hostname\":\"h\",\"pid\":1,\"level\":\"debug\",\"name\":\"pnpm:fetching-progress\",\"status\":\"in_progress\",\"packageId\":\"a\",\"downloaded\":20}",
    ]);
    assert!(out.contains(&"\"a\" finished fetching in 50ms".to_string()));
}

#[test]
fn first_completion_wins() {
    let out = run(&[
        "{\"time\":0,\"hostname\":\"h\",\"pid\":1,\"level\":\"debug\",\"name\":\"pnpm:fetching-progress\",\"status\":\"started\",\"attempt\":1,\"packageId\":\"a\",\"size\":5}",
        "{\"time\":30,\"hostname\":\"h\",\"pid\":1,\"level\":\"debug\",\"name\":\"pnpm:fetching-progress\",\"status\":\"in_progress\",\"packageId\":\"a\",\"downloaded\":5}",
        "{\"time\":80,\"hostname\":\"h\",\"pid\":1,\"level\":\"debug\",\"name\":\"pnpm:fetching-progress\",\"status\":\"in_progress\",\"packageId\":\"a\",\"downloaded\":5}",
    ]);
    assert!(out.contains(&"\"a\" finished fetching in 30ms".to_string()));
}

#[test]
fn phase_window_is_positional_not_chronological() {
    let out = run(&[
        &header(100, "pnpm:hook"),
        &header(5, "pnpm:hook"),
        &header(40, "pnpm:hook"),
    ]);
    assert!(out.contains(&"pnpm hook finished in -60ms".to_string()));
}

#[test]
fn overall_window_spans_first_to_last_line() {
    let out = run(&[
        &header(10, "pnpm:context"),
        &header(4, "pnpm:stage"),
        &header(250, "pnpm:summary"),
    ]);
    assert!(out.contains(&"pnpm install finished in 240ms".to_string()));
}

#[test]
fn phase_without_records_emits_nothing() {
    let out = run(&[&header(0, "pnpm:hook"), &header(9, "pnpm:hook")]);
    assert!(out.contains(&"pnpm hook finished in 9ms".to_string()));
    assert!(out.iter().all(|l| !l.contains("pnpm link finished")));
    assert!(out.iter().all(|l| !l.contains("pnpm lifecycle finished")));
    assert!(out.iter().all(|l| !l.contains("pnpm dependency resolution finished")));
}

#[test]
fn dependency_resolution_window() {
    let out = run(&[
        "{\"time\":3,\"hostname\":\"h\",\"pid\":1,\"level\":\"debug\",\"name\":\"pnpm:_dependency_resolved\",\"resolution\":\"x\"}",
        &header(50, "pnpm:lifecycle"),
        "{\"time\":21,\"hostname\":\"h\",\"pid\":1,\"level\":\"debug\",\"name\":\"pnpm:_dependency_resolved\",\"resolution\":\"y\"}",
    ]);
    assert!(out.contains(&"pnpm dependency resolution finished in 18ms".to_string()));
    assert!(out.contains(&"pnpm lifecycle finished in 0ms".to_string()));
}

#[test]
fn end_to_end_example() {
    let out = run(&[
        "{\"time\":0,\"hostname\":\"h\",\"pid\":1,\"level\":\"debug\",\"name\":\"pnpm:fetching-progress\",\"status\":\"started\",\"attempt\":1,\"packageId\":\"a\",\"size\":10}",
        "{\"time\":50,\"hostname\":\"h\",\"pid\":1,\"level\":\"debug\",\"name\":\"pnpm:fetching-progress\",\"status\":\"in_progress\",\"packageId\":\"a\",\"downloaded\":10}",
        &header(100, "pnpm:hook"),
    ]);
    assert!(out.contains(&"\"a\" finished fetching in 50ms".to_string()));
    assert!(out.contains(&"pnpm hook finished in 0ms".to_string()));
    assert!(out.contains(&"pnpm install finished in 100ms".to_string()));
}

#[test]
fn thousands_are_separated() {
    let out = run(&[
        "{\"time\":0,\"hostname\":\"h\",\"pid\":1,\"level\":\"debug\",\"name\":\"pnpm:fetching-progress\",\"status\":\"started\",\"attempt\":1,\"packageId\":\"big\",\"size\":1}",
        "{\"time\":1234567,\"hostname\":\"h\",\"pid\":1,\"level\":\"debug\",\"name\":\"pnpm:fetching-progress\",\"status\":\"in_progress\",\"packageId\":\"big\",\"downloaded\":1}",
    ]);
    assert!(out.contains(&"\"big\" finished fetching in 1,234,567ms".to_string()));
}

#[test]
fn empty_input_yields_no_lines() {
    let out = run(&[]);
    assert!(out.is_empty());
}

#[test]
fn probe_pass_decode_failure_aborts() {
    assert_eq!(run_err(&["{\"time\":1}"]), DecodeError::BadHostname);
    assert_eq!(
        run_err(&["{\"time\":1,\"hostname\":\"h\"}"]),
        DecodeError::BadPid
    );
    assert_eq!(
        run_err(&["{\"time\":1,\"hostname\":\"h\",\"pid\":\"one\",\"level\":\"info\",\"name\":\"pnpm:hook\"}"]),
        DecodeError::BadPid
    );
    assert_eq!(
        run_err(&["{\"time\":1,\"hostname\":\"h\",\"pid\":1,\"level\":\"loud\",\"name\":\"pnpm:hook\"}"]),
        DecodeError::BadLevel
    );
    assert_eq!(
        run_err(&["{\"time\":1,\"hostname\":\"h\",\"pid\":1,\"level\":\"Info\",\"name\":\"pnpm:hook\"}"]),
        DecodeError::BadLevel
    );
    assert_eq!(
        run_err(&["{\"time\":1,\"hostname\":\"h\",\"pid\":1,\"level\":\"info\"}"]),
        DecodeError::BadName
    );
    assert_eq!(
        run_err(&["{\"time\":1,\"hostname\":\"h\",\"pid\":1,\"level\":\"info\",\"name\":\"pnpm:scope\"}"]),
        DecodeError::BadPayload
    );
    assert_eq!(
        run_err(&["{\"time\":1,\"hostname\":\"h\",\"pid\":1,\"level\":\"info\",\"name\":\"pnpm:fetching-progress\",\"status\":\"paused\"}"]),
        DecodeError::BadPayload
    );
    assert_eq!(
        run_err(&["{\"time\":8210266876800000,\"hostname\":\"h\",\"pid\":1,\"level\":\"info\",\"name\":\"pnpm:hook\"}"]),
        DecodeError::TimeOutOfRange
    );
    assert_eq!(
        run_err(&["{\"time\":1,\"hostname\":\"h\",\"pid\":5000000000,\"level\":\"info\",\"name\":\"pnpm:hook\"}"]),
        DecodeError::BadPid
    );
}

#[test]
fn decode_failure_stops_at_first_bad_line() {
    let err = run_err(&[
        &header(0, "pnpm:hook"),
        "{\"time\":1,\"hostname\":77}",
        "{\"time\":2,\"hostname\":\"h\",\"pid\":true}",
    ]);
    assert_eq!(err, DecodeError::BadHostname);
}

#[test]
fn missing_time_is_bad_time() {
    assert_eq!(
        decode_line("{\"hostname\":\"h\"}").expect_err("no time field"),
        DecodeError::BadTime
    );
}

#[test]
fn non_objects_are_not_records() {
    assert_eq!(
        decode_line("plain text").expect_err("not JSON"),
        DecodeError::NotAnObject
    );
    assert_eq!(
        decode_line("[1,2]").expect_err("not an object"),
        DecodeError::NotAnObject
    );
}

#[test]
fn unknown_tags_decode_without_failing() {
    let out = run(&[
        &header(0, "npm:something-else"),
        &header(25, "pnpm:hook"),
    ]);
    assert!(out.contains(&"pnpm install finished in 25ms".to_string()));
    assert!(out.contains(&"pnpm hook finished in 0ms".to_string()));
}

#[test]
fn all_severities_decode() {
    for (level, expected) in [
        ("debug", LogLevel::Debug),
        ("info", LogLevel::Info),
        ("warn", LogLevel::Warn),
        ("error", LogLevel::Error),
    ] {
        let line = format!(
            "{{\"time\":1,\"hostname\":\"h\",\"pid\":1,\"level\":\"{}\",\"name\":\"pnpm:hook\"}}",
            level
        );
        let rec = decode_line(&line).expect("a record");
        assert_eq!(rec.level, expected);
        assert!(matches!(rec.event, PnpmLogEvent::Hook));
    }
}

#[test]
fn message_fields_decode() {
    let rec = decode_line(
        "{\"time\":7,\"hostname\":\"box\",\"pid\":42,\"level\":\"warn\",\"name\":\"pnpm\",\"message\":\"hi\",\"prefix\":\"/tmp/x\"}",
    )
    .expect("a record");
    assert_eq!(rec.time, 7);
    assert_eq!(rec.hostname, "box");
    assert_eq!(rec.pid, 42);
    match &rec.event {
        PnpmLogEvent::Message { message, prefix } => {
            assert_eq!(message, "hi");
            assert_eq!(prefix.as_deref(), Some("/tmp/x"));
        }
        other => panic!("unexpected event {:?}", other),
    }
}

#[test]
fn null_prefix_means_no_prefix() {
    let rec = decode_line(
        "{\"time\":7,\"hostname\":\"box\",\"pid\":42,\"level\":\"warn\",\"name\":\"pnpm\",\"message\":\"hi\",\"prefix\":null}",
    )
    .expect("a record");
    match &rec.event {
        PnpmLogEvent::Message { prefix, .. } => assert!(prefix.is_none()),
        other => panic!("unexpected event {:?}", other),
    }
}

fn assert_round_trips(line: &str) {
    let rec: PnpmLogLine = decode_line(line).expect("a record");
    let encoded = encode_record(&rec);
    let again = decode_record(&encoded).expect("re-decoding the encoding");
    assert_eq!(rec.time, again.time);
    assert_eq!(rec.hostname, again.hostname);
    assert_eq!(rec.pid, again.pid);
    assert_eq!(rec.level, again.level);
    assert_eq!(format!("{:?}", rec.event), format!("{:?}", again.event));
}

#[test]
fn round_trip_is_lossless_for_every_known_tag() {
    for tag in [
        "pnpm:package-manifest",
        "pnpm:context",
        "pnpm:stage",
        "pnpm:hook",
        "pnpm:deprecation",
        "pnpm:stats",
        "pnpm:package-import-method",
        "pnpm:root",
        "pnpm:progress",
        "pnpm:install-check",
        "pnpm:skipped-optional-dependency",
        "pnpm:link",
        "pnpm:lifecycle",
        "pnpm:lockfile",
        "pnpm:summary",
        "no-such-tag",
    ] {
        assert_round_trips(&header(99, tag));
    }
    assert_round_trips(
        "{\"time\":1,\"hostname\":\"h\",\"pid\":2,\"level\":\"error\",\"name\":\"pnpm\",\"message\":\"m\",\"prefix\":\"p\"}",
    );
    assert_round_trips(
        "{\"time\":1,\"hostname\":\"h\",\"pid\":2,\"level\":\"debug\",\"name\":\"pnpm\",\"message\":\"m\"}",
    );
    assert_round_trips(
        "{\"time\":1,\"hostname\":\"h\",\"pid\":2,\"level\":\"info\",\"name\":\"pnpm:global\",\"message\":\"g\"}",
    );
    assert_round_trips(
        "{\"time\":1,\"hostname\":\"h\",\"pid\":2,\"level\":\"info\",\"name\":\"pnpm:scope\",\"selected\":12}",
    );
    assert_round_trips(
        "{\"time\":1,\"hostname\":\"h\",\"pid\":2,\"level\":\"info\",\"name\":\"pnpm:_dependency_resolved\",\"resolution\":\"r\"}",
    );
    assert_round_trips(
        "{\"time\":1,\"hostname\":\"h\",\"pid\":2,\"level\":\"info\",\"name\":\"pnpm:fetching-progress\",\"status\":\"started\",\"attempt\":3,\"packageId\":\"a\",\"size\":10}",
    );
    assert_round_trips(
        "{\"time\":1,\"hostname\":\"h\",\"pid\":2,\"level\":\"info\",\"name\":\"pnpm:fetching-progress\",\"status\":\"in_progress\",\"packageId\":\"a\",\"downloaded\":4}",
    );
}

#[test]
fn output_order_is_diagnostics_facts_phases_overall() {
    let out = run(&[
        "{\"time\":5,\"hostname\":\"h\",\"pid\":1,\"level\":\"debug\",\"name\":\"pnpm:fetching-progress\",\"status\":\"in_progress\",\"packageId\":\"ghost\",\"downloaded\":1}",
        "{\"time\":10,\"hostname\":\"h\",\"pid\":1,\"level\":\"debug\",\"name\":\"pnpm:fetching-progress\",\"status\":\"started\",\"attempt\":1,\"packageId\":\"a\",\"size\":2}",
        "{\"time\":30,\"hostname\":\"h\",\"pid\":1,\"level\":\"debug\",\"name\":\"pnpm:fetching-progress\",\"status\":\"in_progress\",\"packageId\":\"a\",\"downloaded\":2}",
        &header(40, "pnpm:link"),
    ]);
    assert_eq!(
        out,
        vec![
            "Fetching progress for a package that never started: \"ghost\"".to_string(),
            "\"a\" finished fetching in 20ms".to_string(),
            "pnpm link finished in 0ms".to_string(),
            "pnpm install finished in 35ms".to_string(),
        ]
    );
}
