use worker_bridge::events::{
    completion_event, event_payload, event_topic, line_event, spawn_failure_event, Channel, Event,
};
use worker_bridge::explorer::file_browser_invocation;
use worker_bridge::paths::Platform;
use worker_bridge::relay::{relay_events, LineRead};
use worker_bridge::run::{merge_events, run_events, spawn_outcome_event, SpawnOutcome};

fn log_text(e: &Event) -> &str {
    match e {
        Event::Log(text) => text,
        Event::Complete => panic!("expected a log event"),
    }
}

fn is_complete(e: &Event) -> bool {
    matches!(e, Event::Complete)
}

#[test]
fn stdout_line_passes_through() {
    let e = line_event(Channel::Stdout, "fetching page 1".to_string());
    assert_eq!(log_text(&e), "fetching page 1");
}

#[test]
fn stderr_line_is_marked() {
    let e = line_event(Channel::Stderr, "timeout".to_string());
    assert_eq!(log_text(&e), "[ERROR] timeout");
}

#[test]
fn event_topics_and_payloads() {
    let log = line_event(Channel::Stdout, "x".to_string());
    assert_eq!(event_topic(&log), "scraping-log");
    assert_eq!(event_payload(log), "x");
    let done = completion_event();
    assert_eq!(event_topic(&done), "scraping-complete");
    assert_eq!(event_payload(done), "done");
}

#[test]
fn spawn_failure_is_described() {
    let e = spawn_failure_event(
        &"No such file".to_string(),
        &"/proj/.venv/bin/python".to_string(),
        &"/proj".to_string(),
    );
    assert_eq!(
        log_text(&e),
        "Failed to spawn python process: No such file. Python path: /proj/.venv/bin/python, Project root: /proj"
    );
}

#[test]
fn relay_preserves_clean_stream() {
    let reads = vec![
        LineRead::Line("one".to_string()),
        LineRead::Line("two".to_string()),
        LineRead::Line("three".to_string()),
    ];
    let events = relay_events(Channel::Stdout, &reads);
    let texts: Vec<&str> = events.iter().map(log_text).collect();
    assert_eq!(texts, vec!["one", "two", "three"]);
}

#[test]
fn relay_marks_stderr_lines() {
    let reads = vec![
        LineRead::Line("warn".to_string()),
        LineRead::Line("fail".to_string()),
    ];
    let events = relay_events(Channel::Stderr, &reads);
    let texts: Vec<&str> = events.iter().map(log_text).collect();
    assert_eq!(texts, vec!["[ERROR] warn", "[ERROR] fail"]);
}

#[test]
fn malformed_line_is_skipped_not_fatal() {
    let reads = vec![
        LineRead::Line("before".to_string()),
        LineRead::Malformed,
        LineRead::Line("after".to_string()),
        LineRead::Line("later".to_string()),
    ];
    let events = relay_events(Channel::Stdout, &reads);
    let texts: Vec<&str> = events.iter().map(log_text).collect();
    assert_eq!(texts, vec!["before", "after", "later"]);
}

#[test]
fn interleaved_relays_drop_and_duplicate_nothing() {
    let out_events = relay_events(
        Channel::Stdout,
        &vec![
            LineRead::Line("o1".to_string()),
            LineRead::Line("o2".to_string()),
            LineRead::Line("o3".to_string()),
        ],
    );
    let err_events = relay_events(
        Channel::Stderr,
        &vec![LineRead::Line("e1".to_string()), LineRead::Line("e2".to_string())],
    );
    let sched = vec![
        Channel::Stderr,
        Channel::Stdout,
        Channel::Stdout,
        Channel::Stderr,
        Channel::Stdout,
    ];
    let merged = merge_events(&sched, &out_events, &err_events);
    let texts: Vec<&str> = merged.iter().map(log_text).collect();
    assert_eq!(texts, vec!["[ERROR] e1", "o1", "o2", "[ERROR] e2", "o3"]);
}

#[test]
fn run_delivers_all_lines_then_completes() {
    let out_reads = vec![
        LineRead::Line("page 1".to_string()),
        LineRead::Line("page 2".to_string()),
    ];
    let err_reads = vec![LineRead::Line("retrying".to_string())];
    let sched = vec![Channel::Stdout, Channel::Stderr, Channel::Stdout];
    let events = run_events(
        &SpawnOutcome::Spawned,
        &"/proj/.venv/bin/python".to_string(),
        &"/proj".to_string(),
        &out_reads,
        &err_reads,
        &sched,
    );
    assert_eq!(events.len(), 4);
    assert_eq!(log_text(&events[0]), "page 1");
    assert_eq!(log_text(&events[1]), "[ERROR] retrying");
    assert_eq!(log_text(&events[2]), "page 2");
    assert!(is_complete(&events[3]));
    assert_eq!(events.iter().filter(|e| is_complete(e)).count(), 1);
}

#[test]
fn silent_worker_still_completes_once() {
    let out_reads: Vec<LineRead> = Vec::new();
    let err_reads: Vec<LineRead> = Vec::new();
    let sched: Vec<Channel> = Vec::new();
    let events = run_events(
        &SpawnOutcome::Spawned,
        &"/p/python".to_string(),
        &"/p".to_string(),
        &out_reads,
        &err_reads,
        &sched,
    );
    assert_eq!(events.len(), 1);
    assert!(is_complete(&events[0]));
}

#[test]
fn overlong_schedule_invents_nothing() {
    let out_events = relay_events(
        Channel::Stdout,
        &vec![LineRead::Line("only".to_string())],
    );
    let err_events: Vec<Event> = Vec::new();
    let sched = vec![Channel::Stdout, Channel::Stdout, Channel::Stderr];
    let merged = merge_events(&sched, &out_events, &err_events);
    let texts: Vec<&str> = merged.iter().map(log_text).collect();
    assert_eq!(texts, vec!["only"]);
}

#[test]
fn failed_spawn_yields_one_diagnostic_and_no_completion() {
    let out_reads: Vec<LineRead> = Vec::new();
    let err_reads: Vec<LineRead> = Vec::new();
    let sched: Vec<Channel> = Vec::new();
    let events = run_events(
        &SpawnOutcome::Failed("permission denied".to_string()),
        &"/proj/.venv/bin/python".to_string(),
        &"/proj".to_string(),
        &out_reads,
        &err_reads,
        &sched,
    );
    assert_eq!(events.len(), 1);
    assert_eq!(
        log_text(&events[0]),
        "Failed to spawn python process: permission denied. Python path: /proj/.venv/bin/python, Project root: /proj"
    );
    assert!(events.iter().all(|e| !is_complete(e)));
}

#[test]
fn spawn_outcome_event_only_on_failure() {
    let interpreter = "/p/python".to_string();
    let workdir = "/p".to_string();
    assert!(spawn_outcome_event(&SpawnOutcome::Spawned, &interpreter, &workdir).is_none());
    let diag = spawn_outcome_event(
        &SpawnOutcome::Failed("boom".to_string()),
        &interpreter,
        &workdir,
    )
    .unwrap();
    assert_eq!(
        log_text(&diag),
        "Failed to spawn python process: boom. Python path: /p/python, Project root: /p"
    );
}

#[test]
fn file_browser_selects_existing_file() {
    let (program, args) =
        file_browser_invocation(Platform::Windows, &"C:\\out\\r.csv".to_string(), true, true)
            .unwrap();
    assert_eq!(program, "explorer");
    assert_eq!(args, vec!["/select,", "C:\\out\\r.csv"]);
}

#[test]
fn file_browser_opens_directory() {
    let (program, args) =
        file_browser_invocation(Platform::Windows, &"C:\\out".to_string(), true, false).unwrap();
    assert_eq!(program, "explorer");
    assert_eq!(args, vec!["C:\\out"]);
}

#[test]
fn file_browser_is_noop_elsewhere() {
    assert!(file_browser_invocation(Platform::Unix, &"/out".to_string(), true, true).is_none());
}
