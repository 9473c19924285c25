use backend_launcher::interpreter_locator::{interpreter_candidates, Platform};
use backend_launcher::log_format::{
    exhausted_line_text, failure_line_text, log_record_text, resolved_line_text, skip_line_text,
    success_line_text, u64_to_dec,
};
use backend_launcher::orchestrator::{LaunchStatus, Orchestrator};
use backend_launcher::script_locator::{
    backend_script_candidates, resources_script_path_under, script_path_under, select_existing,
};

#[test]
fn candidates_all_sources_distinct() {
    let got = backend_script_candidates(Some("/res"), Some("/exe"), Some("/cwd"));
    assert_eq!(
        got,
        vec![
            "/res/server/index.js".to_string(),
            "/exe/resources/server/index.js".to_string(),
            "/exe/server/index.js".to_string(),
            "/cwd/server/index.js".to_string(),
        ]
    );
}

#[test]
fn candidates_duplicate_roots_keep_first_occurrence() {
    // The executable directory and the working directory coincide: the
    // working directory's candidate is a duplicate and loses.
    let got = backend_script_candidates(Some("/res"), Some("/app"), Some("/app"));
    assert_eq!(
        got,
        vec![
            "/res/server/index.js".to_string(),
            "/app/resources/server/index.js".to_string(),
            "/app/server/index.js".to_string(),
        ]
    );
}

#[test]
fn candidates_missing_sources_are_skipped() {
    let got = backend_script_candidates(None, Some("/exe"), Some("/cwd"));
    assert_eq!(
        got,
        vec![
            "/exe/resources/server/index.js".to_string(),
            "/exe/server/index.js".to_string(),
            "/cwd/server/index.js".to_string(),
        ]
    );
}

#[test]
fn candidates_no_sources_no_candidates() {
    let got = backend_script_candidates(None, None, None);
    assert!(got.is_empty());
}

#[test]
fn path_helpers_join_the_fixed_layout() {
    assert_eq!(script_path_under("/root"), "/root/server/index.js");
    assert_eq!(
        resources_script_path_under("/root"),
        "/root/resources/server/index.js"
    );
}

#[test]
fn select_existing_returns_sole_present_candidate() {
    let candidates = vec![
        "a".to_string(),
        "b".to_string(),
        "c".to_string(),
        "d".to_string(),
    ];
    // Only the third candidate exists; it wins despite its low priority.
    let present = vec![false, false, true, false];
    assert_eq!(select_existing(&candidates, &present), Some("c".to_string()));
}

#[test]
fn select_existing_prefers_higher_priority() {
    let candidates = vec![
        "a".to_string(),
        "b".to_string(),
        "c".to_string(),
        "d".to_string(),
    ];
    let present = vec![false, true, false, true];
    assert_eq!(select_existing(&candidates, &present), Some("b".to_string()));
}

#[test]
fn select_existing_none_present() {
    let candidates = vec!["a".to_string(), "b".to_string()];
    let present = vec![false, false];
    assert_eq!(select_existing(&candidates, &present), None);
}

#[test]
fn interpreters_other_platform_bare_name_only() {
    let got = interpreter_candidates(
        Platform::Other,
        Some("C:/Program Files"),
        Some("C:/Program Files (x86)"),
    );
    assert_eq!(got, vec!["node".to_string()]);
}

#[test]
fn interpreters_windows_both_variables_set() {
    let got = interpreter_candidates(
        Platform::Windows,
        Some("C:/Program Files"),
        Some("C:/Program Files (x86)"),
    );
    assert_eq!(
        got,
        vec![
            "node".to_string(),
            "C:/Program Files/nodejs/node.exe".to_string(),
            "C:/Program Files (x86)/nodejs/node.exe".to_string(),
        ]
    );
}

#[test]
fn interpreters_windows_one_variable_set() {
    let got = interpreter_candidates(Platform::Windows, Some("C:/Program Files"), None);
    assert_eq!(
        got,
        vec![
            "node".to_string(),
            "C:/Program Files/nodejs/node.exe".to_string(),
        ]
    );
}

#[test]
fn interpreters_windows_no_variables_set() {
    let got = interpreter_candidates(Platform::Windows, None, None);
    assert_eq!(got, vec!["node".to_string()]);
}

#[test]
fn decimal_rendering_exact_values() {
    assert_eq!(u64_to_dec(0), "0");
    assert_eq!(u64_to_dec(7), "7");
    assert_eq!(u64_to_dec(10), "10");
    assert_eq!(u64_to_dec(905), "905");
    assert_eq!(u64_to_dec(u64::MAX), "18446744073709551615");
}

#[test]
fn log_line_texts_are_exact() {
    assert_eq!(
        skip_line_text(),
        "backend startup skipped: server/index.js not found"
    );
    assert_eq!(
        resolved_line_text("/srv/server/index.js"),
        "backend script resolved to /srv/server/index.js"
    );
    assert_eq!(
        failure_line_text("node", "No such file or directory"),
        "backend start failed via 'node': No such file or directory"
    );
    assert_eq!(
        success_line_text("node", 4711),
        "backend started via 'node' with pid 4711"
    );
    assert_eq!(
        exhausted_line_text(),
        "backend failed to start with all node candidates"
    );
    assert_eq!(
        log_record_text("SystemTime { .. }", "hello"),
        "[SystemTime { .. }] hello"
    );
}

#[test]
fn orchestrator_without_script_never_spawns() {
    let (orchestrator, lines) = Orchestrator::new(
        None,
        vec!["node".to_string(), "/opt/node".to_string()],
    );
    assert_eq!(
        lines,
        vec!["backend startup skipped: server/index.js not found".to_string()]
    );
    assert_eq!(orchestrator.status(), LaunchStatus::NotFound);
    assert!(orchestrator.next_request().is_none());
    assert_eq!(orchestrator.log_lines().len(), 1);
}

#[test]
fn orchestrator_stops_at_first_success() {
    let (mut orchestrator, lines) = Orchestrator::new(
        Some("/srv/server/index.js".to_string()),
        vec!["a".to_string(), "b".to_string(), "c".to_string()],
    );
    assert_eq!(
        lines,
        vec!["backend script resolved to /srv/server/index.js".to_string()]
    );

    let first = orchestrator.next_request().unwrap();
    assert_eq!(first.interpreter, "a");
    assert_eq!(first.script, "/srv/server/index.js");
    let lines = orchestrator.on_spawn_result(Err("boom".to_string()));
    assert_eq!(lines, vec!["backend start failed via 'a': boom".to_string()]);

    let second = orchestrator.next_request().unwrap();
    assert_eq!(second.interpreter, "b");
    let lines = orchestrator.on_spawn_result(Ok(42));
    assert_eq!(lines, vec!["backend started via 'b' with pid 42".to_string()]);

    // The run is over: the third candidate is never requested.
    assert!(orchestrator.next_request().is_none());
    assert_eq!(orchestrator.status(), LaunchStatus::Started(42));
    assert_eq!(
        orchestrator.log_lines(),
        &vec![
            "backend script resolved to /srv/server/index.js".to_string(),
            "backend start failed via 'a': boom".to_string(),
            "backend started via 'b' with pid 42".to_string(),
        ]
    );
}

#[test]
fn orchestrator_logs_every_failure_then_exhaustion() {
    let (mut orchestrator, _) = Orchestrator::new(
        Some("/srv/server/index.js".to_string()),
        vec!["a".to_string(), "b".to_string()],
    );

    let first = orchestrator.next_request().unwrap();
    assert_eq!(first.interpreter, "a");
    let lines = orchestrator.on_spawn_result(Err("not found".to_string()));
    assert_eq!(
        lines,
        vec!["backend start failed via 'a': not found".to_string()]
    );

    let second = orchestrator.next_request().unwrap();
    assert_eq!(second.interpreter, "b");
    let lines = orchestrator.on_spawn_result(Err("permission denied".to_string()));
    assert_eq!(
        lines,
        vec![
            "backend start failed via 'b': permission denied".to_string(),
            "backend failed to start with all node candidates".to_string(),
        ]
    );

    assert!(orchestrator.next_request().is_none());
    assert_eq!(orchestrator.status(), LaunchStatus::Exhausted);
    assert_eq!(
        orchestrator.log_lines(),
        &vec![
            "backend script resolved to /srv/server/index.js".to_string(),
            "backend start failed via 'a': not found".to_string(),
            "backend start failed via 'b': permission denied".to_string(),
            "backend failed to start with all node candidates".to_string(),
        ]
    );
}

#[test]
fn orchestrator_with_script_but_no_interpreters_is_exhausted() {
    let (orchestrator, lines) = Orchestrator::new(
        Some("/srv/server/index.js".to_string()),
        Vec::new(),
    );
    assert_eq!(
        lines,
        vec![
            "backend script resolved to /srv/server/index.js".to_string(),
            "backend failed to start with all node candidates".to_string(),
        ]
    );
    assert_eq!(orchestrator.status(), LaunchStatus::Exhausted);
    assert!(orchestrator.next_request().is_none());
}
