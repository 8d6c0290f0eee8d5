use conswol::build_state::{
    absorb_build_event, build_outcome, combine_output, current_diagnostic_count,
    default_working_dir, exit_code_or_sentinel, finish_build, handle_build_request,
    BuildChannelEvent, BuildDecision, BuildResult, BuildState, CommandConfig, MainState,
    MainWindow, Project,
};
use conswol::diagnostics::Severity;
use conswol::matcher::PatternMatcherSpec;

fn sh_echo_config() -> CommandConfig {
    CommandConfig {
        working_dir: default_working_dir(),
        command: String::from("sh"),
        args: vec![String::from("-c"), String::from("echo err.c:3:5: error: bad")],
    }
}

fn state_with(build_cmd: Option<CommandConfig>, build_state: BuildState) -> MainState {
    MainState {
        project: Project {
            dir: String::from("."),
            build_cmd,
            run_cmd: None,
            problem_matcher: None,
        },
        main_window: MainWindow::Shell,
        build_state,
        selected_message: None,
    }
}

#[test]
fn request_while_in_progress_is_ignored() {
    let st = state_with(Some(sh_echo_config()), BuildState::InProgress);
    let d = handle_build_request(&st);
    assert_eq!(d, BuildDecision::BuildInProgress);
    assert!(matches!(st.build_state, BuildState::InProgress));
}

#[test]
fn request_without_command_is_ignored() {
    let st = state_with(None, BuildState::NoBuild);
    assert_eq!(handle_build_request(&st), BuildDecision::NoBuildCommand);
}

#[test]
fn request_starts_from_any_settled_state() {
    let st = state_with(Some(sh_echo_config()), BuildState::NoBuild);
    assert_eq!(handle_build_request(&st), BuildDecision::Start);
    let st2 = state_with(Some(sh_echo_config()), BuildState::InvocationFailed);
    assert_eq!(handle_build_request(&st2), BuildDecision::Start);
    let st3 = state_with(
        Some(sh_echo_config()),
        BuildState::Finished(BuildResult { exit_code: 0, diagnostics: Vec::new() }),
    );
    assert_eq!(handle_build_request(&st3), BuildDecision::Start);
}

#[test]
fn spawn_failure_becomes_invocation_failed() {
    let s = build_outcome(None, None);
    assert_eq!(s, BuildState::InvocationFailed);
}

#[test]
fn completed_process_becomes_finished() {
    let s = build_outcome(Some((3, b"x".to_vec())), None);
    match s {
        BuildState::Finished(br) => {
            assert_eq!(br.exit_code, 3);
            assert_eq!(br.diagnostics.len(), 1);
            assert_eq!(br.diagnostics[0].content, b"x".to_vec());
        },
        _ => panic!("expected a finished build"),
    }
}

#[test]
fn echoed_diagnostic_round_trip() {
    let pm = PatternMatcherSpec {
        pattern: String::from(r"(\S+):(\d+):(\d+): (\w+): (.*)"),
        file_group: Some(1),
        line_group: Some(2),
        col_group: Some(3),
        severity_group: Some(4),
        severity_mapper: None,
    };
    let raw = b"err.c:3:5: error: bad\n".to_vec();
    let s = finish_build(0, &raw, Some(&pm));
    match s {
        BuildState::Finished(br) => {
            assert_eq!(br.exit_code, 0);
            assert_eq!(br.diagnostics.len(), 1);
            let d = &br.diagnostics[0];
            assert_eq!(d.file, Some(b"err.c".to_vec()));
            assert_eq!(d.line, Some(3));
            assert_eq!(d.col, Some(5));
            assert_eq!(d.severity, Some(Severity::Error));
            assert_eq!(d.content, b"err.c:3:5: error: bad\n".to_vec());
        },
        _ => panic!("expected a finished build"),
    }
}

#[test]
fn undecodable_output_degrades_to_placeholder() {
    let raw = vec![0xffu8, 0x00, 0x9f];
    let s = finish_build(1, &raw, None);
    match s {
        BuildState::Finished(br) => {
            assert_eq!(br.exit_code, 1);
            assert_eq!(br.diagnostics.len(), 1);
            assert_eq!(br.diagnostics[0].content, b"(diagnostics unavailable)".to_vec());
        },
        _ => panic!("expected a finished build"),
    }
}

#[test]
fn bad_pattern_degrades_to_placeholder() {
    let pm = PatternMatcherSpec {
        pattern: String::from("(oops"),
        file_group: None,
        line_group: None,
        col_group: None,
        severity_group: None,
        severity_mapper: None,
    };
    let s = finish_build(0, b"fine output", Some(&pm));
    match s {
        BuildState::Finished(br) => {
            assert_eq!(br.diagnostics.len(), 1);
            assert_eq!(br.diagnostics[0].content, b"(diagnostics unavailable)".to_vec());
        },
        _ => panic!("expected a finished build"),
    }
}

#[test]
fn stdout_fully_precedes_stderr() {
    let r = combine_output(b"out".to_vec(), b"err".to_vec());
    assert_eq!(r, b"outerr".to_vec());
    let r2 = combine_output(Vec::new(), b"only".to_vec());
    assert_eq!(r2, b"only".to_vec());
}

#[test]
fn missing_exit_code_maps_to_sentinel() {
    assert_eq!(exit_code_or_sentinel(Some(5)), 5);
    assert_eq!(exit_code_or_sentinel(Some(0)), 0);
    assert_eq!(exit_code_or_sentinel(None), -1);
}

#[test]
fn absorb_nothing_keeps_state() {
    let s = absorb_build_event(BuildState::InProgress, BuildChannelEvent::Empty);
    assert_eq!(s, BuildState::InProgress);
}

#[test]
fn absorb_received_replaces_state() {
    let s = absorb_build_event(
        BuildState::InProgress,
        BuildChannelEvent::Received(BuildState::Finished(BuildResult {
            exit_code: 0,
            diagnostics: Vec::new(),
        })),
    );
    assert!(matches!(s, BuildState::Finished(_)));
}

#[test]
fn abandoned_build_becomes_invocation_failed() {
    let s = absorb_build_event(BuildState::InProgress, BuildChannelEvent::Closed);
    assert_eq!(s, BuildState::InvocationFailed);
    let s2 = absorb_build_event(BuildState::NoBuild, BuildChannelEvent::Closed);
    assert_eq!(s2, BuildState::InvocationFailed);
}

#[test]
fn closed_channel_after_terminal_state_keeps_it() {
    let fin = BuildState::Finished(BuildResult { exit_code: 2, diagnostics: Vec::new() });
    let s = absorb_build_event(fin, BuildChannelEvent::Closed);
    match s {
        BuildState::Finished(br) => assert_eq!(br.exit_code, 2),
        _ => panic!("expected the finished state to be kept"),
    }
}

#[test]
fn default_working_dir_is_project_root() {
    assert_eq!(default_working_dir(), String::from("./"));
}

#[test]
fn diagnostic_count_is_zero_unless_finished() {
    assert_eq!(current_diagnostic_count(&BuildState::NoBuild), 0);
    assert_eq!(current_diagnostic_count(&BuildState::InProgress), 0);
    assert_eq!(current_diagnostic_count(&BuildState::InvocationFailed), 0);
    let s = build_outcome(Some((0, b"a\nb".to_vec())), None);
    assert_eq!(current_diagnostic_count(&s), 1);
}
