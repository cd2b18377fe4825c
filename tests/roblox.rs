use bloxchat::bootstrap::{ScanStep, TailScan, INITIAL_WINDOW, MAX_WINDOW};
use bloxchat::events::{job_id_from_text_slice, EventPatterns, DEFAULT_JOB_ID};
use bloxchat::settings::{
    default_roblox_logs_path, get_job_id, get_roblox_logs_path, greet, set_roblox_logs_path,
    to_cmd, trimmed_path, validate_logs_path, LogSettingsState, LogsPathError,
};
use bloxchat::watch::{is_player_log, FsChange, FsEvent, TailCursor, WatchAction, WatchInput, WatchLoop};

fn patterns() -> EventPatterns {
    EventPatterns::new().unwrap()
}

#[test]
fn job_id_parsing_prefers_last_event() {
    let p = patterns();
    let join1 = "Joining game 'a1b2c3d4-1111-2222-3333-444455556666'";
    let join2 = "Joining game 'deadbeef-1111-2222-3333-444455556666'";

    let text = format!("{join1}\nblah\n{join2}\n");
    assert_eq!(
        job_id_from_text_slice(&p, &text).unwrap(),
        "deadbeef-1111-2222-3333-444455556666"
    );

    let text = format!("{join1}\nleaveGameInternal\n{join2}\nDisconnect from game\n");
    assert_eq!(job_id_from_text_slice(&p, &text).unwrap(), DEFAULT_JOB_ID);
}

#[test]
fn slice_without_events_resolves_to_nothing() {
    let p = patterns();
    assert_eq!(job_id_from_text_slice(&p, ""), None);
    assert_eq!(job_id_from_text_slice(&p, "just some noise\nJoining game 'XYZ'\n"), None);
}

#[test]
fn slice_of_joins_resolves_to_last_join() {
    let p = patterns();
    let text = "Joining game 'aaaa'\nJoining game 'bbbb'\nJoining game 'cccc-0001'\n";
    assert_eq!(job_id_from_text_slice(&p, text).unwrap(), "cccc-0001");
}

#[test]
fn slice_of_leaves_resolves_to_default() {
    let p = patterns();
    let text = "Disconnect from game\nleaveUGCGameInternal\nleaveGameInternal\n";
    assert_eq!(job_id_from_text_slice(&p, text).unwrap(), "global");
}

#[test]
fn latest_event_decides_in_mixed_slice() {
    let p = patterns();
    let text = "leaveGameInternal\nleaveGameInternal\nJoining game 'abc1'\nDisconnect from game\nJoining game 'abc2'\n";
    assert_eq!(job_id_from_text_slice(&p, text).unwrap(), "abc2");
    let text = "Joining game 'abc1'\nJoining game 'abc2'\nleaveUGCGameInternal\n";
    assert_eq!(job_id_from_text_slice(&p, text).unwrap(), "global");
    // Both on one line: the later one wins in a slice.
    let text = "Joining game 'abc1' then leaveGameInternal";
    assert_eq!(job_id_from_text_slice(&p, text).unwrap(), "global");
}

#[test]
fn line_fold_prefers_join_on_the_same_line() {
    let p = patterns();
    let lines = vec![
        "Joining game 'abc1' then leaveGameInternal".to_string(),
        "noise".to_string(),
    ];
    assert_eq!(p.fold_job_id("global".to_string(), &lines), "abc1");
    let lines = vec!["Joining game 'abc1'".to_string(), "Disconnect from game".to_string()];
    assert_eq!(p.fold_job_id("x".to_string(), &lines), "global");
    let lines: Vec<String> = vec!["noise".to_string()];
    assert_eq!(p.fold_job_id("keep".to_string(), &lines), "keep");
    assert_eq!(p.apply_line("before".to_string(), "Joining game 'ff-00'"), "ff-00");
}

#[test]
fn empty_file_scan_is_done_at_once() {
    let (_scan, step) = TailScan::start(0);
    assert_eq!(step, ScanStep::Done("global".to_string()));
}

#[test]
fn small_file_scan_reads_whole_file_then_falls_back() {
    let (mut scan, step) = TailScan::start(1000);
    assert_eq!(step, ScanStep::ReadTail { start: 0 });
    assert_eq!(scan.on_window(None), ScanStep::ReadAllLines);
}

#[test]
fn scan_stops_at_first_window_with_an_event() {
    let (mut scan, step) = TailScan::start(300 * 1024);
    assert_eq!(step, ScanStep::ReadTail { start: 300 * 1024 - INITIAL_WINDOW });
    assert_eq!(
        scan.on_window(Some("abc".to_string())),
        ScanStep::Done("abc".to_string())
    );
}

#[test]
fn scan_windows_double_up_to_the_cap() {
    let len: u64 = 20 * 1024 * 1024;
    let (mut scan, step) = TailScan::start(len);
    assert_eq!(step, ScanStep::ReadTail { start: len - 256 * 1024 });
    let mut expected = 256 * 1024u64;
    loop {
        let next = scan.on_window(None);
        if expected >= MAX_WINDOW {
            assert_eq!(next, ScanStep::ReadAllLines);
            break;
        }
        expected *= 2;
        assert_eq!(next, ScanStep::ReadTail { start: len - expected });
    }
    assert_eq!(expected, 8 * 1024 * 1024);
}

#[test]
fn scan_window_is_capped_by_file_length() {
    let len: u64 = 600 * 1024;
    let (mut scan, _) = TailScan::start(len);
    assert_eq!(scan.on_window(None), ScanStep::ReadTail { start: 600 * 1024 - 512 * 1024 });
    assert_eq!(scan.on_window(None), ScanStep::ReadTail { start: 0 });
    assert_eq!(scan.on_window(None), ScanStep::ReadAllLines);
}

#[test]
fn cursor_resets_on_rotation() {
    let mut c = TailCursor::new();
    assert_eq!(c.read_start(), 0);
    c.establish("a_Player.log".to_string(), 500);
    assert!(!c.observe("a_Player.log"));
    assert_eq!(c.read_start(), 500);
    assert!(c.observe("b_Player.log"));
    assert_eq!(c.read_start(), 0);
    assert_eq!(c.followed_file(), Some("b_Player.log".to_string()));
    c.advance(42);
    assert_eq!(c.read_start(), 42);
}

#[test]
fn player_log_marker() {
    assert!(is_player_log("C:\\logs\\0.1_Player_ABC_last.log"));
    assert!(!is_player_log("C:\\logs\\0.1_Studio_ABC_last.log"));
    assert!(!is_player_log(""));
}

#[test]
fn bootstrap_then_leave_end_to_end() {
    let p = patterns();
    let path = "logs/0_Player_1.log".to_string();
    let content = "Joining game 'aaaa-0000-1111'\nDisconnect from game\nJoining game 'bbbb-0000-2222'\n";
    let len = content.len() as u64;

    let mut w = WatchLoop::new("logs".to_string());
    let (mut scan, step) = TailScan::start(len);
    let start = match step {
        ScanStep::ReadTail { start } => start,
        other => panic!("unexpected {other:?}"),
    };
    assert_eq!(start, 0);
    let found = job_id_from_text_slice(&p, &content[start as usize..]);
    let resolved = match scan.on_window(found) {
        ScanStep::Done(id) => id,
        other => panic!("unexpected {other:?}"),
    };
    assert_eq!(resolved, "bbbb-0000-2222");
    let announced = w.finish_bootstrap(Some(path.clone()), len, resolved);
    assert_eq!(announced, Some("bbbb-0000-2222".to_string()));
    assert_eq!(w.job_id(), "bbbb-0000-2222");

    let appended = "leaveGameInternal\n";
    let action = w.step(
        None,
        Some(WatchInput::Event(FsEvent { kind: FsChange::Modify, path: path.clone() })),
    );
    assert_eq!(action, WatchAction::Tail { path: path.clone(), from: len });
    let lines = vec!["leaveGameInternal".to_string()];
    let announced = w.on_tail(&p, &lines, len + appended.len() as u64);
    assert_eq!(announced, Some("global".to_string()));
    assert_eq!(w.job_id(), "global");
    assert_eq!(w.cursor().read_start(), len + appended.len() as u64);

    // Nothing new: no announcement.
    let action = w.step(None, Some(WatchInput::Timeout));
    assert_eq!(action, WatchAction::Tail { path, from: len + appended.len() as u64 });
    let none: Vec<String> = Vec::new();
    assert_eq!(w.on_tail(&p, &none, len + appended.len() as u64), None);
}

#[test]
fn bootstrap_without_game_announces_nothing() {
    let mut w = WatchLoop::new("logs".to_string());
    assert_eq!(w.finish_bootstrap(None, 0, "global".to_string()), None);
    assert_eq!(w.cursor().followed_file(), None);
    assert_eq!(w.step(None, Some(WatchInput::Timeout)), WatchAction::Idle);
}

#[test]
fn redirect_wins_over_pending_event() {
    let mut w = WatchLoop::new("old".to_string());
    w.finish_bootstrap(Some("old/x_Player.log".to_string()), 10, "global".to_string());
    let action = w.step(
        Some("new".to_string()),
        Some(WatchInput::Event(FsEvent {
            kind: FsChange::Modify,
            path: "old/y_Player.log".to_string(),
        })),
    );
    assert_eq!(action, WatchAction::Rebuild);
    assert_eq!(w.directory(), "new");
    assert_eq!(w.cursor().followed_file(), Some("old/x_Player.log".to_string()));
    assert_eq!(w.cursor().read_start(), 10);
}

#[test]
fn watch_ignores_other_files_and_kinds() {
    let mut w = WatchLoop::new("d".to_string());
    let a = w.step(None, Some(WatchInput::Event(FsEvent { kind: FsChange::Modify, path: "d/notes.txt".to_string() })));
    assert_eq!(a, WatchAction::Idle);
    let a = w.step(None, Some(WatchInput::Event(FsEvent { kind: FsChange::Other, path: "d/a_Player.log".to_string() })));
    assert_eq!(a, WatchAction::Idle);
    let a = w.step(None, Some(WatchInput::Event(FsEvent { kind: FsChange::Create, path: "d/a_Player.log".to_string() })));
    assert_eq!(a, WatchAction::Tail { path: "d/a_Player.log".to_string(), from: 0 });
    assert_eq!(w.step(None, Some(WatchInput::WatchError)), WatchAction::Idle);
    assert_eq!(w.step(None, None), WatchAction::Idle);
    assert_eq!(w.step(None, Some(WatchInput::Disconnected)), WatchAction::Stop);
}

#[test]
fn setup_failure_takes_pending_redirect() {
    let mut w = WatchLoop::new("a".to_string());
    w.on_setup_failed(None);
    assert_eq!(w.directory(), "a");
    w.on_setup_failed(Some("b".to_string()));
    assert_eq!(w.directory(), "b");
}

#[test]
fn empty_and_blank_paths_are_refused() {
    assert_eq!(validate_logs_path("", true), Err(LogsPathError::EmptyPath));
    assert_eq!(validate_logs_path("   ", true), Err(LogsPathError::EmptyPath));
    assert_eq!(validate_logs_path(" \t\n", false), Err(LogsPathError::EmptyPath));
}

#[test]
fn non_directory_is_refused() {
    assert_eq!(validate_logs_path("C:\\file.txt", false), Err(LogsPathError::NotADirectory));
}

#[test]
fn accepted_path_is_trimmed_and_stored() {
    assert_eq!(validate_logs_path("  C:\\logs  ", true), Ok("C:\\logs".to_string()));
    assert_eq!(trimmed_path("  ../x  "), "../x");
    let mut state = LogSettingsState::new("C:\\start".to_string());
    assert_eq!(get_roblox_logs_path(&state), "C:\\start");
    assert_eq!(get_job_id(&state), "global");
    assert_eq!(
        set_roblox_logs_path(&mut state, "   ", true),
        Err(LogsPathError::EmptyPath)
    );
    assert_eq!(get_roblox_logs_path(&state), "C:\\start");
    assert_eq!(
        set_roblox_logs_path(&mut state, " D:\\other ", true),
        Ok("D:\\other".to_string())
    );
    assert_eq!(get_roblox_logs_path(&state), "D:\\other");
    state.record_job_id("abc".to_string());
    assert_eq!(get_job_id(&state), "abc");
}

#[test]
fn command_results_carry_messages() {
    assert_eq!(to_cmd(Ok::<u32, LogsPathError>(3)), Ok(3));
    assert_eq!(
        to_cmd::<u32>(Err(LogsPathError::EmptyPath)),
        Err("Path cannot be empty".to_string())
    );
    assert_eq!(
        to_cmd::<u32>(Err(LogsPathError::NotADirectory)),
        Err("Path must be an existing directory".to_string())
    );
}

#[test]
fn default_logs_path_under_home() {
    assert_eq!(
        default_roblox_logs_path("C:\\Users\\me"),
        "C:\\Users\\me\\AppData\\Local\\Roblox\\logs"
    );
    assert_eq!(
        default_roblox_logs_path("C:\\Users\\me\\"),
        "C:\\Users\\me\\AppData\\Local\\Roblox\\logs"
    );
    assert_eq!(greet("Ann"), "Hello, Ann! You've been greeted from Rust!");
}
