use lcars_core::commands::Finished;
use lcars_core::dictation::{
    cleanup_after_start, compile_outcome, config_outcome, dictation_config, is_session_file,
    launch_outcome, needs_compile, poll_outcome, session_file_name, start_outcome, stop_outcome,
    trimmed,
    SessionFile,
};
use lcars_core::files::FileRead;

fn text(s: &str) -> FileRead {
    FileRead::Text(s.to_string())
}

fn unreadable(s: &str) -> FileRead {
    FileRead::Unreadable(s.to_string())
}

#[test]
fn session_file_names() {
    assert_eq!(session_file_name("ab12", SessionFile::Transcript), "dictation_ab12.txt");
    assert_eq!(session_file_name("ab12", SessionFile::Failure), "dictation_ab12.txt.err");
    assert_eq!(session_file_name("ab12", SessionFile::Partial), "dictation_ab12.txt.partial");
    assert_eq!(session_file_name("ab12", SessionFile::Stop), "dictation_ab12.txt.stop");
    assert_eq!(session_file_name("", SessionFile::Transcript), "dictation_.txt");
}

#[test]
fn session_files_are_told_from_helper_files() {
    assert!(is_session_file("dictation_ab12.txt"));
    assert!(is_session_file("dictation_ab12.txt.partial"));
    assert!(is_session_file("dictation_"));
    assert!(!is_session_file("dictation_helper.swift"));
    assert!(!is_session_file("dictation_config.txt"));
    assert!(!is_session_file("LCARSDictation.app"));
    assert!(!is_session_file("dictation"));
    assert!(!is_session_file(""));
    assert!(is_session_file(&session_file_name("9f", SessionFile::Stop)));
}

#[test]
fn compile_is_needed_without_binary_or_with_newer_source() {
    assert!(needs_compile(false, Some(1), Some(2)));
    assert!(needs_compile(false, None, None));
    assert!(needs_compile(true, Some(3), Some(2)));
    assert!(!needs_compile(true, Some(2), Some(2)));
    assert!(!needs_compile(true, Some(1), Some(2)));
    assert!(needs_compile(true, Some(1), None));
    assert!(!needs_compile(true, None, Some(1)));
    assert!(!needs_compile(true, None, None));
}

#[test]
fn configuration_text() {
    assert_eq!(dictation_config(30, "/h/.lcars-os/dictation_a.txt"), "30\n/h/.lcars-os/dictation_a.txt");
    assert_eq!(dictation_config(0, ""), "0\n");
    assert_eq!(dictation_config(u64::MAX, "p"), "18446744073709551615\np");
    assert_eq!(dictation_config(1000, "p"), "1000\np");
}

#[test]
fn compile_answers() {
    assert_eq!(compile_outcome(Ok(Finished { success: true, stderr: "warning".to_string() })), Ok(()));
    assert_eq!(
        compile_outcome(Ok(Finished { success: false, stderr: "error: x".to_string() })),
        Err("Compile error: error: x".to_string())
    );
    assert_eq!(
        compile_outcome(Err("swiftc missing".to_string())),
        Err("Failed to compile dictation helper: swiftc missing".to_string())
    );
}

#[test]
fn config_and_launch_answers() {
    assert_eq!(config_outcome(Ok(())), Ok(()));
    assert_eq!(config_outcome(Err("denied".to_string())), Err("Failed to write config: denied".to_string()));
    assert_eq!(
        launch_outcome(Ok(Finished { success: false, stderr: "oops".to_string() })),
        Ok("oops".to_string())
    );
    assert_eq!(
        launch_outcome(Err("no open".to_string())),
        Err("Failed to launch dictation app: no open".to_string())
    );
}

#[test]
fn finished_session_answers() {
    assert_eq!(start_outcome(&text("  hello world \n"), &text("e"), "x"), Ok("hello world".to_string()));
    assert_eq!(
        start_outcome(&unreadable("bad"), &text("e"), ""),
        Err("Failed to read result: bad".to_string())
    );
    assert_eq!(start_outcome(&FileRead::Absent, &text("mic denied"), "x"), Err("mic denied".to_string()));
    assert_eq!(
        start_outcome(&FileRead::Absent, &unreadable("bad"), "x"),
        Err("Unknown error".to_string())
    );
    assert_eq!(
        start_outcome(&FileRead::Absent, &FileRead::Absent, "launch failed"),
        Err("Dictation failed: launch failed".to_string())
    );
    assert_eq!(
        start_outcome(&FileRead::Absent, &FileRead::Absent, ""),
        Err("Dictation timed out — no speech detected or permissions denied".to_string())
    );
}

#[test]
fn files_removed_after_a_session() {
    assert_eq!(
        cleanup_after_start(&text("t"), &text("e")),
        vec![SessionFile::Transcript, SessionFile::Partial, SessionFile::Stop]
    );
    assert_eq!(cleanup_after_start(&unreadable("x"), &text("e")), vec![]);
    assert_eq!(cleanup_after_start(&FileRead::Absent, &text("e")), vec![SessionFile::Failure]);
    assert_eq!(cleanup_after_start(&FileRead::Absent, &unreadable("x")), vec![SessionFile::Failure]);
    assert_eq!(cleanup_after_start(&FileRead::Absent, &FileRead::Absent), vec![]);
}

#[test]
fn poll_answers() {
    let absent = FileRead::Absent;
    assert_eq!(poll_outcome(&absent, &absent, &absent), Ok("WAITING".to_string()));
    assert_eq!(poll_outcome(&absent, &absent, &text(" so far ")), Ok("PARTIAL:so far".to_string()));
    assert_eq!(poll_outcome(&text(" done\n"), &text("e"), &text("p")), Ok("FINAL:done".to_string()));
    assert_eq!(poll_outcome(&absent, &text("mic denied\n"), &text("p")), Err("mic denied\n".to_string()));
    assert_eq!(poll_outcome(&unreadable("x"), &absent, &absent), Ok("FINAL:".to_string()));
    assert_eq!(poll_outcome(&absent, &unreadable("x"), &absent), Err("".to_string()));
    assert_eq!(poll_outcome(&absent, &absent, &unreadable("x")), Ok("PARTIAL:".to_string()));
}

#[test]
fn trimming() {
    assert_eq!(trimmed("  a b\t\n"), "a b");
    assert_eq!(trimmed("\u{a0}\u{2003}x\u{3000}"), "x");
    assert_eq!(trimmed(" \n "), "");
    assert_eq!(trimmed(""), "");
    assert_eq!(trimmed("\u{200b}x"), "\u{200b}x");
}

#[test]
fn stop_answers() {
    assert_eq!(stop_outcome(Ok(())), Ok(()));
    assert_eq!(
        stop_outcome(Err("read-only".to_string())),
        Err("Failed to signal stop: read-only".to_string())
    );
}

#[test]
fn every_session_file_is_told_but_the_transcript_named_config() {
    for id in ["", "a", "config", "helper", "config.txt", "9f3c"] {
        for file in [SessionFile::Transcript, SessionFile::Failure, SessionFile::Partial, SessionFile::Stop] {
            let expected = !(id == "config" && file == SessionFile::Transcript);
            assert_eq!(is_session_file(&session_file_name(id, file)), expected, "{} {:?}", id, file);
        }
    }
}
