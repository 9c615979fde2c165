use lcars_core::commands::{launch_app_outcome, open_file_outcome, purge_outcome, Finished};
use lcars_core::files::{
    choose_directory, directory_to_list, get_home_dir, home_dir_outcome, home_for_files,
    is_hidden_name, list_directory, list_entries, require_home, EntryKind, FileEntry, FileRead,
    RawEntry,
};
use lcars_core::persistence::{load_outcome, save_outcome, Document};

fn raw(name: &str, metadata: Option<EntryKind>) -> RawEntry {
    RawEntry { name: name.to_string(), path: format!("/data/{}", name), metadata }
}

#[test]
fn listing_leaves_out_hidden_entries() {
    let read = vec![
        raw(".hidden", Some(EntryKind { is_dir: false, len: 3 })),
        raw("notes.txt", Some(EntryKind { is_dir: false, len: 12 })),
        raw("sub", Some(EntryKind { is_dir: true, len: 4096 })),
    ];
    let entries = list_directory(Ok(read)).unwrap();
    assert_eq!(
        entries,
        vec![
            FileEntry {
                name: "notes.txt".to_string(),
                path: "/data/notes.txt".to_string(),
                is_dir: false,
                size: 12,
            },
            FileEntry {
                name: "sub".to_string(),
                path: "/data/sub".to_string(),
                is_dir: true,
                size: 0,
            },
        ]
    );
}

#[test]
fn listing_keeps_order_and_entries_without_metadata() {
    let read = vec![raw("b", None), raw(".x", None), raw("a", Some(EntryKind { is_dir: false, len: 0 }))];
    let entries = list_entries(&read);
    assert_eq!(entries.len(), 2);
    assert_eq!(entries[0].name, "b");
    assert!(!entries[0].is_dir);
    assert_eq!(entries[0].size, 0);
    assert_eq!(entries[1].name, "a");
}

#[test]
fn listing_of_nothing_is_empty() {
    assert_eq!(list_directory(Ok(vec![])), Ok(vec![]));
}

#[test]
fn unreadable_directory_gives_message() {
    assert_eq!(
        list_directory(Err("No such file or directory (os error 2)".to_string())),
        Err("Cannot read directory: No such file or directory (os error 2)".to_string())
    );
}

#[test]
fn hidden_names() {
    assert!(is_hidden_name(".git"));
    assert!(is_hidden_name("."));
    assert!(!is_hidden_name(""));
    assert!(!is_hidden_name("a.b"));
}

#[test]
fn directory_choice() {
    assert_eq!(choose_directory("/tmp/x", Some("/home/u".to_string())), "/tmp/x");
    assert_eq!(choose_directory("", Some("/home/u".to_string())), "/home/u");
    assert_eq!(choose_directory("", None), "/");
    assert_eq!(directory_to_list("/var"), "/var");
}

#[test]
fn home_directory_answers() {
    assert_eq!(home_dir_outcome(Some("/home/u".to_string())), Ok("/home/u".to_string()));
    assert_eq!(home_dir_outcome(None), Err("Cannot determine home directory".to_string()));
    assert_eq!(require_home(Some("/home/u".to_string())), Ok("/home/u".to_string()));
    assert_eq!(require_home(None), Err("No home directory".to_string()));
}

#[test]
fn home_directory_lookup_agrees_with_itself() {
    match get_home_dir() {
        Ok(home) => {
            assert!(!home.is_empty());
            assert_eq!(home_for_files(), Ok(home.clone()));
            assert_eq!(directory_to_list(""), home);
        }
        Err(message) => {
            assert_eq!(message, "Cannot determine home directory");
            assert_eq!(home_for_files(), Err("No home directory".to_string()));
            assert_eq!(directory_to_list(""), "/");
        }
    }
}

#[test]
fn document_files() {
    assert_eq!(Document::Tasks.file_name(), ".lcars-os-tasks.json");
    assert_eq!(Document::CaptainsLog.file_name(), ".lcars-os-captains-log.json");
    assert_eq!(Document::Tasks.name(), "tasks");
    assert_eq!(Document::CaptainsLog.name(), "log");
}

#[test]
fn saving_documents() {
    assert_eq!(save_outcome(Document::Tasks, Ok(())), Ok(()));
    assert_eq!(
        save_outcome(Document::Tasks, Err("disk full".to_string())),
        Err("Cannot save tasks: disk full".to_string())
    );
    assert_eq!(
        save_outcome(Document::CaptainsLog, Err("denied".to_string())),
        Err("Cannot save log: denied".to_string())
    );
}

#[test]
fn loading_documents() {
    assert_eq!(load_outcome(Document::Tasks, FileRead::Absent), Ok("[]".to_string()));
    assert_eq!(load_outcome(Document::CaptainsLog, FileRead::Absent), Ok("[]".to_string()));
    assert_eq!(
        load_outcome(Document::Tasks, FileRead::Text("[{\"id\":1}]".to_string())),
        Ok("[{\"id\":1}]".to_string())
    );
    assert_eq!(
        load_outcome(Document::Tasks, FileRead::Unreadable("bad utf-8".to_string())),
        Err("Cannot load tasks: bad utf-8".to_string())
    );
    assert_eq!(
        load_outcome(Document::CaptainsLog, FileRead::Unreadable("bad utf-8".to_string())),
        Err("Cannot load log: bad utf-8".to_string())
    );
}

#[test]
fn opening_and_launching() {
    assert_eq!(open_file_outcome(Ok(())), Ok(()));
    assert_eq!(
        open_file_outcome(Err("not found".to_string())),
        Err("Cannot open file: not found".to_string())
    );
    assert_eq!(launch_app_outcome("Safari", Ok(())), Ok(()));
    assert_eq!(
        launch_app_outcome("Safari", Err("not found".to_string())),
        Err("Cannot launch Safari: not found".to_string())
    );
}

#[test]
fn purging() {
    let done = Finished { success: true, stderr: "ignored".to_string() };
    assert_eq!(purge_outcome(Ok(done)), Ok("Memory purged successfully".to_string()));
    let refused = Finished { success: false, stderr: "User canceled.".to_string() };
    assert_eq!(purge_outcome(Ok(refused)), Err("Purge failed: User canceled.".to_string()));
    assert_eq!(
        purge_outcome(Err("no osascript".to_string())),
        Err("Failed to execute: no osascript".to_string())
    );
}

#[test]
fn listing_without_hidden_entries_keeps_all() {
    let read = vec![raw("a", None), raw("b", Some(EntryKind { is_dir: true, len: 9 })), raw("c.", None)];
    let entries = list_entries(&read);
    assert_eq!(entries.len(), read.len());
    for (entry, raw) in entries.iter().zip(read.iter()) {
        assert_eq!(entry.name, raw.name);
        assert_eq!(entry.path, raw.path);
    }
    assert!(entries.iter().all(|e| !is_hidden_name(&e.name)));
}
