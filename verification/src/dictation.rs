//! Dictation sessions. A helper program records and transcribes; it and this
//! side talk through files in one directory, named after the session. Here
//! are the names of those files and the answers that their contents give.

use crate::commands::Finished;
use crate::files::FileRead;
use crate::numbers::{decimal_string, decimal_text};
use crate::text::{
    append_str, chars_of, join_text, slice_eq, starts_with_slice, string_of, text_result, trim,
    trim_slice, unit_result,
};
use vstd::prelude::*;

verus! {

/// The files of one session.
#[derive(Clone, Copy, Debug, PartialEq, Eq, Structural)]
pub enum SessionFile {
    /// The finished transcript.
    Transcript,
    /// The helper's error message.
    Failure,
    /// The transcript so far.
    Partial,
    /// The request to stop recording.
    Stop,
}

impl SessionFile {
    /// What the file's name has after the transcript's name.
    pub open spec fn suffix(self) -> Seq<char> {
        match self {
            SessionFile::Transcript => ""@,
            SessionFile::Failure => ".err"@,
            SessionFile::Partial => ".partial"@,
            SessionFile::Stop => ".stop"@,
        }
    }

    /// What the file's name has after the transcript's name.
    pub fn suffix_str(&self) -> (s: &'static str)
        ensures
            s@ == self.suffix(),
    {
        match self {
            SessionFile::Transcript => "",
            SessionFile::Failure => ".err",
            SessionFile::Partial => ".partial",
            SessionFile::Stop => ".stop",
        }
    }
}

/// The name of a session's file.
pub open spec fn session_file_text(session_id: Seq<char>, file: SessionFile) -> Seq<char> {
    "dictation_"@ + session_id + ".txt"@ + file.suffix()
}

/// Whether a file in the helper's directory belongs to a session: its name
/// starts like a session's file and is neither the helper's source nor its
/// configuration.
pub open spec fn is_session_file_text(name: Seq<char>) -> bool {
    &&& "dictation_"@.is_prefix_of(name)
    &&& name != "dictation_helper.swift"@
    &&& name != "dictation_config.txt"@
}

/// A point in time as nanoseconds since the epoch; the epoch where the time
/// is not known.
pub open spec fn time_or_epoch(t: Option<u128>) -> u128 {
    match t {
        Some(nanos) => nanos,
        None => 0,
    }
}

/// Whether the helper has to be compiled: there is no binary, or the source
/// was changed after the binary.
pub open spec fn compile_needed(
    binary_exists: bool,
    source_modified: Option<u128>,
    binary_modified: Option<u128>,
) -> bool {
    !binary_exists || time_or_epoch(source_modified) > time_or_epoch(binary_modified)
}

/// What the helper's configuration holds: the duration in seconds, a line
/// feed, and the path of the transcript.
pub open spec fn config_text(duration_secs: u64, transcript_path: Seq<char>) -> Seq<char> {
    decimal_text(duration_secs as nat) + "\n"@ + transcript_path
}

/// What compiling the helper answers, for how the compiler ran.
pub open spec fn compile_result(ran: Result<Finished, String>) -> Result<(), Seq<char>> {
    match ran {
        Ok(end) => if end.success {
            Ok(())
        } else {
            Err("Compile error: "@ + end.stderr@)
        },
        Err(cause) => Err("Failed to compile dictation helper: "@ + cause@),
    }
}

/// What writing the configuration answers.
pub open spec fn config_result(written: Result<(), String>) -> Result<(), Seq<char>> {
    match written {
        Ok(()) => Ok(()),
        Err(cause) => Err("Failed to write config: "@ + cause@),
    }
}

/// What launching the helper answers: what the launcher wrote to its
/// standard error, or the message where it could not be run.
pub open spec fn launch_result(ran: Result<Finished, String>) -> Result<Seq<char>, Seq<char>> {
    match ran {
        Ok(end) => Ok(end.stderr@),
        Err(cause) => Err("Failed to launch dictation app: "@ + cause@),
    }
}

/// What asking a session to stop answers, for what writing the request gave.
pub open spec fn stop_result(written: Result<(), String>) -> Result<(), Seq<char>> {
    match written {
        Ok(()) => Ok(()),
        Err(cause) => Err("Failed to signal stop: "@ + cause@),
    }
}

/// The message for a session that left neither a transcript nor an error.
pub open spec fn timed_out() -> Seq<char> {
    "Dictation timed out — no speech detected or permissions denied"@
}

/// What a finished session answers. The transcript decides where there is
/// one; then the helper's error; then what the launcher wrote to its
/// standard error.
pub open spec fn start_result(
    transcript: FileRead,
    failure: FileRead,
    launcher_stderr: Seq<char>,
) -> Result<Seq<char>, Seq<char>> {
    match transcript {
        FileRead::Text(text) => Ok(trim(text@)),
        FileRead::Unreadable(cause) => Err("Failed to read result: "@ + cause@),
        FileRead::Absent => match failure {
            FileRead::Text(message) => Err(message@),
            FileRead::Unreadable(_) => Err("Unknown error"@),
            FileRead::Absent => if launcher_stderr.len() > 0 {
                Err("Dictation failed: "@ + launcher_stderr)
            } else {
                Err(timed_out())
            },
        },
    }
}

/// The files that are removed when a session has finished: with a
/// transcript that was read, the transcript and what led to it; with the
/// helper's error alone, that error; else none.
pub open spec fn removed_after_start(transcript: FileRead, failure: FileRead) -> Seq<SessionFile> {
    match transcript {
        FileRead::Text(_) => seq![SessionFile::Transcript, SessionFile::Partial, SessionFile::Stop],
        FileRead::Unreadable(_) => Seq::empty(),
        FileRead::Absent => if failure.found() {
            seq![SessionFile::Failure]
        } else {
            Seq::empty()
        },
    }
}

/// What a running session answers when it is polled: the finished
/// transcript, else the helper's error, else the transcript so far, else
/// that there is nothing yet. A file that is there and cannot be read counts
/// as empty.
pub open spec fn poll_result(transcript: FileRead, failure: FileRead, partial: FileRead) -> Result<
    Seq<char>,
    Seq<char>,
> {
    if transcript.found() {
        Ok("FINAL:"@ + trim(transcript.text_or_empty()))
    } else if failure.found() {
        Err(failure.text_or_empty())
    } else if partial.found() {
        Ok("PARTIAL:"@ + trim(partial.text_or_empty()))
    } else {
        Ok("WAITING"@)
    }
}

/// The name of a session's file.
pub fn session_file_name(session_id: &str, file: SessionFile) -> (name: String)
    ensures
        name@ == session_file_text(session_id@, file),
{
    let mut name = join_text("dictation_", session_id);
    append_str(&mut name, ".txt");
    append_str(&mut name, file.suffix_str());
    name
}

/// Whether a file in the helper's directory belongs to a session.
pub fn is_session_file(name: &str) -> (r: bool)
    ensures
        r == is_session_file_text(name@),
{
    let chars = chars_of(name);
    let text = chars.as_slice();
    starts_with_slice(text, chars_of("dictation_").as_slice()) && !slice_eq(
        text,
        chars_of("dictation_helper.swift").as_slice(),
    ) && !slice_eq(text, chars_of("dictation_config.txt").as_slice())
}

/// Whether the helper has to be compiled.
pub fn needs_compile(
    binary_exists: bool,
    source_modified: Option<u128>,
    binary_modified: Option<u128>,
) -> (r: bool)
    ensures
        r == compile_needed(binary_exists, source_modified, binary_modified),
{
    let source: u128 = match source_modified {
        Some(nanos) => nanos,
        None => 0,
    };
    let binary: u128 = match binary_modified {
        Some(nanos) => nanos,
        None => 0,
    };
    !binary_exists || source > binary
}

/// The helper's configuration for one session.
pub fn dictation_config(duration_secs: u64, transcript_path: &str) -> (config: String)
    ensures
        config@ == config_text(duration_secs, transcript_path@),
{
    let mut config = decimal_string(duration_secs);
    append_str(&mut config, "\n");
    append_str(&mut config, transcript_path);
    config
}

/// Answers for the compilation of the helper.
pub fn compile_outcome(ran: Result<Finished, String>) -> (r: Result<(), String>)
    ensures
        unit_result(r) == compile_result(ran),
{
    match ran {
        Ok(end) => if end.success {
            Ok(())
        } else {
            Err(join_text("Compile error: ", end.stderr.as_str()))
        },
        Err(cause) => Err(join_text("Failed to compile dictation helper: ", cause.as_str())),
    }
}

/// Answers for the writing of the configuration.
pub fn config_outcome(written: Result<(), String>) -> (r: Result<(), String>)
    ensures
        unit_result(r) == config_result(written),
{
    match written {
        Ok(()) => Ok(()),
        Err(cause) => Err(join_text("Failed to write config: ", cause.as_str())),
    }
}

/// Answers for the launch of the helper.
pub fn launch_outcome(ran: Result<Finished, String>) -> (r: Result<String, String>)
    ensures
        text_result(r) == launch_result(ran),
{
    match ran {
        Ok(end) => Ok(end.stderr),
        Err(cause) => Err(join_text("Failed to launch dictation app: ", cause.as_str())),
    }
}

/// Answers for the request to stop a session.
pub fn stop_outcome(written: Result<(), String>) -> (r: Result<(), String>)
    ensures
        unit_result(r) == stop_result(written),
{
    match written {
        Ok(()) => Ok(()),
        Err(cause) => Err(join_text("Failed to signal stop: ", cause.as_str())),
    }
}

/// A text without the white space around it.
pub fn trimmed(text: &str) -> (r: String)
    ensures
        r@ == trim(text@),
{
    let chars = chars_of(text);
    string_of(trim_slice(chars.as_slice()))
}

/// Answers for a finished session.
pub fn start_outcome(transcript: &FileRead, failure: &FileRead, launcher_stderr: &str) -> (r:
    Result<String, String>)
    ensures
        text_result(r) == start_result(*transcript, *failure, launcher_stderr@),
{
    match transcript {
        FileRead::Text(text) => Ok(trimmed(text.as_str())),
        FileRead::Unreadable(cause) => Err(join_text("Failed to read result: ", cause.as_str())),
        FileRead::Absent => match failure {
            FileRead::Text(message) => Err(message.clone()),
            FileRead::Unreadable(_) => Err("Unknown error".to_owned()),
            FileRead::Absent => if !launcher_stderr.is_empty() {
                Err(join_text("Dictation failed: ", launcher_stderr))
            } else {
                Err("Dictation timed out — no speech detected or permissions denied".to_owned())
            },
        },
    }
}

/// The files to remove when a session has finished.
pub fn cleanup_after_start(transcript: &FileRead, failure: &FileRead) -> (files: Vec<SessionFile>)
    ensures
        files@ == removed_after_start(*transcript, *failure),
{
    let mut files: Vec<SessionFile> = Vec::new();
    match transcript {
        FileRead::Text(_) => {
            files.push(SessionFile::Transcript);
            files.push(SessionFile::Partial);
            files.push(SessionFile::Stop);
        },
        FileRead::Unreadable(_) => {},
        FileRead::Absent => match failure {
            FileRead::Absent => {},
            _ => {
                files.push(SessionFile::Failure);
            },
        },
    }
    assert(files@ =~= removed_after_start(*transcript, *failure));
    files
}

/// The text of a file, or the empty text where it was not read.
fn text_of(read: &FileRead) -> (text: String)
    ensures
        text@ == read.text_or_empty(),
{
    match read {
        FileRead::Text(text) => text.clone(),
        _ => String::new(),
    }
}

/// Answers for a poll of a running session.
pub fn poll_outcome(transcript: &FileRead, failure: &FileRead, partial: &FileRead) -> (r: Result<
    String,
    String,
>)
    ensures
        text_result(r) == poll_result(*transcript, *failure, *partial),
{
    if !matches!(transcript, FileRead::Absent) {
        Ok(join_text("FINAL:", trimmed(text_of(transcript).as_str()).as_str()))
    } else if !matches!(failure, FileRead::Absent) {
        Err(text_of(failure))
    } else if !matches!(partial, FileRead::Absent) {
        Ok(join_text("PARTIAL:", trimmed(text_of(partial).as_str()).as_str()))
    } else {
        Ok("WAITING".to_owned())
    }
}

/// Every file of a session is told as one when the helper's directory is
/// cleaned, but for the transcript of a session named "config": its name is
/// that of the helper's configuration.
pub proof fn lemma_session_files_are_told(session_id: Seq<char>, file: SessionFile)
    ensures
        is_session_file_text(session_file_text(session_id, file)) <==> !(file
            == SessionFile::Transcript && session_id == "config"@),
{
    reveal_strlit("dictation_");
    reveal_strlit(".txt");
    reveal_strlit("");
    reveal_strlit(".err");
    reveal_strlit(".partial");
    reveal_strlit(".stop");
    reveal_strlit("dictation_helper.swift");
    reveal_strlit("dictation_config.txt");
    reveal_strlit("config");
    let name = session_file_text(session_id, file);
    let helper = "dictation_helper.swift"@;
    let config = "dictation_config.txt"@;
    let n = name.len() as int;
    assert(name.subrange(0, 10) =~= "dictation_"@);
    match file {
        SessionFile::Transcript => {
            assert(name[n - 2] == 'x');
            assert(helper[20] == 'f');
            if session_id == "config"@ {
                assert(name =~= config);
            }
            if name == config {
                assert(session_id.len() == 6);
                assert forall|i: int| 0 <= i < 6 implies session_id[i] == "config"@[i] by {
                    assert(name[10 + i] == session_id[i]);
                    assert(config[10 + i] == "config"@[i]);
                }
                assert(session_id =~= "config"@);
            }
        },
        SessionFile::Failure => {
            assert(name[n - 1] == 'r');
            assert(helper[21] == 't');
            assert(config[19] == 't');
        },
        SessionFile::Partial => {
            assert(name[n - 1] == 'l');
            assert(helper[21] == 't');
            assert(config[19] == 't');
        },
        SessionFile::Stop => {
            assert(name[n - 1] == 'p');
            assert(helper[21] == 't');
            assert(config[19] == 't');
        },
    }
}

} // verus!
