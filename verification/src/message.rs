//! What the pipeline is told, and what it asks its caller to do.

use vstd::prelude::*;
use crate::api::{texts, ApiError, Checksums, Config, ConfigView, Upload, User};
use crate::file::{AnalyzeResult, FileMessage, FileState};
use crate::scenes::WelcomeMessage;

verus! {

/// The tabs of the file list. Each shows the files in some of the states.
#[derive(Debug, Clone, Copy, PartialEq, Eq, Structural)]
pub enum Filter {
    Pending,
    Duplicate,
    Completed,
    Failed,
    Queued,
}

impl Filter {
    /// The states whose files the tab shows.
    pub open spec fn shown_states(self) -> Seq<FileState> {
        match self {
            Filter::Pending => seq![
                FileState::Analyzing,
                FileState::Analyzed,
                FileState::Pending,
                FileState::CheckingDuplicate,
            ],
            Filter::Duplicate => seq![FileState::Duplicate],
            Filter::Completed => seq![FileState::Completed],
            Filter::Failed => seq![FileState::Failed],
            Filter::Queued => seq![FileState::Queued, FileState::Uploading],
        }
    }

    /// Whether the tab shows files in `state`.
    pub open spec fn shows(self, state: FileState) -> bool {
        self.shown_states().contains(state)
    }

    /// The states whose files the tab shows.
    pub fn states(&self) -> (states: Vec<FileState>)
        ensures
            states@ == self.shown_states(),
    {
        let mut states: Vec<FileState> = Vec::new();
        match *self {
            Filter::Pending => {
                states.push(FileState::Analyzing);
                states.push(FileState::Analyzed);
                states.push(FileState::Pending);
                states.push(FileState::CheckingDuplicate);
            },
            Filter::Duplicate => {
                states.push(FileState::Duplicate);
            },
            Filter::Completed => {
                states.push(FileState::Completed);
            },
            Filter::Failed => {
                states.push(FileState::Failed);
            },
            Filter::Queued => {
                states.push(FileState::Queued);
                states.push(FileState::Uploading);
            },
        }
        assert(states@ =~= self.shown_states());
        states
    }

    /// Whether the tab shows files in `state`.
    pub fn includes(&self, state: FileState) -> (shown: bool)
        ensures
            shown == self.shows(state),
    {
        let states = self.states();
        let mut i: usize = 0;
        while i < states.len()
            invariant
                i <= states.len(),
                states@ == self.shown_states(),
                forall|k: int| 0 <= k < i ==> states@[k] != state,
            decreases states.len() - i,
        {
            if states[i] == state {
                assert(states@[i as int] == state);
                return true;
            }
            i += 1;
        }
        false
    }
}

impl Default for Filter {
    fn default() -> (filter: Self)
        ensures
            filter == Filter::Pending,
    {
        Self::Pending
    }
}

/// The keys that the pipeline tells apart.
#[derive(Debug, Clone, Copy, PartialEq, Eq, Structural)]
pub enum KeyCode {
    LShift,
    LControl,
    Other,
}

#[derive(Debug, Clone, Copy, PartialEq, Eq, Structural)]
pub enum ButtonState {
    Pressed,
    Released,
}

/// What happened at the window.
#[derive(Debug, Clone, PartialEq, Eq)]
pub enum Event {
    /// Files are held over the window.
    FileHovered,
    /// The files held over the window were taken away.
    FilesHoveredLeft,
    /// A file or a directory was dropped on the window. The paths are those
    /// of the dropped file, or of every file under the dropped directory.
    FileDropped(Vec<String>),
    /// A key went down or up.
    Keyboard { key_code: KeyCode, state: ButtonState },
    /// Anything else.
    Other,
}

/// What the pipeline is told.
#[allow(dead_code)]
#[derive(Debug, PartialEq, Eq)]
pub enum Message {
    /// Something happened at the window.
    EventOccurred(Event),
    /// The hashing of the file with this identifier has ended.
    FileAnalyzed(u64, AnalyzeResult),
    /// A message for the file with this identifier.
    FileMessage(u64, FileMessage),
    /// A message for the welcome screen.
    WelcomeMessage(WelcomeMessage),
    /// The archive knows the token: this is its configuration and identity.
    SetConfigAndUser(Config, User),
    /// The duplicate check for the first list of fingerprints was answered
    /// with the second: those of them that the archive already holds.
    DuplicateCheckResponse(Vec<String>, Vec<String>),
    /// The duplicate check for these fingerprints failed.
    DuplicateCheckFailed(Vec<String>),
    /// The user chose a tab.
    SetFilter(Filter),
    /// The user clicked this row of the file list.
    SelectFile(usize),
    /// The user edited the tags.
    SetTags(String),
    /// The user asked to queue the selected files.
    Enqueue,
    /// The user asked to upload the queued files.
    StartUpload,
    /// A slot was reserved for the file with this identifier.
    UploadReserved(u64, Upload),
    /// The bytes of the file with this identifier were sent.
    FileUploaded(u64),
    /// The upload of the file with this identifier was completed.
    SuccessfulUpload(u64),
    /// A part of the upload of the file with this identifier failed.
    FailedUpload(u64),
    /// Nothing.
    Noop,
}

/// What the pipeline asks its caller to do. The caller answers each with a
/// [`Message`].
#[derive(Debug, PartialEq, Eq)]
pub enum Command {
    /// Hash the content of the file at `path`, and report with
    /// `FileAnalyzed`.
    Analyze { id: u64, path: String },
    /// Ask the archive which of `checksums` it holds, and report with
    /// `DuplicateCheckResponse` or `DuplicateCheckFailed`.
    CheckDuplicates { checksums: Vec<String> },
    /// Ask the archive for the identity behind the token of `config`, and
    /// report with `SetConfigAndUser`, or with the error for the welcome
    /// screen.
    GetUser { config: Config },
    /// Store the token for the next start.
    WriteApiKey { key: String },
    /// Reserve an upload slot for the file, and report with `UploadReserved`
    /// or `FailedUpload`.
    ReserveUpload { id: u64, path: String, md5: String },
    /// Send the bytes of the file to `url`, and report with `FileUploaded` or
    /// `FailedUpload`.
    UploadFile { id: u64, path: String, url: String },
    /// Complete the upload with the file's metadata, and report with
    /// `SuccessfulUpload` or `FailedUpload`.
    FinalizeUpload { id: u64, remote_id: String, tags: String, source: String, description: String },
}

/// A command as the contracts speak of it.
pub enum CommandView {
    Analyze { id: u64, path: Seq<char> },
    CheckDuplicates { checksums: Seq<Seq<char>> },
    GetUser { config: ConfigView },
    WriteApiKey { key: Seq<char> },
    ReserveUpload { id: u64, path: Seq<char>, md5: Seq<char> },
    UploadFile { id: u64, path: Seq<char>, url: Seq<char> },
    FinalizeUpload {
        id: u64,
        remote_id: Seq<char>,
        tags: Seq<char>,
        source: Seq<char>,
        description: Seq<char>,
    },
}

impl View for Command {
    type V = CommandView;

    open spec fn view(&self) -> CommandView {
        match self {
            Command::Analyze { id, path } => CommandView::Analyze { id: *id, path: path@ },
            Command::CheckDuplicates { checksums } => CommandView::CheckDuplicates {
                checksums: texts(checksums@),
            },
            Command::GetUser { config } => CommandView::GetUser { config: config@ },
            Command::WriteApiKey { key } => CommandView::WriteApiKey { key: key@ },
            Command::ReserveUpload { id, path, md5 } => CommandView::ReserveUpload {
                id: *id,
                path: path@,
                md5: md5@,
            },
            Command::UploadFile { id, path, url } => CommandView::UploadFile {
                id: *id,
                path: path@,
                url: url@,
            },
            Command::FinalizeUpload { id, remote_id, tags, source, description } => {
                CommandView::FinalizeUpload {
                    id: *id,
                    remote_id: remote_id@,
                    tags: tags@,
                    source: source@,
                    description: description@,
                }
            },
        }
    }
}

/// The commands of a list as the contracts speak of them.
pub open spec fn command_views(commands: Seq<Command>) -> Seq<CommandView> {
    commands.map_values(|c: Command| c@)
}

impl Message {
    /// The message that reports how the lookup of an identity ended: the
    /// configuration and the identity where the archive knew the token, the
    /// error's text for the welcome screen where the lookup failed.
    pub fn identity(config: Config, response: Result<User, ApiError>) -> (message: Message)
        ensures
            match response {
                Ok(user) => message matches Message::SetConfigAndUser(c, u) && c@ == config@ && u@
                    == user@,
                Err(error) => message matches Message::WelcomeMessage(
                    WelcomeMessage::SetDisplayError(text),
                ) && text@ == error.message_text(),
            },
    {
        match response {
            Ok(user) => Message::SetConfigAndUser(config, user),
            Err(error) => Message::WelcomeMessage(
                WelcomeMessage::SetDisplayError(error.message()),
            ),
        }
    }

    /// The message that reports how the duplicate check for `requested`
    /// ended: the fingerprints that the archive holds where it answered, the
    /// failure of the check where it did not.
    pub fn duplicate_check(requested: Vec<String>, response: Result<Checksums, ApiError>) -> (message:
        Message)
        ensures
            match response {
                Ok(found) => message matches Message::DuplicateCheckResponse(asked, held)
                    && texts(asked@) == texts(requested@) && texts(held@) == texts(
                    found.checksums@,
                ),
                Err(_) => message matches Message::DuplicateCheckFailed(asked) && texts(asked@)
                    == texts(requested@),
            },
    {
        match response {
            Ok(found) => Message::DuplicateCheckResponse(requested, found.checksums),
            Err(_) => Message::DuplicateCheckFailed(requested),
        }
    }

    /// The message that reports how the reservation of a slot for file `id`
    /// ended.
    pub fn reservation(id: u64, response: Result<Upload, ApiError>) -> (message: Message)
        ensures
            match response {
                Ok(upload) => message matches Message::UploadReserved(file, slot) && file == id
                    && slot@ == upload@,
                Err(_) => message matches Message::FailedUpload(file) && file == id,
            },
    {
        match response {
            Ok(upload) => Message::UploadReserved(id, upload),
            Err(_) => Message::FailedUpload(id),
        }
    }

    /// The message that reports how sending the bytes of file `id` ended.
    pub fn transfer(id: u64, response: Result<(), ApiError>) -> (message: Message)
        ensures
            match response {
                Ok(_) => message matches Message::FileUploaded(file) && file == id,
                Err(_) => message matches Message::FailedUpload(file) && file == id,
            },
    {
        match response {
            Ok(_) => Message::FileUploaded(id),
            Err(_) => Message::FailedUpload(id),
        }
    }

    /// The message that reports how completing the upload of file `id` ended.
    pub fn completion(id: u64, response: Result<Upload, ApiError>) -> (message: Message)
        ensures
            match response {
                Ok(_) => message matches Message::SuccessfulUpload(file) && file == id,
                Err(_) => message matches Message::FailedUpload(file) && file == id,
            },
    {
        match response {
            Ok(_) => Message::SuccessfulUpload(id),
            Err(_) => Message::FailedUpload(id),
        }
    }
}

} // verus!
