//! The pipeline as a state machine over plain values: what the state of the
//! client is, and what each message makes of it. The contracts of
//! [`crate::app::App`] are stated over these functions.

use vstd::prelude::*;
use crate::api::{default_host, texts, ConfigView, UploadView, UserView};
use crate::file::{AnalyzeResult, FileMessage, FileState, FileView, UploadStep};
use crate::media::is_video_path;
use crate::message::{ButtonState, CommandView, Event, Filter, KeyCode, Message};
use crate::scenes::welcome::WelcomeView;
use crate::scenes::Scenes;
use crate::selection::SelectionView;

verus! {

/// The state of the client as the contracts speak of it.
pub struct AppView {
    /// The identifier that the next ingested file gets.
    pub id_counter: u64,
    /// Whether files are held over the window.
    pub hovering_with_files: bool,
    /// The ingested files, in the order of their ingestion.
    pub files: Seq<FileView>,
    /// The tab that is shown.
    pub current_filter: Filter,
    pub current_user: Option<UserView>,
    pub current_config: Option<ConfigView>,
    pub current_scene: Scenes,
    pub welcome_scene: WelcomeView,
    /// Whether the left shift key is down.
    pub left_shift: bool,
    /// Whether the left control key is down.
    pub left_control: bool,
    /// The selected rows of the shown tab.
    pub file_selection: SelectionView,
    /// The tags as entered, given to the files that are queued next.
    pub tags: Seq<char>,
}

/// The states that count as pending in the summary of the file list.
pub open spec fn pending_states() -> Seq<FileState> {
    seq![
        FileState::Analyzing,
        FileState::Analyzed,
        FileState::Pending,
        FileState::CheckingDuplicate,
        FileState::Uploading,
    ]
}

/// The test that holds of the files in one of `states`.
pub open spec fn in_states(states: Seq<FileState>) -> spec_fn(FileView) -> bool {
    |file: FileView| states.contains(file.state)
}

/// The number of files among the first `i` that the tab `filter` shows.
pub open spec fn rows_before(files: Seq<FileView>, filter: Filter, i: int) -> nat
    decreases i,
{
    if i <= 0 {
        0
    } else {
        rows_before(files, filter, i - 1) + if filter.shows(files[i - 1].state) {
            1nat
        } else {
            0nat
        }
    }
}

/// The texts of `list`, each once, in the order in which they first occur.
pub open spec fn each_once(list: Seq<Seq<char>>) -> Seq<Seq<char>>
    decreases list.len(),
{
    if list.len() == 0 {
        Seq::empty()
    } else if each_once(list.drop_last()).contains(list.last()) {
        each_once(list.drop_last())
    } else {
        each_once(list.drop_last()).push(list.last())
    }
}

/// The number of files that are being hashed.
pub open spec fn analyzing_count(files: Seq<FileView>) -> nat
    decreases files.len(),
{
    if files.len() == 0 {
        0
    } else {
        analyzing_count(files.drop_last()) + if files.last().state == FileState::Analyzing {
            1nat
        } else {
            0nat
        }
    }
}

/// The number of duplicate checks among `commands`.
pub open spec fn checks_in(commands: Seq<CommandView>) -> nat
    decreases commands.len(),
{
    if commands.len() == 0 {
        0
    } else {
        checks_in(commands.drop_last()) + if commands.last() is CheckDuplicates {
            1nat
        } else {
            0nat
        }
    }
}

/// Whether a message offers paths for ingestion.
pub open spec fn is_drop(message: Message) -> bool {
    message matches Message::EventOccurred(Event::FileDropped(_))
}

impl CommandView {
    /// The file that a command is about, if it is about one.
    pub open spec fn file_id(self) -> Option<u64> {
        match self {
            CommandView::Analyze { id, .. } => Some(id),
            CommandView::ReserveUpload { id, .. } => Some(id),
            CommandView::UploadFile { id, .. } => Some(id),
            CommandView::FinalizeUpload { id, .. } => Some(id),
            _ => None,
        }
    }
}

impl FileView {
    /// The file after the hashing of file `id` ended, with a digest or
    /// without one. Only the file with that identifier changes, and only
    /// while it is being hashed: it takes the digest and becomes `Analyzed`,
    /// or becomes `Failed`.
    pub open spec fn after_analysis(self, id: u64, outcome: Option<Seq<u8>>) -> FileView {
        if self.id == id && self.state == FileState::Analyzing {
            match outcome {
                Some(digest) => FileView { md5: Some(digest), state: FileState::Analyzed, ..self },
                None => FileView { state: FileState::Failed, ..self },
            }
        } else {
            self
        }
    }

    /// The file after a duplicate check was sent: an `Analyzed` file is part
    /// of it and becomes `CheckingDuplicate`.
    pub open spec fn after_wave(self) -> FileView {
        if self.state == FileState::Analyzed {
            FileView { state: FileState::CheckingDuplicate, ..self }
        } else {
            self
        }
    }

    /// Whether an answer to a check of `requested` concerns the file: it is
    /// being checked, and its fingerprint was part of the request.
    pub open spec fn awaits(self, requested: Seq<Seq<char>>) -> bool {
        self.state == FileState::CheckingDuplicate && requested.contains(self.checksum())
    }

    /// The file after the check of `requested` was answered with
    /// `duplicates`: a file that the answer concerns becomes `Duplicate`
    /// where its fingerprint is among `duplicates`, and `Pending` where it is
    /// not.
    pub open spec fn after_check(
        self,
        requested: Seq<Seq<char>>,
        duplicates: Seq<Seq<char>>,
    ) -> FileView {
        if self.awaits(requested) {
            if duplicates.contains(self.checksum()) {
                FileView { state: FileState::Duplicate, ..self }
            } else {
                FileView { state: FileState::Pending, ..self }
            }
        } else {
            self
        }
    }

    /// The file after the check of `requested` failed: a file that was
    /// part of it is `Analyzed` again, and so part of the next check.
    pub open spec fn after_failed_check(self, requested: Seq<Seq<char>>) -> FileView {
        if self.awaits(requested) {
            FileView { state: FileState::Analyzed, ..self }
        } else {
            self
        }
    }

    /// The file after it was queued with `tags`.
    pub open spec fn queued_with(self, tags: Seq<char>) -> FileView {
        FileView { tags, state: FileState::Queued, ..self }
    }

    /// The file after the user started the uploads: a `Queued` file starts
    /// uploading, with the reservation of its slot.
    pub open spec fn after_start(self) -> FileView {
        if self.state == FileState::Queued {
            FileView { state: FileState::Uploading, step: UploadStep::Reserving, ..self }
        } else {
            self
        }
    }

    /// Whether the file is the one with identifier `id` and is uploading, at
    /// the part `step`.
    pub open spec fn uploading_at(self, id: u64, step: UploadStep) -> bool {
        self.id == id && self.state == FileState::Uploading && self.step == step
    }

    /// The file after a slot was reserved for file `id`.
    pub open spec fn after_reservation(self, id: u64, slot: UploadView) -> FileView {
        if self.uploading_at(id, UploadStep::Reserving) {
            FileView {
                remote_id: Some(slot.id),
                remote_upload_url: Some(slot.url),
                step: UploadStep::Sending,
                ..self
            }
        } else {
            self
        }
    }

    /// The file after the bytes of file `id` were sent.
    pub open spec fn after_transfer(self, id: u64) -> FileView {
        if self.uploading_at(id, UploadStep::Sending) {
            FileView { step: UploadStep::Finalizing, ..self }
        } else {
            self
        }
    }

    /// The file after the upload of file `id` was completed.
    pub open spec fn after_completion(self, id: u64) -> FileView {
        if self.uploading_at(id, UploadStep::Finalizing) {
            FileView { state: FileState::Completed, ..self }
        } else {
            self
        }
    }

    /// The file after a part of the upload of file `id` failed.
    pub open spec fn after_failure(self, id: u64) -> FileView {
        if self.id == id && self.state == FileState::Uploading {
            FileView { state: FileState::Failed, ..self }
        } else {
            self
        }
    }

    /// The command that reserves a slot for the file.
    pub open spec fn reserve_command(self) -> CommandView {
        CommandView::ReserveUpload { id: self.id, path: self.path, md5: self.checksum() }
    }
}

/// What the hashing reported, as a digest or none.
pub open spec fn outcome_of(result: AnalyzeResult) -> Option<Seq<u8>> {
    match result {
        Ok(analysis) => Some(analysis.digest()),
        Err(_) => None,
    }
}

impl AppView {
    /// The state at the start: no file, no session, the welcome screen.
    pub open spec fn initial() -> AppView {
        AppView {
            id_counter: 0,
            hovering_with_files: false,
            files: Seq::empty(),
            current_filter: Filter::Pending,
            current_user: None,
            current_config: None,
            current_scene: Scenes::Welcome,
            welcome_scene: WelcomeView::initial(),
            left_shift: false,
            left_control: false,
            file_selection: SelectionView::Empty,
            tags: Seq::empty(),
        }
    }

    /// What the start asks for: with a stored token, the identity behind
    /// it; without one, nothing.
    pub open spec fn start_commands_for(api_key: Option<Seq<char>>) -> Seq<CommandView> {
        match api_key {
            Some(key) => seq![
                CommandView::GetUser { config: ConfigView { host: default_host(), api_token: key } },
            ],
            None => Seq::empty(),
        }
    }

    /// What holds of every state that the pipeline reaches: each file is
    /// valid and has an identifier below the counter, the identifiers rise
    /// in the order of ingestion, no two files share a path, no row is
    /// selected twice, and the session is whole: configuration, identity and
    /// the file list come together.
    pub open spec fn wf(self) -> bool {
        &&& forall|i: int|
            0 <= i < self.files.len() ==> (#[trigger] self.files[i]).wf() && self.files[i].id
                < self.id_counter
        &&& forall|i: int, j: int|
            0 <= i < j < self.files.len() ==> (#[trigger] self.files[i]).id
                < (#[trigger] self.files[j]).id
        &&& forall|i: int, j: int|
            0 <= i < j < self.files.len() ==> (#[trigger] self.files[i]).path
                != (#[trigger] self.files[j]).path
        &&& self.file_selection.wf()
        &&& (self.current_config is Some <==> self.current_user is Some)
        &&& (self.current_scene == Scenes::FileIndex <==> self.current_config is Some)
    }

    /// Whether a file with this path was ingested.
    pub open spec fn contains_path(self, path: Seq<char>) -> bool {
        exists|i: int| 0 <= i < self.files.len() && (#[trigger] self.files[i]).path == path
    }

    /// Whether `path` is taken in: it is a video, no file has that path, and
    /// an identifier is left for it.
    pub open spec fn admits(self, path: Seq<char>) -> bool {
        is_video_path(path) && !self.contains_path(path) && self.id_counter < u64::MAX
    }

    /// The state after `path` was offered: where it is taken in, a new file
    /// with the next identifier stands at the end; where not, nothing
    /// changes.
    pub open spec fn add_path(self, path: Seq<char>) -> AppView {
        if self.admits(path) {
            AppView {
                id_counter: (self.id_counter + 1) as u64,
                files: self.files.push(FileView::fresh(self.id_counter, path)),
                ..self
            }
        } else {
            self
        }
    }

    /// What offering `path` asks for: the hashing of the file where it is
    /// taken in.
    pub open spec fn add_path_commands(self, path: Seq<char>) -> Seq<CommandView> {
        if self.admits(path) {
            seq![CommandView::Analyze { id: self.id_counter, path }]
        } else {
            Seq::empty()
        }
    }

    /// The state after each of `paths` was offered in turn.
    pub open spec fn add_paths(self, paths: Seq<Seq<char>>) -> AppView
        decreases paths.len(),
    {
        if paths.len() == 0 {
            self
        } else {
            self.add_paths(paths.drop_last()).add_path(paths.last())
        }
    }

    /// What offering each of `paths` in turn asks for.
    pub open spec fn add_paths_commands(self, paths: Seq<Seq<char>>) -> Seq<CommandView>
        decreases paths.len(),
    {
        if paths.len() == 0 {
            Seq::empty()
        } else {
            self.add_paths_commands(paths.drop_last()) + self.add_paths(
                paths.drop_last(),
            ).add_path_commands(paths.last())
        }
    }

    /// Whether the file `id` is being hashed.
    pub open spec fn is_analyzing(self, id: u64) -> bool {
        exists|i: int|
            0 <= i < self.files.len() && (#[trigger] self.files[i]).id == id && self.files[i].state
                == FileState::Analyzing
    }

    /// Whether no file is being hashed.
    pub open spec fn none_analyzing(self) -> bool {
        forall|i: int|
            0 <= i < self.files.len() ==> (#[trigger] self.files[i]).state != FileState::Analyzing
    }

    /// The files after the hashing of file `id` ended.
    pub open spec fn with_analysis(self, id: u64, outcome: Option<Seq<u8>>) -> AppView {
        AppView {
            files: self.files.map_values(|file: FileView| file.after_analysis(id, outcome)),
            ..self
        }
    }

    /// Whether the end of the hashing of file `id` completes a wave: the
    /// file was being hashed, and no other file is.
    pub open spec fn completes_wave(self, id: u64) -> bool {
        self.is_analyzing(id) && self.with_analysis(id, None).none_analyzing()
    }

    /// The fingerprints of the `Analyzed` files, each once, in the order of
    /// the files.
    pub open spec fn wave_checksums(self) -> Seq<Seq<char>> {
        each_once(
            self.files.filter(in_states(seq![FileState::Analyzed])).map_values(
                |file: FileView| file.checksum(),
            ),
        )
    }

    /// The state after the hashing of file `id` ended. The file takes the
    /// outcome; where this completes a wave, every `Analyzed` file becomes
    /// `CheckingDuplicate`.
    pub open spec fn file_analyzed(self, id: u64, outcome: Option<Seq<u8>>) -> AppView {
        let next = self.with_analysis(id, outcome);
        if self.completes_wave(id) {
            AppView { files: next.files.map_values(|file: FileView| file.after_wave()), ..next }
        } else {
            next
        }
    }

    /// What the end of the hashing of file `id` asks for: where it completes
    /// a wave, one duplicate check for the fingerprints of all `Analyzed`
    /// files.
    pub open spec fn file_analyzed_commands(self, id: u64, outcome: Option<Seq<u8>>) -> Seq<
        CommandView,
    > {
        if self.completes_wave(id) {
            seq![
                CommandView::CheckDuplicates {
                    checksums: self.with_analysis(id, outcome).wave_checksums(),
                },
            ]
        } else {
            Seq::empty()
        }
    }

    /// The state after the check of `requested` was answered with
    /// `duplicates`.
    pub open spec fn duplicates_checked(
        self,
        requested: Seq<Seq<char>>,
        duplicates: Seq<Seq<char>>,
    ) -> AppView {
        AppView {
            files: self.files.map_values(
                |file: FileView| file.after_check(requested, duplicates),
            ),
            ..self
        }
    }

    /// The state after the check of `requested` failed.
    pub open spec fn duplicate_check_failed(self, requested: Seq<Seq<char>>) -> AppView {
        AppView {
            files: self.files.map_values(|file: FileView| file.after_failed_check(requested)),
            ..self
        }
    }

    /// Whether the file at position `i` is shown and its row is selected.
    pub open spec fn is_picked(self, i: int) -> bool {
        &&& 0 <= i < self.files.len()
        &&& self.current_filter.shows(self.files[i].state)
        &&& self.file_selection.selects(rows_before(self.files, self.current_filter, i) as usize)
    }

    /// The state after the user queued the selection: every `Pending` file
    /// whose row is selected takes the entered tags and becomes `Queued`.
    pub open spec fn enqueued(self) -> AppView {
        AppView {
            files: Seq::new(
                self.files.len(),
                |i: int|
                    if self.is_picked(i) && self.files[i].state == FileState::Pending {
                        self.files[i].queued_with(self.tags)
                    } else {
                        self.files[i]
                    },
            ),
            ..self
        }
    }

    /// The state after the user started the uploads.
    pub open spec fn uploads_started(self) -> AppView {
        AppView { files: self.files.map_values(|file: FileView| file.after_start()), ..self }
    }

    /// What starting the uploads asks for: the reservation of a slot for
    /// each `Queued` file, in the order of the files.
    pub open spec fn start_commands(self) -> Seq<CommandView> {
        self.files.filter(in_states(seq![FileState::Queued])).map_values(
            |file: FileView| file.reserve_command(),
        )
    }

    /// The position of the file `id` where it is uploading at `step`.
    pub open spec fn uploading_position(self, id: u64, step: UploadStep) -> Option<int> {
        if exists|i: int| 0 <= i < self.files.len() && (#[trigger] self.files[i]).uploading_at(id, step) {
            Some(
                choose|i: int|
                    0 <= i < self.files.len() && (#[trigger] self.files[i]).uploading_at(id, step),
            )
        } else {
            None
        }
    }

    /// The state after a slot was reserved for file `id`.
    pub open spec fn upload_reserved(self, id: u64, slot: UploadView) -> AppView {
        AppView {
            files: self.files.map_values(|file: FileView| file.after_reservation(id, slot)),
            ..self
        }
    }

    /// What the reservation asks for: sending the bytes of the file, where
    /// the file was waiting for its slot.
    pub open spec fn upload_reserved_commands(self, id: u64, slot: UploadView) -> Seq<CommandView> {
        match self.uploading_position(id, UploadStep::Reserving) {
            Some(i) => seq![
                CommandView::UploadFile { id, path: self.files[i].path, url: slot.url },
            ],
            None => Seq::empty(),
        }
    }

    /// The state after the bytes of file `id` were sent.
    pub open spec fn file_uploaded(self, id: u64) -> AppView {
        AppView { files: self.files.map_values(|file: FileView| file.after_transfer(id)), ..self }
    }

    /// What the end of the transfer asks for: completing the upload with the
    /// file's metadata, where the file was sending its bytes.
    pub open spec fn file_uploaded_commands(self, id: u64) -> Seq<CommandView> {
        match self.uploading_position(id, UploadStep::Sending) {
            Some(i) => match self.files[i].remote_id {
                Some(remote_id) => seq![
                    CommandView::FinalizeUpload {
                        id,
                        remote_id,
                        tags: self.files[i].tags,
                        source: self.files[i].source,
                        description: self.files[i].description,
                    },
                ],
                None => Seq::empty(),
            },
            None => Seq::empty(),
        }
    }

    /// The state after the upload of file `id` was completed.
    pub open spec fn upload_succeeded(self, id: u64) -> AppView {
        AppView {
            files: self.files.map_values(|file: FileView| file.after_completion(id)),
            ..self
        }
    }

    /// The state after a part of the upload of file `id` failed.
    pub open spec fn upload_failed(self, id: u64) -> AppView {
        AppView { files: self.files.map_values(|file: FileView| file.after_failure(id)), ..self }
    }

    /// The state after something happened at the window. Files held over
    /// the window are noted; dropped paths are offered in turn while the
    /// file list is shown; the left shift and control keys are followed.
    pub open spec fn event_occurred(self, event: Event) -> AppView {
        match event {
            Event::FileHovered => AppView { hovering_with_files: true, ..self },
            Event::FilesHoveredLeft => AppView { hovering_with_files: false, ..self },
            Event::FileDropped(paths) => {
                if self.current_scene == Scenes::FileIndex {
                    (AppView { hovering_with_files: false, ..self }).add_paths(texts(paths@))
                } else {
                    self
                }
            },
            Event::Keyboard { key_code, state } => {
                match key_code {
                    KeyCode::LShift => AppView {
                        left_shift: state == ButtonState::Pressed,
                        ..self
                    },
                    KeyCode::LControl => AppView {
                        left_control: state == ButtonState::Pressed,
                        ..self
                    },
                    KeyCode::Other => self,
                }
            },
            Event::Other => self,
        }
    }

    /// What an event at the window asks for.
    pub open spec fn event_commands(self, event: Event) -> Seq<CommandView> {
        match event {
            Event::FileDropped(paths) => {
                if self.current_scene == Scenes::FileIndex {
                    (AppView { hovering_with_files: false, ..self }).add_paths_commands(
                        texts(paths@),
                    )
                } else {
                    Seq::empty()
                }
            },
            _ => Seq::empty(),
        }
    }

    /// The state after a message.
    pub open spec fn step(self, message: Message) -> AppView {
        match message {
            Message::EventOccurred(event) => self.event_occurred(event),
            Message::FileAnalyzed(id, result) => self.file_analyzed(id, outcome_of(result)),
            Message::FileMessage(id, FileMessage::Analyzed(analysis)) => self.file_analyzed(
                id,
                Some(analysis.digest()),
            ),
            Message::WelcomeMessage(message) => AppView {
                welcome_scene: self.welcome_scene.updated(message),
                ..self
            },
            Message::SetConfigAndUser(config, user) => AppView {
                current_config: Some(config@),
                current_user: Some(user@),
                current_scene: Scenes::FileIndex,
                ..self
            },
            Message::DuplicateCheckResponse(requested, duplicates) => self.duplicates_checked(
                texts(requested@),
                texts(duplicates@),
            ),
            Message::DuplicateCheckFailed(requested) => self.duplicate_check_failed(
                texts(requested@),
            ),
            Message::SetFilter(filter) => AppView {
                current_filter: filter,
                file_selection: SelectionView::Empty,
                ..self
            },
            Message::SelectFile(index) => AppView {
                file_selection: self.file_selection.clicked(
                    index,
                    self.left_shift,
                    self.left_control,
                ),
                ..self
            },
            Message::SetTags(tags) => AppView { tags: tags@, ..self },
            Message::Enqueue => self.enqueued(),
            Message::StartUpload => self.uploads_started(),
            Message::UploadReserved(id, slot) => self.upload_reserved(id, slot@),
            Message::FileUploaded(id) => self.file_uploaded(id),
            Message::SuccessfulUpload(id) => self.upload_succeeded(id),
            Message::FailedUpload(id) => self.upload_failed(id),
            Message::Noop => self,
        }
    }

    /// What a message asks the caller to do.
    pub open spec fn commands(self, message: Message) -> Seq<CommandView> {
        match message {
            Message::EventOccurred(event) => self.event_commands(event),
            Message::FileAnalyzed(id, result) => self.file_analyzed_commands(
                id,
                outcome_of(result),
            ),
            Message::FileMessage(id, FileMessage::Analyzed(analysis)) => {
                self.file_analyzed_commands(id, Some(analysis.digest()))
            },
            Message::WelcomeMessage(message) => self.welcome_scene.commands(message),
            Message::SetConfigAndUser(config, user) => seq![
                CommandView::WriteApiKey { key: config@.api_token },
            ],
            Message::StartUpload => self.start_commands(),
            Message::UploadReserved(id, slot) => self.upload_reserved_commands(id, slot@),
            Message::FileUploaded(id) => self.file_uploaded_commands(id),
            _ => Seq::empty(),
        }
    }

    /// The state after each of `messages` in turn.
    pub open spec fn run(self, messages: Seq<Message>) -> AppView
        decreases messages.len(),
    {
        if messages.len() == 0 {
            self
        } else {
            self.run(messages.drop_last()).step(messages.last())
        }
    }

    /// The number of duplicate checks asked for while `messages` are taken
    /// in turn.
    pub open spec fn checks_issued(self, messages: Seq<Message>) -> nat
        decreases messages.len(),
    {
        if messages.len() == 0 {
            0
        } else {
            self.checks_issued(messages.drop_last()) + checks_in(
                self.run(messages.drop_last()).commands(messages.last()),
            )
        }
    }
}

} // verus!
