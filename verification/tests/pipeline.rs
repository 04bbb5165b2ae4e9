use mx::api::{Config, Upload, User};
use mx::app::App;
use mx::file::{AnalyzeError, File, FileMessage, FileState, UploadStep};
use mx::message::{ButtonState, Command, Event, Filter, KeyCode, Message};
use mx::scenes::{Scenes, WelcomeMessage};
use mx::selection::FileSelection;

fn session_config() -> Config {
    Config::new("token".to_string())
}

fn user() -> User {
    User { id: 1, username: "ada".to_string(), role: "member".to_string() }
}

/// A client with a session, showing the file list.
fn signed_in() -> App {
    let (mut app, commands) = App::new(None);
    assert!(commands.is_empty());
    app.update(Message::SetConfigAndUser(session_config(), user()));
    app
}

fn drop_paths(app: &mut App, paths: &[&str]) -> Vec<Command> {
    let paths: Vec<String> = paths.iter().map(|p| p.to_string()).collect();
    app.update(Message::EventOccurred(Event::FileDropped(paths)))
}

fn analyzed(app: &mut App, id: u64, content: &[u8]) -> Vec<Command> {
    app.update(Message::FileAnalyzed(id, Ok(File::analyze_file(id, content))))
}

fn fingerprint(content: &[u8]) -> String {
    format!("{:x}", md5::compute(content))
}

fn states(app: &App) -> Vec<FileState> {
    app.files().iter().map(|file| file.state).collect()
}

/// A client with three files that wait for the user: a.mp4, b.mp4, c.mp4.
fn three_pending() -> App {
    let mut app = signed_in();
    drop_paths(&mut app, &["/v/a.mp4", "/v/b.mp4", "/v/c.mp4"]);
    analyzed(&mut app, 0, b"a");
    analyzed(&mut app, 1, b"b");
    let check = analyzed(&mut app, 2, b"c");
    let requested = vec![fingerprint(b"a"), fingerprint(b"b"), fingerprint(b"c")];
    assert_eq!(check, vec![Command::CheckDuplicates { checksums: requested.clone() }]);
    app.update(Message::DuplicateCheckResponse(requested, Vec::new()));
    assert_eq!(states(&app), vec![FileState::Pending; 3]);
    app
}

/// A client whose only file, a.mp4, is queued with the tags "x".
fn one_queued() -> App {
    let mut app = signed_in();
    drop_paths(&mut app, &["/v/a.mp4"]);
    analyzed(&mut app, 0, b"a");
    app.update(Message::DuplicateCheckResponse(vec![fingerprint(b"a")], Vec::new()));
    app.update(Message::SelectFile(0));
    app.update(Message::SetTags("x".to_string()));
    app.update(Message::Enqueue);
    assert_eq!(states(&app), vec![FileState::Queued]);
    app
}

fn slot() -> Upload {
    Upload { id: "remote-1".to_string(), url: "https://store.test/slot/1".to_string() }
}

#[test]
fn the_client_starts_at_the_welcome_screen() {
    let (app, commands) = App::new(None);
    assert!(commands.is_empty());
    assert_eq!(app.current_scene(), Scenes::Welcome);
    assert_eq!(app.current_filter(), Filter::Pending);
    assert!(app.files().is_empty());
    assert_eq!(app.current_user(), None);
    assert_eq!(app.current_config(), None);
    assert_eq!(app.file_selection(), &FileSelection::Empty);
    assert_eq!(app.tags(), "");
    assert!(!app.hovering_with_files());
    assert_eq!(app.title(), "mx");
}

#[test]
fn a_stored_token_is_looked_up_at_the_start() {
    let (app, commands) = App::new(Some("stored".to_string()));
    assert_eq!(commands, vec![Command::GetUser { config: Config::new("stored".to_string()) }]);
    assert_eq!(app.current_scene(), Scenes::Welcome);
    assert_eq!(app.current_config(), None);
}

#[test]
fn a_known_identity_opens_the_file_list_and_stores_the_token() {
    let (mut app, _) = App::new(None);
    let commands = app.update(Message::SetConfigAndUser(session_config(), user()));
    assert_eq!(commands, vec![Command::WriteApiKey { key: "token".to_string() }]);
    assert_eq!(app.current_scene(), Scenes::FileIndex);
    assert_eq!(app.current_config(), Some(&session_config()));
    assert_eq!(app.current_user(), Some(&user()));
}

#[test]
fn welcome_messages_reach_the_welcome_screen() {
    let (mut app, _) = App::new(None);
    app.update(Message::WelcomeMessage(WelcomeMessage::ApiKeyInputChanged("abcdef".to_string())));
    assert_eq!(app.welcome_scene().api_key(), "abcdef");
    let commands = app.update(Message::WelcomeMessage(WelcomeMessage::NextScene));
    assert_eq!(commands, vec![Command::GetUser { config: Config::new("abcdef".to_string()) }]);
    app.update(Message::WelcomeMessage(WelcomeMessage::SetDisplayError("no".to_string())));
    assert_eq!(app.welcome_scene().error(), &Some("no".to_string()));
    assert_eq!(app.current_scene(), Scenes::Welcome);
}

#[test]
fn each_distinct_video_becomes_one_file() {
    let mut app = signed_in();
    let commands = drop_paths(&mut app, &["/v/a.mp4", "/v/b.mkv", "/v/c.webm"]);
    assert_eq!(
        commands,
        vec![
            Command::Analyze { id: 0, path: "/v/a.mp4".to_string() },
            Command::Analyze { id: 1, path: "/v/b.mkv".to_string() },
            Command::Analyze { id: 2, path: "/v/c.webm".to_string() },
        ]
    );
    let files = app.files();
    assert_eq!(files.len(), 3);
    assert_eq!(files[0], File::new(0, "/v/a.mp4".to_string()));
    assert_eq!(files[1], File::new(1, "/v/b.mkv".to_string()));
    assert_eq!(files[2], File::new(2, "/v/c.webm".to_string()));
}

#[test]
fn ingesting_a_known_path_again_changes_nothing() {
    let mut app = signed_in();
    drop_paths(&mut app, &["/v/a.mp4", "/v/b.mp4"]);
    let before: Vec<File> =
        app.files().iter().map(|f| File::new(f.id, f.path.clone())).collect();
    let commands = drop_paths(&mut app, &["/v/a.mp4"]);
    assert!(commands.is_empty());
    assert_eq!(app.files(), &before);
    let commands = app.add_path("/v/b.mp4".to_string());
    assert!(commands.is_empty());
    assert_eq!(app.files().len(), 2);
}

#[test]
fn a_path_that_occurs_twice_in_one_drop_is_taken_once() {
    let mut app = signed_in();
    let commands = drop_paths(&mut app, &["/v/a.mp4", "/v/a.mp4", "/v/b.mp4"]);
    assert_eq!(commands.len(), 2);
    let paths: Vec<&str> = app.files().iter().map(|f| f.path.as_str()).collect();
    assert_eq!(paths, vec!["/v/a.mp4", "/v/b.mp4"]);
    let ids: Vec<u64> = app.files().iter().map(|f| f.id).collect();
    assert_eq!(ids, vec![0, 1]);
}

#[test]
fn files_that_are_not_videos_are_left_out() {
    let mut app = signed_in();
    let commands = drop_paths(&mut app, &["/v/notes.txt", "/v/a.mp4", "/v/cover.png", "/v/raw"]);
    assert_eq!(commands, vec![Command::Analyze { id: 0, path: "/v/a.mp4".to_string() }]);
    assert_eq!(app.files().len(), 1);
    assert!(app.contains_path(&"/v/a.mp4".to_string()));
    assert!(!app.contains_path(&"/v/notes.txt".to_string()));
}

#[test]
fn identifiers_are_never_reused() {
    let mut app = signed_in();
    drop_paths(&mut app, &["/v/a.mp4"]);
    drop_paths(&mut app, &["/v/a.mp4", "/v/notes.txt"]);
    let commands = drop_paths(&mut app, &["/v/b.mp4"]);
    assert_eq!(commands, vec![Command::Analyze { id: 1, path: "/v/b.mp4".to_string() }]);
}

#[test]
fn a_drop_before_the_file_list_is_shown_is_ignored() {
    let (mut app, _) = App::new(None);
    app.update(Message::EventOccurred(Event::FileHovered));
    assert!(app.hovering_with_files());
    let commands = drop_paths(&mut app, &["/v/a.mp4"]);
    assert!(commands.is_empty());
    assert!(app.files().is_empty());
    assert!(app.hovering_with_files());
}

#[test]
fn hovering_is_followed_and_ends_with_the_drop() {
    let mut app = signed_in();
    app.update(Message::EventOccurred(Event::FileHovered));
    assert!(app.hovering_with_files());
    app.update(Message::EventOccurred(Event::FilesHoveredLeft));
    assert!(!app.hovering_with_files());
    app.update(Message::EventOccurred(Event::FileHovered));
    drop_paths(&mut app, &["/v/a.mp4"]);
    assert!(!app.hovering_with_files());
    app.update(Message::EventOccurred(Event::Other));
    assert_eq!(app.files().len(), 1);
}

#[test]
fn the_duplicate_check_waits_for_the_last_file() {
    let mut app = signed_in();
    drop_paths(&mut app, &["/v/a.mp4", "/v/b.mp4", "/v/c.mp4"]);

    // Completions arrive out of order.
    assert!(analyzed(&mut app, 2, b"c").is_empty());
    assert_eq!(
        states(&app),
        vec![FileState::Analyzing, FileState::Analyzing, FileState::Analyzed]
    );
    assert!(analyzed(&mut app, 0, b"a").is_empty());
    let commands = analyzed(&mut app, 1, b"b");
    assert_eq!(
        commands,
        vec![Command::CheckDuplicates {
            checksums: vec![fingerprint(b"a"), fingerprint(b"b"), fingerprint(b"c")],
        }]
    );
    assert_eq!(states(&app), vec![FileState::CheckingDuplicate; 3]);

    // Nothing asks for a second check.
    assert!(analyzed(&mut app, 1, b"b").is_empty());
    assert!(analyzed(&mut app, 9, b"z").is_empty());
    assert!(app.update(Message::Noop).is_empty());
    assert_eq!(states(&app), vec![FileState::CheckingDuplicate; 3]);
}

#[test]
fn a_file_that_cannot_be_hashed_fails_and_is_left_out_of_the_check() {
    let mut app = signed_in();
    drop_paths(&mut app, &["/v/a.mp4", "/v/b.mp4"]);
    assert!(app.update(Message::FileAnalyzed(0, Err(AnalyzeError::FileOpen))).is_empty());
    assert_eq!(states(&app), vec![FileState::Failed, FileState::Analyzing]);
    let commands = analyzed(&mut app, 1, b"b");
    assert_eq!(commands, vec![Command::CheckDuplicates { checksums: vec![fingerprint(b"b")] }]);
    assert_eq!(states(&app), vec![FileState::Failed, FileState::CheckingDuplicate]);
    assert_eq!(app.files()[0].md5, None);
}

#[test]
fn a_failure_of_the_last_file_completes_the_wave() {
    let mut app = signed_in();
    drop_paths(&mut app, &["/v/a.mp4", "/v/b.mp4"]);
    assert!(analyzed(&mut app, 0, b"a").is_empty());
    let commands = app.update(Message::FileAnalyzed(1, Err(AnalyzeError::FileRead)));
    assert_eq!(commands, vec![Command::CheckDuplicates { checksums: vec![fingerprint(b"a")] }]);
    assert_eq!(states(&app), vec![FileState::CheckingDuplicate, FileState::Failed]);
}

#[test]
fn a_file_message_counts_as_the_end_of_hashing() {
    let mut app = signed_in();
    drop_paths(&mut app, &["/v/a.mp4"]);
    let commands =
        app.update(Message::FileMessage(0, FileMessage::Analyzed(File::analyze_file(0, b"a"))));
    assert_eq!(commands, vec![Command::CheckDuplicates { checksums: vec![fingerprint(b"a")] }]);
    assert_eq!(states(&app), vec![FileState::CheckingDuplicate]);
    assert_eq!(app.files()[0].get_md5(), fingerprint(b"a"));
}

#[test]
fn a_fingerprint_shared_by_two_files_is_asked_about_once() {
    let mut app = signed_in();
    drop_paths(&mut app, &["/v/a.mp4", "/v/copy-of-a.mp4", "/v/b.mp4"]);
    analyzed(&mut app, 0, b"a");
    analyzed(&mut app, 1, b"a");
    let commands = analyzed(&mut app, 2, b"b");
    let requested = vec![fingerprint(b"a"), fingerprint(b"b")];
    assert_eq!(commands, vec![Command::CheckDuplicates { checksums: requested.clone() }]);
    assert_eq!(states(&app), vec![FileState::CheckingDuplicate; 3]);

    app.update(Message::DuplicateCheckResponse(requested, vec![fingerprint(b"a")]));
    assert_eq!(
        states(&app),
        vec![FileState::Duplicate, FileState::Duplicate, FileState::Pending]
    );
}

#[test]
fn files_ingested_after_a_wave_form_the_next_wave() {
    let mut app = signed_in();
    drop_paths(&mut app, &["/v/a.mp4"]);
    assert_eq!(analyzed(&mut app, 0, b"a").len(), 1);
    drop_paths(&mut app, &["/v/b.mp4", "/v/c.mp4"]);
    assert!(analyzed(&mut app, 1, b"b").is_empty());
    let commands = analyzed(&mut app, 2, b"c");
    assert_eq!(
        commands,
        vec![Command::CheckDuplicates { checksums: vec![fingerprint(b"b"), fingerprint(b"c")] }]
    );
}

#[test]
fn the_answer_is_matched_against_the_request() {
    let mut app = signed_in();
    drop_paths(&mut app, &["/v/h1.mp4", "/v/h2.mp4"]);
    analyzed(&mut app, 0, b"h1");
    let check = analyzed(&mut app, 1, b"h2");
    let requested = vec![fingerprint(b"h1"), fingerprint(b"h2")];
    assert_eq!(check, vec![Command::CheckDuplicates { checksums: requested.clone() }]);

    // A third file arrives and is hashed after the request was sent.
    drop_paths(&mut app, &["/v/h3.mp4"]);
    let second = analyzed(&mut app, 2, b"h3");
    assert_eq!(second, vec![Command::CheckDuplicates { checksums: vec![fingerprint(b"h3")] }]);
    let third_before = app.files()[2].state;
    assert_eq!(third_before, FileState::CheckingDuplicate);

    let commands =
        app.update(Message::DuplicateCheckResponse(requested, vec![fingerprint(b"h1")]));
    assert!(commands.is_empty());
    assert_eq!(
        states(&app),
        vec![FileState::Duplicate, FileState::Pending, FileState::CheckingDuplicate]
    );
}

#[test]
fn a_file_that_is_still_hashed_is_untouched_by_an_answer() {
    let mut app = signed_in();
    drop_paths(&mut app, &["/v/h1.mp4"]);
    analyzed(&mut app, 0, b"h1");
    drop_paths(&mut app, &["/v/h3.mp4"]);
    app.update(Message::DuplicateCheckResponse(
        vec![fingerprint(b"h1"), "Not calculated".to_string()],
        vec!["Not calculated".to_string()],
    ));
    assert_eq!(states(&app), vec![FileState::Pending, FileState::Analyzing]);
}

#[test]
fn an_answer_does_not_move_files_that_are_past_the_check() {
    let mut app = three_pending();
    app.update(Message::DuplicateCheckResponse(
        vec![fingerprint(b"a"), fingerprint(b"b"), fingerprint(b"c")],
        vec![fingerprint(b"a"), fingerprint(b"b"), fingerprint(b"c")],
    ));
    assert_eq!(states(&app), vec![FileState::Pending; 3]);
}

#[test]
fn a_failed_check_leaves_the_files_for_the_next_wave() {
    let mut app = signed_in();
    drop_paths(&mut app, &["/v/a.mp4"]);
    let check = analyzed(&mut app, 0, b"a");
    assert_eq!(check.len(), 1);
    let commands = app.update(Message::DuplicateCheckFailed(vec![fingerprint(b"a")]));
    assert!(commands.is_empty());
    assert_eq!(states(&app), vec![FileState::Analyzed]);

    drop_paths(&mut app, &["/v/b.mp4"]);
    let commands = analyzed(&mut app, 1, b"b");
    assert_eq!(
        commands,
        vec![Command::CheckDuplicates { checksums: vec![fingerprint(b"a"), fingerprint(b"b")] }]
    );
    assert_eq!(states(&app), vec![FileState::CheckingDuplicate; 2]);
}

#[test]
fn the_keys_decide_how_a_click_selects() {
    let mut app = three_pending();
    app.update(Message::SelectFile(0));
    assert_eq!(app.file_selection(), &FileSelection::Single(0));

    let down = |key_code| {
        Message::EventOccurred(Event::Keyboard { key_code, state: ButtonState::Pressed })
    };
    let up = |key_code| {
        Message::EventOccurred(Event::Keyboard { key_code, state: ButtonState::Released })
    };

    app.update(down(KeyCode::LShift));
    app.update(Message::SelectFile(2));
    assert_eq!(app.file_selection(), &FileSelection::Multiple(vec![0, 1, 2]));
    app.update(up(KeyCode::LShift));

    app.update(down(KeyCode::LControl));
    app.update(Message::SelectFile(1));
    assert_eq!(app.file_selection(), &FileSelection::Multiple(vec![0, 2]));
    app.update(up(KeyCode::LControl));

    app.update(down(KeyCode::Other));
    app.update(Message::SelectFile(1));
    assert_eq!(app.file_selection(), &FileSelection::Single(1));
}

#[test]
fn choosing_a_tab_clears_the_selection() {
    let mut app = three_pending();
    app.update(Message::SelectFile(1));
    app.update(Message::SetFilter(Filter::Queued));
    assert_eq!(app.current_filter(), Filter::Queued);
    assert_eq!(app.file_selection(), &FileSelection::Empty);
}

#[test]
fn the_selected_pending_files_are_queued_with_the_tags() {
    let mut app = three_pending();
    app.update(Message::SetTags("holiday 2020".to_string()));
    assert_eq!(app.tags(), "holiday 2020");
    app.update(Message::SelectFile(0));
    app.update(Message::EventOccurred(Event::Keyboard {
        key_code: KeyCode::LControl,
        state: ButtonState::Pressed,
    }));
    app.update(Message::SelectFile(2));
    let commands = app.update(Message::Enqueue);
    assert!(commands.is_empty());
    assert_eq!(states(&app), vec![FileState::Queued, FileState::Pending, FileState::Queued]);
    let tags: Vec<&str> = app.files().iter().map(|f| f.tags.as_str()).collect();
    assert_eq!(tags, vec!["holiday 2020", "", "holiday 2020"]);
}

#[test]
fn rows_are_counted_in_the_shown_tab() {
    let mut app = signed_in();
    drop_paths(&mut app, &["/v/a.mp4", "/v/b.mp4", "/v/c.mp4"]);
    analyzed(&mut app, 0, b"a");
    analyzed(&mut app, 1, b"b");
    analyzed(&mut app, 2, b"c");
    // The first file is a duplicate, and so not a row of the pending tab.
    app.update(Message::DuplicateCheckResponse(
        vec![fingerprint(b"a"), fingerprint(b"b"), fingerprint(b"c")],
        vec![fingerprint(b"a")],
    ));
    app.update(Message::SelectFile(0));
    app.update(Message::SetTags("t".to_string()));
    app.update(Message::Enqueue);
    assert_eq!(states(&app), vec![FileState::Duplicate, FileState::Queued, FileState::Pending]);
    assert_eq!(app.files()[0].tags, "");
    assert_eq!(app.files()[1].tags, "t");
}

#[test]
fn only_pending_files_are_queued() {
    let mut app = signed_in();
    drop_paths(&mut app, &["/v/a.mp4", "/v/b.mp4"]);
    analyzed(&mut app, 0, b"a");
    // Both rows are shown in the pending tab; neither file is pending yet.
    app.update(Message::SelectFile(0));
    app.update(Message::SetTags("t".to_string()));
    app.update(Message::Enqueue);
    assert_eq!(states(&app), vec![FileState::Analyzed, FileState::Analyzing]);
    assert_eq!(app.files()[0].tags, "");
}

#[test]
fn a_selection_beyond_the_rows_queues_nothing() {
    let mut app = three_pending();
    app.update(Message::SelectFile(7));
    app.update(Message::Enqueue);
    assert_eq!(states(&app), vec![FileState::Pending; 3]);
}

#[test]
fn queueing_without_a_selection_changes_nothing() {
    let mut app = three_pending();
    app.update(Message::Enqueue);
    assert_eq!(states(&app), vec![FileState::Pending; 3]);
}

#[test]
fn starting_the_uploads_reserves_a_slot_for_each_queued_file() {
    let mut app = three_pending();
    app.update(Message::SelectFile(0));
    app.update(Message::EventOccurred(Event::Keyboard {
        key_code: KeyCode::LShift,
        state: ButtonState::Pressed,
    }));
    app.update(Message::SelectFile(1));
    app.update(Message::Enqueue);
    let commands = app.update(Message::StartUpload);
    assert_eq!(
        commands,
        vec![
            Command::ReserveUpload {
                id: 0,
                path: "/v/a.mp4".to_string(),
                md5: fingerprint(b"a"),
            },
            Command::ReserveUpload {
                id: 1,
                path: "/v/b.mp4".to_string(),
                md5: fingerprint(b"b"),
            },
        ]
    );
    assert_eq!(states(&app), vec![FileState::Uploading, FileState::Uploading, FileState::Pending]);
    assert!(app.update(Message::StartUpload).is_empty());
}

#[test]
fn an_upload_runs_through_its_three_parts() {
    let mut app = one_queued();
    let commands = app.update(Message::StartUpload);
    assert_eq!(commands.len(), 1);
    assert_eq!(app.files()[0].step, UploadStep::Reserving);

    let commands = app.update(Message::UploadReserved(0, slot()));
    assert_eq!(
        commands,
        vec![Command::UploadFile {
            id: 0,
            path: "/v/a.mp4".to_string(),
            url: "https://store.test/slot/1".to_string(),
        }]
    );
    assert_eq!(app.files()[0].remote_id, Some("remote-1".to_string()));
    assert_eq!(app.files()[0].remote_upload_url, Some("https://store.test/slot/1".to_string()));
    assert_eq!(app.files()[0].step, UploadStep::Sending);
    assert_eq!(app.files()[0].state, FileState::Uploading);

    let commands = app.update(Message::FileUploaded(0));
    assert_eq!(
        commands,
        vec![Command::FinalizeUpload {
            id: 0,
            remote_id: "remote-1".to_string(),
            tags: "x".to_string(),
            source: "".to_string(),
            description: "".to_string(),
        }]
    );
    assert_eq!(app.files()[0].step, UploadStep::Finalizing);
    assert_eq!(app.files()[0].state, FileState::Uploading);

    let commands = app.update(Message::SuccessfulUpload(0));
    assert!(commands.is_empty());
    assert_eq!(app.files()[0].state, FileState::Completed);
}

#[test]
fn a_failed_transfer_fails_the_file_and_is_not_finalized() {
    let mut app = one_queued();
    app.update(Message::StartUpload);
    app.update(Message::UploadReserved(0, slot()));

    let commands = app.update(Message::FailedUpload(0));
    assert!(commands.is_empty());
    assert_eq!(app.files()[0].state, FileState::Failed);

    // Late reports for the same file change nothing and ask for nothing.
    assert!(app.update(Message::FileUploaded(0)).is_empty());
    assert!(app.update(Message::SuccessfulUpload(0)).is_empty());
    assert!(app.update(Message::UploadReserved(0, slot())).is_empty());
    assert!(app.update(Message::StartUpload).is_empty());
    assert_eq!(app.files()[0].state, FileState::Failed);
}

#[test]
fn a_failed_reservation_or_completion_fails_the_file() {
    let mut app = one_queued();
    app.update(Message::StartUpload);
    app.update(Message::FailedUpload(0));
    assert_eq!(app.files()[0].state, FileState::Failed);
    assert_eq!(app.files()[0].remote_id, None);

    let mut app = one_queued();
    app.update(Message::StartUpload);
    app.update(Message::UploadReserved(0, slot()));
    app.update(Message::FileUploaded(0));
    app.update(Message::FailedUpload(0));
    assert_eq!(app.files()[0].state, FileState::Failed);
}

#[test]
fn upload_reports_out_of_turn_are_ignored() {
    let mut app = one_queued();
    // Nothing is uploading yet.
    assert!(app.update(Message::UploadReserved(0, slot())).is_empty());
    app.update(Message::FailedUpload(0));
    assert_eq!(states(&app), vec![FileState::Queued]);

    app.update(Message::StartUpload);
    // The slot is not reserved yet.
    assert!(app.update(Message::FileUploaded(0)).is_empty());
    app.update(Message::SuccessfulUpload(0));
    assert_eq!(app.files()[0].state, FileState::Uploading);
    assert_eq!(app.files()[0].step, UploadStep::Reserving);

    app.update(Message::UploadReserved(0, slot()));
    // The bytes are not sent yet.
    app.update(Message::SuccessfulUpload(0));
    assert_eq!(app.files()[0].state, FileState::Uploading);
    // A second reservation does not replace the slot.
    let other = Upload { id: "remote-2".to_string(), url: "https://store.test/slot/2".to_string() };
    assert!(app.update(Message::UploadReserved(0, other)).is_empty());
    assert_eq!(app.files()[0].remote_id, Some("remote-1".to_string()));
}

#[test]
fn an_upload_report_applies_to_its_own_file_only() {
    let mut app = three_pending();
    app.update(Message::SelectFile(0));
    app.update(Message::EventOccurred(Event::Keyboard {
        key_code: KeyCode::LShift,
        state: ButtonState::Pressed,
    }));
    app.update(Message::SelectFile(2));
    app.update(Message::Enqueue);
    app.update(Message::StartUpload);
    app.update(Message::UploadReserved(1, slot()));
    app.update(Message::FailedUpload(2));
    app.update(Message::FailedUpload(77));
    assert_eq!(
        states(&app),
        vec![FileState::Uploading, FileState::Uploading, FileState::Failed]
    );
    let steps: Vec<UploadStep> = app.files().iter().map(|f| f.step).collect();
    assert_eq!(steps[0], UploadStep::Reserving);
    assert_eq!(steps[1], UploadStep::Sending);
}

#[test]
fn the_summary_counts_files_by_state() {
    let mut app = signed_in();
    drop_paths(&mut app, &["/v/a.mp4", "/v/b.mp4", "/v/c.mp4", "/v/d.mp4", "/v/e.mp4"]);
    analyzed(&mut app, 0, b"a");
    analyzed(&mut app, 1, b"b");
    analyzed(&mut app, 2, b"c");
    app.update(Message::FileAnalyzed(3, Err(AnalyzeError::FileRead)));
    assert_eq!(app.pending().len(), 4);
    assert_eq!(app.failed().len(), 1);
    assert_eq!(app.failed()[0].id, 3);
    assert_eq!(app.visible().len(), 4);

    analyzed(&mut app, 4, b"e");
    app.update(Message::DuplicateCheckResponse(
        vec![fingerprint(b"a"), fingerprint(b"b"), fingerprint(b"c"), fingerprint(b"e")],
        vec![fingerprint(b"c")],
    ));
    assert_eq!(app.duplicate().len(), 1);
    assert_eq!(app.duplicate()[0].path, "/v/c.mp4");
    assert_eq!(app.pending().len(), 3);

    app.update(Message::SelectFile(0));
    app.update(Message::Enqueue);
    assert_eq!(app.queued().len(), 1);
    assert_eq!(app.queued()[0].id, 0);
    assert_eq!(app.pending().len(), 2);
    assert_eq!(app.visible().len(), 2);

    app.update(Message::StartUpload);
    // An uploading file counts as pending in the summary, and is shown in the queued tab.
    assert_eq!(app.queued().len(), 0);
    assert_eq!(app.pending().len(), 3);
    assert_eq!(app.visible().len(), 2);
    app.update(Message::SetFilter(Filter::Queued));
    assert_eq!(app.visible().len(), 1);

    app.update(Message::UploadReserved(0, slot()));
    app.update(Message::FileUploaded(0));
    app.update(Message::SuccessfulUpload(0));
    assert_eq!(app.completed().len(), 1);
    assert_eq!(app.completed()[0].id, 0);
    assert_eq!(app.pending().len(), 2);
    let ids: Vec<u64> = app.pending().iter().map(|f| f.id).collect();
    assert_eq!(ids, vec![1, 4]);
}
