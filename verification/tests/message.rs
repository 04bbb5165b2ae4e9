use mx::api::{ApiError, Checksums, Config, Upload, User};
use mx::file::FileState;
use mx::message::{Filter, Message};
use mx::scenes::{Scenes, WelcomeMessage, WelcomeScene};
use mx::message::Command;

#[test]
fn each_tab_shows_its_states() {
    assert_eq!(
        Filter::Pending.states(),
        vec![
            FileState::Analyzing,
            FileState::Analyzed,
            FileState::Pending,
            FileState::CheckingDuplicate,
        ]
    );
    assert_eq!(Filter::Duplicate.states(), vec![FileState::Duplicate]);
    assert_eq!(Filter::Completed.states(), vec![FileState::Completed]);
    assert_eq!(Filter::Failed.states(), vec![FileState::Failed]);
    assert_eq!(Filter::Queued.states(), vec![FileState::Queued, FileState::Uploading]);
}

#[test]
fn includes_agrees_with_states() {
    let all = [
        FileState::Analyzing,
        FileState::Analyzed,
        FileState::CheckingDuplicate,
        FileState::Pending,
        FileState::Uploading,
        FileState::Completed,
        FileState::Failed,
        FileState::Duplicate,
        FileState::Queued,
    ];
    for filter in
        [Filter::Pending, Filter::Duplicate, Filter::Completed, Filter::Failed, Filter::Queued]
    {
        for state in all {
            assert_eq!(filter.includes(state), filter.states().contains(&state));
        }
    }
}

#[test]
fn the_defaults_are_the_pending_tab_and_the_welcome_screen() {
    assert_eq!(Filter::default(), Filter::Pending);
    assert_eq!(Scenes::default(), Scenes::Welcome);
}

#[test]
fn a_known_token_reports_configuration_and_identity() {
    let config = Config::new("token".to_string());
    let user = User { id: 7, username: "ada".to_string(), role: "admin".to_string() };
    assert_eq!(
        Message::identity(config.clone(), Ok(user.clone())),
        Message::SetConfigAndUser(config, user)
    );
}

#[test]
fn a_failed_lookup_reports_the_text_of_the_error() {
    let config = Config::new("token".to_string());
    assert_eq!(
        Message::identity(config.clone(), Err(ApiError::ApiKeyError)),
        Message::WelcomeMessage(WelcomeMessage::SetDisplayError(
            "API key was not valid".to_string()
        ))
    );
    assert_eq!(
        Message::identity(config, Err(ApiError::ServerUnavailable)),
        Message::WelcomeMessage(WelcomeMessage::SetDisplayError(
            "Server is unreachable at this time".to_string()
        ))
    );
}

#[test]
fn a_duplicate_check_reports_request_and_answer() {
    let requested = vec!["h1".to_string(), "h2".to_string()];
    let found = Checksums { checksums: vec!["h1".to_string()] };
    assert_eq!(
        Message::duplicate_check(requested.clone(), Ok(found)),
        Message::DuplicateCheckResponse(requested.clone(), vec!["h1".to_string()])
    );
    assert_eq!(
        Message::duplicate_check(requested.clone(), Err(ApiError::NotFound)),
        Message::DuplicateCheckFailed(requested)
    );
}

#[test]
fn upload_parts_report_success_or_failure() {
    let slot = Upload { id: "r1".to_string(), url: "https://store.test/1".to_string() };
    assert_eq!(Message::reservation(3, Ok(slot.clone())), Message::UploadReserved(3, slot.clone()));
    assert_eq!(Message::reservation(3, Err(ApiError::JsonError)), Message::FailedUpload(3));
    assert_eq!(Message::transfer(3, Ok(())), Message::FileUploaded(3));
    assert_eq!(Message::transfer(3, Err(ApiError::ServerUnavailable)), Message::FailedUpload(3));
    assert_eq!(Message::completion(3, Ok(slot)), Message::SuccessfulUpload(3));
    assert_eq!(Message::completion(3, Err(ApiError::ApiKeyError)), Message::FailedUpload(3));
}

#[test]
fn the_welcome_screen_follows_its_messages() {
    let mut scene = WelcomeScene::default();
    assert_eq!(scene.api_key(), "");
    assert_eq!(scene.error(), &None);

    let commands = scene.update(WelcomeMessage::SetDisplayError("no".to_string()));
    assert!(commands.is_empty());
    assert_eq!(scene.error(), &Some("no".to_string()));

    let commands = scene.update(WelcomeMessage::ApiKeyInputChanged("abcdef".to_string()));
    assert!(commands.is_empty());
    assert_eq!(scene.api_key(), "abcdef");
    assert_eq!(scene.error(), &None);

    let commands = scene.update(WelcomeMessage::NextScene);
    assert_eq!(commands, vec![Command::GetUser { config: Config::new("abcdef".to_string()) }]);
    assert_eq!(scene.api_key(), "abcdef");
}

#[test]
fn a_token_can_be_submitted_once_it_is_longer_than_five_bytes() {
    let mut scene = WelcomeScene::default();
    assert!(!scene.can_continue());
    scene.update(WelcomeMessage::ApiKeyInputChanged("12345".to_string()));
    assert!(!scene.can_continue());
    scene.update(WelcomeMessage::ApiKeyInputChanged("123456".to_string()));
    assert!(scene.can_continue());
    // Three characters of two bytes each.
    scene.update(WelcomeMessage::ApiKeyInputChanged("ééé".to_string()));
    assert!(scene.can_continue());
}
