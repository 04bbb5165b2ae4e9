use mx::media::{is_video, media_type_is_video};

#[test]
fn video_extensions_are_videos() {
    assert!(is_video("/videos/clip.mp4"));
    assert!(is_video("clip.mkv"));
    assert!(is_video("clip.webm"));
    assert!(is_video("clip.avi"));
    assert!(is_video("clip.mov"));
}

#[test]
fn the_extension_is_read_without_regard_to_case() {
    assert!(is_video("CLIP.MP4"));
    assert!(is_video("clip.Mkv"));
}

#[test]
fn other_files_are_not_videos() {
    assert!(!is_video("notes.txt"));
    assert!(!is_video("cover.png"));
    assert!(!is_video("song.mp3"));
}

#[test]
fn paths_without_a_known_extension_are_not_videos() {
    assert!(!is_video("clip"));
    assert!(!is_video("clip.unknownextension"));
    assert!(!is_video(""));
    assert!(!is_video("/videos/mp4"));
    assert!(!is_video("/videos.mp4/readme"));
}

#[test]
fn a_video_type_starts_with_video_and_a_slash() {
    assert!(media_type_is_video("video/mp4"));
    assert!(media_type_is_video("video/"));
    assert!(media_type_is_video("video/x-matroska"));
    assert!(!media_type_is_video("video"));
    assert!(!media_type_is_video("audio/mpeg"));
    assert!(!media_type_is_video("application/video/mp4"));
    assert!(!media_type_is_video("Video/mp4"));
    assert!(!media_type_is_video(""));
}
