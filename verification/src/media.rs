//! Which paths count as videos, going by the media type that the
//! `mime_guess` crate guesses from a path's extension.

use vstd::prelude::*;
use crate::file::text_of;

verus! {

/// The first media type that `mime_guess::from_path` guesses for `path`, as
/// `first_raw` hands it out, or `None` where it guesses none. The guess goes
/// by the extension of the path and a table of the crate: nothing is read
/// from disk.
pub uninterp spec fn guessed_media_type(path: Seq<char>) -> Option<Seq<char>>;

/// `mime_guess::from_path(path).first_raw()`: the first guess for the path.
#[verifier::external_body]
fn guess_media_type(path: &str) -> (media_type: Option<String>)
    ensures
        text_of(media_type) == guessed_media_type(path@),
{
    match mime_guess::from_path(path).first_raw() {
        Some(media_type) => Some(media_type.to_owned()),
        None => None,
    }
}

/// Whether a media type is a video type: its text starts with `video/`.
pub open spec fn is_video_type(media_type: Seq<char>) -> bool {
    "video/"@.is_prefix_of(media_type)
}

/// Whether a path is admitted as a video: a media type is guessed for it,
/// and that type is a video type.
pub open spec fn is_video_path(path: Seq<char>) -> bool {
    match guessed_media_type(path) {
        Some(media_type) => is_video_type(media_type),
        None => false,
    }
}

/// Whether `media_type` is a video type.
pub fn media_type_is_video(media_type: &str) -> (video: bool)
    ensures
        video == is_video_type(media_type@),
{
    let prefix = "video/";
    proof {
        reveal_strlit("video/");
    }
    if media_type.unicode_len() < 6 {
        return false;
    }
    let mut i: usize = 0;
    while i < 6
        invariant
            i <= 6,
            prefix@ == "video/"@,
            prefix@.len() == 6,
            media_type@.len() >= 6,
            forall|k: int| 0 <= k < i ==> media_type@[k] == prefix@[k],
        decreases 6 - i,
    {
        if media_type.get_char(i) != prefix.get_char(i) {
            assert(media_type@.subrange(0, prefix@.len() as int)[i as int] != prefix@[i as int]);
            return false;
        }
        i += 1;
    }
    assert(prefix@ =~= media_type@.subrange(0, prefix@.len() as int));
    true
}

/// Whether the file at `path` is taken for a video.
pub fn is_video(path: &str) -> (video: bool)
    ensures
        video == is_video_path(path@),
{
    match guess_media_type(path) {
        Some(media_type) => media_type_is_video(media_type.as_str()),
        None => false,
    }
}

} // verus!
