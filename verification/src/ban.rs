use vstd::prelude::*;

use crate::events::Profile;
use crate::text::bytes_eq;

verus! {

// The auto-ban rule: a player whose current avatar's file identifier is on
// the banned-avatar list is banned from the group.  The file identifier is
// the fourth path segment of the avatar image URL; a profile with a
// picture override exposes no avatar image and is skipped.
/// Names the fourth-style path segment of a URL: what `url::Url::parse`
/// followed by `path_segments` exposes at position `n`, a function of the
/// URL bytes and the index alone.
pub uninterp spec fn path_segment_of(url: Seq<u8>, n: int) -> Option<Seq<u8>>;

/// Relies on url::Url::parse and url::Url::path_segments: for a parseable
/// hierarchical URL they expose the path split on `/`; bytes that are not
/// UTF-8, do not parse, or have too few segments yield nothing.
#[verifier::external_body]
fn nth_path_segment(url: &Vec<u8>, n: usize) -> (r: Option<Vec<u8>>)
    ensures
        (match (r, path_segment_of(url@, n as int)) {
            (Some(v), Some(s)) => v@ == s,
            (None, None) => true,
            _ => false,
        }),
{
    let text = match core::str::from_utf8(url.as_slice()) {
        Ok(t) => t,
        Err(_) => return None,
    };
    let parsed = match url::Url::parse(text) {
        Ok(u) => u,
        Err(_) => return None,
    };
    let mut segments = match parsed.path_segments() {
        Some(s) => s,
        None => return None,
    };
    segments.nth(n).map(|s| s.as_bytes().to_vec())
}

/// The avatar URL cannot be read: it does not parse, or exposes no fourth
/// path segment.
#[derive(Clone, Copy, PartialEq, Eq, Structural, Debug)]
pub enum AvatarIdError {
    InvalidUrl,
}

/// The avatar file identifier a profile exposes: `Ok(None)` when a profile
/// picture override hides the avatar image, the fourth path segment of the
/// avatar image URL otherwise, and an error when that URL cannot be read.
pub fn extract_avatar_file_id(user: &Profile) -> (r: Result<Option<Vec<u8>>, AvatarIdError>)
    ensures
        (match r {
            Ok(None) => user.profile_pic_override@.len() != 0,
            Ok(Some(id)) => user.profile_pic_override@.len() == 0 && path_segment_of(
                user.avatar_image_url@,
                3,
            ) == Some(id@),
            Err(e) => user.profile_pic_override@.len() == 0 && path_segment_of(
                user.avatar_image_url@,
                3,
            ) is None && e == AvatarIdError::InvalidUrl,
        }),
{
    if user.profile_pic_override.len() > 0 {
        return Ok(None);
    }
    match nth_path_segment(&user.avatar_image_url, 3) {
        Some(id) => Ok(Some(id)),
        None => Err(AvatarIdError::InvalidUrl),
    }
}

/// `x` stands on the list.
pub open spec fn in_list(list: Seq<Vec<u8>>, x: Seq<u8>) -> bool {
    exists|i: int| 0 <= i < list.len() && list[i]@ == x
}

pub fn list_contains(list: &Vec<Vec<u8>>, x: &Vec<u8>) -> (r: bool)
    ensures
        r == in_list(list@, x@),
{
    let mut i: usize = 0;
    while i < list.len()
        invariant
            0 <= i <= list@.len(),
            forall|k: int| 0 <= k < i ==> list@[k]@ != x@,
        decreases list@.len() - i,
    {
        if bytes_eq(&list[i], x) {
            return true;
        }
        i = i + 1;
    }
    false
}

/// What the auto-ban consumer decides for one profile.
pub enum BanDecision {
    /// Ban the player: the avatar file identifier stands on the list.
    Ban(Vec<u8>),
    /// Leave the player alone.
    Skip,
    /// The avatar URL could not be read; the caller reports an error.
    InvalidAvatarUrl,
}

/// Decides the auto-ban outcome for a profile against the banned-avatar
/// list: ban exactly when the profile exposes an avatar file identifier
/// that stands on the list.
pub fn ban_decision(user: &Profile, banned: &Vec<Vec<u8>>) -> (r: BanDecision)
    ensures
        (match r {
            BanDecision::Ban(id) => user.profile_pic_override@.len() == 0 && path_segment_of(
                user.avatar_image_url@,
                3,
            ) == Some(id@) && in_list(banned@, id@),
            BanDecision::Skip => user.profile_pic_override@.len() != 0 || (path_segment_of(
                user.avatar_image_url@,
                3,
            ) matches Some(s) && !in_list(banned@, s)),
            BanDecision::InvalidAvatarUrl => user.profile_pic_override@.len() == 0
                && path_segment_of(user.avatar_image_url@, 3) is None,
        }),
{
    match extract_avatar_file_id(user) {
        Ok(None) => BanDecision::Skip,
        Ok(Some(id)) => {
            if list_contains(banned, &id) {
                BanDecision::Ban(id)
            } else {
                BanDecision::Skip
            }
        },
        Err(_) => BanDecision::InvalidAvatarUrl,
    }
}

/// Decides the ban outcome from a bare avatar image URL, for the consumer
/// that looks the profile up itself and knows no picture override.
pub fn url_ban_decision(avatar_url: &Vec<u8>, banned: &Vec<Vec<u8>>) -> (r: BanDecision)
    ensures
        (match r {
            BanDecision::Ban(id) => path_segment_of(avatar_url@, 3) == Some(id@) && in_list(
                banned@,
                id@,
            ),
            BanDecision::Skip => path_segment_of(avatar_url@, 3) matches Some(s) && !in_list(
                banned@,
                s,
            ),
            BanDecision::InvalidAvatarUrl => path_segment_of(avatar_url@, 3) is None,
        }),
{
    match nth_path_segment(avatar_url, 3) {
        Some(id) => {
            if list_contains(banned, &id) {
                BanDecision::Ban(id)
            } else {
                BanDecision::Skip
            }
        },
        None => BanDecision::InvalidAvatarUrl,
    }
}

} // verus!
