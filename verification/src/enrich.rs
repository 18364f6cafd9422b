use vstd::prelude::*;

use crate::events::{AppEvent, AppEventView, EventKind, Profile, ProfileView};
use crate::text::bytes_eq;

verus! {

// The enrichment step: a raw event names only a user identifier; the
// enricher looks the profile up and republishes the event with it.  An
// event about the account the process itself is signed in as is dropped.
/// Keeps a fetched profile only when it belongs to someone else than the
/// signed-in account.
pub fn resolve_other(current_user_id: &Vec<u8>, user: Profile) -> (r: Option<Profile>)
    ensures
        (match r {
            Some(p) => p@ == user@ && current_user_id@ != user.user_id@,
            None => current_user_id@ == user.user_id@,
        }),
{
    if bytes_eq(current_user_id, &user.user_id) {
        None
    } else {
        Some(user)
    }
}

/// The enriched bus event standing for a raw event of `kind` about
/// `user_id`, carrying the looked-up profile.
pub open spec fn enriched_app_event(kind: EventKind, id: Seq<u8>, p: ProfileView) -> AppEventView {
    match kind {
        EventKind::Joined => AppEventView::OnPlayerJoined(id, p),
        EventKind::Left => AppEventView::OnPlayerLeft(id, p),
        EventKind::AvatarChanged => AppEventView::OnAvatarChanged(id, p),
    }
}

/// Builds the enriched bus event for a raw event whose profile lookup
/// succeeded.
pub fn enrich_event(kind: EventKind, user_id: Vec<u8>, user: Profile) -> (r: AppEvent)
    ensures
        r@ == enriched_app_event(kind, user_id@, user@),
{
    match kind {
        EventKind::Joined => AppEvent::OnPlayerJoined(user_id, user),
        EventKind::Left => AppEvent::OnPlayerLeft(user_id, user),
        EventKind::AvatarChanged => AppEvent::OnAvatarChanged(user_id, user),
    }
}

} // verus!
