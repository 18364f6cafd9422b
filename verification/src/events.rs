use vstd::prelude::*;

use crate::text::clone_bytes;

verus! {

/// The three shapes of line the log grammar knows.
#[derive(Clone, Copy, PartialEq, Eq, Structural, Debug)]
pub enum EventKind {
    Joined,
    Left,
    AvatarChanged,
}

/// An event extracted from a single log line, before any profile lookup.
pub struct RawEvent {
    pub kind: EventKind,
    pub user_id: Vec<u8>,
}

pub struct RawEventView {
    pub kind: EventKind,
    pub user_id: Seq<u8>,
}

impl View for RawEvent {
    type V = RawEventView;

    open spec fn view(&self) -> RawEventView {
        RawEventView { kind: self.kind, user_id: self.user_id@ }
    }
}

impl RawEvent {
    /// A copy whose view equals this event's view.
    pub fn dup(&self) -> (r: RawEvent)
        ensures
            r@ == self@,
    {
        RawEvent { kind: self.kind, user_id: clone_bytes(&self.user_id) }
    }
}

/// What the enrichment step reads of a directory profile.
pub struct Profile {
    pub user_id: Vec<u8>,
    pub display_name: Vec<u8>,
    pub avatar_image_url: Vec<u8>,
    pub profile_pic_override: Vec<u8>,
    pub avatar_thumbnail_url: Vec<u8>,
}

pub struct ProfileView {
    pub user_id: Seq<u8>,
    pub display_name: Seq<u8>,
    pub avatar_image_url: Seq<u8>,
    pub profile_pic_override: Seq<u8>,
    pub avatar_thumbnail_url: Seq<u8>,
}

impl View for Profile {
    type V = ProfileView;

    open spec fn view(&self) -> ProfileView {
        ProfileView {
            user_id: self.user_id@,
            display_name: self.display_name@,
            avatar_image_url: self.avatar_image_url@,
            profile_pic_override: self.profile_pic_override@,
            avatar_thumbnail_url: self.avatar_thumbnail_url@,
        }
    }
}

impl Profile {
    /// A copy whose view equals this profile's view.
    pub fn dup(&self) -> (r: Profile)
        ensures
            r@ == self@,
    {
        Profile {
            user_id: clone_bytes(&self.user_id),
            display_name: clone_bytes(&self.display_name),
            avatar_image_url: clone_bytes(&self.avatar_image_url),
            profile_pic_override: clone_bytes(&self.profile_pic_override),
            avatar_thumbnail_url: clone_bytes(&self.avatar_thumbnail_url),
        }
    }
}

/// Everything the bus carries: the raw events straight from the log, the
/// profile-enriched ones, and the two derived outcomes.
pub enum AppEvent {
    OnPlayerJoinedRaw(Vec<u8>),
    OnPlayerLeftRaw(Vec<u8>),
    OnAvatarChangedRaw(Vec<u8>),
    OnPlayerJoined(Vec<u8>, Profile),
    OnPlayerLeft(Vec<u8>, Profile),
    OnAvatarChanged(Vec<u8>, Profile),
    OnAutoBanned(Vec<u8>, Vec<u8>),
    OnAutoInvited(Vec<u8>),
}

pub enum AppEventView {
    OnPlayerJoinedRaw(Seq<u8>),
    OnPlayerLeftRaw(Seq<u8>),
    OnAvatarChangedRaw(Seq<u8>),
    OnPlayerJoined(Seq<u8>, ProfileView),
    OnPlayerLeft(Seq<u8>, ProfileView),
    OnAvatarChanged(Seq<u8>, ProfileView),
    OnAutoBanned(Seq<u8>, Seq<u8>),
    OnAutoInvited(Seq<u8>),
}

impl View for AppEvent {
    type V = AppEventView;

    open spec fn view(&self) -> AppEventView {
        match self {
            AppEvent::OnPlayerJoinedRaw(id) => AppEventView::OnPlayerJoinedRaw(id@),
            AppEvent::OnPlayerLeftRaw(id) => AppEventView::OnPlayerLeftRaw(id@),
            AppEvent::OnAvatarChangedRaw(id) => AppEventView::OnAvatarChangedRaw(id@),
            AppEvent::OnPlayerJoined(id, p) => AppEventView::OnPlayerJoined(id@, p@),
            AppEvent::OnPlayerLeft(id, p) => AppEventView::OnPlayerLeft(id@, p@),
            AppEvent::OnAvatarChanged(id, p) => AppEventView::OnAvatarChanged(id@, p@),
            AppEvent::OnAutoBanned(id, av) => AppEventView::OnAutoBanned(id@, av@),
            AppEvent::OnAutoInvited(id) => AppEventView::OnAutoInvited(id@),
        }
    }
}

impl AppEvent {
    /// A copy whose view equals this event's view.
    pub fn dup(&self) -> (r: AppEvent)
        ensures
            r@ == self@,
    {
        match self {
            AppEvent::OnPlayerJoinedRaw(id) => AppEvent::OnPlayerJoinedRaw(clone_bytes(id)),
            AppEvent::OnPlayerLeftRaw(id) => AppEvent::OnPlayerLeftRaw(clone_bytes(id)),
            AppEvent::OnAvatarChangedRaw(id) => AppEvent::OnAvatarChangedRaw(clone_bytes(id)),
            AppEvent::OnPlayerJoined(id, p) => AppEvent::OnPlayerJoined(clone_bytes(id), p.dup()),
            AppEvent::OnPlayerLeft(id, p) => AppEvent::OnPlayerLeft(clone_bytes(id), p.dup()),
            AppEvent::OnAvatarChanged(id, p) => AppEvent::OnAvatarChanged(clone_bytes(id), p.dup()),
            AppEvent::OnAutoBanned(id, av) => AppEvent::OnAutoBanned(clone_bytes(id), clone_bytes(av)),
            AppEvent::OnAutoInvited(id) => AppEvent::OnAutoInvited(clone_bytes(id)),
        }
    }

    /// The raw bus event standing for an extracted log event.
    pub fn from_raw(ev: &RawEvent) -> (r: AppEvent)
        ensures
            r@ == raw_app_event(ev@),
    {
        match ev.kind {
            EventKind::Joined => AppEvent::OnPlayerJoinedRaw(clone_bytes(&ev.user_id)),
            EventKind::Left => AppEvent::OnPlayerLeftRaw(clone_bytes(&ev.user_id)),
            EventKind::AvatarChanged => AppEvent::OnAvatarChangedRaw(clone_bytes(&ev.user_id)),
        }
    }
}

/// The views of a sequence of raw events, in order.
pub open spec fn views_of(s: Seq<RawEvent>) -> Seq<RawEventView>
    decreases s.len(),
{
    if s.len() == 0 {
        Seq::empty()
    } else {
        views_of(s.drop_last()).push(s.last()@)
    }
}

pub proof fn lemma_views_of_push(s: Seq<RawEvent>, e: RawEvent)
    ensures
        views_of(s.push(e)) == views_of(s).push(e@),
{
    assert(s.push(e).drop_last() =~= s);
}

/// The views of a sequence of bus events, in order.
pub open spec fn app_views_of(s: Seq<AppEvent>) -> Seq<AppEventView>
    decreases s.len(),
{
    if s.len() == 0 {
        Seq::empty()
    } else {
        app_views_of(s.drop_last()).push(s.last()@)
    }
}

pub proof fn lemma_app_views_of_push(s: Seq<AppEvent>, e: AppEvent)
    ensures
        app_views_of(s.push(e)) == app_views_of(s).push(e@),
{
    assert(s.push(e).drop_last() =~= s);
}

pub proof fn lemma_app_views_of_props(s: Seq<AppEvent>)
    ensures
        app_views_of(s).len() == s.len(),
        forall|i: int| 0 <= i < s.len() ==> app_views_of(s)[i] == s[i]@,
    decreases s.len(),
{
    if s.len() > 0 {
        lemma_app_views_of_props(s.drop_last());
        assert forall|i: int| 0 <= i < s.len() implies app_views_of(s)[i] == s[i]@ by {
            if i < s.len() - 1 {
                assert(s.drop_last()[i] == s[i]);
            }
        }
    }
}

/// The bus event a raw log event turns into.
pub open spec fn raw_app_event(ev: RawEventView) -> AppEventView {
    match ev.kind {
        EventKind::Joined => AppEventView::OnPlayerJoinedRaw(ev.user_id),
        EventKind::Left => AppEventView::OnPlayerLeftRaw(ev.user_id),
        EventKind::AvatarChanged => AppEventView::OnAvatarChangedRaw(ev.user_id),
    }
}

} // verus!
