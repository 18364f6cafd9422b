use vrc_manager::ban::{ban_decision, extract_avatar_file_id, url_ban_decision, BanDecision};
use vrc_manager::config::{AutoBan, AutoInvite, Config};
use vrc_manager::enrich::{enrich_event, resolve_other};
use vrc_manager::events::{AppEvent, EventKind, Profile};
use vrc_manager::ident::IdentityMap;
use vrc_manager::invite::{delay_bounds_ok, invite_delay_secs};

fn profile(id: &[u8], avatar_url: &[u8], pic_override: &[u8]) -> Profile {
    Profile {
        user_id: id.to_vec(),
        display_name: b"Alice".to_vec(),
        avatar_image_url: avatar_url.to_vec(),
        profile_pic_override: pic_override.to_vec(),
        avatar_thumbnail_url: Vec::new(),
    }
}

const AVATAR_URL: &[u8] = b"https://api.vrchat.cloud/api/1/file/file_1234-abcd/1/file";

#[test]
fn avatar_file_id_is_the_fourth_path_segment() {
    let p = profile(b"usr_1", AVATAR_URL, b"");
    let id = extract_avatar_file_id(&p).expect("URL must parse");
    assert_eq!(id, Some(b"file_1234-abcd".to_vec()));
}

#[test]
fn picture_override_hides_the_avatar() {
    let p = profile(b"usr_1", AVATAR_URL, b"https://example.com/pic.png");
    assert_eq!(extract_avatar_file_id(&p).unwrap(), None);
}

#[test]
fn unreadable_avatar_url_is_an_error() {
    let p = profile(b"usr_1", b"not a url", b"");
    assert!(extract_avatar_file_id(&p).is_err());
    let p = profile(b"usr_1", b"https://api.vrchat.cloud/api", b"");
    assert!(extract_avatar_file_id(&p).is_err());
}

#[test]
fn banned_avatar_is_banned() {
    let p = profile(b"usr_1", AVATAR_URL, b"");
    let banned = vec![b"file_other".to_vec(), b"file_1234-abcd".to_vec()];
    match ban_decision(&p, &banned) {
        BanDecision::Ban(id) => assert_eq!(id, b"file_1234-abcd".to_vec()),
        _ => panic!("expected a ban"),
    }
    let clean = vec![b"file_other".to_vec()];
    assert!(matches!(ban_decision(&p, &clean), BanDecision::Skip));
    let hidden = profile(b"usr_1", AVATAR_URL, b"override");
    assert!(matches!(ban_decision(&hidden, &banned), BanDecision::Skip));
}

#[test]
fn url_ban_decision_matches() {
    let banned = vec![b"file_1234-abcd".to_vec()];
    match url_ban_decision(&AVATAR_URL.to_vec(), &banned) {
        BanDecision::Ban(id) => assert_eq!(id, b"file_1234-abcd".to_vec()),
        _ => panic!("expected a ban"),
    }
    assert!(matches!(
        url_ban_decision(&b"junk".to_vec(), &banned),
        BanDecision::InvalidAvatarUrl
    ));
}

#[test]
fn invite_delay_stays_in_bounds() {
    let cfg = AutoInvite { enabled: true, delay_min: 5, delay_max: 10 };
    assert!(delay_bounds_ok(&cfg));
    let mut seen = std::collections::BTreeSet::new();
    for _ in 0..200 {
        let d = invite_delay_secs(&cfg);
        assert!((5..10).contains(&d));
        seen.insert(d);
    }
    // The delay is drawn, not fixed: 200 draws over five values all being
    // equal would be astronomically unlikely.
    assert!(seen.len() > 1);
    let bad = AutoInvite { enabled: true, delay_min: 10, delay_max: 10 };
    assert!(!delay_bounds_ok(&bad));
}

#[test]
fn own_account_is_skipped_by_the_enricher() {
    let me = b"usr_me".to_vec();
    assert!(resolve_other(&me, profile(b"usr_me", AVATAR_URL, b"")).is_none());
    let other = resolve_other(&me, profile(b"usr_1", AVATAR_URL, b""));
    assert_eq!(other.unwrap().user_id, b"usr_1".to_vec());
}

#[test]
fn enriched_events_carry_the_profile() {
    let ev = enrich_event(EventKind::Joined, b"usr_1".to_vec(), profile(b"usr_1", AVATAR_URL, b""));
    assert!(matches!(ev, AppEvent::OnPlayerJoined(id, p) if id == b"usr_1" && p.user_id == b"usr_1"));
    let ev = enrich_event(EventKind::Left, b"usr_1".to_vec(), profile(b"usr_1", AVATAR_URL, b""));
    assert!(matches!(ev, AppEvent::OnPlayerLeft(..)));
    let ev = enrich_event(
        EventKind::AvatarChanged,
        b"usr_1".to_vec(),
        profile(b"usr_1", AVATAR_URL, b""),
    );
    assert!(matches!(ev, AppEvent::OnAvatarChanged(..)));
}

#[test]
fn identity_map_correlates_names() {
    let mut m = IdentityMap::new();
    assert!(m.is_empty());
    m.insert(b"Alice".to_vec(), b"usr_1111".to_vec());
    m.insert(b"Bob".to_vec(), b"usr_2222".to_vec());
    assert_eq!(m.get(&b"Alice".to_vec()), Some(&b"usr_1111".to_vec()));
    // A rejoin overwrites the stale identifier.
    m.insert(b"Alice".to_vec(), b"usr_3333".to_vec());
    assert_eq!(m.get(&b"Alice".to_vec()), Some(&b"usr_3333".to_vec()));
    m.remove(&b"Alice".to_vec());
    assert_eq!(m.get(&b"Alice".to_vec()), None);
    // Removing an unknown name changes nothing.
    m.remove(&b"Nobody".to_vec());
    assert_eq!(m.get(&b"Bob".to_vec()), Some(&b"usr_2222".to_vec()));
    m.remove(&b"Bob".to_vec());
    assert!(m.is_empty());
}

#[test]
fn config_defaults_are_all_off() {
    let c = Config::default();
    assert!(!c.auto_invite.enabled);
    assert_eq!(c.auto_invite.delay_min, 0);
    assert_eq!(c.auto_invite.delay_max, 0);
    assert!(!c.auto_ban.enabled);
    assert!(!c.auto_ban.log_avatar_id);
    assert!(c.group_id.is_none());
    assert!(c.avatars_file.is_none());
    assert!(c.custom_log_dir.is_none());
    let ab = AutoBan::default();
    assert!(!ab.enabled && !ab.log_avatar_id);
}
