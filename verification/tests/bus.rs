use vrc_manager::bus::EventBus;
use vrc_manager::events::AppEvent;

fn joined(id: &[u8]) -> AppEvent {
    AppEvent::OnPlayerJoinedRaw(id.to_vec())
}

fn id_of(ev: &AppEvent) -> Vec<u8> {
    match ev {
        AppEvent::OnPlayerJoinedRaw(id) => id.clone(),
        AppEvent::OnPlayerLeftRaw(id) => id.clone(),
        AppEvent::OnAvatarChangedRaw(id) => id.clone(),
        AppEvent::OnPlayerJoined(id, _) => id.clone(),
        AppEvent::OnPlayerLeft(id, _) => id.clone(),
        AppEvent::OnAvatarChanged(id, _) => id.clone(),
        AppEvent::OnAutoBanned(id, _) => id.clone(),
        AppEvent::OnAutoInvited(id) => id.clone(),
    }
}

#[test]
fn late_subscriber_misses_earlier_events() {
    let mut bus = EventBus::new();
    bus.publish(&joined(b"usr_1"));
    bus.publish(&joined(b"usr_2"));
    let sid = bus.subscribe();
    // None of the two earlier events is observed.
    let evs = bus.drain(sid);
    assert_eq!(evs.len(), 0);
    // Every later one is, in order.
    bus.publish(&joined(b"usr_3"));
    bus.publish(&joined(b"usr_4"));
    let evs = bus.drain(sid);
    assert_eq!(evs.len(), 2);
    assert_eq!(id_of(&evs[0]), b"usr_3".to_vec());
    assert_eq!(id_of(&evs[1]), b"usr_4".to_vec());
}

#[test]
fn every_subscriber_sees_every_later_event() {
    let mut bus = EventBus::new();
    let a = bus.subscribe();
    let b = bus.subscribe();
    bus.publish(&joined(b"usr_1"));
    bus.publish(&AppEvent::OnAutoInvited(b"usr_1".to_vec()));
    for sid in [a, b] {
        let evs = bus.drain(sid);
        assert_eq!(evs.len(), 2);
        assert!(matches!(&evs[0], AppEvent::OnPlayerJoinedRaw(id) if id == b"usr_1"));
        assert!(matches!(&evs[1], AppEvent::OnAutoInvited(id) if id == b"usr_1"));
    }
}

#[test]
fn drain_takes_each_event_once() {
    let mut bus = EventBus::new();
    let sid = bus.subscribe();
    bus.publish(&joined(b"usr_1"));
    assert_eq!(bus.drain(sid).len(), 1);
    assert_eq!(bus.drain(sid).len(), 0);
}

#[test]
fn pruned_subscription_gets_nothing() {
    let mut bus = EventBus::new();
    let a = bus.subscribe();
    let b = bus.subscribe();
    bus.unsubscribe(a);
    bus.publish(&joined(b"usr_1"));
    assert_eq!(bus.drain(a).len(), 0);
    assert_eq!(bus.drain(b).len(), 1);
}

#[test]
fn unknown_handle_is_ignored() {
    let mut bus = EventBus::new();
    bus.unsubscribe(42);
    assert_eq!(bus.drain(42).len(), 0);
}
