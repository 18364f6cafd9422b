use vrc_manager::sched::DebounceScheduler;

#[test]
fn scenario_reschedule_supersedes() {
    // Scheduling the same key again cancels the first task: only the
    // second one's timer may run its action.
    let mut s = DebounceScheduler::new();
    let key = b"usr_1".to_vec();
    let (t1, old) = s.schedule(key.clone());
    assert_eq!(old, None);
    let (t2, old) = s.schedule(key.clone());
    assert_eq!(old, Some(t1));
    assert_ne!(t1, t2);
    // The superseded timer fires late: refused, nothing changes.
    assert!(!s.fire(&key, t1));
    assert_eq!(s.pending_token(&key), Some(t2));
    // The live timer fires: allowed, and the entry cleans itself up.
    assert!(s.fire(&key, t2));
    assert_eq!(s.pending_token(&key), None);
}

#[test]
fn scenario_cancel_prevents_firing() {
    let mut s = DebounceScheduler::new();
    let key = b"usr_1".to_vec();
    let (t1, _) = s.schedule(key.clone());
    assert_eq!(s.cancel(&key), Some(t1));
    // No entry is left for the key after cancellation.
    assert_eq!(s.pending_token(&key), None);
    // The canceled timer fires late: refused.
    assert!(!s.fire(&key, t1));
}

#[test]
fn cancel_without_task_is_a_no_op() {
    let mut s = DebounceScheduler::new();
    assert_eq!(s.cancel(&b"usr_unknown".to_vec()), None);
    let (t1, _) = s.schedule(b"usr_1".to_vec());
    assert_eq!(s.cancel(&b"usr_other".to_vec()), None);
    // The unrelated entry is untouched.
    assert_eq!(s.pending_token(&b"usr_1".to_vec()), Some(t1));
}

#[test]
fn one_entry_per_key() {
    let mut s = DebounceScheduler::new();
    let (ta, _) = s.schedule(b"usr_a".to_vec());
    let (_tb, _) = s.schedule(b"usr_b".to_vec());
    let (ta2, old) = s.schedule(b"usr_a".to_vec());
    // The new task replaced the old one for the same key.
    assert_eq!(old, Some(ta));
    assert_eq!(s.pending_token(&b"usr_a".to_vec()), Some(ta2));
    // Independent keys stay independent.
    assert!(s.pending_token(&b"usr_b".to_vec()).is_some());
}

#[test]
fn fire_with_wrong_key_is_refused() {
    let mut s = DebounceScheduler::new();
    let (t1, _) = s.schedule(b"usr_1".to_vec());
    assert!(!s.fire(&b"usr_2".to_vec(), t1));
    assert_eq!(s.pending_token(&b"usr_1".to_vec()), Some(t1));
}
