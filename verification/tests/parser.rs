use vrc_manager::events::EventKind;
use vrc_manager::parse::parse_line;
use vrc_manager::ts::Timestamp;

fn ts(year: u32, month: u32, day: u32, hour: u32, minute: u32, second: u32) -> Timestamp {
    Timestamp { year, month, day, hour, minute, second }
}

#[test]
fn join_line_parses() {
    let line = b"2024.01.01 10:00:01 Log        -  [Behaviour] OnPlayerJoined Alice (usr_1111)"
        .to_vec();
    let p = parse_line(&line).expect("join line must parse");
    assert_eq!(p.ts, ts(2024, 1, 1, 10, 0, 1));
    assert_eq!(p.kind, EventKind::Joined);
    assert_eq!(p.name, b"Alice".to_vec());
    assert_eq!(p.id, Some(b"usr_1111".to_vec()));
}

#[test]
fn join_line_name_with_spaces_is_trimmed() {
    let line =
        b"2024.01.01 10:00:01 Log - [Behaviour] OnPlayerJoined Ada  Lovelace (usr_aa-11)".to_vec();
    let p = parse_line(&line).expect("join line must parse");
    assert_eq!(p.name, b"Ada  Lovelace".to_vec());
    assert_eq!(p.id, Some(b"usr_aa-11".to_vec()));
}

#[test]
fn leave_line_parses() {
    let line = b"2024.01.01 10:00:09 Log - [Behaviour] OnPlayerLeft Alice (usr_1111)".to_vec();
    let p = parse_line(&line).expect("leave line must parse");
    assert_eq!(p.kind, EventKind::Left);
    assert_eq!(p.name, b"Alice".to_vec());
    assert_eq!(p.id, Some(b"usr_1111".to_vec()));
}

#[test]
fn avatar_line_parses_without_id() {
    let line = b"2024.01.01 10:00:05 Log - [Behaviour] Switching Alice to avatar avtr_x".to_vec();
    let p = parse_line(&line).expect("avatar line must parse");
    assert_eq!(p.kind, EventKind::AvatarChanged);
    assert_eq!(p.name, b"Alice".to_vec());
    assert_eq!(p.id, None);
}

#[test]
fn unrelated_line_is_skipped() {
    let line = b"2024.01.01 10:00:05 Log - [Behaviour] OnPlayerJoined".to_vec();
    assert!(parse_line(&line).is_none());
    let line = b"some text without a timestamp".to_vec();
    assert!(parse_line(&line).is_none());
    let line = b"2024.01.01 10:00:05 Log - [Network] OnPlayerJoined Alice (usr_1111)".to_vec();
    assert!(parse_line(&line).is_none());
}

#[test]
fn id_without_usr_prefix_is_refused() {
    let line = b"2024.01.01 10:00:01 Log - [Behaviour] OnPlayerJoined Alice (grp_1111)".to_vec();
    assert!(parse_line(&line).is_none());
}

#[test]
fn calendar_is_enforced() {
    // 2023 is no leap year, 2024 is.
    let bad = b"2023.02.29 10:00:01 Log - [Behaviour] OnPlayerJoined Alice (usr_1111)".to_vec();
    assert!(parse_line(&bad).is_none());
    let good = b"2024.02.29 10:00:01 Log - [Behaviour] OnPlayerJoined Alice (usr_1111)".to_vec();
    assert!(parse_line(&good).is_some());
    let bad_month = b"2024.13.01 10:00:01 Log - [Behaviour] OnPlayerJoined Alice (usr_1111)"
        .to_vec();
    assert!(parse_line(&bad_month).is_none());
    let bad_hour = b"2024.01.01 24:00:01 Log - [Behaviour] OnPlayerJoined Alice (usr_1111)"
        .to_vec();
    assert!(parse_line(&bad_hour).is_none());
}

#[test]
fn timestamp_order_is_lexicographic() {
    let a = ts(2024, 1, 1, 9, 59, 59);
    let b = ts(2024, 1, 1, 10, 0, 0);
    assert!(a.before(&b));
    assert!(!b.before(&a));
    assert!(!a.before(&a));
    assert!(ts(2023, 12, 31, 23, 59, 59).before(&ts(2024, 1, 1, 0, 0, 0)));
}
