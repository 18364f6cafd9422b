use vrc_manager::events::EventKind;
use vrc_manager::tail::{advance_offset, plan_read, should_switch, Tailer};
use vrc_manager::ts::Timestamp;

fn start_at_ten() -> Timestamp {
    Timestamp { year: 2024, month: 1, day: 1, hour: 10, minute: 0, second: 0 }
}

#[test]
fn scenario_whole_session_in_one_read() {
    // Process start at 10:00:00; three lines strictly after it.
    let mut t = Tailer::new(start_at_ten());
    let chunk = b"2024.01.01 10:00:01 Log - [Behaviour] OnPlayerJoined Alice (usr_1111)\n\
2024.01.01 10:00:05 Log - [Behaviour] Switching Alice to avatar avtr_x\n\
2024.01.01 10:00:09 Log - [Behaviour] OnPlayerLeft Alice (usr_1111)\n"
        .to_vec();
    let evs = t.process_chunk(&chunk);
    assert_eq!(evs.len(), 3);
    assert_eq!(evs[0].kind, EventKind::Joined);
    assert_eq!(evs[0].user_id, b"usr_1111".to_vec());
    assert_eq!(evs[1].kind, EventKind::AvatarChanged);
    assert_eq!(evs[1].user_id, b"usr_1111".to_vec());
    assert_eq!(evs[2].kind, EventKind::Left);
    assert_eq!(evs[2].user_id, b"usr_1111".to_vec());
    // The player left, so the correlation table is empty again.
    assert!(t.ids.is_empty());
}

#[test]
fn scenario_line_before_start_is_filtered() {
    // Same as above, but the first line is timestamped before the process
    // start instant: it yields no event and no table entry, so the avatar
    // line cannot be correlated either.
    let mut t = Tailer::new(start_at_ten());
    let evs = t.process_chunk(
        &b"2024.01.01 09:59:59 Log - [Behaviour] OnPlayerJoined Alice (usr_1111)\n".to_vec(),
    );
    assert_eq!(evs.len(), 0);
    assert!(t.ids.is_empty());
    let evs = t.process_chunk(
        &b"2024.01.01 10:00:05 Log - [Behaviour] Switching Alice to avatar avtr_x\n".to_vec(),
    );
    assert_eq!(evs.len(), 0);
}

#[test]
fn scenario_line_split_across_reads() {
    // A join line split in the middle of the name: exactly one event, not
    // zero, not two.
    let mut t = Tailer::new(start_at_ten());
    let evs = t.process_chunk(
        &b"2024.01.01 10:00:02 Log - [Behaviour] OnPlayerJoined B".to_vec(),
    );
    assert_eq!(evs.len(), 0);
    let evs = t.process_chunk(&b"ob (usr_2222)\n".to_vec());
    assert_eq!(evs.len(), 1);
    assert_eq!(evs[0].kind, EventKind::Joined);
    assert_eq!(evs[0].user_id, b"usr_2222".to_vec());
}

#[test]
fn split_byte_by_byte_equals_one_read() {
    let line = b"2024.01.01 10:00:01 Log - [Behaviour] OnPlayerJoined Alice (usr_1111)\n".to_vec();
    let mut whole = Tailer::new(start_at_ten());
    let evs_whole = whole.process_chunk(&line);
    let mut split = Tailer::new(start_at_ten());
    let mut evs_split = Vec::new();
    for b in line.iter() {
        let evs = split.process_chunk(&vec![*b]);
        evs_split.extend(evs);
    }
    assert_eq!(evs_whole.len(), evs_split.len());
    assert_eq!(evs_whole.len(), 1);
    assert_eq!(evs_whole[0].kind, evs_split[0].kind);
    assert_eq!(evs_whole[0].user_id, evs_split[0].user_id);
}

#[test]
fn crlf_lines_parse_like_lf_lines() {
    let mut t = Tailer::new(start_at_ten());
    let evs = t.process_chunk(
        &b"2024.01.01 10:00:01 Log - [Behaviour] OnPlayerJoined Alice (usr_1111)\r\n".to_vec(),
    );
    assert_eq!(evs.len(), 1);
    assert_eq!(evs[0].kind, EventKind::Joined);
}

#[test]
fn avatar_event_needs_a_known_name() {
    let mut t = Tailer::new(start_at_ten());
    // No join recorded: the avatar line is dropped silently.
    let evs = t.process_chunk(
        &b"2024.01.01 10:00:05 Log - [Behaviour] Switching Ghost to avatar avtr_x\n".to_vec(),
    );
    assert_eq!(evs.len(), 0);
    // After a join, the same line correlates.
    t.process_chunk(
        &b"2024.01.01 10:00:06 Log - [Behaviour] OnPlayerJoined Ghost (usr_9999)\n".to_vec(),
    );
    let evs = t.process_chunk(
        &b"2024.01.01 10:00:07 Log - [Behaviour] Switching Ghost to avatar avtr_x\n".to_vec(),
    );
    assert_eq!(evs.len(), 1);
    assert_eq!(evs[0].kind, EventKind::AvatarChanged);
    assert_eq!(evs[0].user_id, b"usr_9999".to_vec());
}

#[test]
fn rejoin_overwrites_stale_identity() {
    let mut t = Tailer::new(start_at_ten());
    t.process_chunk(
        &b"2024.01.01 10:00:01 Log - [Behaviour] OnPlayerJoined Alice (usr_1111)\n".to_vec(),
    );
    t.process_chunk(
        &b"2024.01.01 10:00:02 Log - [Behaviour] OnPlayerJoined Alice (usr_3333)\n".to_vec(),
    );
    let evs = t.process_chunk(
        &b"2024.01.01 10:00:03 Log - [Behaviour] Switching Alice to avatar avtr_x\n".to_vec(),
    );
    assert_eq!(evs.len(), 1);
    assert_eq!(evs[0].user_id, b"usr_3333".to_vec());
}

#[test]
fn read_planning_never_rereads() {
    // Nothing new: no read.
    assert!(plan_read(100, 100).is_none());
    assert!(plan_read(100, 50).is_none());
    // Growth: read exactly the delta, then advance.
    let p = plan_read(100, 150).unwrap();
    assert_eq!(p.from, 100);
    assert_eq!(p.len, 50);
    assert_eq!(advance_offset(100, 150), 150);
    // The offset never decreases while the file stays current.
    assert_eq!(advance_offset(100, 50), 100);
}

#[test]
fn rotation_drops_the_carried_partial_line() {
    let mut t = Tailer::new(start_at_ten());
    // Half a line arrives, then the log rotates: the carried text must not
    // leak into the new file's first line.
    t.process_chunk(&b"2024.01.01 10:00:02 Log - [Behaviour] OnPlayerJoined B".to_vec());
    t.reset_partial();
    let evs = t.process_chunk(&b"ob (usr_2222)\n".to_vec());
    assert_eq!(evs.len(), 0);
    // The correlation table survives a rotation.
    t.process_chunk(
        &b"2024.01.01 10:00:03 Log - [Behaviour] OnPlayerJoined Alice (usr_1111)\n".to_vec(),
    );
    t.reset_partial();
    let evs = t.process_chunk(
        &b"2024.01.01 10:00:04 Log - [Behaviour] Switching Alice to avatar avtr_x\n".to_vec(),
    );
    assert_eq!(evs.len(), 1);
}

#[test]
fn keep_last_keeps_the_newest_lines() {
    let lines: Vec<String> = (0..10).map(|i| format!("line {}", i)).collect();
    let kept = vrc_manager::text::keep_last(lines.clone(), 3);
    assert_eq!(kept, vec!["line 7".to_string(), "line 8".to_string(), "line 9".to_string()]);
    let kept = vrc_manager::text::keep_last(lines.clone(), 10);
    assert_eq!(kept, lines);
    let kept = vrc_manager::text::keep_last(lines, 0);
    assert!(kept.is_empty());
}

#[test]
fn rotation_switches_only_on_another_path() {
    assert!(!should_switch(&b"output_log_a.txt".to_vec(), &b"output_log_a.txt".to_vec()));
    assert!(should_switch(&b"output_log_a.txt".to_vec(), &b"output_log_b.txt".to_vec()));
}
