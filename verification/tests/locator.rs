use vrc_manager::locate::{parse_log_timestamp, select_latest_log};
use vrc_manager::ts::Timestamp;

#[test]
fn filename_timestamp_is_read_exactly() {
    let t = parse_log_timestamp(&b"output_log_2024-01-01_10-00-00.txt".to_vec())
        .expect("name must parse");
    assert_eq!(
        t,
        Timestamp { year: 2024, month: 1, day: 1, hour: 10, minute: 0, second: 0 }
    );
}

#[test]
fn filename_separators_may_be_dots_and_colons() {
    let t = parse_log_timestamp(&b"output_log_2024.01.31_23:59:59.txt".to_vec())
        .expect("name must parse");
    assert_eq!(
        t,
        Timestamp { year: 2024, month: 1, day: 31, hour: 23, minute: 59, second: 59 }
    );
}

#[test]
fn names_outside_the_grammar_are_ignored() {
    assert!(parse_log_timestamp(&b"output_log_garbage.txt".to_vec()).is_none());
    assert!(parse_log_timestamp(&b"player.log".to_vec()).is_none());
    assert!(parse_log_timestamp(&b"output_log_2024-01-01_10-00-00.log".to_vec()).is_none());
    assert!(parse_log_timestamp(&b"output_log_2024-13-01_10-00-00.txt".to_vec()).is_none());
    assert!(parse_log_timestamp(&b"output_log_2024-01-01.txt".to_vec()).is_none());
}

#[test]
fn freshest_log_wins() {
    let names = vec![
        b"output_log_2024-01-01_10-00-00.txt".to_vec(),
        b"notes.txt".to_vec(),
        b"output_log_2024-01-02_09-00-00.txt".to_vec(),
        b"output_log_2023-12-31_23-59-59.txt".to_vec(),
    ];
    assert_eq!(select_latest_log(&names), Some(2));
}

#[test]
fn earliest_of_equal_timestamps_wins() {
    let names = vec![
        b"output_log_2024-01-01_10-00-00.txt".to_vec(),
        b"output_log_2024.01.01_10:00:00.txt".to_vec(),
    ];
    assert_eq!(select_latest_log(&names), Some(0));
}

#[test]
fn no_matching_name_means_not_found() {
    let names = vec![b"notes.txt".to_vec(), b"player.log".to_vec()];
    assert_eq!(select_latest_log(&names), None);
    assert_eq!(select_latest_log(&Vec::new()), None);
}
