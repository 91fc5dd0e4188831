use dirclean::EntryError;
use dirclean::Timestamp;
use dirclean::age_days;
use dirclean::count_due;
use dirclean::epoch_seconds;
use dirclean::evaluate_entry;
use dirclean::evaluate_entry_now;
use dirclean::is_due_for_deletion;
use dirclean::parse_timestamp;

/// 2024-06-15 00:00:00 UTC, the reference "now" of the scenarios.
const NOW: i64 = 1718409600;

const THRESHOLD: u16 = 30;

#[test]
fn parse_reads_every_field() {
    let ts = parse_timestamp(b"2024-05-01_10-02-03").unwrap();
    assert_eq!(
        ts,
        Timestamp { year: 2024, month: 5, day: 1, hour: 10, minute: 2, second: 3 }
    );
}

#[test]
fn parse_rejects_wrong_shapes() {
    assert!(parse_timestamp(b"").is_none());
    assert!(parse_timestamp(b"notes").is_none());
    assert!(parse_timestamp(b"2024-05-01").is_none());
    assert!(parse_timestamp(b"2024-5-01_10-00-00").is_none());
    assert!(parse_timestamp(b"2024/05/01_10-00-00").is_none());
    assert!(parse_timestamp(b"2024-05-01 10-00-00").is_none());
    assert!(parse_timestamp(b"2024-05-01_10-00-00x").is_none());
    assert!(parse_timestamp(b"x2024-05-01_10-00-00").is_none());
    assert!(parse_timestamp(b"2024-05-01_10-00-0o").is_none());
}

#[test]
fn parse_rejects_impossible_instants() {
    assert!(parse_timestamp(b"2024-00-01_10-00-00").is_none());
    assert!(parse_timestamp(b"2024-13-01_10-00-00").is_none());
    assert!(parse_timestamp(b"2024-05-00_10-00-00").is_none());
    assert!(parse_timestamp(b"2024-05-32_10-00-00").is_none());
    assert!(parse_timestamp(b"2024-04-31_10-00-00").is_none());
    assert!(parse_timestamp(b"2024-02-30_10-00-00").is_none());
    assert!(parse_timestamp(b"2024-05-01_24-00-00").is_none());
    assert!(parse_timestamp(b"2024-05-01_10-60-00").is_none());
    assert!(parse_timestamp(b"2024-05-01_10-00-60").is_none());
}

#[test]
fn parse_knows_leap_years() {
    assert!(parse_timestamp(b"2024-02-29_00-00-00").is_some());
    assert!(parse_timestamp(b"2023-02-29_00-00-00").is_none());
    assert!(parse_timestamp(b"2000-02-29_00-00-00").is_some());
    assert!(parse_timestamp(b"1900-02-29_00-00-00").is_none());
}

#[test]
fn epoch_seconds_exact_values() {
    let at = |name: &[u8]| epoch_seconds(parse_timestamp(name).unwrap());
    assert_eq!(at(b"1970-01-01_00-00-00"), 0);
    assert_eq!(at(b"1970-01-02_00-00-00"), 86400);
    assert_eq!(at(b"1970-01-01_01-02-03"), 3723);
    assert_eq!(at(b"1969-12-31_23-59-59"), -1);
    assert_eq!(at(b"1969-12-31_00-00-00"), -86400);
    assert_eq!(at(b"2024-06-15_00-00-00"), NOW);
    assert_eq!(at(b"2001-09-09_01-46-40"), 1_000_000_000);
}

#[test]
fn age_rounds_down_toward_the_past() {
    assert_eq!(age_days(86400, 0), 1);
    assert_eq!(age_days(86399, 0), 0);
    assert_eq!(age_days(0, 0), 0);
    assert_eq!(age_days(0, 1), -1);
    assert_eq!(age_days(0, 86400), -1);
    assert_eq!(age_days(0, 86401), -2);
    assert_eq!(age_days(NOW, 1714557600), 44);
}

#[test]
fn deletion_rule_boundary() {
    assert!(is_due_for_deletion(45, 30));
    assert!(is_due_for_deletion(30, 30));
    assert!(!is_due_for_deletion(29, 30));
    assert!(is_due_for_deletion(1, 0));
    assert!(is_due_for_deletion(1, 1));
}

#[test]
fn deletion_rule_spares_future_and_today() {
    assert!(!is_due_for_deletion(0, 0));
    assert!(!is_due_for_deletion(0, 30));
    assert!(!is_due_for_deletion(-1, 0));
    assert!(!is_due_for_deletion(-400, 0));
}

#[test]
fn old_entry_is_deleted() {
    let r = evaluate_entry("2024-05-01_10-00-00.log", NOW, THRESHOLD);
    assert_eq!(r.unwrap(), true);
}

#[test]
fn young_entry_is_retained() {
    let r = evaluate_entry("2024-06-01_10-00-00.log", NOW, THRESHOLD);
    assert_eq!(r.unwrap(), false);
}

#[test]
fn entry_on_the_boundary_is_deleted() {
    let r = evaluate_entry("2024-05-16_00-00-00.tmp", NOW, THRESHOLD);
    assert_eq!(r.unwrap(), true);
}

#[test]
fn unparsable_name_is_a_parse_error() {
    match evaluate_entry("notes.txt", NOW, THRESHOLD) {
        Err(EntryError::Parse { filename }) => assert_eq!(filename, "notes.txt"),
        other => panic!("expected a parse error, got {:?}", other),
    }
}

#[test]
fn future_entry_is_retained_even_at_threshold_zero() {
    let r = evaluate_entry("2025-01-01_00-00-00.bak", NOW, THRESHOLD);
    assert_eq!(r.unwrap(), false);
    let r = evaluate_entry("2025-01-01_00-00-00.bak", NOW, 0);
    assert_eq!(r.unwrap(), false);
}

#[test]
fn empty_name_is_a_format_error() {
    match evaluate_entry("", NOW, THRESHOLD) {
        Err(EntryError::Format { filename }) => assert_eq!(filename, ""),
        other => panic!("expected a format error, got {:?}", other),
    }
}

#[test]
fn name_without_dot_is_the_whole_candidate() {
    let r = evaluate_entry("2024-05-01_10-00-00", NOW, THRESHOLD);
    assert_eq!(r.unwrap(), true);
}

#[test]
fn only_the_first_dot_ends_the_candidate() {
    let r = evaluate_entry("2024-05-01_10-00-00.tar.gz", NOW, THRESHOLD);
    assert_eq!(r.unwrap(), true);
    match evaluate_entry(".log", NOW, THRESHOLD) {
        Err(EntryError::Parse { filename }) => assert_eq!(filename, ".log"),
        other => panic!("expected a parse error, got {:?}", other),
    }
}

#[test]
fn error_keeps_the_filename() {
    let err = evaluate_entry("notes.txt", NOW, THRESHOLD).unwrap_err();
    assert_eq!(err.filename().as_str(), "notes.txt");
    let err = evaluate_entry("", NOW, THRESHOLD).unwrap_err();
    assert_eq!(err.filename().as_str(), "");
}

#[test]
fn empty_directory_counts_zero() {
    assert_eq!(count_due(&Vec::new(), NOW, THRESHOLD), 0);
}

#[test]
fn count_skips_errors_and_young_entries() {
    let names = vec![
        "2024-05-01_10-00-00.log".to_string(),
        "2024-06-01_10-00-00.log".to_string(),
        "2024-05-16_00-00-00.tmp".to_string(),
        "notes.txt".to_string(),
        "2025-01-01_00-00-00.bak".to_string(),
        "".to_string(),
        "2024-01-01_00-00-00".to_string(),
    ];
    assert_eq!(count_due(&names, NOW, THRESHOLD), 3);
    assert_eq!(count_due(&names, NOW, 0), 4);
    assert_eq!(count_due(&names, NOW, 200), 0);
}

#[test]
fn second_run_deletes_none_of_the_first_runs_entries() {
    let names = vec![
        "2024-05-01_10-00-00.log".to_string(),
        "2024-06-01_10-00-00.log".to_string(),
        "2024-05-16_00-00-00.tmp".to_string(),
        "notes.txt".to_string(),
        "2025-01-01_00-00-00.bak".to_string(),
    ];
    let deleted_first: Vec<String> = names
        .iter()
        .filter(|n| matches!(evaluate_entry(n.as_str(), NOW, THRESHOLD), Ok(true)))
        .cloned()
        .collect();
    let survivors: Vec<String> = names
        .iter()
        .filter(|n| !matches!(evaluate_entry(n.as_str(), NOW, THRESHOLD), Ok(true)))
        .cloned()
        .collect();
    assert_eq!(deleted_first.len(), 2);
    // A later run, even a stricter one, sees only the survivors.
    let later = NOW + 90 * 86400;
    let deleted_second: Vec<String> = survivors
        .iter()
        .filter(|n| matches!(evaluate_entry(n.as_str(), later, 0), Ok(true)))
        .cloned()
        .collect();
    for name in &deleted_second {
        assert!(!deleted_first.contains(name));
    }
    assert_eq!(count_due(&survivors, NOW, THRESHOLD), 0);
}

#[test]
fn clock_does_not_change_which_names_are_rejected() {
    assert!(matches!(
        evaluate_entry_now("notes.txt", THRESHOLD),
        Err(EntryError::Parse { .. })
    ));
    assert!(matches!(
        evaluate_entry_now("", THRESHOLD),
        Err(EntryError::Format { .. })
    ));
    assert!(evaluate_entry_now("2024-05-01_10-00-00.log", THRESHOLD).is_ok());
}
