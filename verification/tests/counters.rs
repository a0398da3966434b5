use just_an_email::models::RecordType;
use just_an_email::registry::Registry;
use just_an_email::stats::{
    get_all_stats, record_message_stats_at, record_stats_at, stats_find_by_id_or_new,
    stats_get_id_for,
};

#[test]
fn composite_ids_follow_the_formula() {
    assert_eq!(stats_get_id_for(None, None, None), -1);
    assert_eq!(stats_get_id_for(Some(2025), None, None), 250000);
    assert_eq!(stats_get_id_for(Some(2025), Some(9), None), 250900);
    assert_eq!(stats_get_id_for(Some(2025), Some(9), Some(11)), 250911);
    assert_eq!(stats_get_id_for(Some(2000), Some(1), Some(2)), 102);
}

#[test]
fn message_record_hits_all_four_rollups() {
    let mut reg = Registry::new();
    record_message_stats_at(&mut reg, 2025, 9, 11, "stamp", 10, Some(500));

    for id in [-1i64, 250000, 250900, 250911] {
        let bucket = reg.stats_row(id).expect("bucket written");
        assert_eq!(bucket.messages, 1, "messages in bucket {}", id);
        assert_eq!(bucket.messages_size_bytes, 10, "message bytes in bucket {}", id);
        assert_eq!(bucket.files, 1, "files in bucket {}", id);
        assert_eq!(bucket.files_size_bytes, 500, "file bytes in bucket {}", id);
        assert_eq!(bucket.version, 1);
    }
}

#[test]
fn message_record_without_file_leaves_file_counters() {
    let mut reg = Registry::new();
    record_message_stats_at(&mut reg, 2025, 9, 11, "stamp", 10, None);
    let bucket = reg.stats_row(-1).expect("all-time bucket");
    assert_eq!(bucket.messages, 1);
    assert_eq!(bucket.messages_size_bytes, 10);
    assert_eq!(bucket.files, 0);
    assert_eq!(bucket.files_size_bytes, 0);
}

#[test]
fn plain_records_accumulate() {
    let mut reg = Registry::new();
    record_stats_at(&mut reg, 2025, 9, 11, "stamp", RecordType::Device, 1);
    record_stats_at(&mut reg, 2025, 9, 11, "stamp", RecordType::Device, 1);
    record_stats_at(&mut reg, 2025, 9, 11, "stamp", RecordType::Session, 1);

    let bucket = reg.stats_row(250911).expect("day bucket");
    assert_eq!(bucket.devices, 2);
    assert_eq!(bucket.sessions, 1);
    assert_eq!(bucket.messages, 0);
    assert_eq!(bucket.version, 3);
}

#[test]
fn stale_version_write_is_dropped() {
    let mut reg = Registry::new();
    record_stats_at(&mut reg, 2025, 9, 11, "stamp", RecordType::Device, 1);
    let mut stale = stats_find_by_id_or_new(&reg, 250911, "stamp");
    // a racing writer already moved the version past this read
    record_stats_at(&mut reg, 2025, 9, 11, "stamp", RecordType::Device, 1);
    stale.devices = 100;
    stale.version += 1;
    let landed = reg.upsert_stats_guarded(stale);
    assert!(!landed);
    assert_eq!(reg.stats_row(250911).map(|b| b.devices), Some(2));
}

#[test]
fn fresh_bucket_reads_as_zeroed() {
    let reg = Registry::new();
    let bucket = stats_find_by_id_or_new(&reg, 250911, "stamp");
    assert_eq!(bucket.id, 250911);
    assert_eq!(bucket.messages, 0);
    assert_eq!(bucket.version, 0);
    assert_eq!(bucket.date_created_utc, "stamp");
}

#[test]
fn report_groups_by_year_and_month_and_skips_all_time() {
    let mut reg = Registry::new();
    record_message_stats_at(&mut reg, 2025, 9, 11, "stamp", 10, None);
    record_message_stats_at(&mut reg, 2024, 1, 2, "stamp", 7, None);

    let report = get_all_stats(&reg);
    assert_eq!(report.len(), 2);
    assert_eq!(report[0].year, "24", "years come in ascending label order");
    assert_eq!(report[1].year, "25");
    let sep_labels: Vec<&str> = report[1].months.iter().map(|m| m.month.as_str()).collect();
    assert_eq!(sep_labels, vec!["00", "09"], "months come in ascending label order");

    let year25 = report.iter().find(|y| y.year == "25").expect("year 25");
    assert_eq!(year25.months.len(), 2, "month and day rollups of one month group");
    let sep = year25.months.iter().find(|m| m.month == "09").expect("September");
    assert!(sep.days.iter().any(|d| d.id == 250911));
    let sep_month_bucket = year25.months.iter().find(|m| m.month == "00");
    assert!(sep_month_bucket.is_some(), "the year rollup lands under month 00");

    let year24 = report.iter().find(|y| y.year == "24").expect("year 24");
    assert!(year24.months.iter().any(|m| m.days.iter().any(|d| d.id == 240102)));

    for year in &report {
        for month in &year.months {
            for day in &month.days {
                assert!(day.id > 1, "the all-time bucket never shows");
            }
        }
    }
}

#[test]
fn clock_reports_a_calendar_date() {
    let (_, month, day) = just_an_email::clock::now_ymd();
    assert!((1..=12).contains(&month));
    assert!((1..=31).contains(&day));
}
