use log_ingest::clock::local_now;
use log_ingest::config::TimeOfDayError;
use log_ingest::retention::{
    cutoff_epoch, fallback_trigger_epoch, get_next_cleanup_time, next_trigger_epoch,
    select_expired, sleep_seconds_until, EntryInfo, ScheduleError,
};

const DAY: i64 = 86400;

#[test]
fn cutoff_is_now_minus_retention() {
    assert_eq!(cutoff_epoch(1_000_000, 7), 1_000_000 - 7 * DAY);
    assert_eq!(cutoff_epoch(0, 1), -DAY);
}

#[test]
fn sweep_selects_only_aged_directories() {
    let now: i64 = 1_700_000_000;
    let cutoff = cutoff_epoch(now, 7);
    let entries = vec![
        // an old year directory: removed
        EntryInfo { is_dir: true, mtime: Some(now - 30 * DAY) },
        // touched today: kept
        EntryInfo { is_dir: true, mtime: Some(now) },
        // a plain file, however old: ignored
        EntryInfo { is_dir: false, mtime: Some(now - 300 * DAY) },
        // unreadable metadata: skipped silently
        EntryInfo { is_dir: true, mtime: None },
        // exactly at the cutoff: the comparison is strict, so it is kept
        EntryInfo { is_dir: true, mtime: Some(cutoff) },
        // one second older than the cutoff: removed
        EntryInfo { is_dir: true, mtime: Some(cutoff - 1) },
    ];
    assert_eq!(select_expired(&entries, cutoff), vec![0usize, 5]);
}

#[test]
fn aged_year_root_goes_fresh_year_root_stays() {
    // children "2023" (touched 30 days ago) and "2024" (touched now),
    // swept with a 7-day horizon: "2023" is selected, "2024" is retained
    let now: i64 = 1_700_000_000;
    let cutoff = cutoff_epoch(now, 7);
    let entries = vec![
        EntryInfo { is_dir: true, mtime: Some(now - 30 * DAY) },
        EntryInfo { is_dir: true, mtime: Some(now) },
    ];
    assert_eq!(select_expired(&entries, cutoff), vec![0usize]);
}

#[test]
fn one_day_retention_keeps_today() {
    // retention_days = 1: yesterday's root goes only once its mtime is
    // strictly older than now - 24h
    let now: i64 = 1_700_000_000;
    let cutoff = cutoff_epoch(now, 1);
    let entries = vec![
        EntryInfo { is_dir: true, mtime: Some(now - 2 * DAY) },
        EntryInfo { is_dir: true, mtime: Some(now - DAY / 2) },
    ];
    assert_eq!(select_expired(&entries, cutoff), vec![0usize]);
}

#[test]
fn sweeping_twice_changes_nothing_more() {
    let cutoff: i64 = 500_000;
    let entries = vec![
        EntryInfo { is_dir: true, mtime: Some(0) },
        EntryInfo { is_dir: true, mtime: Some(600_000) },
        EntryInfo { is_dir: false, mtime: Some(0) },
    ];
    let removed = select_expired(&entries, cutoff);
    let mut kept = Vec::new();
    for (i, e) in entries.iter().enumerate() {
        if !removed.contains(&i) {
            kept.push(*e);
        }
    }
    assert_eq!(select_expired(&kept, cutoff), Vec::<usize>::new());
}

#[test]
fn trigger_one_second_ahead_stays_today() {
    let now: i64 = 86_399 - 1;
    // the trigger is strictly in the future: waited out, not pushed a day
    assert_eq!(next_trigger_epoch(now, now + 1), now + 1);
    assert_eq!(sleep_seconds_until(now, 0, now + 1), 1);
}

#[test]
fn trigger_within_the_elapsed_second_slips_a_day() {
    let now: i64 = 86_399;
    // the clock has already entered the trigger's second
    assert_eq!(next_trigger_epoch(now, now), now + DAY);
    // half a second past the trigger: same decision
    assert_eq!(sleep_seconds_until(now, 500_000_000, now + DAY), DAY as u64 - 1);
}

#[test]
fn past_triggers_skip_the_sleep() {
    assert_eq!(sleep_seconds_until(1000, 0, 1000), 0);
    assert_eq!(sleep_seconds_until(1000, 0, 999), 0);
    assert_eq!(sleep_seconds_until(1000, 1, 1001), 0);
}

#[test]
fn schedule_reports_malformed_cleanup_time() {
    let clock = local_now();
    assert_eq!(
        get_next_cleanup_time(&clock, Some("25:00")),
        Err(ScheduleError::CleanupTime(TimeOfDayError::HourRange))
    );
    assert_eq!(
        get_next_cleanup_time(&clock, Some("nope")),
        Err(ScheduleError::CleanupTime(TimeOfDayError::Parts))
    );
}

#[test]
fn schedule_with_real_clock_lands_in_the_future_window() {
    let clock = local_now();
    match get_next_cleanup_time(&clock, Some("01:00:00")) {
        Ok(t) => {
            // today's or tomorrow's 01:00, so within ~49 h either way
            assert!(t > clock.epoch - 2 * DAY);
            assert!(t < clock.epoch + 2 * DAY);
        }
        Err(ScheduleError::LocalTime) => {
            // a forward clock change can skip the trigger today
        }
        Err(e) => panic!("unexpected schedule error: {:?}", e),
    }
    let fallback = fallback_trigger_epoch(&clock);
    assert!(fallback > clock.epoch - 2 * DAY);
    assert!(fallback <= clock.epoch + 2 * DAY);
}
