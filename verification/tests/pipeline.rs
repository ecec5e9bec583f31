use photo_importer::args::{get_input_time_range, get_named_args, ArgError};
use photo_importer::datetime::{epoch, far_future, Date, DateTime};
use photo_importer::format::{format_progress, to_decimal};
use photo_importer::extract::{resolve_capture_time, MetadataCause};
use photo_importer::import::{dest_dir_for, dest_path_for, plan_imports};
use photo_importer::pool::{
    collect_records, make_extraction_tasks, ExtractionOutcome, ProgressCounter,
};
use photo_importer::records::{dedup_key, filter_images, MediaRecord, TimeWindow};
use photo_importer::scan::{file_name_of, filter_candidates, is_candidate, ScanEntry};

fn dt(year: u16, month: u8, day: u8, hour: u8, minute: u8, second: u8) -> DateTime {
    DateTime { date: Date { year, month, day }, hour, minute, second }
}

fn rec(path: &str, captured_at: DateTime) -> MediaRecord {
    MediaRecord { path: path.to_string(), captured_at }
}

fn unrestricted() -> TimeWindow {
    TimeWindow { start: epoch(), end: far_future() }
}

#[test]
fn scanner_accepts_whitelisted_extensions() {
    assert!(is_candidate("photos/a.jpg"));
    assert!(is_candidate("photos/a.JPG"));
    assert!(is_candidate("b.jpeg"));
    assert!(is_candidate("c.rw2"));
    assert!(is_candidate("c.RW2"));
    assert!(is_candidate("d.dng"));
    assert!(is_candidate("e.mp4"));
    assert!(is_candidate("f.NEF"));
}

#[test]
fn scanner_rejects_other_paths() {
    assert!(!is_candidate("notes.txt"));
    assert!(!is_candidate("noextension"));
    assert!(!is_candidate(".jpg"));
    assert!(!is_candidate("photos/.jpg"));
    assert!(!is_candidate("archive.jpg.tar"));
    assert!(!is_candidate("photos/"));
    assert!(!is_candidate(""));
}

#[test]
fn scanner_filters_files_only() {
    let entries = vec![
        ScanEntry { path: "root/a.jpg".to_string(), is_file: true },
        ScanEntry { path: "root/sub.jpg".to_string(), is_file: false },
        ScanEntry { path: "root/readme.md".to_string(), is_file: true },
        ScanEntry { path: "root/sub/b.NEF".to_string(), is_file: true },
    ];
    let candidates = filter_candidates(&entries);
    assert_eq!(candidates.len(), 2);
    assert_eq!(candidates[0].as_str(), "root/a.jpg");
    assert_eq!(candidates[1].as_str(), "root/sub/b.NEF");
}

#[test]
fn scanner_empty_result_is_valid() {
    let entries: Vec<ScanEntry> = Vec::new();
    let candidates = filter_candidates(&entries);
    assert!(candidates.is_empty());
}

#[test]
fn file_name_takes_last_component() {
    assert_eq!(file_name_of("a/b/c.jpg").as_str(), "c.jpg");
    assert_eq!(file_name_of("c.jpg").as_str(), "c.jpg");
    assert_eq!(file_name_of("a/b/").as_str(), "");
}

#[test]
fn extraction_first_located_tag_wins() {
    let reads = vec![
        Some("2023:01:01 10:00:00".to_string()),
        Some("2024:12:31 23:59:59".to_string()),
    ];
    let r = resolve_capture_time("a.jpg", &reads).unwrap();
    assert_eq!(r, dt(2023, 1, 1, 10, 0, 0));
}

#[test]
fn extraction_falls_through_missing_tags() {
    let reads = vec![None, None, Some("2023:05:05 08:30:00".to_string())];
    let r = resolve_capture_time("a.jpg", &reads).unwrap();
    assert_eq!(r, dt(2023, 5, 5, 8, 30, 0));
}

#[test]
fn extraction_unparsable_value_fails() {
    let reads = vec![Some("yesterday evening".to_string())];
    let e = resolve_capture_time("odd.jpg", &reads).unwrap_err();
    assert_eq!(e.cause, MetadataCause::UnparsableTimestamp);
    assert_eq!(e.path.as_str(), "odd.jpg");
}

#[test]
fn extraction_no_tag_fails() {
    let reads: Vec<Option<String>> = vec![None, None, None, None];
    let e = resolve_capture_time("bare.jpg", &reads).unwrap_err();
    assert_eq!(e.cause, MetadataCause::NoTimestampTag);
    assert_eq!(e.path.as_str(), "bare.jpg");
}

#[test]
fn one_task_per_candidate_path() {
    let paths = vec!["a.jpg".to_string(), "b/c.jpg".to_string(), "d.mp4".to_string()];
    let tasks = make_extraction_tasks(&paths);
    assert_eq!(tasks.len(), paths.len());
    for (i, t) in tasks.iter().enumerate() {
        assert_eq!(t.index, i);
        assert_eq!(t.path, paths[i]);
    }
}

#[test]
fn progress_tickets_count_up_once_per_task() {
    let mut c = ProgressCounter::new();
    assert_eq!(c.take_ticket(), 0);
    assert_eq!(c.take_ticket(), 1);
    assert_eq!(c.take_ticket(), 2);
    assert_eq!(c.count, 3);
}

#[test]
fn progress_labels_right_align_to_total_width() {
    assert_eq!(to_decimal(0).as_str(), "0");
    assert_eq!(to_decimal(7).as_str(), "7");
    assert_eq!(to_decimal(907).as_str(), "907");
    assert_eq!(format_progress(3, 12).as_str(), "[ 3/12] ");
    assert_eq!(format_progress(10, 12).as_str(), "[10/12] ");
    assert_eq!(format_progress(1, 9).as_str(), "[1/9] ");
    assert_eq!(format_progress(100, 100).as_str(), "[100/100] ");
}

#[test]
fn collector_keeps_successes_in_arrival_order() {
    let outcomes = vec![
        ExtractionOutcome { path: "b.jpg".to_string(), captured_at: Some(dt(2023, 1, 2, 0, 0, 0)) },
        ExtractionOutcome { path: "bad.jpg".to_string(), captured_at: None },
        ExtractionOutcome { path: "a.jpg".to_string(), captured_at: Some(dt(2023, 1, 1, 0, 0, 0)) },
    ];
    let records = collect_records(&outcomes);
    assert_eq!(records.len(), 2);
    assert_eq!(records[0].path.as_str(), "b.jpg");
    assert_eq!(records[1].path.as_str(), "a.jpg");
}

#[test]
fn window_keeps_only_range_members() {
    let w = TimeWindow { start: dt(2023, 6, 1, 0, 0, 0), end: dt(2023, 7, 1, 0, 0, 0) };
    let records = vec![
        rec("early.jpg", dt(2023, 5, 30, 12, 0, 0)),
        rec("in.jpg", dt(2023, 6, 15, 12, 0, 0)),
        rec("late.jpg", dt(2023, 7, 2, 0, 0, 0)),
    ];
    let kept = filter_images(&records, &w);
    assert_eq!(kept.len(), 1);
    assert_eq!(kept[0].path.as_str(), "in.jpg");
}

#[test]
fn window_boundaries_start_in_end_out() {
    let start = dt(2023, 6, 1, 0, 0, 0);
    let end = dt(2023, 7, 1, 0, 0, 0);
    let w = TimeWindow { start, end };
    let records = vec![rec("at_start.jpg", start), rec("at_end.jpg", end)];
    let kept = filter_images(&records, &w);
    assert_eq!(kept.len(), 1);
    assert_eq!(kept[0].path.as_str(), "at_start.jpg");
}

#[test]
fn inverted_window_keeps_nothing() {
    let w = TimeWindow { start: dt(2024, 1, 1, 0, 0, 0), end: dt(2023, 1, 1, 0, 0, 0) };
    let records = vec![rec("a.jpg", dt(2023, 6, 1, 0, 0, 0))];
    assert!(filter_images(&records, &w).is_empty());
}

#[test]
fn duplicate_name_and_date_first_wins() {
    let records = vec![
        rec("one/img.jpg", dt(2023, 5, 5, 9, 0, 0)),
        rec("two/img.jpg", dt(2023, 5, 5, 17, 30, 0)),
    ];
    let kept = filter_images(&records, &unrestricted());
    assert_eq!(kept.len(), 1);
    assert_eq!(kept[0].path.as_str(), "one/img.jpg");
}

#[test]
fn same_name_different_date_both_kept() {
    let records = vec![
        rec("one/img.jpg", dt(2023, 5, 5, 9, 0, 0)),
        rec("two/img.jpg", dt(2023, 5, 6, 9, 0, 0)),
    ];
    let kept = filter_images(&records, &unrestricted());
    assert_eq!(kept.len(), 2);
}

#[test]
fn surviving_keys_are_pairwise_distinct() {
    let records = vec![
        rec("a/x.jpg", dt(2023, 1, 1, 1, 0, 0)),
        rec("b/x.jpg", dt(2023, 1, 1, 2, 0, 0)),
        rec("c/y.jpg", dt(2023, 1, 1, 3, 0, 0)),
        rec("d/x.jpg", dt(2023, 1, 2, 4, 0, 0)),
    ];
    let kept = filter_images(&records, &unrestricted());
    for i in 0..kept.len() {
        for j in (i + 1)..kept.len() {
            let ki = dedup_key(&kept[i]);
            let kj = dedup_key(&kept[j]);
            assert!(ki.file_name != kj.file_name || ki.date != kj.date);
        }
    }
}

#[test]
fn dest_paths_are_date_partitioned() {
    let d = Date { year: 2023, month: 1, day: 1 };
    assert_eq!(dest_dir_for("dest", &d).as_str(), "dest/2023/2023-01-01");
    let r = rec("src/a.jpg", dt(2023, 1, 1, 10, 0, 0));
    assert_eq!(dest_path_for("dest", &r).as_str(), "dest/2023/2023-01-01/a.jpg");
}

#[test]
fn import_copies_both_files_into_date_dir() {
    let records = vec![
        rec("src/a.jpg", dt(2023, 1, 1, 10, 0, 0)),
        rec("src/b.jpg", dt(2023, 1, 1, 10, 0, 0)),
    ];
    let kept = filter_images(&records, &unrestricted());
    assert_eq!(kept.len(), 2);
    let plan = plan_imports(&kept, "dest", &Vec::new());
    assert_eq!(plan.copies.len(), 2);
    assert_eq!(plan.copies[0].src.as_str(), "src/a.jpg");
    assert_eq!(plan.copies[0].dest.as_str(), "dest/2023/2023-01-01/a.jpg");
    assert_eq!(plan.copies[1].src.as_str(), "src/b.jpg");
    assert_eq!(plan.copies[1].dest.as_str(), "dest/2023/2023-01-01/b.jpg");
}

#[test]
fn import_skips_path_already_present() {
    let records = vec![
        rec("src/a.jpg", dt(2023, 1, 1, 10, 0, 0)),
        rec("src/b.jpg", dt(2023, 1, 1, 10, 0, 0)),
    ];
    let existing = vec!["dest/2023/2023-01-01/a.jpg".to_string()];
    let plan = plan_imports(&records, "dest", &existing);
    assert_eq!(plan.copies.len(), 1);
    assert_eq!(plan.copies[0].dest.as_str(), "dest/2023/2023-01-01/b.jpg");
}

#[test]
fn import_twice_copies_nothing_the_second_time() {
    let records = vec![
        rec("src/a.jpg", dt(2023, 1, 1, 10, 0, 0)),
        rec("src/sub/b.nef", dt(2024, 2, 29, 23, 59, 59)),
    ];
    let first = plan_imports(&records, "dest", &Vec::new());
    assert_eq!(first.copies.len(), 2);
    let second = plan_imports(&records, "dest", &first.present_after);
    assert!(second.copies.is_empty());
    assert_eq!(second.present_after.len(), first.present_after.len());
}

#[test]
fn failed_extraction_never_reaches_destination() {
    let outcomes = vec![
        ExtractionOutcome { path: "good.jpg".to_string(), captured_at: Some(dt(2023, 3, 3, 3, 3, 3)) },
        ExtractionOutcome { path: "untagged.jpg".to_string(), captured_at: None },
    ];
    let records = collect_records(&outcomes);
    let kept = filter_images(&records, &unrestricted());
    let plan = plan_imports(&kept, "dest", &Vec::new());
    assert_eq!(plan.copies.len(), 1);
    assert_eq!(plan.copies[0].src.as_str(), "good.jpg");
    for op in plan.copies.iter() {
        assert!(!op.dest.contains("untagged"));
    }
}

#[test]
fn named_args_pair_names_with_values() {
    let args: Vec<String> = ["prog", "dest", "src", "--time-from", "2023-06-01", "--time-to", "2023-07-01"]
        .iter()
        .map(|s| s.to_string())
        .collect();
    let named = get_named_args(&args);
    assert_eq!(named.len(), 2);
    assert_eq!(named[0].name.as_str(), "--time-from");
    assert_eq!(named[0].value.as_str(), "2023-06-01");
    assert_eq!(named[1].name.as_str(), "--time-to");
    assert_eq!(named[1].value.as_str(), "2023-07-01");
}

#[test]
fn time_range_from_options() {
    let args: Vec<String> = ["prog", "--time-from", "2023-06-01", "--time-to", "2023-07-01"]
        .iter()
        .map(|s| s.to_string())
        .collect();
    let named = get_named_args(&args);
    let w = get_input_time_range(&named).unwrap();
    assert_eq!(w.start, dt(2023, 6, 1, 0, 0, 0));
    assert_eq!(w.end, dt(2023, 7, 1, 0, 0, 0));
    let records = vec![
        rec("may.jpg", dt(2023, 5, 30, 12, 0, 0)),
        rec("june.jpg", dt(2023, 6, 15, 12, 0, 0)),
    ];
    let kept = filter_images(&records, &w);
    assert_eq!(kept.len(), 1);
    assert_eq!(kept[0].path.as_str(), "june.jpg");
}

#[test]
fn time_range_defaults_when_absent() {
    let named = get_named_args(&vec!["prog".to_string(), "dest".to_string(), "src".to_string()]);
    let w = get_input_time_range(&named).unwrap();
    assert_eq!(w.start, epoch());
    assert_eq!(w.end, far_future());
    assert_eq!(w.start, dt(1970, 1, 1, 0, 0, 0));
}

#[test]
fn time_range_reports_malformed_bounds() {
    let args: Vec<String> = ["prog", "--time-from", "junk"].iter().map(|s| s.to_string()).collect();
    let named = get_named_args(&args);
    assert_eq!(get_input_time_range(&named).unwrap_err(), ArgError::BadTimeFrom);

    let args: Vec<String> = ["prog", "--time-to", "2023-02-30"].iter().map(|s| s.to_string()).collect();
    let named = get_named_args(&args);
    assert_eq!(get_input_time_range(&named).unwrap_err(), ArgError::BadTimeTo);
}

#[test]
fn repeated_option_last_value_wins() {
    let args: Vec<String> = ["prog", "--time-from", "2023-06-01", "--time-from", "2024-01-02"]
        .iter()
        .map(|s| s.to_string())
        .collect();
    let named = get_named_args(&args);
    let w = get_input_time_range(&named).unwrap();
    assert_eq!(w.start, dt(2024, 1, 2, 0, 0, 0));
}
