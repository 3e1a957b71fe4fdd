//! Tests of the record codec and the record store.
use taskgen::codec::encode_record;
use taskgen::codec::parse_record;
use taskgen::record::TaskRecord;
use taskgen::store::encode_store;
use taskgen::store::load_tasks;
use taskgen::store::parse_store;
use taskgen::store::remove_by_name;
use taskgen::store::upsert_record;

fn sample_task() -> TaskRecord {
    TaskRecord {
        name: "sample".to_string(),
        command: "/bin/echo hello".to_string(),
        frequency: "daily".to_string(),
        timer_options: "Persistent=true".to_string(),
    }
}

#[test]
fn task_serialization_round_trip() {
    let task = sample_task();
    let line = encode_record(&task);
    let deserialized: TaskRecord = parse_record(&line).unwrap();
    assert_eq!(task, deserialized);
}

#[test]
fn load_save_round_trip() {
    let task = sample_task();
    let content = encode_store(&vec![task.clone()]);
    let loaded = load_tasks(Some(&content));
    assert_eq!(loaded.records, vec![task]);
    assert_eq!(loaded.dropped, 0);
}

#[test]
fn load_tasks_empty_file() {
    let loaded = load_tasks(Some(""));
    assert!(loaded.records.is_empty());
    assert_eq!(loaded.dropped, 0);
}

#[test]
fn load_tasks_invalid_json() {
    let loaded = load_tasks(Some("{ invalid\n"));
    assert!(loaded.records.is_empty());
}

#[test]
fn load_tasks_partial_fields() {
    let loaded = load_tasks(Some("[{\"name\":\"only\"}]"));
    assert!(loaded.records.is_empty());
}

#[test]
fn load_missing_file_is_empty_not_error() {
    let loaded = load_tasks(None);
    assert!(loaded.records.is_empty());
    assert_eq!(loaded.dropped, 0);
}

#[test]
fn load_distinguishes_corrupt_from_empty() {
    let corrupt = load_tasks(Some("garbage without separators"));
    assert!(corrupt.records.is_empty());
    assert_eq!(corrupt.dropped, 1);
    let empty = load_tasks(Some(""));
    assert!(empty.records.is_empty());
    assert_eq!(empty.dropped, 0);
}

#[test]
fn round_trip_with_separator_and_escape_characters() {
    let task = TaskRecord {
        name: "we:ird".to_string(),
        command: "echo 'a:b' \\ done".to_string(),
        frequency: "".to_string(),
        timer_options: "line\nbreak,comma".to_string(),
    };
    let line = encode_record(&task);
    assert_eq!(parse_record(&line).unwrap(), task);
    let content = encode_store(&vec![task.clone(), sample_task()]);
    let loaded = load_tasks(Some(&content));
    assert_eq!(loaded.records, vec![task, sample_task()]);
    assert_eq!(loaded.dropped, 0);
}

#[test]
fn round_trip_all_fields_empty() {
    let task = TaskRecord {
        name: "".to_string(),
        command: "".to_string(),
        frequency: "".to_string(),
        timer_options: "".to_string(),
    };
    let line = encode_record(&task);
    assert_eq!(line, ":::");
    assert_eq!(parse_record(&line).unwrap(), task);
}

#[test]
fn store_round_trip_preserves_order() {
    let mut records = Vec::new();
    for i in 0..5 {
        records.push(TaskRecord {
            name: format!("task{}", i),
            command: format!("/bin/echo {}", i),
            frequency: "weekly".to_string(),
            timer_options: "".to_string(),
        });
    }
    let content = encode_store(&records);
    let loaded = load_tasks(Some(&content));
    assert_eq!(loaded.records, records);
    assert_eq!(loaded.dropped, 0);
}

#[test]
fn malformed_lines_are_dropped_not_fatal() {
    let good_one = encode_record(&sample_task());
    let good_two = encode_record(&TaskRecord {
        name: "other".to_string(),
        command: "/bin/true".to_string(),
        frequency: "".to_string(),
        timer_options: "".to_string(),
    });
    let content = format!("{}\nnot a record\n{}", good_one, good_two);
    let loaded = parse_store(&content);
    assert_eq!(loaded.records.len(), 2);
    assert_eq!(loaded.records[0], sample_task());
    assert_eq!(loaded.records[1].name, "other");
    assert_eq!(loaded.dropped, 1);
}

#[test]
fn parse_record_rejects_wrong_field_count() {
    assert!(parse_record("a:b:c").is_none());
    assert!(parse_record("a:b:c:d:e").is_none());
    assert!(parse_record("").is_none());
}

#[test]
fn parse_record_rejects_bad_escape() {
    assert!(parse_record("a\\x:b:c:d").is_none());
    assert!(parse_record("a\\:b:c:d").is_none());
}

#[test]
fn remove_by_name_is_exact_on_prefixes_and_suffixes() {
    let mk = |name: &str| TaskRecord {
        name: name.to_string(),
        command: "/bin/true".to_string(),
        frequency: "".to_string(),
        timer_options: "".to_string(),
    };
    let records = vec![mk("job"), mk("job2"), mk("ajob"), mk("job")];
    let left = remove_by_name(&records, "job");
    assert_eq!(left, vec![mk("job2"), mk("ajob")]);
}

#[test]
fn upsert_replaces_existing_name() {
    let old = sample_task();
    let other = TaskRecord {
        name: "other".to_string(),
        command: "/bin/true".to_string(),
        frequency: "".to_string(),
        timer_options: "".to_string(),
    };
    let fresh = TaskRecord {
        name: "sample".to_string(),
        command: "/bin/echo replaced".to_string(),
        frequency: "hourly".to_string(),
        timer_options: "".to_string(),
    };
    let updated = upsert_record(&vec![old, other.clone()], fresh.clone());
    assert_eq!(updated, vec![other, fresh]);
}

#[test]
fn display_line_joins_fields_verbatim() {
    let task = sample_task();
    assert_eq!(
        task.display_line(),
        "sample:/bin/echo hello:daily:Persistent=true"
    );
}
