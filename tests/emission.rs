use eventlog_source::{
    create_event_source, delete_event_source, emit_record, entry_text, source_exists, task_record,
    write_event, ConfigStore, EventFacility, EventLogger, TaskExecutionLog, WriteError,
    DEFAULT_RECORD_LEVEL, EVENT_TYPE_ERROR, EVENT_TYPE_INFORMATION, EVENT_TYPE_WARNING,
    SERIALIZATION_PLACEHOLDER,
};

const AGENT_PATH: &str = "SYSTEM\\CurrentControlSet\\Services\\EventLog\\Infopercept\\IvsAgent";

#[test]
fn severity_codes() {
    assert_eq!(EVENT_TYPE_ERROR, 1);
    assert_eq!(EVENT_TYPE_WARNING, 2);
    assert_eq!(EVENT_TYPE_INFORMATION, 4);
    assert_eq!(DEFAULT_RECORD_LEVEL, EVENT_TYPE_WARNING);
}

#[test]
fn register_then_release_twice() {
    let mut store = ConfigStore::new();
    create_event_source(&mut store, "Infopercept", "IvsAgent").unwrap();
    assert!(source_exists(&store, "Infopercept", "IvsAgent"));
    let mut facility = EventFacility::new();
    let mut logger = EventLogger::register(&mut facility, "IvsAgent", "Infopercept").unwrap();
    assert_eq!(facility.live_count(), 1);
    assert!(logger.release(&mut facility));
    assert!(!logger.release(&mut facility));
    assert_eq!(facility.registration_count(), 1);
    assert_eq!(facility.release_count(), 1);
    assert_eq!(facility.live_count(), 0);
}

#[test]
fn handles_are_distinct() {
    let mut facility = EventFacility::new();
    let mut a = EventLogger::register(&mut facility, "SRC-1", "Infopercept").unwrap();
    let mut b = EventLogger::register(&mut facility, "SRC-2", "Infopercept").unwrap();
    assert_eq!(facility.live_count(), 2);
    assert!(a.release(&mut facility));
    assert_eq!(b.write_entry(&mut facility, "still open", EVENT_TYPE_INFORMATION), Ok(()));
    assert!(b.release(&mut facility));
    assert_eq!(facility.live_count(), 0);
    let entries = facility.entries();
    assert_eq!(entries.len(), 1);
    assert_eq!(
        entries[0].source,
        "SYSTEM\\CurrentControlSet\\Services\\EventLog\\Infopercept\\SRC-2"
    );
    assert_eq!(entries[0].level, EVENT_TYPE_INFORMATION);
}

#[test]
fn write_after_release_is_refused() {
    let mut facility = EventFacility::new();
    let mut logger = EventLogger::register(&mut facility, "IvsAgent", "Infopercept").unwrap();
    logger.release(&mut facility);
    assert_eq!(
        logger.write_entry(&mut facility, "late", EVENT_TYPE_ERROR),
        Err(WriteError::Released)
    );
    assert!(facility.entries().is_empty());
}

#[test]
fn every_write_is_paired_with_one_release() {
    let mut facility = EventFacility::new();
    for i in 0..5 {
        let name = format!("SRC-{i}");
        assert_eq!(write_event(&mut facility, &name, "Infopercept", "hello", EVENT_TYPE_WARNING), Ok(()));
    }
    assert_eq!(facility.registration_count(), 5);
    assert_eq!(facility.release_count(), 5);
    assert_eq!(facility.live_count(), 0);
    assert_eq!(facility.entries().len(), 5);
    assert_eq!(facility.entries()[4].message, "hello");
}

#[test]
fn end_to_end_scenario() {
    let mut store = ConfigStore::new();
    let mut facility = EventFacility::new();
    assert_eq!(create_event_source(&mut store, "Infopercept", "IvsAgent"), Ok(()));
    assert!(source_exists(&store, "Infopercept", "IvsAgent"));
    let mut logger = EventLogger::register(&mut facility, "IvsAgent", "Infopercept").unwrap();
    assert_eq!(logger.write_entry(&mut facility, "Task 42 succeeded", EVENT_TYPE_WARNING), Ok(()));
    assert!(logger.release(&mut facility));
    assert_eq!(facility.live_count(), 0);
    assert_eq!(delete_event_source(&mut store, "Infopercept", "IvsAgent"), Ok(()));
    assert!(!source_exists(&store, "Infopercept", "IvsAgent"));
    let entries = facility.entries();
    assert_eq!(entries.len(), 1);
    assert_eq!(entries[0].source, AGENT_PATH);
    assert_eq!(entries[0].level, 2);
    assert_eq!(entries[0].message, "Task 42 succeeded");
}

fn serialize(r: &TaskExecutionLog) -> String {
    let mut meta = serde_json::Map::new();
    for (k, v) in &r.metadata {
        meta.insert(k.clone(), serde_json::Value::from(*v));
    }
    let month = time::Month::try_from(r.created_at.month).unwrap();
    let date = time::Date::from_calendar_date(r.created_at.year, month, r.created_at.day).unwrap();
    let t = time::Time::from_hms_nano(
        r.created_at.hour,
        r.created_at.minute,
        r.created_at.second,
        r.created_at.nanosecond,
    )
    .unwrap();
    let created = time::PrimitiveDateTime::new(date, t).assume_utc();
    let mut obj = serde_json::Map::new();
    obj.insert("task_id".to_string(), serde_json::Value::from(r.task_id.clone()));
    obj.insert("command".to_string(), serde_json::Value::from(r.command.clone()));
    obj.insert("status".to_string(), serde_json::Value::from(r.status.clone()));
    obj.insert("message".to_string(), serde_json::Value::from(r.message.clone()));
    obj.insert("metadata".to_string(), serde_json::Value::Object(meta));
    obj.insert("created_at".to_string(), serde_json::to_value(created).unwrap());
    serde_json::to_string_pretty(&serde_json::Value::Object(obj)).unwrap()
}

#[test]
fn structured_record_round_trip() {
    let r = task_record("42", "42", "Success", "Task executed successfully", 7);
    assert_eq!(r.task_id, "42");
    assert_eq!(r.command, "42");
    assert_eq!(r.status, "Success");
    assert_eq!(r.message, "Task executed successfully");
    assert_eq!(r.metadata, vec![("srcId".to_string(), 7i64)]);
    assert!(r.created_at.year >= 2019);
    assert!((1..=12).contains(&r.created_at.month));
    assert!((1..=31).contains(&r.created_at.day));
    assert!(r.created_at.hour < 24 && r.created_at.minute < 60 && r.created_at.second < 60);
    assert!(r.created_at.nanosecond < 1_000_000_000);
    let text = serialize(&r);
    assert!(text.contains("\"42\""));
    assert!(text.contains("Success"));
    assert!(text.contains("Task executed successfully"));
    assert!(text.contains("srcId"));
    assert!(text.contains('7'));
}

#[test]
fn metadata_keys_are_replaced_in_place() {
    let mut r = TaskExecutionLog::new("1", "run", "Failed", "boom");
    assert!(r.metadata.is_empty());
    r.set_metadata("a", 1);
    r.set_metadata("b", 2);
    r.set_metadata("a", 3);
    assert_eq!(r.metadata, vec![("a".to_string(), 3i64), ("b".to_string(), 2i64)]);
}

#[test]
fn serialization_failure_writes_placeholder() {
    assert_eq!(entry_text(Some("{}".to_string())), "{}");
    assert_eq!(entry_text(None), SERIALIZATION_PLACEHOLDER);
    let mut facility = EventFacility::new();
    let mut logger = EventLogger::register(&mut facility, "IvsAgent", "Infopercept").unwrap();
    assert_eq!(emit_record(&logger, &mut facility, None, DEFAULT_RECORD_LEVEL), Ok(()));
    assert_eq!(
        emit_record(&logger, &mut facility, Some("{\"a\":1}".to_string()), EVENT_TYPE_ERROR),
        Ok(())
    );
    logger.release(&mut facility);
    assert_eq!(
        emit_record(&logger, &mut facility, None, DEFAULT_RECORD_LEVEL),
        Err(WriteError::Released)
    );
    let entries = facility.entries();
    assert_eq!(entries.len(), 2);
    assert_eq!(entries[0].message, "Failed to serialize TaskExecutionLog");
    assert_eq!(entries[0].level, 2);
    assert_eq!(entries[1].message, "{\"a\":1}");
}
