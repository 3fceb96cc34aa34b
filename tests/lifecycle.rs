use eventlog_source::{
    build_source_registry_path, check_status, create_event_source, delete_event_source,
    is_valid_identifier, open_status_exists, source_exists, to_wide, ConfigStore, StoreError,
    StoreOp, COMPANY_NAME, ERROR_ACCESS_DENIED, ERROR_FILE_NOT_FOUND, IVS_AGENT_NAME,
};

#[test]
fn registry_path_is_root_group_source() {
    assert_eq!(
        build_source_registry_path("Infopercept", "IvsAgent"),
        "SYSTEM\\CurrentControlSet\\Services\\EventLog\\Infopercept\\IvsAgent"
    );
    assert_eq!(
        build_source_registry_path("MyNewLog", "SRC-7"),
        "SYSTEM\\CurrentControlSet\\Services\\EventLog\\MyNewLog\\SRC-7"
    );
}

#[test]
fn identifiers_hold_no_separator() {
    assert!(is_valid_identifier(COMPANY_NAME));
    assert!(is_valid_identifier(IVS_AGENT_NAME));
    assert!(is_valid_identifier(""));
    assert!(!is_valid_identifier("a\\b"));
    assert!(!is_valid_identifier("\\"));
}

#[test]
fn wide_text_is_utf16_with_terminator() {
    assert_eq!(to_wide(""), vec![0u16]);
    assert_eq!(to_wide("Ab"), vec![0x41u16, 0x62, 0]);
    assert_eq!(to_wide("A\u{20AC}\u{1F600}"), vec![0x41u16, 0x20AC, 0xD83D, 0xDE00, 0]);
    let expected: Vec<u16> = "Task 42 succeeded".encode_utf16().chain(std::iter::once(0)).collect();
    assert_eq!(to_wide("Task 42 succeeded"), expected);
}

#[test]
fn status_codes_become_errors() {
    assert_eq!(check_status(StoreOp::CreateKey, 0), Ok(()));
    assert_eq!(
        check_status(StoreOp::DeleteKey, 2),
        Err(StoreError { operation: StoreOp::DeleteKey, code: 2 })
    );
    assert!(open_status_exists(0));
    assert!(!open_status_exists(2));
    assert!(!open_status_exists(5));
}

#[test]
fn error_carries_facility_tagged_code() {
    let e = StoreError { operation: StoreOp::DeleteKey, code: 2 };
    assert_eq!(e.hresult(), 0x8007_0002);
    let big = StoreError { operation: StoreOp::CreateKey, code: 0x1_2345 };
    assert_eq!(big.hresult(), 0x8007_2345);
    assert_eq!(StoreOp::CreateKey.name(), "RegCreateKeyExW");
    assert_eq!(StoreOp::DeleteKey.name(), "RegDeleteKeyW");
}

#[test]
fn create_then_exists() {
    let mut store = ConfigStore::new();
    assert!(!source_exists(&store, "Infopercept", "IvsAgent"));
    assert_eq!(create_event_source(&mut store, "Infopercept", "IvsAgent"), Ok(()));
    assert!(source_exists(&store, "Infopercept", "IvsAgent"));
    assert!(!source_exists(&store, "Infopercept", "Other"));
    assert!(!source_exists(&store, "Other", "IvsAgent"));
}

#[test]
fn create_twice_keeps_one_record() {
    let mut store = ConfigStore::new();
    assert_eq!(create_event_source(&mut store, "MyNewLog", "MySource"), Ok(()));
    assert_eq!(create_event_source(&mut store, "MyNewLog", "MySource"), Ok(()));
    assert!(source_exists(&store, "MyNewLog", "MySource"));
    assert_eq!(delete_event_source(&mut store, "MyNewLog", "MySource"), Ok(()));
    assert!(!source_exists(&store, "MyNewLog", "MySource"));
}

#[test]
fn delete_then_absent() {
    let mut store = ConfigStore::new();
    create_event_source(&mut store, "Infopercept", "IvsAgent").unwrap();
    create_event_source(&mut store, "Infopercept", "SRC-3").unwrap();
    assert_eq!(delete_event_source(&mut store, "Infopercept", "IvsAgent"), Ok(()));
    assert!(!source_exists(&store, "Infopercept", "IvsAgent"));
    assert!(source_exists(&store, "Infopercept", "SRC-3"));
}

#[test]
fn delete_missing_is_error() {
    let mut store = ConfigStore::new();
    assert_eq!(
        delete_event_source(&mut store, "Infopercept", "IvsAgent"),
        Err(StoreError { operation: StoreOp::DeleteKey, code: ERROR_FILE_NOT_FOUND })
    );
    create_event_source(&mut store, "Infopercept", "IvsAgent").unwrap();
    delete_event_source(&mut store, "Infopercept", "IvsAgent").unwrap();
    assert_eq!(
        delete_event_source(&mut store, "Infopercept", "IvsAgent"),
        Err(StoreError { operation: StoreOp::DeleteKey, code: ERROR_FILE_NOT_FOUND })
    );
}

#[test]
fn delete_with_subkey_is_refused() {
    let mut store = ConfigStore::new();
    create_event_source(&mut store, "a", "b").unwrap();
    create_event_source(&mut store, "a", "b\\c").unwrap();
    assert_eq!(
        delete_event_source(&mut store, "a", "b"),
        Err(StoreError { operation: StoreOp::DeleteKey, code: ERROR_ACCESS_DENIED })
    );
    assert!(source_exists(&store, "a", "b"));
    assert_eq!(delete_event_source(&mut store, "a", "b\\c"), Ok(()));
    assert_eq!(delete_event_source(&mut store, "a", "b"), Ok(()));
    assert!(!source_exists(&store, "a", "b"));
}
