use tracing_eventlog::buffer::FormatBuffer;
use tracing_eventlog::catalog::Severity;
use tracing_eventlog::error::{
    map_key_error, map_value_error, to_hresult, RegistryError, ACCESS_DENIED, ERROR_ACCESS_DENIED,
    ERROR_INVALID_NAME, INVALID_NAME,
};
use tracing_eventlog::event::on_event;
use tracing_eventlog::keys::{is_valid_key_name, KeyPath, RegistryValue, RegistryWrite};
use tracing_eventlog::registry::{
    base_path, normalize_exe_path, ExeLookup, LogSource, Probe, MAX_SIZE,
};
use tracing_eventlog::state::RegistryState;

const EXE: &str = "C:\\Program Files\\app\\app.exe";

fn path(components: &[&str]) -> KeyPath {
    KeyPath { components: components.iter().map(|c| c.to_string()).collect() }
}

fn event_log(rest: &[&str]) -> KeyPath {
    let mut all = vec!["SYSTEM", "CurrentControlSet", "Services", "EventLog"];
    all.extend_from_slice(rest);
    path(&all)
}

fn exe() -> ExeLookup {
    ExeLookup::Found(EXE.to_string())
}

fn source_values(key: &KeyPath) -> Vec<RegistryWrite> {
    vec![
        RegistryWrite::SetValue(
            key.clone(),
            "EventMessageFile".to_string(),
            RegistryValue::Text(EXE.to_string()),
        ),
        RegistryWrite::SetValue(
            key.clone(),
            "CategoryMessageFile".to_string(),
            RegistryValue::Text(EXE.to_string()),
        ),
        RegistryWrite::SetValue(key.clone(), "CategoryCount".to_string(), RegistryValue::Dword(3)),
        RegistryWrite::SetValue(key.clone(), "TypesSupported".to_string(), RegistryValue::Dword(7)),
    ]
}

fn source_writes(key: &KeyPath) -> Vec<RegistryWrite> {
    let mut writes = vec![RegistryWrite::CreateKey(key.clone())];
    writes.extend(source_values(key));
    writes
}

fn channel_writes(key: &KeyPath) -> Vec<RegistryWrite> {
    vec![
        RegistryWrite::CreateKey(key.clone()),
        RegistryWrite::SetValue(
            key.clone(),
            "AutoBackupLogFiles".to_string(),
            RegistryValue::Dword(0),
        ),
        RegistryWrite::SetValue(
            key.clone(),
            "MaxSize".to_string(),
            RegistryValue::Dword(0x00080000),
        ),
    ]
}

fn has_source_values(state: &RegistryState, key: &KeyPath) -> bool {
    state.value(key, "EventMessageFile") == Some(RegistryValue::Text(EXE.to_string()))
        && state.value(key, "CategoryMessageFile") == Some(RegistryValue::Text(EXE.to_string()))
        && state.value(key, "CategoryCount") == Some(RegistryValue::Dword(3))
        && state.value(key, "TypesSupported") == Some(RegistryValue::Dword(7))
}

#[test]
fn test_application() {
    let start = "28 Oct 2026 10:15:00 PM +00:00";
    let mut registry = RegistryState::new();
    let source = LogSource::application("Tracing Application");
    let writes = source.register(&exe(), &registry).unwrap();
    registry.apply_all(&writes);
    let key = event_log(&["Application", "Tracing Application"]);
    assert!(registry.has_key(&key));
    assert!(has_source_values(&registry, &key));

    let log = format!("basic test log {start}");
    let mut buffer = FormatBuffer::new();
    buffer.write(format!("test::tests: log: \"{log}\"").as_bytes());
    let record = on_event(Severity::Info, String::new(), &mut buffer).unwrap();
    let text = String::from_utf16(&record.message).unwrap();
    assert!(text.ends_with(&format!("test::tests: log: \"{log}\"")));
    assert_eq!(record.event_type, 4);

    let root = source.deregister().unwrap();
    assert_eq!(root, key);
    registry.remove_tree(&root);
    assert!(!registry.has_key(&key));
    assert!(registry.has_key(&event_log(&["Application"])));
}

#[test]
fn test_custom() {
    let start = "28 Oct 2026 10:15:00 PM +00:00";
    let mut registry = RegistryState::new();
    let source = LogSource::custom("Custom Tracing Application", None);
    let writes = source.register(&exe(), &registry).unwrap();
    registry.apply_all(&writes);
    let channel = event_log(&["Custom Tracing Application"]);
    let key = event_log(&["Custom Tracing Application", "Custom Tracing Application"]);
    assert!(registry.has_key(&channel));
    assert!(registry.has_key(&key));
    assert!(has_source_values(&registry, &key));

    let log = format!("custom test log {start}");
    let mut buffer = FormatBuffer::new();
    buffer.write(format!("test::tests: log: \"{log}\"").as_bytes());
    let record = on_event(Severity::Info, String::new(), &mut buffer).unwrap();
    let text = String::from_utf16(&record.message).unwrap();
    assert!(text.ends_with(&format!("test::tests: log: \"{log}\"")));

    let root = source.deregister().unwrap();
    assert_eq!(root, channel);
    registry.remove_tree(&root);
    assert!(!registry.has_key(&channel));
    assert!(!registry.has_key(&key));
}

#[test]
fn application_source_is_written_in_order() {
    let source = LogSource::application("App1");
    assert_eq!(source.name(), "App1");
    assert!(!source.is_custom());
    let key = event_log(&["Application", "App1"]);
    assert_eq!(source.root(), key);
    let writes = source.register(&exe(), &RegistryState::new()).unwrap();
    assert_eq!(writes, source_writes(&key));
    assert_eq!(writes.len(), 5);
}

#[test]
fn registered_application_source_reports_an_event() {
    let mut registry = RegistryState::new();
    let source = LogSource::application("App1");
    registry.apply_all(&source.register(&exe(), &registry).unwrap());
    assert!(registry.has_key(&event_log(&["Application", "App1"])));
    let mut buffer = FormatBuffer::new();
    buffer.write(b"hello");
    let record = on_event(Severity::Info, "\"Network Events\"".to_string(), &mut buffer).unwrap();
    assert_eq!(record.event_type, 4);
    assert_eq!(record.category, 2);
    assert_eq!(String::from_utf16(&record.message).unwrap(), "hello");
}

#[test]
fn custom_channel_is_written_in_order() {
    let source = LogSource::custom("Chan1", Some(vec!["SrcA"]));
    assert!(source.is_custom());
    let channel = event_log(&["Chan1"]);
    assert_eq!(source.root(), channel);
    let writes = source.register(&exe(), &RegistryState::new()).unwrap();
    let mut expected = channel_writes(&channel);
    expected.extend(source_writes(&event_log(&["Chan1", "Chan1"])));
    expected.extend(source_writes(&event_log(&["Chan1", "SrcA"])));
    assert_eq!(writes, expected);
}

#[test]
fn custom_channel_scenario() {
    let source = LogSource::custom("Chan1", Some(vec!["SrcA"]));
    let mut registry = RegistryState::new();
    let writes = source.register(&exe(), &registry).unwrap();
    registry.apply_all(&writes);
    let channel = event_log(&["Chan1"]);
    assert!(registry.has_key(&channel));
    assert_eq!(registry.value(&channel, "MaxSize"), Some(RegistryValue::Dword(0x00080000)));
    assert_eq!(registry.value(&channel, "MaxSize"), Some(RegistryValue::Dword(MAX_SIZE)));
    assert_eq!(registry.value(&channel, "AutoBackupLogFiles"), Some(RegistryValue::Dword(0)));
    for sub in ["Chan1", "SrcA"] {
        let key = event_log(&["Chan1", sub]);
        assert!(registry.has_key(&key));
        assert_eq!(registry.value(&key, "CategoryCount"), Some(RegistryValue::Dword(3)));
        assert!(has_source_values(&registry, &key));
    }
    assert_eq!(registry.value(&channel, "CategoryCount"), None);
}

#[test]
fn register_twice_writes_once() {
    let sources = [
        LogSource::application("App1"),
        LogSource::custom("Chan1", None),
        LogSource::custom("Chan1", Some(vec!["SrcA", "SrcB"])),
        LogSource::custom("Chan1", Some(vec!["SrcA", "Chan1", "SrcA"])),
    ];
    for source in sources {
        let mut registry = RegistryState::new();
        let first = source.register(&exe(), &registry).unwrap();
        assert!(!first.is_empty());
        registry.apply_all(&first);
        let once = registry.clone();
        let second = source.register(&exe(), &registry).unwrap();
        assert_eq!(second.len(), 0);
        registry.apply_all(&second);
        assert_eq!(registry, once);
        // Another executable changes nothing either: what is there is kept.
        let other = ExeLookup::Found("D:\\other.exe".to_string());
        assert_eq!(source.register(&other, &registry).unwrap(), vec![]);
    }
}

#[test]
fn register_then_deregister_leaves_no_subtree() {
    let mut registry = RegistryState::new();
    let neighbour = event_log(&["Application", "Other"]);
    registry.create_key(&neighbour);
    registry.set_value(&neighbour, "CategoryCount", &RegistryValue::Dword(9));

    let application = LogSource::application("App1");
    registry.apply_all(&application.register(&exe(), &registry).unwrap());
    let custom = LogSource::custom("Chan1", Some(vec!["SrcA"]));
    registry.apply_all(&custom.register(&exe(), &registry).unwrap());

    registry.remove_tree(&custom.deregister().unwrap());
    for key in [event_log(&["Chan1"]), event_log(&["Chan1", "Chan1"]), event_log(&["Chan1", "SrcA"])] {
        assert!(!registry.has_key(&key));
        assert!(!registry.has_value(&key, "CategoryCount"));
        assert!(!registry.has_value(&key, "MaxSize"));
    }
    assert!(registry.has_key(&event_log(&["Application", "App1"])));

    registry.remove_tree(&application.deregister().unwrap());
    assert!(!registry.has_key(&event_log(&["Application", "App1"])));
    assert!(!registry.has_value(&event_log(&["Application", "App1"]), "EventMessageFile"));
    assert!(registry.has_key(&neighbour));
    assert_eq!(registry.value(&neighbour, "CategoryCount"), Some(RegistryValue::Dword(9)));
    assert!(registry.has_key(&event_log(&[])));
}

#[test]
fn only_missing_sources_are_written() {
    let source = LogSource::custom("Chan1", Some(vec!["SrcA", "SrcB"]));
    let mut registry = RegistryState::new();
    let first = LogSource::custom("Chan1", Some(vec!["SrcA"]));
    registry.apply_all(&first.register(&exe(), &registry).unwrap());

    let writes = source.register(&exe(), &registry).unwrap();
    let mut expected = channel_writes(&event_log(&["Chan1"]));
    expected.extend(source_writes(&event_log(&["Chan1", "Chan1"])));
    expected.extend(source_writes(&event_log(&["Chan1", "SrcB"])));
    assert_eq!(writes, expected);
}

#[test]
fn channel_without_its_settings_is_made_again() {
    let source = LogSource::custom("Chan1", Some(vec!["SrcA"]));
    let mut registry = RegistryState::new();
    registry.create_key(&event_log(&["Chan1", "Chan1"]));
    registry.create_key(&event_log(&["Chan1", "SrcA"]));
    registry.set_value(&event_log(&["Chan1"]), "MaxSize", &RegistryValue::Dword(1));
    let writes = source.register(&exe(), &registry).unwrap();
    let mut expected = channel_writes(&event_log(&["Chan1"]));
    expected.extend(source_writes(&event_log(&["Chan1", "Chan1"])));
    expected.extend(source_writes(&event_log(&["Chan1", "SrcA"])));
    assert_eq!(writes, expected);
    registry.apply_all(&writes);
    assert_eq!(
        registry.value(&event_log(&["Chan1"]), "MaxSize"),
        Some(RegistryValue::Dword(0x00080000))
    );
}

#[test]
fn repeated_sources_are_written_once() {
    let source = LogSource::custom("Chan1", Some(vec!["SrcA", "Chan1", "SrcA"]));
    let writes = source.register(&exe(), &RegistryState::new()).unwrap();
    let mut expected = channel_writes(&event_log(&["Chan1"]));
    expected.extend(source_writes(&event_log(&["Chan1", "Chan1"])));
    expected.extend(source_writes(&event_log(&["Chan1", "SrcA"])));
    assert_eq!(writes, expected);
}

#[test]
fn existing_application_key_is_left_alone() {
    let source = LogSource::application("App1");
    let mut registry = RegistryState::new();
    let key = event_log(&["Application", "App1"]);
    registry.create_key(&key);
    registry.set_value(&key, "EventMessageFile", &RegistryValue::Text("old.exe".to_string()));
    assert_eq!(source.register(&exe(), &registry), Ok(vec![]));
}

#[test]
fn register_without_executable_fails() {
    let source = LogSource::application("App1");
    let registry = RegistryState::new();
    assert_eq!(
        source.register(&ExeLookup::Failed(2), &registry),
        Err(RegistryError::SystemError(2))
    );
    assert_eq!(
        source.register(&ExeLookup::NotText, &registry),
        Err(RegistryError::InvalidExePath)
    );
    // The executable is asked for first, whatever the registry holds.
    let mut registered = RegistryState::new();
    registered.create_key(&event_log(&["Application", "App1"]));
    assert_eq!(
        source.register(&ExeLookup::NotText, &registered),
        Err(RegistryError::InvalidExePath)
    );
}

#[test]
fn name_with_terminator_is_refused() {
    let registry = RegistryState::new();
    assert_eq!(
        LogSource::application("My\0App").register(&exe(), &registry),
        Err(RegistryError::StrConvertError(2))
    );
    assert_eq!(
        LogSource::custom("Chan1", Some(vec!["Src", "S\0rcB"])).register(&exe(), &registry),
        Err(RegistryError::StrConvertError(1))
    );
    assert_eq!(
        LogSource::custom("Chan\01", Some(vec!["\0x"])).register(&exe(), &registry),
        Err(RegistryError::StrConvertError(4))
    );
    assert_eq!(
        LogSource::application("My\0App").deregister(),
        Err(RegistryError::StrConvertError(2))
    );
    assert_eq!(
        LogSource::custom("\0Chan", None).deregister(),
        Err(RegistryError::StrConvertError(0))
    );
}

#[test]
fn name_that_is_no_key_name_is_refused() {
    let registry = RegistryState::new();
    let refused = Err(RegistryError::KeyError(-2147024773));
    assert_eq!(INVALID_NAME, -2147024773);
    assert_eq!(INVALID_NAME as u32, 0x8007007B);
    assert_eq!(to_hresult(ERROR_INVALID_NAME), INVALID_NAME);
    let sources = [
        LogSource::application(""),
        LogSource::application("App\\Sub"),
        LogSource::application("\\"),
        LogSource::application("App1\0"),
        LogSource::custom("", None),
        LogSource::custom("Chan\\1", Some(vec!["SrcA"])),
        LogSource::custom("Chan1", Some(vec!["Src\\A"])),
        LogSource::custom("Chan1", Some(vec!["SrcA", ""])),
    ];
    for source in sources {
        assert!(!source.is_valid());
        assert_eq!(source.register(&exe(), &registry), refused);
        assert_eq!(source.deregister().map(|key| key.joined()), Err(RegistryError::KeyError(INVALID_NAME)));
    }
    // The executable and a terminator inside a name are judged first.
    assert_eq!(
        LogSource::application("").register(&ExeLookup::NotText, &registry),
        Err(RegistryError::InvalidExePath)
    );
    assert_eq!(
        LogSource::custom("a\\b", Some(vec!["x\0y"])).register(&exe(), &registry),
        Err(RegistryError::StrConvertError(1))
    );
    assert_eq!(
        LogSource::application("a\\b\0c").deregister(),
        Err(RegistryError::StrConvertError(3))
    );
}

#[test]
fn deregister_never_names_the_shared_channel() {
    let application = event_log(&["Application"]);
    for name in ["", "\\", "App1\\..", "App1"] {
        match LogSource::application(name).deregister() {
            Ok(root) => {
                assert_eq!(name, "App1");
                assert_eq!(root, event_log(&["Application", "App1"]));
                assert!(!root.is_prefix_of(&application));
            }
            Err(error) => assert_eq!(error, RegistryError::KeyError(INVALID_NAME)),
        }
    }
}

#[test]
fn verbatim_prefix_is_removed_from_the_executable() {
    assert_eq!(normalize_exe_path("\\\\?\\C:\\app\\app.exe"), "C:\\app\\app.exe");
    assert_eq!(normalize_exe_path("C:\\app\\app.exe"), "C:\\app\\app.exe");
    assert_eq!(normalize_exe_path("\\\\?\\"), "");
    assert_eq!(normalize_exe_path("\\\\?"), "\\\\?");
    assert_eq!(normalize_exe_path(""), "");
    assert_eq!(normalize_exe_path("\\\\?\\\\\\?\\x"), "\\\\?\\x");
    assert_eq!(normalize_exe_path("\\\\?\\C:\\é\\app.exe"), "C:\\é\\app.exe");

    let source = LogSource::application("App1");
    let lookup = ExeLookup::Found(format!("\\\\?\\{EXE}"));
    let writes = source.register(&lookup, &RegistryState::new()).unwrap();
    assert_eq!(writes, source_writes(&event_log(&["Application", "App1"])));
}

#[test]
fn add_keys_writes_four_values() {
    let source = LogSource::application("App1");
    let key = event_log(&["Application", "App1"]);
    assert_eq!(source.add_keys(&key, EXE), source_values(&key));
}

#[test]
fn probes_name_what_register_looks_at() {
    let application = LogSource::application("App1");
    assert_eq!(application.probes(), vec![Probe::Key(event_log(&["Application", "App1"]))]);

    let custom = LogSource::custom("Chan1", Some(vec!["SrcA"]));
    let channel = event_log(&["Chan1"]);
    assert_eq!(
        custom.probes(),
        vec![
            Probe::Key(channel.clone()),
            Probe::Value(channel.clone(), "AutoBackupLogFiles".to_string()),
            Probe::Value(channel.clone(), "MaxSize".to_string()),
            Probe::Key(event_log(&["Chan1", "Chan1"])),
            Probe::Key(event_log(&["Chan1", "SrcA"])),
            Probe::Key(event_log(&["Chan1", "Chan1"])),
        ]
    );
}

#[test]
fn plan_follows_from_the_probes_alone() {
    let source = LogSource::custom("Chan1", Some(vec!["SrcA", "SrcB"]));
    let mut full = RegistryState::new();
    full.apply_all(&LogSource::custom("Chan1", Some(vec!["SrcA"])).register(&exe(), &full).unwrap());
    full.create_key(&event_log(&["Application", "Elsewhere"]));

    let mut answers = RegistryState::new();
    for probe in source.probes() {
        match probe {
            Probe::Key(key) => {
                if full.has_key(&key) {
                    answers.create_key(&key);
                }
            }
            Probe::Value(key, name) => {
                if let Some(value) = full.value(&key, &name) {
                    answers.set_value(&key, &name, &value);
                }
            }
        }
    }
    assert_eq!(source.register(&exe(), &answers), source.register(&exe(), &full));
}

#[test]
fn key_errors_are_classified() {
    assert_eq!(ACCESS_DENIED as u32, 0x80070005);
    assert_eq!(map_key_error(ACCESS_DENIED), RegistryError::PermissionDenied(ACCESS_DENIED));
    assert_eq!(map_key_error(-2147024891), RegistryError::PermissionDenied(-2147024891));
    assert_eq!(map_key_error(-2147024894), RegistryError::KeyError(-2147024894));
    assert_eq!(map_key_error(5), RegistryError::KeyError(5));
    assert_eq!(map_key_error(0), RegistryError::KeyError(0));
}

#[test]
fn value_errors_are_classified() {
    assert_eq!(map_value_error(ACCESS_DENIED), RegistryError::PermissionDenied(ACCESS_DENIED));
    assert_eq!(map_value_error(-2147024809), RegistryError::ValueError(-2147024809));
    assert_eq!(map_value_error(5), RegistryError::ValueError(5));
    assert!(matches!(map_value_error(ACCESS_DENIED), RegistryError::PermissionDenied(_)));
}

#[test]
fn key_names_are_checked() {
    assert!(is_valid_key_name("App1"));
    assert!(is_valid_key_name("Tracing Application"));
    assert!(is_valid_key_name("é"));
    assert!(!is_valid_key_name(""));
    assert!(!is_valid_key_name("a\\b"));
    assert!(!is_valid_key_name("a\0"));
    assert!(LogSource::application("App1").is_valid());
    assert!(!LogSource::application("").is_valid());
    assert!(LogSource::custom("Chan1", Some(vec!["SrcA"])).is_valid());
    assert!(!LogSource::custom("Chan1", Some(vec!["Src\\A"])).is_valid());
    assert!(!LogSource::custom("Chan\\1", None).is_valid());
}

#[test]
fn paths_are_joined_with_backslashes() {
    assert_eq!(base_path().joined(), "SYSTEM\\CurrentControlSet\\Services\\EventLog");
    assert_eq!(
        LogSource::application("App1").root().joined(),
        "SYSTEM\\CurrentControlSet\\Services\\EventLog\\Application\\App1"
    );
    assert_eq!(KeyPath::new().joined(), "");
    assert_eq!(path(&["one"]).joined(), "one");
}

#[test]
fn paths_compare_by_their_components() {
    let key = event_log(&["Chan1", "SrcA"]);
    assert_eq!(key.len(), 6);
    assert_eq!(key.component(4), "Chan1");
    assert_eq!(key.prefix(5), event_log(&["Chan1"]));
    assert_eq!(key.copy(), key);
    assert_eq!(event_log(&["Chan1"]).child("SrcA"), key);
    assert!(key.same(&event_log(&["Chan1", "SrcA"])));
    assert!(!key.same(&event_log(&["Chan1", "srca"])));
    assert!(!key.same(&event_log(&["Chan1"])));
    assert!(event_log(&["Chan1"]).is_prefix_of(&key));
    assert!(key.is_prefix_of(&key));
    assert!(KeyPath::new().is_prefix_of(&key));
    assert!(!key.is_prefix_of(&event_log(&["Chan1"])));
    assert!(!event_log(&["Chan"]).is_prefix_of(&key));
}

#[test]
fn registry_state_keeps_the_later_value() {
    let mut registry = RegistryState::new();
    let key = path(&["a", "b"]);
    assert!(!registry.has_key(&key));
    registry.apply(&RegistryWrite::CreateKey(key.clone()));
    assert!(registry.has_key(&key));
    assert!(registry.has_key(&path(&["a"])));
    assert!(!registry.has_key(&KeyPath::new()));
    assert!(!registry.has_key(&path(&["b"])));
    assert_eq!(registry.value(&key, "v"), None);
    registry.set_value(&key, "v", &RegistryValue::Dword(1));
    registry.set_value(&key, "w", &RegistryValue::Text("x".to_string()));
    registry.set_value(&key, "v", &RegistryValue::Dword(2));
    assert!(registry.has_value(&key, "v"));
    assert!(!registry.has_value(&key, "V"));
    assert_eq!(registry.value(&key, "v"), Some(RegistryValue::Dword(2)));
    assert_eq!(registry.value(&key, "w"), Some(RegistryValue::Text("x".to_string())));
    registry.remove_tree(&path(&["a", "b", "c"]));
    assert!(registry.has_key(&key));
    registry.remove_tree(&path(&["a"]));
    assert!(!registry.has_key(&key));
    assert!(!registry.has_key(&path(&["a"])));
    assert_eq!(registry.value(&key, "v"), None);
}

#[test]
fn win32_errors_become_result_codes() {
    assert_eq!(to_hresult(ERROR_ACCESS_DENIED), ACCESS_DENIED);
    assert_eq!(to_hresult(5), 0x80070005u32 as i32);
    assert_eq!(to_hresult(0), 0);
    assert_eq!(to_hresult(2), 0x80070002u32 as i32);
    assert_eq!(to_hresult(0x0001_0005), 0x80070005u32 as i32);
    assert_eq!(to_hresult(0x8000_4005), 0x80004005u32 as i32);
    assert_eq!(to_hresult(u32::MAX), -1);
    assert_eq!(to_hresult(0x7FFF_FFFF), 0x8007FFFFu32 as i32);
}
