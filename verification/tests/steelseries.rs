use omni_led::script_handler::script_data_types::Size;
use omni_led::steelseries_engine::api::{
    address_from_parsed, data_field_for_size, empty_frame, device_type_for_size, event_name_for_size, heartbeat_threshold,
    load_plan, open_error_message, read_address, register_size, should_send_heartbeat, update, Api, ApiSettings,
    CallOutcome, LoadPlan, SettingsError, TargetOs, MILLISECOND, SECOND,
};

#[test]
fn default_settings_per_platform() {
    let linux = ApiSettings::default(TargetOs::Linux, None);
    assert_eq!(linux.config_path, None);
    assert!(!linux.enabled);
    assert!(linux.register_heartbeat);
    assert_eq!(linux.deinitialize_timeout, 15 * SECOND);

    let mac = ApiSettings::default(TargetOs::MacOs, None);
    assert_eq!(
        mac.config_path.as_deref(),
        Some("/Library/Application Support/SteelSeries Engine 3/coreProps.json")
    );
    assert!(mac.enabled);

    let windows = ApiSettings::default(TargetOs::Windows, Some("C:\\ProgramData"));
    assert_eq!(
        windows.config_path.as_deref(),
        Some("C:\\ProgramData/SteelSeries/SteelSeries Engine 3/coreProps.json")
    );
    assert_eq!(ApiSettings::default(TargetOs::Windows, None).config_path, None);
}

#[test]
fn validate_timeout_range() {
    let mut settings = ApiSettings::default(TargetOs::MacOs, None);
    assert_eq!(ApiSettings::validate(&settings), Ok(()));
    settings.deinitialize_timeout = SECOND;
    assert_eq!(ApiSettings::validate(&settings), Ok(()));
    settings.deinitialize_timeout = 60 * SECOND;
    assert_eq!(ApiSettings::validate(&settings), Ok(()));
    settings.deinitialize_timeout = 60 * SECOND + 1;
    assert_eq!(ApiSettings::validate(&settings), Err(SettingsError::TimeoutOutOfRange(60 * SECOND + 1)));
    settings.deinitialize_timeout = 999 * MILLISECOND;
    assert!(ApiSettings::validate(&settings).is_err());
}

#[test]
fn load_plans() {
    let mut settings = ApiSettings::default(TargetOs::MacOs, None);
    assert_eq!(load_plan(&settings), LoadPlan::Start { heartbeat_threshold: Some(12 * SECOND) });
    settings.register_heartbeat = false;
    assert_eq!(load_plan(&settings), LoadPlan::Start { heartbeat_threshold: None });
    settings.config_path = None;
    assert_eq!(load_plan(&settings), LoadPlan::NoConfigPath);
    settings.enabled = false;
    assert_eq!(load_plan(&settings), LoadPlan::Disabled);
    assert_eq!(heartbeat_threshold(15 * SECOND), 12 * SECOND);
    assert_eq!(heartbeat_threshold(9), 7);
    assert_eq!(heartbeat_threshold(u64::MAX), (u64::MAX as u128 * 8 / 10) as u64);
    assert!(should_send_heartbeat(true, 13, 12));
    assert!(!should_send_heartbeat(true, 12, 12));
    assert!(!should_send_heartbeat(false, 100, 12));
}

#[test]
fn names_for_sizes() {
    let size = Size { width: 128, height: 40 };
    assert_eq!(event_name_for_size(size), "UPDATE-128X40");
    assert_eq!(data_field_for_size(size), "image-data-128x40");
    assert_eq!(device_type_for_size(size), "screened-128x40");
}

#[test]
fn api_connection_and_backoff() {
    let mut api = Api::new(15 * SECOND, "props.json".to_string());
    assert_eq!(api.config_path_str(), "props.json");
    assert!(!api.is_connected());
    assert_eq!(api.endpoint_url("/game_event"), None);
    api.connect("127.0.0.1:1234".to_string());
    assert!(api.is_connected());
    assert_eq!(api.endpoint_url("/game_event").as_deref(), Some("http://127.0.0.1:1234/game_event"));

    assert_eq!(api.backoff_remaining(0), None);
    assert!(!api.record_outcome(CallOutcome::BadStatus(500)));
    assert_eq!(api.backoff_remaining(100 * MILLISECOND), Some(400 * MILLISECOND));
    assert_eq!(api.backoff_remaining(500 * MILLISECOND), None);
    assert!(!api.record_outcome(CallOutcome::Disconnected));
    assert!(!api.is_connected());
    assert_eq!(api.backoff_remaining(0), Some(1000 * MILLISECOND));
    assert!(!api.record_outcome(CallOutcome::Failed));
    assert!(!api.record_outcome(CallOutcome::Failed));
    assert!(!api.record_outcome(CallOutcome::Failed));
    assert!(!api.record_outcome(CallOutcome::Failed));
    assert_eq!(api.backoff_remaining(0), Some(8000 * MILLISECOND));
    assert!(api.record_outcome(CallOutcome::Success));
    assert_eq!(api.backoff_remaining(0), None);
}

#[test]
fn sizes_and_updates() {
    let mut api = Api::new(15 * SECOND, "p".to_string());
    let size = Size { width: 128, height: 40 };
    register_size(&mut api, size);
    register_size(&mut api, size);
    register_size(&mut api, Size { width: 128, height: 52 });
    assert_eq!(api.registered_sizes().len(), 2);

    let first = update(&mut api, &size, &[1, 2, 3]);
    assert_eq!(first.game, "MBQ_OMNI_LED");
    assert_eq!(first.event, "UPDATE-128X40");
    assert_eq!(first.value, 0);
    assert_eq!(first.data_field, "image-data-128x40");
    assert_eq!(first.data, vec![1, 2, 3]);
    let second = update(&mut api, &size, &[]);
    assert_eq!(second.value, 1);
}

#[test]
fn address_from_properties() {
    assert_eq!(read_address("{\"address\": \"127.0.0.1:5000\"}"), Ok("127.0.0.1:5000".to_string()));
    assert_eq!(
        read_address("{\"port\": 1}"),
        Err("Couldn't parse properties json: missing 'address' field".to_string())
    );
    assert_eq!(
        read_address("{\"address\": 5}"),
        Err("Couldn't parse properties json: missing 'address' field".to_string())
    );
    let broken = read_address("{").unwrap_err();
    assert!(broken.starts_with("Couldn't parse properties json: "));
    assert!(broken.len() > "Couldn't parse properties json: ".len());

    assert_eq!(address_from_parsed(Ok(Some("a".to_string()))), Ok("a".to_string()));
    assert_eq!(
        address_from_parsed(Err("bad".to_string())),
        Err("Couldn't parse properties json: bad".to_string())
    );
    assert_eq!(open_error_message("p.json", "denied"), "Couldn't open 'p.json': denied");
}

#[test]
fn registration_payload_parts() {
    assert_eq!(empty_frame(Size { width: 128, height: 2 }), vec![0u8; 32]);
    assert_eq!(empty_frame(Size { width: 9, height: 3 }), vec![0u8; 6]);
    assert_eq!(empty_frame(Size { width: 0, height: 3 }), Vec::<u8>::new());
    let api = Api::new(15 * SECOND, "p".to_string());
    assert_eq!(api.deinitialize_timer_length_ms(), 15_000);
    assert_eq!(Api::new(1_999_999, "p".to_string()).deinitialize_timer_length_ms(), 1);
}
