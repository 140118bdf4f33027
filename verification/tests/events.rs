use omni_led::events::cbor::{cbor_to_lua_value, CborValue, ConvertError, LuaValue};
use omni_led::events::dispatch::{dispatch_paths, event_path, key_action_name, keyboard_event_name, KeyAction};
use omni_led::events::event_loop::EventLoop;
use omni_led::events::event_queue::{Event, EventQueue};
use omni_led::events::events::{EventKey, Events};
use omni_led::events::regex_key::RegexKey;

const IMAGE_TAG: u64 = 1000;

/// A stand-in image decoder: it accepts payloads made of bytes.
fn image_decodes(payload: &CborValue) -> bool {
    matches!(payload, CborValue::Bytes(_))
}

fn convert(value: CborValue) -> LuaValue {
    cbor_to_lua_value(value, IMAGE_TAG, &image_decodes).unwrap()
}

#[test]
fn convert_nil() {
    assert!(matches!(convert(CborValue::Null), LuaValue::Nil));
}

#[test]
fn convert_bool() {
    assert!(matches!(convert(CborValue::Bool(true)), LuaValue::Boolean(true)));
}

#[test]
fn convert_integer() {
    assert!(matches!(convert(CborValue::Integer(68)), LuaValue::Integer(68)));
}

#[test]
fn convert_float() {
    match convert(CborValue::Float(6.8f64.to_bits())) {
        LuaValue::Number(bits) => assert_eq!(f64::from_bits(bits), 6.8),
        other => panic!("expected a number, got {:?}", other),
    }
}

#[test]
fn convert_string() {
    let string = "Omegalul";
    match convert(CborValue::Text(string.to_string())) {
        LuaValue::Text(s) => assert_eq!(s, string),
        other => panic!("expected a string, got {:?}", other),
    }
}

#[test]
fn convert_array() {
    let array: Vec<u8> = vec![1, 2, 3, 4];
    let value = CborValue::Array(array.iter().map(|v| CborValue::Integer(*v as i128)).collect());
    match convert(value) {
        LuaValue::Array(items) => {
            assert_eq!(items.len(), array.len());
            for (index, item) in items.iter().enumerate() {
                match item {
                    LuaValue::Integer(v) => assert_eq!(*v, array[index] as i64, "Missmatch at index {}", index),
                    other => panic!("Actually is {:?}", other),
                }
            }
        }
        other => panic!("Actually is {:?}", other),
    }
}

#[test]
fn convert_table() {
    let value = CborValue::Dict(vec![
        (CborValue::Text("a".to_string()), CborValue::Integer(0)),
        (CborValue::Text("b".to_string()), CborValue::Text("b".to_string())),
        (CborValue::Text("c".to_string()), CborValue::Bool(true)),
        (CborValue::Text("d".to_string()), CborValue::Float(1.23f64.to_bits())),
        (CborValue::Text("e".to_string()), CborValue::Null),
    ]);
    match convert(value) {
        LuaValue::Table { entries, cleanup } => {
            assert_eq!(cleanup.len(), 1);
            assert_eq!(cleanup[0], "e");
            assert_eq!(entries.len(), 4);
            assert_eq!(entries[0].0, "a");
            assert!(matches!(entries[0].1, LuaValue::Integer(0)));
            assert_eq!(entries[1].0, "b");
            assert!(matches!(&entries[1].1, LuaValue::Text(s) if s == "b"));
            assert_eq!(entries[2].0, "c");
            assert!(matches!(entries[2].1, LuaValue::Boolean(true)));
            assert_eq!(entries[3].0, "d");
            assert!(matches!(entries[3].1, LuaValue::Number(bits) if f64::from_bits(bits) == 1.23));
        }
        other => panic!("expected a table, got {:?}", other),
    }
}

#[test]
fn convert_errors() {
    assert_eq!(
        cbor_to_lua_value(CborValue::Integer(i64::MAX as i128 + 1), IMAGE_TAG, &image_decodes).unwrap_err(),
        ConvertError::IntegerOutOfRange
    );
    assert_eq!(
        cbor_to_lua_value(CborValue::Tag(7, Box::new(CborValue::Null)), IMAGE_TAG, &image_decodes).unwrap_err(),
        ConvertError::UnexpectedTag(7)
    );
    assert_eq!(
        cbor_to_lua_value(CborValue::Dict(vec![(CborValue::Integer(1), CborValue::Null)]), IMAGE_TAG, &image_decodes)
            .unwrap_err(),
        ConvertError::NonTextKey
    );
    assert!(matches!(
        convert(CborValue::Tag(IMAGE_TAG, Box::new(CborValue::Bytes(vec![1, 2])))),
        LuaValue::Image(_)
    ));
    assert_eq!(
        cbor_to_lua_value(CborValue::Tag(IMAGE_TAG, Box::new(CborValue::Null)), IMAGE_TAG, &image_decodes).unwrap_err(),
        ConvertError::BadImage
    );
    assert_eq!(
        cbor_to_lua_value(
            CborValue::Array(vec![CborValue::Tag(IMAGE_TAG, Box::new(CborValue::Text("x".to_string())))]),
            IMAGE_TAG,
            &image_decodes
        )
        .unwrap_err(),
        ConvertError::BadImage
    );
    assert!(matches!(convert(CborValue::Integer(i64::MIN as i128)), LuaValue::Integer(i64::MIN)));
}

#[test]
fn queue_batches_start_with_update() {
    let mut queue: EventQueue<&str> = EventQueue::new();
    queue.push("a");
    queue.push_front("f1");
    queue.push_front("f2");
    queue.push("b");
    let events = queue.get_events();
    let names: Vec<String> = events
        .iter()
        .map(|e| match e {
            Event::Update(n) => format!("update {}", n),
            Event::Other(s) => s.to_string(),
        })
        .collect();
    assert_eq!(names, vec!["f1", "f2", "update 0", "a", "b"]);
    let next = queue.get_events();
    assert_eq!(next.len(), 1);
    assert!(matches!(next[0], Event::Update(1)));
}

#[test]
fn register_unregister_and_match() {
    let mut events: Events<u32> = Events::new();
    let a = events.register(EventKey::String("A.B".to_string()), 1, true);
    let b = events.register(EventKey::Regex(RegexKey::new("^A\\..*").unwrap()), 2, false);
    let c = events.register(EventKey::String("C".to_string()), 3, false);
    assert_eq!(a.0, 1);
    assert_eq!(b.0, 2);
    assert_eq!(c.0, 3);
    assert_eq!(events.matching("A.B"), vec![0, 1]);
    assert_eq!(events.matching("A.C"), vec![1]);
    assert_eq!(events.matching("B"), Vec::<usize>::new());

    assert!(events.unregister(c));
    assert!(!events.unregister(c));
    assert_eq!(events.len(), 2);

    events.clear_non_persistent();
    assert_eq!(events.len(), 1);
    assert_eq!(*events.callback(0), 1);
    let d = events.register(EventKey::String("D".to_string()), 4, false);
    assert_eq!(d.0, 4);
    assert!(events.unregister(d));
    assert_eq!(events.len(), 1);
}

#[test]
fn regex_key_errors_and_matches() {
    assert!(RegexKey::new("(").is_err());
    let key = RegexKey::new("^KEY\\(.*\\)$").unwrap();
    assert!(key.is_match("KEY(A)"));
    assert!(!key.is_match("KEY"));
}

#[test]
fn dispatch_names() {
    assert_eq!(event_path(Some("CLOCK"), "Hours"), "CLOCK.Hours");
    assert_eq!(event_path(None, "CLOCK"), "CLOCK");
    assert_eq!(keyboard_event_name("A"), "KEY(A)");
    assert_eq!(key_action_name(KeyAction::Press), "Pressed");
    assert_eq!(key_action_name(KeyAction::Release), "Released");
}

#[test]
fn dispatch_paths_of_nested_values() {
    let value = LuaValue::Table {
        entries: vec![
            ("A".to_string(), LuaValue::Integer(1)),
            (
                "B".to_string(),
                LuaValue::Table { entries: vec![("C".to_string(), LuaValue::Boolean(true))], cleanup: vec![] },
            ),
            ("D".to_string(), LuaValue::Array(vec![LuaValue::Integer(2)])),
        ],
        cleanup: vec!["E".to_string()],
    };
    assert_eq!(dispatch_paths("APP", &value), vec!["APP", "APP.A", "APP.B", "APP.B.C", "APP.D"]);
    assert_eq!(dispatch_paths("X", &LuaValue::Nil), vec!["X"]);
}

#[test]
fn event_loop_sleep() {
    let _event_loop = EventLoop::new();
    assert_eq!(EventLoop::sleep_time(100, 30), 70);
    assert_eq!(EventLoop::sleep_time(100, 130), 0);
    assert_eq!(EventLoop::sleep_time(100, 100), 0);
}
