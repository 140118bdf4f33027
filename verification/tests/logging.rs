use omni_led::logging::dynamic_filter::{DynamicFilter, FilterMap, Response};
use omni_led::logging::level_filter_map::LogFilterMap;
use omni_led::logging::logger::{log_location, Level, LevelFilter};
use omni_led::plugin::Logger;

fn filter_of(entries: Vec<(&str, LevelFilter)>) -> DynamicFilter {
    DynamicFilter::new(FilterMap::from_entries(
        entries.into_iter().map(|(k, v)| (k.to_string(), v)).collect(),
    ))
}

#[test]
fn target_matching() {
    let f = filter_of(vec![("a", LevelFilter::Info), ("b", LevelFilter::Off)]);

    // Matches "a" >= Info
    assert_eq!(f.respond("a", Level::Trace), Response::Reject);
    assert_eq!(f.respond("a", Level::Debug), Response::Reject);
    assert_eq!(f.respond("a", Level::Info), Response::Accept);
    assert_eq!(f.respond("a", Level::Warn), Response::Accept);
    assert_eq!(f.respond("a", Level::Error), Response::Accept);

    // Matches "b" >= Off
    assert_eq!(f.respond("b", Level::Trace), Response::Reject);
    assert_eq!(f.respond("b", Level::Debug), Response::Reject);
    assert_eq!(f.respond("b", Level::Info), Response::Reject);
    assert_eq!(f.respond("b", Level::Warn), Response::Reject);
    assert_eq!(f.respond("b", Level::Error), Response::Reject);
}

#[test]
fn specific_target_matching() {
    let f = filter_of(vec![
        ("a", LevelFilter::Info),
        ("a::b", LevelFilter::Warn),
        ("a::b::c", LevelFilter::Error),
    ]);

    // Matches "a::b::c" >= Error
    assert_eq!(f.respond("a::b::c::extra", Level::Error), Response::Accept);
    assert_eq!(f.respond("a::b::c::extra", Level::Warn), Response::Reject);
    assert_eq!(f.respond("a::b::c", Level::Error), Response::Accept);
    assert_eq!(f.respond("a::b::c", Level::Warn), Response::Reject);

    // Matches "a::b" >= Warn
    assert_eq!(f.respond("a::b::extra", Level::Warn), Response::Accept);
    assert_eq!(f.respond("a::b::extra", Level::Info), Response::Reject);
    assert_eq!(f.respond("a::b", Level::Warn), Response::Accept);
    assert_eq!(f.respond("a::b", Level::Info), Response::Reject);

    // Matches "a" >= Warn
    assert_eq!(f.respond("a::extra", Level::Info), Response::Accept);
    assert_eq!(f.respond("a::extra", Level::Debug), Response::Reject);
    assert_eq!(f.respond("a", Level::Info), Response::Accept);
    assert_eq!(f.respond("a", Level::Debug), Response::Reject);
}

#[test]
fn no_matching_target() {
    let f = filter_of(vec![]);

    // Expect that no matching target will be only allowed to log errors
    assert_eq!(f.respond("a", Level::Trace), Response::Reject);
    assert_eq!(f.respond("a", Level::Debug), Response::Reject);
    assert_eq!(f.respond("a", Level::Info), Response::Reject);
    assert_eq!(f.respond("a", Level::Warn), Response::Reject);
    assert_eq!(f.respond("a", Level::Error), Response::Accept);
}

#[test]
fn exact_target_decides_over_parent() {
    let f = filter_of(vec![("x", LevelFilter::Trace), ("x::y", LevelFilter::Error)]);
    assert_eq!(f.respond("x::y", Level::Warn), Response::Reject);
    assert_eq!(f.respond("x", Level::Warn), Response::Accept);
}

#[test]
fn child_inherits_parent_filter() {
    let f = filter_of(vec![("x", LevelFilter::Debug)]);
    assert_eq!(f.respond("x::y::z", Level::Debug), f.respond("x::y", Level::Debug));
    assert_eq!(f.respond("x::y::z", Level::Debug), Response::Accept);
    assert_eq!(f.respond("x::y::z", Level::Trace), Response::Reject);
}

#[test]
fn single_colon_is_not_a_separator() {
    let f = filter_of(vec![("x", LevelFilter::Trace)]);
    assert_eq!(f.respond("x:y", Level::Info), Response::Reject);
}

#[test]
fn later_entry_wins_and_insert_replaces() {
    let mut map = FilterMap::new();
    map.insert("t", LevelFilter::Off);
    map.insert("t", LevelFilter::Info);
    let mut f = DynamicFilter::new(map);
    assert_eq!(f.filter("t", Level::Info), Response::Accept);

    let f2 = filter_of(vec![("t", LevelFilter::Info), ("t", LevelFilter::Off)]);
    assert_eq!(f2.respond("t", Level::Error), Response::Reject);

    f.set(FilterMap::new());
    assert_eq!(f.respond("t", Level::Warn), Response::Reject);
}

#[test]
fn default_filter_map_levels() {
    assert_eq!(LogFilterMap::default_level_filter(true), LevelFilter::Debug);
    assert_eq!(LogFilterMap::default_level_filter(false), LevelFilter::Info);
    let f = DynamicFilter::new(LogFilterMap::default_with(LevelFilter::Warn));
    assert_eq!(f.respond("omni_led", Level::Warn), Response::Accept);
    assert_eq!(f.respond("omni_led::x", Level::Info), Response::Reject);
}

#[test]
fn plugin_logger_targets() {
    let logger = Logger::new("my_plugin");
    assert!(logger.enabled("my_plugin::module"));
    assert!(logger.enabled("omni_led_api"));
    assert!(!logger.enabled("other_crate"));
    assert!(!logger.enabled("my_plug"));
}

#[test]
fn script_log_locations() {
    let names = vec!["inner".to_string(), "outer".to_string()];
    assert_eq!(log_location(Some("scripts.lua"), &names), "scripts.lua::outer::inner");
    assert_eq!(log_location(None, &vec![]), "script");
    assert_eq!(log_location(None, &vec!["f".to_string()]), "script::f");
}
