use omni_led::events::cbor::LuaValue;
use omni_led::script_handler::environment::{EnvError, EnvValue, ScriptEnvironment};

fn integer(i: i64) -> LuaValue {
    LuaValue::Integer(i)
}

/// A table as a map payload gives it: its entries and the keys it clears.
fn table(entries: Vec<(&str, LuaValue)>, cleanup: Vec<&str>) -> LuaValue {
    LuaValue::Table {
        entries: entries.into_iter().map(|(k, v)| (k.to_string(), v)).collect(),
        cleanup: cleanup.into_iter().map(|k| k.to_string()).collect(),
    }
}

fn describe_plain(value: &LuaValue) -> String {
    match value {
        LuaValue::Nil => "nil".to_string(),
        LuaValue::Boolean(b) => b.to_string(),
        LuaValue::Integer(i) => i.to_string(),
        LuaValue::Number(bits) => format!("#{}", bits),
        LuaValue::Bytes(b) => format!("{:?}", b),
        LuaValue::Text(s) => format!("{:?}", s),
        LuaValue::Array(items) => {
            format!("[{}]", items.iter().map(describe_plain).collect::<Vec<_>>().join(","))
        }
        LuaValue::Table { .. } => "<table>".to_string(),
        LuaValue::Image(_) => "<image>".to_string(),
    }
}

/// A value of the environment written out with its fields sorted by name, the last
/// occurrence of a name standing for it.
fn describe(value: &EnvValue) -> String {
    match value {
        EnvValue::Plain(p) => describe_plain(p),
        EnvValue::Table(items, fields) => {
            let mut names: Vec<&String> = fields.iter().map(|(k, _)| k).collect();
            names.sort();
            names.dedup();
            let mut parts: Vec<String> = items.iter().map(describe_plain).collect();
            for name in names {
                let (_, v) = fields.iter().rev().find(|(k, _)| k == name).unwrap();
                parts.push(format!("{}={}", name, describe(v)));
            }
            format!("{{{}}}", parts.join(","))
        }
    }
}

fn describe_env(env: &ScriptEnvironment, name: &str) -> String {
    env.get(name).map(describe).unwrap_or_else(|| "absent".to_string())
}

#[test]
fn recursive_set() {
    let mut env = ScriptEnvironment::new();
    let input = table(
        vec![
            ("a", integer(1)),
            ("b", table(vec![("b", integer(2)), ("c", table(vec![], vec![]))], vec![])),
        ],
        vec![],
    );
    env.set_value("a", input).unwrap();
    assert_eq!(describe_env(&env, "a"), "{a=1,b={b=2,c={}}}");
}

#[test]
fn partial_update() {
    let mut env = ScriptEnvironment::new();
    let input = table(vec![("b", table(vec![("b", integer(2))], vec![]))], vec![]);
    env.set_value("a", input).unwrap();
    assert_eq!(describe_env(&env, "a"), "{b={b=2}}");

    let input = table(
        vec![("a", integer(1)), ("b", table(vec![("c", table(vec![("c", integer(3))], vec![]))], vec![]))],
        vec![],
    );
    env.set_value("a", input).unwrap();
    assert_eq!(describe_env(&env, "a"), "{a=1,b={b=2,c={c=3}}}");
}

#[test]
fn partial_update_remove() {
    let mut env = ScriptEnvironment::new();
    let input = table(
        vec![
            ("a", integer(1)),
            ("b", table(vec![("b", integer(2)), ("c", table(vec![("c", integer(3))], vec![]))], vec![])),
        ],
        vec![],
    );
    env.set_value("a", input).unwrap();
    assert_eq!(describe_env(&env, "a"), "{a=1,b={b=2,c={c=3}}}");

    let input = table(vec![("a", integer(1))], vec!["b"]);
    env.set_value("a", input).unwrap();
    assert_eq!(describe_env(&env, "a"), "{a=1}");
}

#[test]
fn plain_values_replace_and_nil_removes() {
    let mut env = ScriptEnvironment::new();
    assert_eq!(describe_env(&env, "x"), "absent");
    env.set_value("x", table(vec![("y", integer(1))], vec![])).unwrap();
    env.set_value("x", LuaValue::Text("text".to_string())).unwrap();
    assert_eq!(describe_env(&env, "x"), "\"text\"");
    env.set_value("other", LuaValue::Boolean(true)).unwrap();
    env.set_value("x", LuaValue::Nil).unwrap();
    assert_eq!(describe_env(&env, "x"), "absent");
    assert_eq!(describe_env(&env, "other"), "true");
}

#[test]
fn merging_a_table_into_a_plain_value_fails() {
    let mut env = ScriptEnvironment::new();
    env.set_value("x", integer(5)).unwrap();
    assert_eq!(env.set_value("x", table(vec![("y", integer(1))], vec![])), Err(EnvError::NotATable));
    assert_eq!(describe_env(&env, "x"), "5");

    env.set_value("t", table(vec![("inner", integer(2))], vec![])).unwrap();
    let nested = table(vec![("inner", table(vec![("deep", integer(3))], vec![]))], vec![]);
    assert_eq!(env.set_value("t", nested), Err(EnvError::NotATable));
    assert_eq!(describe_env(&env, "t"), "{inner=2}");
}

#[test]
fn arrays_replace_and_take_later_fields() {
    let mut env = ScriptEnvironment::new();
    env.set_value("x", table(vec![("y", integer(1))], vec![])).unwrap();
    env.set_value("x", LuaValue::Array(vec![integer(7), integer(8)])).unwrap();
    assert_eq!(describe_env(&env, "x"), "{7,8}");
    env.set_value("x", table(vec![("z", integer(9))], vec![])).unwrap();
    assert_eq!(describe_env(&env, "x"), "{7,8,z=9}");
}

#[test]
fn a_later_entry_of_the_same_name_wins() {
    let mut env = ScriptEnvironment::new();
    env.set_value("x", integer(4)).unwrap();
    let input = table(vec![("x", table(vec![("y", integer(1))], vec![])), ("x", integer(2))], vec![]);
    env.set_value("outer", input).unwrap();
    assert_eq!(describe_env(&env, "outer"), "{x=2}");

    let input = table(vec![("y", integer(1)), ("y", LuaValue::Nil)], vec![]);
    env.set_value("outer", input).unwrap();
    assert_eq!(describe_env(&env, "outer"), "{x=2}");

    let input = table(vec![("x", integer(3))], vec!["x"]);
    env.set_value("outer", input).unwrap();
    assert_eq!(describe_env(&env, "outer"), "{}");
}
