use vstd::prelude::*;

use crate::events::cbor::LuaValue;
use crate::text::{concat, concat3};

verus! {

/// Whether a key went down or up.
#[derive(Debug, Clone, Copy, PartialEq, Eq, Structural)]
pub enum KeyAction {
    Press,
    Release,
}

/// The characters of each string.
pub open spec fn views(v: Seq<String>) -> Seq<Seq<char>> {
    v.map_values(|s: String| s@)
}

/// The name of the event of a value nested under `parent`: `parent.name`, or `name` at
/// the top.
pub open spec fn spec_event_path(parent: Option<Seq<char>>, name: Seq<char>) -> Seq<char> {
    match parent {
        Some(p) => p + "."@ + name,
        None => name,
    }
}

/// The events a value sent under `key` raises, in order: one for the value itself, and,
/// when it is a table made from a map, those of each entry under `key.entry`.
pub open spec fn event_paths(key: Seq<char>, v: LuaValue) -> Seq<Seq<char>>
    decreases v,
{
    match v {
        LuaValue::Table { entries, cleanup } => seq![key] + entry_paths(key, entries@),
        _ => seq![key],
    }
}

/// The events the entries of a table under `key` raise, entry by entry.
pub open spec fn entry_paths(key: Seq<char>, entries: Seq<(String, LuaValue)>) -> Seq<Seq<char>>
    decreases entries,
{
    if entries.len() == 0 {
        seq![]
    } else {
        entry_paths(key, entries.drop_last()) + event_paths(
            key + "."@ + entries.last().0@,
            entries.last().1,
        )
    }
}

/// The name of the event of the value `name` nested under `parent`.
pub fn event_path(parent: Option<&str>, name: &str) -> (r: String)
    ensures
        r@ == spec_event_path(
            match parent {
                Some(p) => Some(p@),
                None => None,
            },
            name@,
        ),
{
    match parent {
        Some(p) => concat3(p, ".", name),
        None => String::from_str(name),
    }
}

/// The name of the event of a keyboard key: `KEY(key)`.
pub fn keyboard_event_name(key: &str) -> (r: String)
    ensures
        r@ == "KEY("@ + key@ + ")"@,
{
    concat3("KEY(", key, ")")
}

/// The value a keyboard event carries.
pub fn key_action_name(action: KeyAction) -> (r: &'static str)
    ensures
        r@ == match action {
            KeyAction::Press => "Pressed"@,
            KeyAction::Release => "Released"@,
        },
{
    match action {
        KeyAction::Press => "Pressed",
        KeyAction::Release => "Released",
    }
}

/// The events, in order, that a value sent under `key` raises.
pub fn dispatch_paths(key: &str, value: &LuaValue) -> (r: Vec<String>)
    ensures
        views(r@) == event_paths(key@, *value),
    decreases value,
{
    let mut out: Vec<String> = Vec::new();
    out.push(String::from_str(key));
    assert(views(out@) =~= seq![key@]);
    match value {
        LuaValue::Table { entries, cleanup } => {
            let ghost es = entries@;
            let mut i: usize = 0;
            assert(es.take(0) =~= Seq::<(String, LuaValue)>::empty());
            while i < entries.len()
                invariant
                    es == entries@,
                    *value == (LuaValue::Table { entries: *entries, cleanup: *cleanup }),
                    i <= es.len(),
                    views(out@) == seq![key@] + entry_paths(key@, es.take(i as int)),
                decreases es.len() - i,
            {
                let entry = &entries[i];
                let child_key = concat(concat(key, ".").as_str(), entry.0.as_str());
                let ghost v0 = *value;
                assert(v0->entries == *entries);
                assert(decreases_to!(v0 => v0->entries));
                assert(decreases_to!(*entries => entries@));
                assert(decreases_to!(entries@ => entries@[i as int]));
                assert(decreases_to!(entries@[i as int] => entries@[i as int].1));
                let mut sub = dispatch_paths(child_key.as_str(), &entry.1);
                let ghost before = out@;
                out.append(&mut sub);
                assert(es.take(i + 1).drop_last() =~= es.take(i as int));
                assert(es.take(i + 1).last() == es[i as int]);
                assert(views(out@) =~= views(before) + event_paths(child_key@, entry.1));
                i = i + 1;
            }
            assert(es.take(es.len() as int) =~= es);
        },
        _ => {},
    }
    out
}

} // verus!
