use vstd::prelude::*;

use crate::events::cbor::LuaValue;
use crate::text::str_eq;

verus! {

/// A value held in the scripts' environment.
#[derive(Debug)]
pub enum EnvValue {
    /// A value that is not a table, as the event gave it.
    Plain(LuaValue),
    /// A table: the items an array payload put in it, then its named fields. A name
    /// given more than once stands for its last occurrence.
    Table(Vec<LuaValue>, Vec<(String, EnvValue)>),
}

/// What a value of the environment is to a specification: tables become maps from
/// field names.
pub enum EnvView {
    Plain(LuaValue),
    Table(Seq<LuaValue>, Map<Seq<char>, EnvView>),
}

/// The view of one value of the environment.
pub open spec fn env_view(v: EnvValue) -> EnvView
    decreases v,
{
    match v {
        EnvValue::Plain(p) => EnvView::Plain(p),
        EnvValue::Table(items, fields) => EnvView::Table(items@, fields_view(fields@)),
    }
}

/// The fields named in `s`, each with the value of its last occurrence.
pub open spec fn fields_view(s: Seq<(String, EnvValue)>) -> Map<Seq<char>, EnvView>
    decreases s,
{
    if s.len() == 0 {
        Map::empty()
    } else {
        fields_view(s.drop_last()).insert(s[s.len() - 1].0@, env_view(s[s.len() - 1].1))
    }
}

/// `s` without the fields named `name`, the others in order.
pub open spec fn without_field(s: Seq<(String, EnvValue)>, name: Seq<char>) -> Seq<(String, EnvValue)>
    decreases s.len(),
{
    if s.len() == 0 {
        s
    } else if s.last().0@ == name {
        without_field(s.drop_last(), name)
    } else {
        without_field(s.drop_last(), name).push(s.last())
    }
}

/// The value of the last field of `s` named `name`.
pub open spec fn last_field(s: Seq<(String, EnvValue)>, name: Seq<char>) -> Option<EnvValue>
    decreases s.len(),
{
    if s.len() == 0 {
        None
    } else if s.last().0@ == name {
        Some(s.last().1)
    } else {
        last_field(s.drop_last(), name)
    }
}

/// Dropping the fields named `name` drops `name` from the view, and the last of them
/// is what the view held under `name`.
pub proof fn lemma_without_field(s: Seq<(String, EnvValue)>, name: Seq<char>)
    ensures
        fields_view(without_field(s, name)) == fields_view(s).remove(name),
        match last_field(s, name) {
            Some(v) => fields_view(s).contains_key(name) && fields_view(s)[name] == env_view(v),
            None => !fields_view(s).contains_key(name),
        },
    decreases s.len(),
{
    if s.len() > 0 {
        let t = s.drop_last();
        lemma_without_field(t, name);
        if s.last().0@ != name {
            let w = without_field(t, name);
            assert(w.push(s.last()).drop_last() =~= w);
        }
        assert(fields_view(without_field(s, name)) =~= fields_view(s).remove(name));
    } else {
        assert(fields_view(without_field(s, name)) =~= fields_view(s).remove(name));
    }
}

/// Adding a field at the end sets it in the view.
pub proof fn lemma_push_field(s: Seq<(String, EnvValue)>, f: (String, EnvValue))
    ensures
        fields_view(s.push(f)) == fields_view(s).insert(f.0@, env_view(f.1)),
{
    assert(s.push(f).drop_last() =~= s);
}

/// Splits the fields named `name` off `fields`: the others in order, and the value of
/// the last one so named.
fn take_field(fields: Vec<(String, EnvValue)>, name: &str) -> (r: (Vec<(String, EnvValue)>, Option<EnvValue>))
    ensures
        r.0@ == without_field(fields@, name@),
        r.1 == last_field(fields@, name@),
{
    let ghost s = fields@;
    let mut fields = fields;
    let mut rest: Vec<(String, EnvValue)> = Vec::new();
    let mut found: Option<EnvValue> = None;
    let mut i: usize = 0;
    assert(s.take(0) =~= Seq::<(String, EnvValue)>::empty());
    while i < fields.len()
        invariant
            fields@.len() == s.len(),
            i <= s.len(),
            forall|j: int| i <= j < s.len() ==> fields@[j] == s[j],
            rest@ == without_field(s.take(i as int), name@),
            found == last_field(s.take(i as int), name@),
        decreases s.len() - i,
    {
        let mut item = (String::new(), EnvValue::Plain(LuaValue::Nil));
        std::mem::swap(&mut item, &mut fields[i]);
        assert(item == s[i as int]);
        assert(s.take(i + 1).drop_last() =~= s.take(i as int));
        assert(s.take(i + 1).last() == s[i as int]);
        if str_eq(item.0.as_str(), name) {
            found = Some(item.1);
        } else {
            rest.push(item);
        }
        i = i + 1;
    }
    assert(s.take(s.len() as int) =~= s);
    (rest, found)
}

/// Why a value could not be set in the environment.
#[derive(Debug, Clone, Copy, PartialEq, Eq, Structural)]
pub enum EnvError {
    /// A table was to be merged into a field that holds a value other than a table.
    NotATable,
}

/// The names in `keys`, as text.
pub open spec fn key_texts(keys: Seq<String>) -> Seq<Seq<char>> {
    keys.map_values(|k: String| k@)
}

/// `fields` without the names in `keys`.
pub open spec fn without_keys(fields: Map<Seq<char>, EnvView>, keys: Seq<String>) -> Map<Seq<char>, EnvView>
    decreases keys.len(),
{
    if keys.len() == 0 {
        fields
    } else {
        without_keys(fields, keys.drop_last()).remove(keys.last()@)
    }
}

/// The fields after `value` is set under `name`, or `None` where a table is to be merged
/// into a field whose value is not a table.
///
/// A table made from a map is merged into the table already under `name` (a new, empty
/// one if there is none): each of its entries is set in turn, then its cleanup keys are
/// removed. An array replaces what was there with a table of its items, nil removes the
/// field, and any other value replaces it.
pub open spec fn merged(fields: Map<Seq<char>, EnvView>, name: Seq<char>, value: LuaValue) -> Option<
    Map<Seq<char>, EnvView>,
>
    decreases value,
{
    match value {
        LuaValue::Nil => Some(fields.remove(name)),
        LuaValue::Array(items) => Some(fields.insert(name, EnvView::Table(items@, Map::empty()))),
        LuaValue::Table { entries, cleanup } => {
            let base = if fields.contains_key(name) {
                fields[name]
            } else {
                EnvView::Table(Seq::empty(), Map::empty())
            };
            match base {
                EnvView::Table(items, inner) => match merged_entries(inner, entries@, Seq::empty()) {
                    Some(m) => Some(fields.insert(name, EnvView::Table(items, without_keys(m, cleanup@)))),
                    None => None,
                },
                EnvView::Plain(_) => None,
            }
        },
        _ => Some(fields.insert(name, EnvView::Plain(value))),
    }
}

/// The fields after the entries of a table are set, from the last entry back; an entry
/// whose name comes again later is shadowed by that later one, and a nil entry sets
/// nothing. `seen` holds the names already dealt with.
pub open spec fn merged_entries(
    fields: Map<Seq<char>, EnvView>,
    entries: Seq<(String, LuaValue)>,
    seen: Seq<Seq<char>>,
) -> Option<Map<Seq<char>, EnvView>>
    decreases entries,
{
    if entries.len() == 0 {
        Some(fields)
    } else {
        let e = entries[entries.len() - 1];
        if seen.contains(e.0@) {
            merged_entries(fields, entries.drop_last(), seen)
        } else if e.1 is Nil {
            merged_entries(fields, entries.drop_last(), seen.push(e.0@))
        } else {
            match merged(fields, e.0@, e.1) {
                Some(m) => merged_entries(m, entries.drop_last(), seen.push(e.0@)),
                None => None,
            }
        }
    }
}

/// Whether `key` is among `keys`.
fn contains_text(keys: &Vec<String>, key: &str) -> (r: bool)
    ensures
        r == key_texts(keys@).contains(key@),
{
    let mut i: usize = 0;
    while i < keys.len()
        invariant
            i <= keys@.len(),
            forall|j: int| 0 <= j < i ==> keys@[j]@ != key@,
        decreases keys@.len() - i,
    {
        if str_eq(keys[i].as_str(), key) {
            assert(key_texts(keys@)[i as int] == key@);
            return true;
        }
        i = i + 1;
    }
    assert(!key_texts(keys@).contains(key@)) by {
        if key_texts(keys@).contains(key@) {
            let j = choose|j: int| 0 <= j < key_texts(keys@).len() && key_texts(keys@)[j] == key@;
            assert(keys@[j]@ == key@);
        }
    }
    false
}

/// Sets `value` under `name` in `fields`, as `merged` describes.
///
/// Where it fails, the fields already set before the failure stay set.
fn set_value_in(fields: &mut Vec<(String, EnvValue)>, name: &str, value: LuaValue) -> (r: Result<(), EnvError>)
    ensures
        match merged(fields_view(old(fields)@), name@, value) {
            Some(m) => r is Ok && fields_view(final(fields)@) == m,
            None => r is Err,
        },
    decreases value,
{
    let ghost v0 = value;
    let ghost m0 = fields_view(fields@);
    let mut taken: Vec<(String, EnvValue)> = Vec::new();
    std::mem::swap(&mut taken, fields);
    let ghost t0 = taken@;
    let (mut rest, found) = take_field(taken, name);
    proof {
        lemma_without_field(t0, name@);
    }
    match value {
        LuaValue::Nil => {
            *fields = rest;
            Ok(())
        },
        LuaValue::Array(items) => {
            let ghost before = rest@;
            let field = (String::from_str(name), EnvValue::Table(items, Vec::new()));
            rest.push(field);
            proof {
                lemma_push_field(before, field);
                assert(fields_view(Seq::<(String, EnvValue)>::empty()) =~= Map::<Seq<char>, EnvView>::empty());
                assert(fields_view(rest@) =~= m0.insert(name@, EnvView::Table(items@, Map::empty())));
            }
            *fields = rest;
            Ok(())
        },
        LuaValue::Table { entries, cleanup } => {
            let (items, mut inner) = match found {
                None => (Vec::new(), Vec::new()),
                Some(EnvValue::Table(items, inner)) => (items, inner),
                Some(EnvValue::Plain(p)) => {
                    let ghost before = rest@;
                    let field = (String::from_str(name), EnvValue::Plain(p));
                    rest.push(field);
                    proof {
                        lemma_push_field(before, field);
                    }
                    *fields = rest;
                    return Err(EnvError::NotATable);
                },
            };
            proof {
                assert(fields_view(Seq::<(String, EnvValue)>::empty()) =~= Map::<Seq<char>, EnvView>::empty());
            }
            let ghost es = entries@;
            let ghost orig = entries;
            let ghost inner0 = fields_view(inner@);
            let mut entries = entries;
            let mut seen: Vec<String> = Vec::new();
            assert(es.take(es.len() as int) =~= es);
            assert(key_texts(seen@) =~= Seq::<Seq<char>>::empty());
            assert(orig == v0->entries);
            let ghost outcome = match merged_entries(inner0, es, Seq::empty()) {
                Some(m) => Some(m0.insert(name@, EnvView::Table(items@, without_keys(m, cleanup@)))),
                None => None,
            };
            assert(merged(m0, name@, v0) == outcome);
            while entries.len() > 0
                invariant
                    v0 == value,
                    m0 == fields_view(old(fields)@),
                    v0 == (LuaValue::Table { entries: orig, cleanup }),
                    orig@ == es,
                    merged(m0, name@, v0) == outcome,
                    outcome == match merged_entries(inner0, es, Seq::empty()) {
                        Some(m) => Some(m0.insert(name@, EnvView::Table(items@, without_keys(m, cleanup@)))),
                        None => None,
                    },
                    rest@ == without_field(t0, name@),
                    fields_view(rest@) == m0.remove(name@),
                    entries@.len() <= es.len(),
                    entries@ == es.take(entries@.len() as int),
                    merged_entries(inner0, es, Seq::empty()) == merged_entries(
                        fields_view(inner@),
                        entries@,
                        key_texts(seen@),
                    ),
                decreases entries@.len(),
            {
                let ghost before = entries@;
                let ghost n = before.len();
                let e = entries.pop().unwrap();
                assert(e == es[n - 1]);
                assert(entries@ == before.drop_last());
                assert(entries@ =~= es.take(n - 1));
                let (key, val) = e;
                if contains_text(&seen, key.as_str()) {
                } else {
                    let is_nil = match val {
                        LuaValue::Nil => true,
                        _ => false,
                    };
                    if is_nil {
                        let ghost s0 = seen@;
                        seen.push(key);
                        assert(key_texts(seen@) =~= key_texts(s0).push(es[n - 1].0@));
                    } else {
                        assert(decreases_to!(v0 => v0->entries));
                        assert(decreases_to!(orig => orig@));
                        assert(decreases_to!(orig@ => orig@[n - 1]));
                        assert(decreases_to!(orig@[n - 1] => orig@[n - 1].1));
                        assert(val == orig@[n - 1].1);
                        assert(decreases_to!(v0 => val));
                        match set_value_in(&mut inner, key.as_str(), val) {
                            Ok(()) => {
                                let ghost s0 = seen@;
                                seen.push(key);
                                assert(key_texts(seen@) =~= key_texts(s0).push(es[n - 1].0@));
                            },
                            Err(err) => {
                                rest.push((String::from_str(name), EnvValue::Table(items, inner)));
                                *fields = rest;
                                return Err(err);
                            },
                        }
                    }
                }
            }
            assert(entries@ =~= Seq::<(String, LuaValue)>::empty());
            let ghost after = fields_view(inner@);
            assert(outcome == Some(m0.insert(name@, EnvView::Table(items@, without_keys(after, cleanup@)))));
            let mut i: usize = 0;
            assert(cleanup@.take(0) =~= Seq::<String>::empty());
            while i < cleanup.len()
                invariant
                    v0 == value,
                    m0 == fields_view(old(fields)@),
                    i <= cleanup@.len(),
                    fields_view(inner@) == without_keys(after, cleanup@.take(i as int)),
                    merged(m0, name@, v0) == outcome,
                    outcome == Some(m0.insert(name@, EnvView::Table(items@, without_keys(after, cleanup@)))),
                    fields_view(rest@) == m0.remove(name@),
                decreases cleanup@.len() - i,
            {
                let ghost s0 = inner@;
                let (kept, _) = take_field(inner, cleanup[i].as_str());
                inner = kept;
                proof {
                    lemma_without_field(s0, cleanup@[i as int]@);
                    assert(cleanup@.take(i + 1).drop_last() =~= cleanup@.take(i as int));
                }
                i = i + 1;
            }
            assert(cleanup@.take(cleanup@.len() as int) =~= cleanup@);
            let ghost before = rest@;
            let field = (String::from_str(name), EnvValue::Table(items, inner));
            rest.push(field);
            proof {
                lemma_push_field(before, field);
                assert(fields_view(rest@) =~= m0.insert(name@, env_view(field.1)));
                assert(env_view(field.1) == EnvView::Table(items@, without_keys(after, cleanup@)));
            }
            *fields = rest;
            Ok(())
        },
        other => {
            let ghost before = rest@;
            let field = (String::from_str(name), EnvValue::Plain(other));
            rest.push(field);
            proof {
                lemma_push_field(before, field);
                assert(fields_view(rest@) =~= m0.insert(name@, EnvView::Plain(other)));
            }
            *fields = rest;
            Ok(())
        },
    }
}

/// The values scripts read: each event's value, under the event's name.
pub struct ScriptEnvironment {
    fields: Vec<(String, EnvValue)>,
}

impl View for ScriptEnvironment {
    type V = Map<Seq<char>, EnvView>;

    closed spec fn view(&self) -> Map<Seq<char>, EnvView> {
        fields_view(self.fields@)
    }
}

impl ScriptEnvironment {
    /// An environment with no values.
    pub fn new() -> (r: Self)
        ensures
            r@ == Map::<Seq<char>, EnvView>::empty(),
    {
        let r = ScriptEnvironment { fields: Vec::new() };
        assert(r@ =~= Map::<Seq<char>, EnvView>::empty());
        r
    }

    /// Sets `value` under `value_name`, merging a table made from a map into the one
    /// already there, as `merged` describes; fails where such a table meets a value that
    /// is not a table.
    pub fn set_value(&mut self, value_name: &str, value: LuaValue) -> (r: Result<(), EnvError>)
        ensures
            match merged(old(self)@, value_name@, value) {
                Some(m) => r is Ok && final(self)@ == m,
                None => r is Err,
            },
    {
        set_value_in(&mut self.fields, value_name, value)
    }

    /// The value under `name`.
    pub fn get(&self, name: &str) -> (r: Option<&EnvValue>)
        ensures
            match r {
                Some(v) => self@.contains_key(name@) && self@[name@] == env_view(*v),
                None => !self@.contains_key(name@),
            },
    {
        let ghost s = self.fields@;
        let mut found: Option<usize> = None;
        let mut i: usize = 0;
        assert(s.take(0) =~= Seq::<(String, EnvValue)>::empty());
        while i < self.fields.len()
            invariant
                s == self.fields@,
                i <= s.len(),
                match found {
                    Some(j) => j < i && last_field(s.take(i as int), name@) == Some(s[j as int].1),
                    None => last_field(s.take(i as int), name@) is None,
                },
            decreases s.len() - i,
        {
            assert(s.take(i + 1).drop_last() =~= s.take(i as int));
            assert(s.take(i + 1).last() == s[i as int]);
            if str_eq(self.fields[i].0.as_str(), name) {
                found = Some(i);
            }
            i = i + 1;
        }
        assert(s.take(s.len() as int) =~= s);
        proof {
            lemma_without_field(s, name@);
        }
        match found {
            Some(j) => Some(&self.fields[j].1),
            None => None,
        }
    }
}

/// `m` holds under `key` what `f` holds: the same value, or nothing in both.
pub open spec fn agrees_at(m: Map<Seq<char>, EnvView>, f: Map<Seq<char>, EnvView>, key: Seq<char>) -> bool {
    &&& m.contains_key(key) == f.contains_key(key)
    &&& f.contains_key(key) ==> m[key] == f[key]
}

/// Setting a value under one name leaves every other name as it was.
pub proof fn lemma_merged_elsewhere(fields: Map<Seq<char>, EnvView>, name: Seq<char>, value: LuaValue, key: Seq<char>)
    requires
        name != key,
        merged(fields, name, value) is Some,
    ensures
        agrees_at(merged(fields, name, value)->0, fields, key),
{
}

/// Setting entries whose names all differ from `key` leaves `key` as it was.
proof fn lemma_entries_elsewhere(
    fields: Map<Seq<char>, EnvView>,
    entries: Seq<(String, LuaValue)>,
    seen: Seq<Seq<char>>,
    key: Seq<char>,
)
    requires
        merged_entries(fields, entries, seen) is Some,
        forall|i: int| 0 <= i < entries.len() ==> entries[i].0@ != key,
    ensures
        agrees_at(merged_entries(fields, entries, seen)->0, fields, key),
    decreases entries.len(),
{
    if entries.len() > 0 {
        let e = entries[entries.len() - 1];
        let rest = entries.drop_last();
        assert forall|i: int| 0 <= i < rest.len() implies rest[i].0@ != key by {
            assert(rest[i] == entries[i]);
        }
        if seen.contains(e.0@) {
            lemma_entries_elsewhere(fields, rest, seen, key);
        } else if e.1 is Nil {
            lemma_entries_elsewhere(fields, rest, seen.push(e.0@), key);
        } else {
            let m = merged(fields, e.0@, e.1)->0;
            lemma_merged_elsewhere(fields, e.0@, e.1, key);
            lemma_entries_elsewhere(m, rest, seen.push(e.0@), key);
        }
    }
}

/// Removing names other than `key` leaves `key` as it was.
proof fn lemma_without_keys_elsewhere(fields: Map<Seq<char>, EnvView>, keys: Seq<String>, key: Seq<char>)
    requires
        forall|i: int| 0 <= i < keys.len() ==> keys[i]@ != key,
    ensures
        agrees_at(without_keys(fields, keys), fields, key),
    decreases keys.len(),
{
    if keys.len() > 0 {
        let rest = keys.drop_last();
        assert forall|i: int| 0 <= i < rest.len() implies rest[i]@ != key by {
            assert(rest[i] == keys[i]);
        }
        lemma_without_keys_elsewhere(fields, rest, key);
    }
}

/// An update is partial: merging a table into the one under `name` keeps every field
/// of that table which the payload neither sets nor clears.
pub proof fn lemma_merge_keeps_untouched(
    fields: Map<Seq<char>, EnvView>,
    name: Seq<char>,
    value: LuaValue,
    key: Seq<char>,
)
    requires
        value is Table,
        merged(fields, name, value) is Some,
        fields.contains_key(name),
        fields[name] is Table,
        forall|i: int| 0 <= i < value->entries@.len() ==> value->entries@[i].0@ != key,
        forall|i: int| 0 <= i < value->cleanup@.len() ==> value->cleanup@[i]@ != key,
    ensures
        merged(fields, name, value)->0.contains_key(name),
        merged(fields, name, value)->0[name] is Table,
        agrees_at(merged(fields, name, value)->0[name]->Table_1, fields[name]->Table_1, key),
{
    let inner = fields[name]->Table_1;
    let es = value->entries@;
    lemma_entries_elsewhere(inner, es, Seq::empty(), key);
    let m = merged_entries(inner, es, Seq::empty())->0;
    lemma_without_keys_elsewhere(m, value->cleanup@, key);
}

/// Every name in `keys` is gone once `keys` are removed.
proof fn lemma_without_keys_removes(fields: Map<Seq<char>, EnvView>, keys: Seq<String>, i: int)
    requires
        0 <= i < keys.len(),
    ensures
        !without_keys(fields, keys).contains_key(keys[i]@),
    decreases keys.len(),
{
    if i < keys.len() - 1 {
        lemma_without_keys_removes(fields, keys.drop_last(), i);
        assert(keys.drop_last()[i] == keys[i]);
    }
}

/// The keys a payload clears are gone from the table under `name` after it is merged.
pub proof fn lemma_merge_clears(fields: Map<Seq<char>, EnvView>, name: Seq<char>, value: LuaValue, i: int)
    requires
        value is Table,
        merged(fields, name, value) is Some,
        0 <= i < value->cleanup@.len(),
    ensures
        merged(fields, name, value)->0.contains_key(name),
        merged(fields, name, value)->0[name] is Table,
        !merged(fields, name, value)->0[name]->Table_1.contains_key(value->cleanup@[i]@),
{
    let base = if fields.contains_key(name) {
        fields[name]
    } else {
        EnvView::Table(Seq::empty(), Map::empty())
    };
    let m = merged_entries(base->Table_1, value->entries@, Seq::empty())->0;
    lemma_without_keys_removes(m, value->cleanup@, i);
}

} // verus!
