use vstd::prelude::*;

use crate::logging::logger::{Level, LevelFilter};
use crate::text::{chars_eq_prefix, chars_of};

verus! {

/// The answer of a log filter to one record.
#[derive(Debug, Clone, Copy, PartialEq, Eq, Structural)]
pub enum Response {
    Accept,
    Neutral,
    Reject,
}

/// The entry that decides for `key`: the last one with that key.
pub open spec fn lookup_entries(entries: Seq<(Seq<char>, LevelFilter)>, key: Seq<char>) -> Option<
    LevelFilter,
>
    decreases entries.len(),
{
    if entries.len() == 0 {
        None
    } else if entries.last().0 == key {
        Some(entries.last().1)
    } else {
        lookup_entries(entries.drop_last(), key)
    }
}

/// A map from log target to level filter.
///
/// When a key is given more than once, the last value given for it counts, as it does
/// when a `HashMap` is built from a list of pairs.
#[derive(Debug)]
pub struct FilterMap {
    entries: Vec<(Vec<char>, LevelFilter)>,
}

impl FilterMap {
    pub closed spec fn spec_entries(&self) -> Seq<(Seq<char>, LevelFilter)> {
        self.entries@.map_values(|e: (Vec<char>, LevelFilter)| (e.0@, e.1))
    }

    /// The filter registered for `key`, if any.
    pub open spec fn lookup(&self, key: Seq<char>) -> Option<LevelFilter> {
        lookup_entries(self.spec_entries(), key)
    }

    pub fn new() -> (r: Self)
        ensures
            forall|k: Seq<char>| r.lookup(k) is None,
    {
        let r = FilterMap { entries: Vec::new() };
        assert(r.spec_entries().len() == 0);
        r
    }

    /// Sets the filter of `key`, replacing the one it had.
    pub fn insert(&mut self, key: &str, filter: LevelFilter)
        ensures
            final(self).lookup(key@) == Some(filter),
            forall|k: Seq<char>| k != key@ ==> final(self).lookup(k) == old(self).lookup(k),
    {
        let ghost before = self.spec_entries();
        self.entries.push((chars_of(key), filter));
        assert(self.spec_entries().drop_last() =~= before);
    }

    /// The map holding the given pairs; where a key repeats, its last value counts.
    pub fn from_entries(pairs: Vec<(String, LevelFilter)>) -> (r: Self)
        ensures
            forall|k: Seq<char>| #[trigger]
                r.lookup(k) == lookup_entries(
                    pairs@.map_values(|p: (String, LevelFilter)| (p.0@, p.1)),
                    k,
                ),
    {
        let mut r = FilterMap { entries: Vec::new() };
        let mut i: usize = 0;
        let ghost spec_pairs = pairs@.map_values(|p: (String, LevelFilter)| (p.0@, p.1));
        while i < pairs.len()
            invariant
                i <= pairs@.len(),
                spec_pairs == pairs@.map_values(|p: (String, LevelFilter)| (p.0@, p.1)),
                r.spec_entries() =~= spec_pairs.take(i as int),
            decreases pairs@.len() - i,
        {
            let ghost before = r.spec_entries();
            r.entries.push((chars_of(pairs[i].0.as_str()), pairs[i].1));
            assert(r.spec_entries() =~= before.push(spec_pairs[i as int]));
            assert(spec_pairs.take(i + 1) =~= spec_pairs.take(i as int).push(spec_pairs[i as int]));
            i = i + 1;
        }
        assert(spec_pairs.take(pairs@.len() as int) =~= spec_pairs);
        r
    }

    /// The filter registered for the first `end` characters of `target`.
    fn get_prefix(&self, target: &Vec<char>, end: usize) -> (r: Option<LevelFilter>)
        requires
            end <= target@.len(),
        ensures
            r == self.lookup(target@.take(end as int)),
    {
        let ghost key = target@.take(end as int);
        let mut i = self.entries.len();
        assert(self.spec_entries().take(i as int) =~= self.spec_entries());
        while i > 0
            invariant
                i <= self.entries@.len(),
                key == target@.take(end as int),
                end <= target@.len(),
                lookup_entries(self.spec_entries(), key) == lookup_entries(
                    self.spec_entries().take(i as int),
                    key,
                ),
            decreases i,
        {
            let ghost prefix = self.spec_entries().take(i as int);
            assert(prefix.drop_last() =~= self.spec_entries().take(i - 1));
            let entry = &self.entries[i - 1];
            let same = chars_eq_prefix(entry.0.as_slice(), target.as_slice(), end);
            if same {
                assert(entry.0@ =~= key);
                return Some(entry.1);
            }
            i = i - 1;
        }
        None
    }
}

/// The start of the last `::` that ends at or before `end`.
pub open spec fn last_separator(t: Seq<char>, end: int) -> Option<int>
    decreases end,
{
    if end < 2 {
        None
    } else if t[end - 2] == ':' && t[end - 1] == ':' {
        Some(end - 2)
    } else {
        last_separator(t, end - 1)
    }
}

/// `Reject` when `filter` stands below `level`, else `Accept`.
pub open spec fn spec_select_response(level: Level, filter: LevelFilter) -> Response {
    if filter.spec_rank() < level.spec_rank() {
        Response::Reject
    } else {
        Response::Accept
    }
}

/// The answer for a record of `level` whose target is the first `end` characters of `t`:
/// the filter of that target if one is registered, else that of the target with its last
/// `::` segment cut off, and so on; a target with no registered ancestor is let through
/// only at `Error` level.
pub open spec fn spec_respond(map: FilterMap, t: Seq<char>, end: int, level: Level) -> Response
    decreases end,
{
    if end < 0 {
        spec_select_response(level, LevelFilter::Error)
    } else {
        match map.lookup(t.take(end)) {
            Some(f) => spec_select_response(level, f),
            None => match last_separator(t, end) {
                Some(i) => if 0 <= i < end {
                    spec_respond(map, t, i, level)
                } else {
                    spec_select_response(level, LevelFilter::Error)
                },
                None => spec_select_response(level, LevelFilter::Error),
            },
        }
    }
}

proof fn lemma_last_separator_bounds(t: Seq<char>, end: int)
    ensures
        last_separator(t, end) matches Some(i) ==> 0 <= i && i + 2 <= end,
    decreases end,
{
    if end >= 2 && !(t[end - 2] == ':' && t[end - 1] == ':') {
        lemma_last_separator_bounds(t, end - 1);
    }
}

fn find_last_separator(t: &Vec<char>, end: usize) -> (r: Option<usize>)
    requires
        end <= t@.len(),
    ensures
        r matches Some(i) ==> last_separator(t@, end as int) == Some(i as int),
        r is None ==> last_separator(t@, end as int) is None,
{
    let mut e = end;
    while e >= 2
        invariant
            e <= end <= t@.len(),
            last_separator(t@, end as int) == last_separator(t@, e as int),
        decreases e,
    {
        if t[e - 2] == ':' && t[e - 1] == ':' {
            return Some(e - 2);
        }
        e = e - 1;
    }
    None
}

pub fn select_response(target_level: Level, level_filter: LevelFilter) -> (r: Response)
    ensures
        r == spec_select_response(target_level, level_filter),
{
    if level_filter.less_than_level(target_level) {
        Response::Reject
    } else {
        Response::Accept
    }
}

/// A log filter whose per-target levels can be replaced at run time.
#[derive(Debug)]
pub struct DynamicFilter {
    filter_map: FilterMap,
}

impl DynamicFilter {
    pub closed spec fn map(&self) -> FilterMap {
        self.filter_map
    }

    pub fn new(filter_map: FilterMap) -> (r: Self)
        ensures
            r.map() == filter_map,
    {
        Self { filter_map }
    }

    pub fn set(&mut self, filter_map: FilterMap)
        ensures
            final(self).map() == filter_map,
    {
        self.filter_map = filter_map;
    }

    /// The answer for a record of `target_level` logged under `target`.
    pub fn respond(&self, target: &str, target_level: Level) -> (r: Response)
        ensures
            r == spec_respond(self.map(), target@, target@.len() as int, target_level),
    {
        let t = chars_of(target);
        let mut end = t.len();
        loop
            invariant
                end <= t@.len(),
                t@ == target@,
                spec_respond(self.map(), target@, target@.len() as int, target_level)
                    == spec_respond(self.map(), t@, end as int, target_level),
            ensures
                spec_respond(self.map(), target@, target@.len() as int, target_level)
                    == spec_select_response(target_level, LevelFilter::Error),
            decreases end,
        {
            match self.filter_map.get_prefix(&t, end) {
                Some(level_filter) => {
                    return select_response(target_level, level_filter);
                },
                None => match find_last_separator(&t, end) {
                    Some(index) => {
                        proof {
                            lemma_last_separator_bounds(t@, end as int);
                        }
                        end = index;
                    },
                    None => {
                        break ;
                    },
                },
            }
        }
        select_response(target_level, LevelFilter::Error)
    }

    /// The filter that reads the target and level of a log record.
    pub fn filter(&self, target: &str, level: Level) -> (r: Response)
        ensures
            r == spec_respond(self.map(), target@, target@.len() as int, level),
    {
        self.respond(target, level)
    }
}

/// The filter registered for a record's own target decides the answer.
pub proof fn lemma_exact_target_decides(map: FilterMap, t: Seq<char>, level: Level)
    requires
        map.lookup(t) is Some,
    ensures
        spec_respond(map, t, t.len() as int, level) == spec_select_response(
            level,
            map.lookup(t).unwrap(),
        ),
{
    assert(t.take(t.len() as int) =~= t);
}

/// A target without a filter of its own is answered as its parent, the target up to its
/// last `::`, would be.
pub proof fn lemma_child_inherits(map: FilterMap, t: Seq<char>, level: Level)
    requires
        map.lookup(t) is None,
        last_separator(t, t.len() as int) is Some,
    ensures
        ({
            let i = last_separator(t, t.len() as int).unwrap();
            spec_respond(map, t, t.len() as int, level) == spec_respond(map, t.take(i), i, level)
        }),
{
    let i = last_separator(t, t.len() as int).unwrap();
    lemma_last_separator_bounds(t, t.len() as int);
    assert(t.take(t.len() as int) =~= t);
    lemma_respond_prefix(map, t, i, level);
}

/// The answer for the first `end` characters of `t` depends on them alone.
proof fn lemma_respond_prefix(map: FilterMap, t: Seq<char>, end: int, level: Level)
    requires
        0 <= end <= t.len(),
    ensures
        spec_respond(map, t, end, level) == spec_respond(map, t.take(end), end, level),
    decreases end,
{
    let u = t.take(end);
    assert(u.take(end) =~= t.take(end));
    lemma_last_separator_prefix(t, end, end);
    match last_separator(t, end) {
        Some(i) => {
            lemma_last_separator_bounds(t, end);
            if 0 <= i < end {
                lemma_respond_prefix(map, t, i, level);
                lemma_respond_prefix(map, u, i, level);
                assert(u.take(i) =~= t.take(i));
            }
        },
        None => {},
    }
}

/// Where the last `::` before `e` starts depends only on the characters before `e`.
proof fn lemma_last_separator_prefix(t: Seq<char>, end: int, e: int)
    requires
        0 <= e <= end <= t.len(),
    ensures
        last_separator(t, e) == last_separator(t.take(end), e),
    decreases e,
{
    if e >= 2 {
        lemma_last_separator_prefix(t, end, e - 1);
    }
}

} // verus!
