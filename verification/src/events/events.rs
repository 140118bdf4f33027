use vstd::prelude::*;

use crate::events::regex_key::{regex_is_match, RegexKey};
use crate::text::{str_eq, string_from_chars, chars_of};

verus! {

/// The handle returned for a registration; it identifies the registration until it is
/// removed.
#[derive(Debug, Clone, Copy, PartialEq, Eq, Structural)]
pub struct EventHandle(pub usize);

/// What an event key looks like to a specification.
pub enum KeyPattern {
    Regex(Seq<char>),
    Exact(Seq<char>),
}

/// The event names a registration listens to: those a regular expression matches
/// anywhere, or one name exactly.
#[derive(Debug)]
pub enum EventKey {
    Regex(RegexKey),
    String(String),
}

impl View for EventKey {
    type V = KeyPattern;

    open spec fn view(&self) -> KeyPattern {
        match self {
            EventKey::Regex(r) => KeyPattern::Regex(r@),
            EventKey::String(s) => KeyPattern::Exact(s@),
        }
    }
}

/// Whether a key with pattern `key` listens to `event`.
pub open spec fn key_matches(key: KeyPattern, event: Seq<char>) -> bool {
    match key {
        KeyPattern::Regex(p) => regex_is_match(p, event),
        KeyPattern::Exact(s) => s == event,
    }
}

impl EventKey {
    pub fn matches(&self, event: &str) -> (r: bool)
        ensures
            r == key_matches(self@, event@),
    {
        match self {
            EventKey::Regex(regex) => regex.is_match(event),
            EventKey::String(string) => str_eq(string.as_str(), event),
        }
    }
}

/// One registration: the key it listens to, the callback, its handle and whether it
/// survives a reload of user scripts.
pub struct EventEntry<F> {
    pub key: EventKey,
    pub on_match: F,
    pub handle: EventHandle,
    pub persistent: bool,
}

/// What a registration looks like to a specification.
pub struct EntryView {
    pub handle: usize,
    pub key: KeyPattern,
    pub persistent: bool,
}

impl<F> EventEntry<F> {
    pub open spec fn spec_view(&self) -> EntryView {
        EntryView { handle: self.handle.0, key: self.key@, persistent: self.persistent }
    }
}

/// Handles strictly increase along the list and none exceeds `counter`.
pub open spec fn handles_ordered(entries: Seq<EntryView>, counter: int) -> bool {
    &&& forall|i: int, j: int|
        0 <= i < j < entries.len() ==> #[trigger] entries[i].handle < #[trigger] entries[j].handle
    &&& forall|i: int| 0 <= i < entries.len() ==> 0 < #[trigger] entries[i].handle <= counter
}

/// The indices of the entries whose key listens to `event`, in order.
pub open spec fn matching_indices(entries: Seq<EntryView>, event: Seq<char>) -> Seq<usize>
    decreases entries.len(),
{
    if entries.len() == 0 {
        seq![]
    } else {
        let rest = matching_indices(entries.drop_last(), event);
        if key_matches(entries.last().key, event) {
            rest.push((entries.len() - 1) as usize)
        } else {
            rest
        }
    }
}

/// The registry of event callbacks.
pub struct Events<F> {
    entries: Vec<EventEntry<F>>,
    counter: usize,
}

impl<F> Events<F> {
    pub closed spec fn entries(&self) -> Seq<EntryView> {
        self.entries@.map_values(|e: EventEntry<F>| e.spec_view())
    }

    pub closed spec fn callbacks(&self) -> Seq<F> {
        self.entries@.map_values(|e: EventEntry<F>| e.on_match)
    }

    /// The last handle given out.
    pub closed spec fn counter(&self) -> usize {
        self.counter
    }

    pub open spec fn wf(&self) -> bool {
        handles_ordered(self.entries(), self.counter() as int)
    }

    pub fn new() -> (r: Self)
        ensures
            r.wf(),
            r.entries() == Seq::<EntryView>::empty(),
            r.counter() == 0,
    {
        let r = Self { entries: Vec::new(), counter: 0 };
        assert(r.entries() =~= Seq::<EntryView>::empty());
        r
    }

    pub fn len(&self) -> (r: usize)
        ensures
            r == self.entries().len(),
    {
        self.entries.len()
    }

    /// The callback of entry `index`.
    pub fn callback(&self, index: usize) -> (r: &F)
        requires
            index < self.entries().len(),
        ensures
            *r == self.callbacks()[index as int],
    {
        &self.entries[index].on_match
    }

    /// Registers `on_match` for `key` under a fresh handle, the one after the last
    /// handle given out.
    pub fn register(&mut self, key: EventKey, on_match: F, persistent: bool) -> (r: EventHandle)
        requires
            old(self).wf(),
            old(self).counter() < usize::MAX,
        ensures
            final(self).wf(),
            r.0 == old(self).counter() + 1,
            final(self).counter() == r.0,
            final(self).entries() == old(self).entries().push(
                EntryView { handle: r.0, key: key@, persistent },
            ),
            final(self).callbacks() == old(self).callbacks().push(on_match),
            forall|i: int|
                0 <= i < old(self).entries().len() ==> #[trigger] old(self).entries()[i].handle
                    != r.0,
    {
        self.counter = self.counter + 1;
        let handle = EventHandle(self.counter);
        let ghost before = self.entries();
        let ghost before_cb = self.callbacks();
        self.entries.push(EventEntry { key, on_match, persistent, handle });
        assert(self.entries() =~= before.push(
            EntryView { handle: handle.0, key: key@, persistent },
        ));
        assert(self.callbacks() =~= before_cb.push(on_match));
        handle
    }

    /// Removes the registration with `handle`; returns whether there was one.
    pub fn unregister(&mut self, handle: EventHandle) -> (r: bool)
        requires
            old(self).wf(),
        ensures
            final(self).wf(),
            final(self).counter() == old(self).counter(),
            r == exists|i: int|
                0 <= i < old(self).entries().len() && #[trigger] old(self).entries()[i].handle
                    == handle.0,
            r ==> exists|i: int|
                0 <= i < old(self).entries().len() && #[trigger] old(self).entries()[i].handle
                    == handle.0 && final(self).entries() == old(self).entries().remove(i)
                    && final(self).callbacks() == old(self).callbacks().remove(i),
            !r ==> final(self).entries() == old(self).entries() && final(self).callbacks()
                == old(self).callbacks(),
            forall|i: int|
                0 <= i < final(self).entries().len() ==> #[trigger] final(self).entries()[i].handle
                    != handle.0,
    {
        let mut i: usize = 0;
        while i < self.entries.len()
            invariant
                i <= self.entries@.len(),
                self.wf(),
                self.entries() == old(self).entries(),
                self.callbacks() == old(self).callbacks(),
                self.counter() == old(self).counter(),
                forall|j: int| 0 <= j < i ==> #[trigger] self.entries()[j].handle != handle.0,
            decreases self.entries@.len() - i,
        {
            if self.entries[i].handle == handle {
                let ghost before = self.entries();
                let ghost before_cb = self.callbacks();
                let _removed = self.entries.remove(i);
                assert(self.entries() =~= before.remove(i as int));
                assert(self.callbacks() =~= before_cb.remove(i as int));
                assert(before[i as int].handle == handle.0);
                assert forall|j: int| 0 <= j < self.entries().len() implies #[trigger] self.entries()[j].handle
                    != handle.0 by {
                    if j < i {
                    } else {
                        assert(self.entries()[j] == before[j + 1]);
                        assert(before[i as int].handle < before[j + 1].handle);
                    }
                }
                return true;
            }
            i = i + 1;
        }
        false
    }

    /// Drops every registration that is not persistent, keeping the order of the others.
    pub fn clear_non_persistent(&mut self)
        requires
            old(self).wf(),
        ensures
            final(self).wf(),
            final(self).counter() == old(self).counter(),
            final(self).entries() == old(self).entries().filter(|e: EntryView| e.persistent),
    {
        let ghost initial = self.entries();
        let ghost p = |e: EntryView| e.persistent;
        let mut rest: Vec<EventEntry<F>> = Vec::new();
        std::mem::swap(&mut rest, &mut self.entries);
        let ghost k: int = 0;
        assert(initial.take(0) =~= Seq::<EntryView>::empty());
        assert(Seq::<EntryView>::empty().filter(p) =~= Seq::<EntryView>::empty()) by {
            reveal(Seq::filter);
        }
        assert(self.entries() =~= Seq::<EntryView>::empty());
        assert(rest@.map_values(|e: EventEntry<F>| e.spec_view()) =~= initial.skip(0));
        while rest.len() > 0
            invariant
                0 <= k <= initial.len(),
                initial == old(self).entries(),
                handles_ordered(initial, old(self).counter() as int),
                self.counter() == old(self).counter(),
                p == (|e: EntryView| e.persistent),
                self.entries() == initial.take(k).filter(p),
                rest@.map_values(|e: EventEntry<F>| e.spec_view()) == initial.skip(k),
                self.wf(),
                forall|a: int, b: int|
                    0 <= a < self.entries().len() && k <= b < initial.len() ==> #[trigger] self.entries()[a].handle
                        < #[trigger] initial[b].handle,
                forall|a: int|
                    0 <= a < self.entries().len() ==> exists|b: int|
                        0 <= b < k && #[trigger] self.entries()[a] == initial[b],
            decreases rest@.len(),
        {
            let ghost before = self.entries();
            let ghost rest_before = rest@.map_values(|e: EventEntry<F>| e.spec_view());
            assert(rest_before.len() == rest@.len());
            assert(k < initial.len());
            assert(rest_before[0] == initial.skip(k)[0]);
            let entry = rest.remove(0);
            assert(rest_before[0] == initial[k]);
            assert(entry.spec_view() == initial[k]);
            assert(rest@.map_values(|e: EventEntry<F>| e.spec_view()) =~= rest_before.drop_first());
            assert(rest_before.drop_first() =~= initial.skip(k + 1));
            assert(initial.take(k + 1) =~= initial.take(k).push(initial[k]));
            proof {
                initial.take(k).lemma_filter_push(initial[k], p);
            }
            if entry.persistent {
                self.entries.push(entry);
                assert(self.entries() =~= before.push(initial[k]));
                assert forall|a: int, b: int|
                    0 <= a < self.entries().len() && k + 1 <= b < initial.len() implies #[trigger] self.entries()[a].handle
                        < #[trigger] initial[b].handle by {
                    if a < before.len() {
                        assert(before[a].handle < initial[k].handle);
                    }
                }
                assert forall|a: int|
                    0 <= a < self.entries().len() implies exists|b: int|
                        0 <= b < k + 1 && #[trigger] self.entries()[a] == initial[b] by {
                    if a == before.len() {
                        assert(self.entries()[a] == initial[k]);
                    } else {
                        assert(self.entries()[a] == before[a]);
                    }
                }
            }
            proof {
                k = k + 1;
            }
        }
        assert(initial.take(k) =~= initial);
    }

    /// The indices of the registrations whose key listens to `event`, in registration
    /// order; the event loop calls their callbacks in this order.
    pub fn matching(&self, event: &str) -> (r: Vec<usize>)
        ensures
            r@ == matching_indices(self.entries(), event@),
    {
        let mut r: Vec<usize> = Vec::new();
        let mut i: usize = 0;
        while i < self.entries.len()
            invariant
                i <= self.entries@.len(),
                r@ == matching_indices(self.entries().take(i as int), event@),
            decreases self.entries@.len() - i,
        {
            let ghost prefix = self.entries().take(i + 1);
            assert(prefix.drop_last() =~= self.entries().take(i as int));
            if self.entries[i].key.matches(event) {
                r.push(i);
            }
            i = i + 1;
        }
        assert(self.entries().take(i as int) =~= self.entries());
        r
    }
}

/// The indices `matching_indices` lists are those of the entries whose key listens to
/// the event.
proof fn lemma_matching_membership(entries: Seq<EntryView>, event: Seq<char>)
    requires
        entries.len() <= usize::MAX,
    ensures
        forall|k: usize| #[trigger] matching_indices(entries, event).contains(k) ==> k < entries.len(),
        forall|i: int|
            0 <= i < entries.len() ==> (matching_indices(entries, event).contains(i as usize)
                <==> key_matches(#[trigger] entries[i].key, event)),
    decreases entries.len(),
{
    if entries.len() > 0 {
        let rest = entries.drop_last();
        lemma_matching_membership(rest, event);
        let m = matching_indices(entries, event);
        let mr = matching_indices(rest, event);
        let last = (entries.len() - 1) as usize;
        assert forall|k: usize| #[trigger] m.contains(k) implies k < entries.len() by {
            if key_matches(entries.last().key, event) {
                if k != last {
                    let j = choose|j: int| 0 <= j < m.len() && m[j] == k;
                    assert(mr.contains(k)) by {
                        assert(mr[j] == k);
                    }
                }
            }
        }
        assert forall|i: int| 0 <= i < entries.len() implies (m.contains(i as usize) <==> key_matches(
            #[trigger] entries[i].key,
            event,
        )) by {
            if i < entries.len() - 1 {
                assert(rest[i] == entries[i]);
                if key_matches(entries.last().key, event) {
                    if m.contains(i as usize) {
                        let j = choose|j: int| 0 <= j < m.len() && m[j] == i as usize;
                        if j < mr.len() {
                            assert(mr[j] == i as usize);
                        }
                    }
                    if mr.contains(i as usize) {
                        let j = choose|j: int| 0 <= j < mr.len() && mr[j] == i as usize;
                        assert(m[j] == i as usize);
                    }
                }
            } else {
                if key_matches(entries.last().key, event) {
                    assert(m[m.len() - 1] == last);
                } else {
                    assert(!mr.contains(last));
                }
            }
        }
    }
}

/// A handler registered under a string key is among those an event reaches exactly
/// when the event's name is that string.
pub proof fn lemma_string_key_matches_exactly(entries: Seq<EntryView>, event: Seq<char>, i: int, key: Seq<char>)
    requires
        entries.len() <= usize::MAX,
        0 <= i < entries.len(),
        entries[i].key == KeyPattern::Exact(key),
    ensures
        matching_indices(entries, event).contains(i as usize) <==> key == event,
{
    lemma_matching_membership(entries, event);
    assert(key_matches(entries[i].key, event) == (key == event));
}

/// Unregistering the handle a registration just gave out removes exactly that
/// registration: the registry is back to what it was before.
pub proof fn lemma_register_then_unregister(
    entries: Seq<EntryView>,
    counter: int,
    added: EntryView,
    i: int,
)
    requires
        handles_ordered(entries, counter),
        added.handle == counter + 1,
        0 <= i < entries.len() + 1,
        entries.push(added)[i].handle == added.handle,
    ensures
        i == entries.len(),
        entries.push(added).remove(i) == entries,
{
    if i < entries.len() {
        assert(entries.push(added)[i] == entries[i]);
        assert(entries[i].handle <= counter);
    }
    assert(entries.push(added).remove(i) =~= entries);
}

/// Handles are never given out twice: every registration in a well-formed registry has a
/// handle of its own.
pub proof fn lemma_handles_unique(entries: Seq<EntryView>, counter: int, i: int, j: int)
    requires
        handles_ordered(entries, counter),
        0 <= i < entries.len(),
        0 <= j < entries.len(),
        i != j,
    ensures
        entries[i].handle != entries[j].handle,
{
    if i < j {
        assert(entries[i].handle < entries[j].handle);
    } else {
        assert(entries[j].handle < entries[i].handle);
    }
}

} // verus!
