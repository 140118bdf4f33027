use vstd::prelude::*;

use crate::text::{chars_of, concat3, str_eq, string_from_chars};

verus! {

/// Whether a configured device can still be loaded.
#[derive(Debug, Clone, Copy, PartialEq, Eq, Structural)]
pub enum DeviceStatus {
    Available,
    Loaded,
}

/// Why a device registry refused a request.
#[derive(Debug, Clone, PartialEq, Eq)]
pub enum DeviceError {
    /// No configuration has this name.
    NotFound(String),
    /// The device with this name was loaded before.
    AlreadyLoaded(String),
    /// A configuration with this name was added before.
    AlreadyRegistered(String),
}

impl DeviceError {
    /// The message the error is reported with.
    pub fn message(&self) -> (r: String)
        ensures
            r@ == match self {
                DeviceError::NotFound(n) => "Device "@ + n@ + " not found"@,
                DeviceError::AlreadyLoaded(n) => "Device "@ + n@ + " was already loaded"@,
                DeviceError::AlreadyRegistered(n) => "Device configuration for '"@ + n@
                    + "' is already registered"@,
            },
    {
        match self {
            DeviceError::NotFound(n) => concat3("Device ", n.as_str(), " not found"),
            DeviceError::AlreadyLoaded(n) => concat3("Device ", n.as_str(), " was already loaded"),
            DeviceError::AlreadyRegistered(n) => concat3(
                "Device configuration for '",
                n.as_str(),
                "' is already registered",
            ),
        }
    }
}

/// A configured device: its settings and the constructor chosen by its kind, until it
/// is loaded.
pub enum DeviceEntry<S, C> {
    Initializer { settings: S, constructor: C },
    Loaded,
}

/// What a registry entry looks like to a specification.
pub enum EntryState<S, C> {
    Available(S, C),
    Loaded,
}

/// The registry of configured devices and of the constructors of each device kind.
pub struct Devices<S, C> {
    devices: Vec<(String, DeviceEntry<S, C>)>,
    constructors: Vec<(String, C)>,
}

/// The first entry of `pairs` with key `key`.
pub open spec fn find_key<T>(pairs: Seq<(Seq<char>, T)>, key: Seq<char>) -> Option<T>
    decreases pairs.len(),
{
    if pairs.len() == 0 {
        None
    } else if pairs[0].0 == key {
        Some(pairs[0].1)
    } else {
        find_key(pairs.drop_first(), key)
    }
}

/// No key occurs twice in `pairs`.
pub open spec fn keys_unique<T>(pairs: Seq<(Seq<char>, T)>) -> bool {
    forall|i: int, j: int|
        0 <= i < pairs.len() && 0 <= j < pairs.len() && i != j ==> #[trigger] pairs[i].0
            != #[trigger] pairs[j].0
}

impl<S, C> DeviceEntry<S, C> {
    pub open spec fn spec_state(&self) -> EntryState<S, C> {
        match self {
            DeviceEntry::Initializer { settings, constructor } => EntryState::Available(
                *settings,
                *constructor,
            ),
            DeviceEntry::Loaded => EntryState::Loaded,
        }
    }
}

proof fn lemma_find_key_index<T>(pairs: Seq<(Seq<char>, T)>, key: Seq<char>, i: int)
    requires
        keys_unique(pairs),
        0 <= i < pairs.len(),
        pairs[i].0 == key,
    ensures
        find_key(pairs, key) == Some(pairs[i].1),
    decreases pairs.len(),
{
    if i > 0 {
        let rest = pairs.drop_first();
        assert(rest[i - 1] == pairs[i]);
        assert(pairs[0].0 != key);
        assert forall|a: int, b: int|
            0 <= a < rest.len() && 0 <= b < rest.len() && a != b implies #[trigger] rest[a].0
            != #[trigger] rest[b].0 by {
            assert(rest[a] == pairs[a + 1]);
            assert(rest[b] == pairs[b + 1]);
        }
        lemma_find_key_index(rest, key, i - 1);
    }
}

proof fn lemma_find_key_absent<T>(pairs: Seq<(Seq<char>, T)>, key: Seq<char>)
    requires
        forall|i: int| 0 <= i < pairs.len() ==> #[trigger] pairs[i].0 != key,
    ensures
        find_key(pairs, key) is None,
    decreases pairs.len(),
{
    if pairs.len() > 0 {
        let rest = pairs.drop_first();
        assert forall|i: int| 0 <= i < rest.len() implies #[trigger] rest[i].0 != key by {
            assert(rest[i] == pairs[i + 1]);
        }
        lemma_find_key_absent(rest, key);
    }
}

impl<S, C: Copy> Devices<S, C> {
    /// Each configured device with its state.
    pub closed spec fn entries(&self) -> Seq<(Seq<char>, EntryState<S, C>)> {
        self.devices@.map_values(|e: (String, DeviceEntry<S, C>)| (e.0@, e.1.spec_state()))
    }

    /// The constructor registered for each device kind.
    pub closed spec fn constructors(&self) -> Seq<(Seq<char>, C)> {
        self.constructors@.map_values(|e: (String, C)| (e.0@, e.1))
    }

    /// The state of the device configured under `name`, if there is one.
    pub open spec fn state_of(&self, name: Seq<char>) -> Option<EntryState<S, C>> {
        find_key(self.entries(), name)
    }

    pub open spec fn wf(&self) -> bool {
        keys_unique(self.entries())
    }

    /// A registry without configured devices and with the given constructors, one per
    /// device kind.
    pub fn new(constructors: Vec<(String, C)>) -> (r: Self)
        ensures
            r.wf(),
            r.entries() == Seq::<(Seq<char>, EntryState<S, C>)>::empty(),
            r.constructors() == constructors@.map_values(|e: (String, C)| (e.0@, e.1)),
    {
        let r = Self { devices: Vec::new(), constructors };
        assert(r.entries() =~= Seq::<(Seq<char>, EntryState<S, C>)>::empty());
        r
    }

    fn position(&self, name: &str) -> (r: Option<usize>)
        requires
            self.wf(),
        ensures
            r matches Some(i) ==> i < self.entries().len() && self.entries()[i as int].0 == name@
                && self.state_of(name@) == Some(self.entries()[i as int].1),
            r is None ==> self.state_of(name@) is None && forall|i: int|
                0 <= i < self.entries().len() ==> #[trigger] self.entries()[i].0 != name@,
    {
        let mut i: usize = 0;
        while i < self.devices.len()
            invariant
                i <= self.devices@.len(),
                self.wf(),
                forall|j: int| 0 <= j < i ==> #[trigger] self.entries()[j].0 != name@,
            decreases self.devices@.len() - i,
        {
            if str_eq(self.devices[i].0.as_str(), name) {
                proof {
                    lemma_find_key_index(self.entries(), name@, i as int);
                }
                return Some(i);
            }
            i = i + 1;
        }
        proof {
            lemma_find_key_absent(self.entries(), name@);
        }
        None
    }

    /// The settings of the devices that can still be loaded, in the order they were
    /// configured.
    pub fn get_available_settings(&self) -> (r: Vec<&S>)
        ensures
            r@.map_values(|s: &S| *s) == available_settings(self.entries()),
    {
        let mut r: Vec<&S> = Vec::new();
        let mut i: usize = 0;
        while i < self.devices.len()
            invariant
                i <= self.devices@.len(),
                r@.map_values(|s: &S| *s) == available_settings(self.entries().take(i as int)),
            decreases self.devices@.len() - i,
        {
            match &self.devices[i].1 {
                DeviceEntry::Initializer { settings, constructor } => {
                    r.push(settings);
                },
                DeviceEntry::Loaded => {},
            }
            assert(self.entries().take(i + 1).drop_last() =~= self.entries().take(i as int));
            assert(r@.map_values(|s: &S| *s) =~= available_settings(self.entries().take(i + 1)));
            i = i + 1;
        }
        assert(self.entries().take(self.devices@.len() as int) =~= self.entries());
        r
    }

    /// Whether the device configured under `name` is available or loaded, or `None`
    /// when there is no such configuration.
    pub fn device_status(&self, name: &str) -> (r: Option<DeviceStatus>)
        requires
            self.wf(),
        ensures
            r == match self.state_of(name@) {
                Some(EntryState::Available(_, _)) => Some(DeviceStatus::Available),
                Some(EntryState::Loaded) => Some(DeviceStatus::Loaded),
                None => None,
            },
    {
        match self.position(name) {
            Some(i) => match &self.devices[i].1 {
                DeviceEntry::Initializer { .. } => Some(DeviceStatus::Available),
                DeviceEntry::Loaded => Some(DeviceStatus::Loaded),
            },
            None => None,
        }
    }

    /// Adds the configuration `name` of device kind `kind`; refused when the name is
    /// taken.
    pub fn add_configuration(&mut self, name: String, kind: &str, settings: S) -> (r: Result<
        (),
        DeviceError,
    >)
        requires
            old(self).wf(),
            find_key(old(self).constructors(), kind@) is Some,
        ensures
            final(self).wf(),
            final(self).constructors() == old(self).constructors(),
            old(self).state_of(name@) is Some ==> r == Err::<(), DeviceError>(
                DeviceError::AlreadyRegistered(name),
            ) && final(self).entries() == old(self).entries(),
            old(self).state_of(name@) is None ==> r is Ok && final(self).entries() == old(
                self,
            ).entries().push(
                (
                    name@,
                    EntryState::Available(settings, find_key(old(self).constructors(), kind@)->0),
                ),
            ),
    {
        match self.position(name.as_str()) {
            Some(_) => Err(DeviceError::AlreadyRegistered(name)),
            None => {
                let constructor = self.constructor_of(kind);
                let ghost before = self.entries();
                let ghost key = name@;
                self.devices.push((name, DeviceEntry::Initializer { settings, constructor }));
                assert(self.entries() =~= before.push(
                    (key, EntryState::Available(settings, constructor)),
                ));
                assert forall|i: int, j: int|
                    0 <= i < self.entries().len() && 0 <= j < self.entries().len() && i != j implies #[trigger] self.entries()[i].0
                    != #[trigger] self.entries()[j].0 by {
                    if i < before.len() && j < before.len() {
                        assert(self.entries()[i] == before[i]);
                        assert(self.entries()[j] == before[j]);
                    }
                }
                Ok(())
            },
        }
    }

    fn constructor_of(&self, kind: &str) -> (r: C)
        requires
            find_key(self.constructors(), kind@) is Some,
        ensures
            find_key(self.constructors(), kind@) == Some(r),
    {
        let mut i: usize = 0;
        assert(self.constructors().skip(0) =~= self.constructors());
        while i < self.constructors.len()
            invariant
                i <= self.constructors@.len(),
                find_key(self.constructors(), kind@) == find_key(self.constructors().skip(i as int), kind@),
            decreases self.constructors@.len() - i,
        {
            let ghost rest = self.constructors().skip(i as int);
            assert(rest.drop_first() =~= self.constructors().skip(i + 1));
            if str_eq(self.constructors[i].0.as_str(), kind) {
                return self.constructors[i].1;
            }
            i = i + 1;
        }
        proof {
            assert(self.constructors().skip(i as int).len() == 0);
        }
        self.constructors[0].1
    }

    /// Loads the device configured under `name`: hands out its constructor and settings
    /// and marks it loaded. Refused when there is no such configuration or when it was
    /// loaded before; a refused second load also drops the configuration, so that the
    /// name is then unknown.
    pub fn load_device(&mut self, name: &str) -> (r: Result<(C, S), DeviceError>)
        requires
            old(self).wf(),
        ensures
            final(self).wf(),
            final(self).constructors() == old(self).constructors(),
            match old(self).state_of(name@) {
                None => r == Err::<(C, S), DeviceError>(DeviceError::NotFound(r->Err_0->NotFound_0))
                    && r->Err_0->NotFound_0@ == name@ && final(self).entries() == old(self).entries(),
                Some(EntryState::Loaded) => r == Err::<(C, S), DeviceError>(
                    DeviceError::AlreadyLoaded(r->Err_0->AlreadyLoaded_0),
                ) && r->Err_0->AlreadyLoaded_0@ == name@ && final(self).state_of(name@) is None
                    && forall|other: Seq<char>|
                    other != name@ ==> #[trigger] final(self).state_of(other) == old(
                        self,
                    ).state_of(other),
                Some(EntryState::Available(settings, constructor)) => r == Ok::<
                    (C, S),
                    DeviceError,
                >((constructor, settings)) && final(self).state_of(name@) == Some(
                    EntryState::<S, C>::Loaded,
                ) && forall|other: Seq<char>|
                    other != name@ ==> #[trigger] final(self).state_of(other) == old(
                        self,
                    ).state_of(other),
            },
    {
        match self.position(name) {
            None => Err(DeviceError::NotFound(String::from_str(name))),
            Some(i) => {
                let ghost before = self.entries();
                let mut entry = DeviceEntry::Loaded;
                std::mem::swap(&mut entry, &mut self.devices[i].1);
                match entry {
                    DeviceEntry::Loaded => {
                        assert(self.entries() =~= before);
                        let _removed = self.devices.remove(i);
                        assert(self.entries() =~= before.remove(i as int));
                        proof {
                            lemma_find_key_remove(before, i as int, name@);
                            assert forall|other: Seq<char>| other != name@ implies #[trigger] find_key(
                                self.entries(),
                                other,
                            ) == find_key(before, other) by {
                                lemma_find_key_remove(before, i as int, other);
                            }
                        }
                        Err(DeviceError::AlreadyLoaded(String::from_str(name)))
                    },
                    DeviceEntry::Initializer { settings, constructor } => {
                        let ghost after = before.update(i as int, (name@, EntryState::Loaded));
                        assert(self.entries() =~= after);
                        assert forall|a: int, b: int|
                            0 <= a < after.len() && 0 <= b < after.len() && a != b implies #[trigger] after[a].0
                            != #[trigger] after[b].0 by {
                            assert(after[a].0 == before[a].0);
                            assert(after[b].0 == before[b].0);
                        }
                        proof {
                            lemma_find_key_index(after, name@, i as int);
                            assert forall|other: Seq<char>| other != name@ implies #[trigger] find_key(
                                after,
                                other,
                            ) == find_key(before, other) by {
                                lemma_find_key_update(before, i as int, (name@, EntryState::Loaded), other);
                            }
                        }
                        Ok((constructor, settings))
                    },
                }
            },
        }
    }
}

proof fn lemma_find_key_update<T>(pairs: Seq<(Seq<char>, T)>, i: int, v: (Seq<char>, T), key: Seq<char>)
    requires
        0 <= i < pairs.len(),
        v.0 == pairs[i].0,
        key != v.0,
    ensures
        find_key(pairs.update(i, v), key) == find_key(pairs, key),
    decreases pairs.len(),
{
    if i > 0 {
        assert(pairs.update(i, v).drop_first() =~= pairs.drop_first().update(i - 1, v));
        lemma_find_key_update(pairs.drop_first(), i - 1, v, key);
    } else {
        assert(pairs.update(i, v).drop_first() =~= pairs.drop_first());
    }
}

proof fn lemma_find_key_remove<T>(pairs: Seq<(Seq<char>, T)>, i: int, key: Seq<char>)
    requires
        keys_unique(pairs),
        0 <= i < pairs.len(),
    ensures
        keys_unique(pairs.remove(i)),
        key == pairs[i].0 ==> find_key(pairs.remove(i), key) is None,
        key != pairs[i].0 ==> find_key(pairs.remove(i), key) == find_key(pairs, key),
{
    let rest = pairs.remove(i);
    assert forall|a: int, b: int|
        0 <= a < rest.len() && 0 <= b < rest.len() && a != b implies #[trigger] rest[a].0
        != #[trigger] rest[b].0 by {
        let a0 = if a < i { a } else { a + 1 };
        let b0 = if b < i { b } else { b + 1 };
        assert(rest[a] == pairs[a0]);
        assert(rest[b] == pairs[b0]);
    }
    if key == pairs[i].0 {
        assert forall|k: int| 0 <= k < rest.len() implies #[trigger] rest[k].0 != key by {
            let k0 = if k < i { k } else { k + 1 };
            assert(rest[k] == pairs[k0]);
        }
        lemma_find_key_absent(rest, key);
    } else {
        if exists|j: int| 0 <= j < pairs.len() && pairs[j].0 == key {
            let j = choose|j: int| 0 <= j < pairs.len() && pairs[j].0 == key;
            lemma_find_key_index(pairs, key, j);
            let j1 = if j < i { j } else { j - 1 };
            assert(rest[j1] == pairs[j]);
            lemma_find_key_index(rest, key, j1);
        } else {
            lemma_find_key_absent(pairs, key);
            assert forall|k: int| 0 <= k < rest.len() implies #[trigger] rest[k].0 != key by {
                let k0 = if k < i { k } else { k + 1 };
                assert(rest[k] == pairs[k0]);
            }
            lemma_find_key_absent(rest, key);
        }
    }
}

/// What is left of `s` after the last `::` met when scanning `s` from position `i` on,
/// where `start` is where the current piece began: the last piece `split("::")` gives.
pub open spec fn last_piece(s: Seq<char>, i: int, start: int) -> Seq<char>
    decreases s.len() - i,
{
    if i < 0 || i + 1 >= s.len() {
        s.skip(start)
    } else if s[i] == ':' && s[i + 1] == ':' {
        last_piece(s, i + 2, i + 2)
    } else {
        last_piece(s, i + 1, start)
    }
}

/// The last segment of a `::`-separated path: the bare name of a type.
pub fn last_path_segment(path: &str) -> (r: String)
    ensures
        r@ == last_piece(path@, 0, 0),
{
    let cs = chars_of(path);
    let n = cs.len();
    let mut i: usize = 0;
    let mut start: usize = 0;
    while i < n && i + 1 < n
        invariant
            cs@ == path@,
            n == cs@.len(),
            start <= i <= n,
            last_piece(path@, 0, 0) == last_piece(path@, i as int, start as int),
        decreases n - i,
    {
        if cs[i] == ':' && cs[i + 1] == ':' {
            i = i + 2;
            start = i;
        } else {
            i = i + 1;
        }
    }
    let tail = vstd::slice::slice_subrange(cs.as_slice(), start, n);
    assert(tail@ =~= path@.skip(start as int));
    string_from_chars(tail)
}

/// What `convert_case` makes of `s` in snake case.
pub uninterp spec fn snake_case_of(s: Seq<char>) -> Seq<char>;

/// `s` in snake case.
///
/// Trusted: `convert_case::Casing::to_case` with `Case::Snake`, which splits `s` into
/// words at its default boundaries and joins them in lower case with `_`. Its result
/// depends on `s` alone; the contract names it and says nothing more of it.
#[verifier::external_body]
fn snake_case(s: &str) -> (r: String)
    ensures
        r@ == snake_case_of(s@),
{
    convert_case::Casing::to_case(&s, convert_case::Case::Snake)
}

/// The name a device kind's loader function is offered under in the device
/// configuration: the bare name of its device type, in snake case.
pub fn loader_name(type_path: &str) -> (r: String)
    ensures
        r@ == snake_case_of(last_piece(type_path@, 0, 0)),
{
    let bare = last_path_segment(type_path);
    snake_case(bare.as_str())
}

/// The settings of the entries that are still available, in order.
pub open spec fn available_settings<S, C>(entries: Seq<(Seq<char>, EntryState<S, C>)>) -> Seq<S>
    decreases entries.len(),
{
    if entries.len() == 0 {
        Seq::empty()
    } else {
        let rest = available_settings(entries.drop_last());
        match entries.last().1 {
            EntryState::Available(s, c) => rest.push(s),
            EntryState::Loaded => rest,
        }
    }
}

} // verus!
