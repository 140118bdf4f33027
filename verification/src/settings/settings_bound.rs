use vstd::prelude::*;

use crate::settings::settings::Settings;
use crate::text::{concat, str_eq};

verus! {

/// The event raised when the setting `setting` changes: `Settings.<setting>`.
pub open spec fn spec_settings_event_key(setting: Seq<char>) -> Seq<char> {
    "Settings."@ + setting
}

/// The event raised when the setting `setting` changes: `Settings.<setting>`.
pub fn settings_event_key(setting: &str) -> (r: String)
    ensures
        r@ == spec_settings_event_key(setting@),
{
    concat("Settings.", setting)
}

/// A copy of one setting that follows its changes, and the handle of the event
/// registration that updates it.
pub struct SettingsBound<T> {
    setting: String,
    value: T,
    handle: usize,
}

impl<T: Copy> SettingsBound<T> {
    /// The name of the setting followed.
    pub closed spec fn setting(&self) -> Seq<char> {
        self.setting@
    }

    pub closed spec fn value(&self) -> T {
        self.value
    }

    pub closed spec fn handle(&self) -> usize {
        self.handle
    }

    /// Follows the setting `setting` from its current `value`, updated through the
    /// registration `handle`.
    pub fn new(setting: &str, value: T, handle: usize) -> (r: Self)
        ensures
            r.setting() == setting@,
            r.value() == value,
            r.handle() == handle,
    {
        SettingsBound { setting: String::from_str(setting), value, handle }
    }

    /// The setting's value as last seen.
    pub fn get(&self) -> (r: T)
        ensures
            r == self.value(),
    {
        self.value
    }

    /// Takes the setting's new value.
    pub fn assign(&mut self, value: T)
        ensures
            final(self).value() == value,
            final(self).setting() == old(self).setting(),
            final(self).handle() == old(self).handle(),
    {
        self.value = value;
    }

    /// The event this copy listens to: `Settings.<setting>`.
    pub fn event_key(&self) -> (r: String)
        ensures
            r@ == spec_settings_event_key(self.setting()),
    {
        settings_event_key(self.setting.as_str())
    }

    /// Takes in the event `key` carrying `value`: the value becomes the copy's exactly
    /// when the event is the one raised for its setting. Says whether it did.
    pub fn on_event(&mut self, key: &str, value: T) -> (r: bool)
        ensures
            r == (key@ == spec_settings_event_key(old(self).setting())),
            final(self).value() == if r {
                value
            } else {
                old(self).value()
            },
            final(self).setting() == old(self).setting(),
            final(self).handle() == old(self).handle(),
    {
        let expected = self.event_key();
        if str_eq(key, expected.as_str()) {
            self.value = value;
            true
        } else {
            false
        }
    }

    /// The registration to drop when the copy is no longer needed.
    pub fn registration(&self) -> (r: usize)
        ensures
            r == self.handle(),
    {
        self.handle
    }
}

impl SettingsBound<usize> {
    /// Follows the whole-number setting `setting` of `settings`, starting from its current
    /// value.
    pub fn load(settings: &Settings, setting: &str, handle: usize) -> (r: Self)
        requires
            settings.spec_usize_setting(setting@) is Some,
        ensures
            r.setting() == setting@,
            r.value() == settings.spec_usize_setting(setting@)->0,
            r.handle() == handle,
    {
        let value = match settings.usize_setting(setting) {
            Some(v) => v,
            None => 0,
        };
        Self::new(setting, value, handle)
    }
}

} // verus!
