use vstd::prelude::*;

verus! {

/// The configurations the program loads, by role.
#[derive(Debug, Clone, Copy, PartialEq, Eq, Structural, Hash)]
pub enum ConfigType {
    Applications,
    Devices,
    Scripts,
    Settings,
}

impl ConfigType {
    pub open spec fn spec_name(self) -> Seq<char> {
        match self {
            ConfigType::Applications => "Applications"@,
            ConfigType::Devices => "Devices"@,
            ConfigType::Scripts => "Scripts"@,
            ConfigType::Settings => "Settings"@,
        }
    }

    pub open spec fn spec_slot(self) -> int {
        match self {
            ConfigType::Applications => 0,
            ConfigType::Devices => 1,
            ConfigType::Scripts => 2,
            ConfigType::Settings => 3,
        }
    }

    /// The name the configuration is reported and run under.
    pub fn name(&self) -> (r: &'static str)
        ensures
            r@ == self.spec_name(),
    {
        match self {
            ConfigType::Applications => "Applications",
            ConfigType::Devices => "Devices",
            ConfigType::Scripts => "Scripts",
            ConfigType::Settings => "Settings",
        }
    }

    fn slot(&self) -> (r: usize)
        ensures
            r == self.spec_slot(),
    {
        match self {
            ConfigType::Applications => 0,
            ConfigType::Devices => 1,
            ConfigType::Scripts => 2,
            ConfigType::Settings => 3,
        }
    }
}

/// Why a configuration could not be had.
#[derive(Debug, Clone, Copy, PartialEq, Eq, Structural)]
pub enum ConfigError {
    /// No text is held for the configuration (any more).
    NotFound,
}

impl ConfigError {
    pub fn message(&self) -> (r: &'static str)
        ensures
            r@ == "Config not found"@,
    {
        "Config not found"
    }
}

/// Configuration texts held in memory; each can be taken once.
pub struct ConfigProviderImpl {
    configs: Vec<Option<String>>,
}

impl ConfigProviderImpl {
    /// What is held for each configuration.
    pub closed spec fn held(&self, t: ConfigType) -> Option<Seq<char>> {
        match self.configs@[t.spec_slot()] {
            Some(s) => Some(s@),
            None => None,
        }
    }

    pub closed spec fn wf(&self) -> bool {
        self.configs@.len() == 4
    }

    /// Holds the given texts; when a configuration is given twice, the last text counts.
    pub fn new(configs: Vec<(ConfigType, String)>) -> (r: Self)
        ensures
            r.wf(),
            forall|t: ConfigType| #[trigger]
                r.held(t) == last_text_for(text_pairs(configs@), t),
    {
        let mut slots: Vec<Option<String>> = Vec::new();
        slots.push(None);
        slots.push(None);
        slots.push(None);
        slots.push(None);
        let ghost pairs = text_pairs(configs@);
        let mut rest = configs;
        let ghost mut k: int = 0;
        while rest.len() > 0
            invariant
                slots@.len() == 4,
                0 <= k <= pairs.len(),
                k + rest@.len() == pairs.len(),
                forall|i: int|
                    0 <= i < rest@.len() ==> (#[trigger] rest@[i]).0 == pairs[k + i].0
                        && rest@[i].1@ == pairs[k + i].1,
                forall|t: ConfigType| #[trigger]
                    option_text(slots@[t.spec_slot()]) == last_text_for(pairs.take(k), t),
            decreases rest@.len(),
        {
            let (t, text) = rest.remove(0);
            assert(t == pairs[k].0 && text@ == pairs[k].1);
            slots.set(t.slot(), Some(text));
            assert(pairs.take(k + 1).drop_last() =~= pairs.take(k));
            assert forall|u: ConfigType| #[trigger]
                option_text(slots@[u.spec_slot()]) == last_text_for(pairs.take(k + 1), u) by {
                if u != t {
                    assert(u.spec_slot() != t.spec_slot());
                }
            }
            proof {
                k = k + 1;
            }
        }
        assert(pairs.take(pairs.len() as int) =~= pairs);
        let r = ConfigProviderImpl { configs: slots };
        assert forall|t: ConfigType| #[trigger]
            r.held(t) == last_text_for(pairs, t) by {
            assert(r.held(t) == option_text(slots@[t.spec_slot()]));
        }
        r
    }

    /// Hands out the text of configuration `t` and forgets it; fails when none is held.
    pub fn get_config(&mut self, t: ConfigType) -> (r: Result<String, ConfigError>)
        requires
            old(self).wf(),
        ensures
            final(self).wf(),
            match old(self).held(t) {
                Some(s) => r matches Ok(c) && c@ == s,
                None => r == Err::<String, ConfigError>(ConfigError::NotFound),
            },
            final(self).held(t) is None,
            forall|u: ConfigType| u != t ==> #[trigger] final(self).held(u) == old(self).held(u),
    {
        let slot = t.slot();
        let mut taken: Option<String> = None;
        std::mem::swap(&mut taken, &mut self.configs[slot]);
        assert forall|u: ConfigType| u != t implies #[trigger] self.held(u) == old(self).held(u) by {
            assert(u.spec_slot() != t.spec_slot());
        }
        match taken {
            Some(config) => Ok(config),
            None => Err(ConfigError::NotFound),
        }
    }

    /// Puts the text of configuration `t` in place of what was held for it.
    pub fn store_config(&mut self, t: ConfigType, text: &str)
        requires
            old(self).wf(),
        ensures
            final(self).wf(),
            final(self).held(t) == Some(text@),
            forall|u: ConfigType| u != t ==> #[trigger] final(self).held(u) == old(self).held(u),
    {
        self.configs.set(t.slot(), Some(String::from_str(text)));
        assert forall|u: ConfigType| u != t implies #[trigger] self.held(u) == old(self).held(u) by {
            assert(u.spec_slot() != t.spec_slot());
        }
    }
}

/// The pairs with each text taken by its characters.
pub open spec fn text_pairs(pairs: Seq<(ConfigType, String)>) -> Seq<(ConfigType, Seq<char>)> {
    pairs.map_values(|p: (ConfigType, String)| (p.0, p.1@))
}

/// The characters of an optional text.
pub open spec fn option_text(o: Option<String>) -> Option<Seq<char>> {
    match o {
        Some(s) => Some(s@),
        None => None,
    }
}

/// The last text given for `t` in `pairs`.
pub open spec fn last_text_for(pairs: Seq<(ConfigType, Seq<char>)>, t: ConfigType) -> Option<
    Seq<char>,
>
    decreases pairs.len(),
{
    if pairs.len() == 0 {
        None
    } else if pairs.last().0 == t {
        Some(pairs.last().1)
    } else {
        last_text_for(pairs.drop_last(), t)
    }
}

} // verus!
