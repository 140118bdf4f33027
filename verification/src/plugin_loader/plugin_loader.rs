use vstd::prelude::*;

use crate::events::dispatch::views;
use crate::text::{concat, concat3};

verus! {

/// A plugin to start: the library to load, and the arguments to run it with.
#[derive(Debug)]
pub struct Config {
    pub path: String,
    pub args: Vec<String>,
}

impl Config {
    /// A plugin configuration; no arguments unless some are given.
    pub fn new(path: String, args: Option<Vec<String>>) -> (r: Self)
        ensures
            r.path@ == path@,
            r.args@ == match args {
                Some(a) => a@,
                None => Seq::empty(),
            },
    {
        Config {
            path,
            args: match args {
                Some(a) => a,
                None => Vec::new(),
            },
        }
    }

    /// The argument vector the plugin is run with: its path, then its arguments.
    pub fn argv(&self) -> (r: Vec<String>)
        ensures
            views(r@) == seq![self.path@] + views(self.args@),
    {
        let mut r: Vec<String> = Vec::new();
        r.push(String::from_str(self.path.as_str()));
        let mut i: usize = 0;
        while i < self.args.len()
            invariant
                i <= self.args@.len(),
                views(r@) == seq![self.path@] + views(self.args@.take(i as int)),
            decreases self.args@.len() - i,
        {
            let ghost before = r@;
            r.push(String::from_str(self.args[i].as_str()));
            assert(self.args@.take(i + 1) =~= self.args@.take(i as int).push(self.args@[i as int]));
            assert(views(r@) =~= views(before).push(self.args@[i as int]@));
            assert(views(self.args@.take(i + 1)) =~= views(self.args@.take(i as int)).push(
                self.args@[i as int]@,
            ));
            i = i + 1;
        }
        assert(self.args@.take(self.args@.len() as int) =~= self.args@);
        r
    }
}

/// The file name of the plugin library `name` on a platform that names libraries
/// `prefix` + name + `suffix`.
pub fn default_plugin_file_name(prefix: &str, name: &str, suffix: &str) -> (r: String)
    ensures
        r@ == prefix@ + name@ + suffix@,
{
    concat3(prefix, name, suffix)
}

/// The log target a plugin's record is filed under: `plugin::` and the plugin's own
/// target.
pub fn plugin_log_target(target: &str) -> (r: String)
    ensures
        r@ == "plugin::"@ + target@,
{
    concat("plugin::", target)
}

/// The plugins started from the plugin configuration script.
pub struct PluginLoader<P> {
    plugins: Vec<P>,
}

impl<P> PluginLoader<P> {
    pub closed spec fn plugins(&self) -> Seq<P> {
        self.plugins@
    }

    pub fn new() -> (r: Self)
        ensures
            r.plugins().len() == 0,
    {
        PluginLoader { plugins: Vec::new() }
    }

    /// Keeps a plugin that was started; one that failed to start is left out, and its
    /// error handed back to be reported.
    pub fn start_plugin<E>(&mut self, started: Result<P, E>) -> (r: Option<E>)
        ensures
            match started {
                Ok(p) => final(self).plugins() == old(self).plugins().push(p) && r is None,
                Err(e) => final(self).plugins() == old(self).plugins() && r == Some(e),
            },
    {
        match started {
            Ok(plugin) => {
                self.plugins.push(plugin);
                None
            },
            Err(e) => Some(e),
        }
    }

    /// How many plugins were started; none is worth a warning.
    pub fn plugin_count(&self) -> (r: usize)
        ensures
            r == self.plugins().len(),
    {
        self.plugins.len()
    }
}

} // verus!
