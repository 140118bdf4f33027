use vstd::prelude::*;

use crate::plugin_loader::plugin_loader::PluginLoader;

verus! {

/// The applications started from the applications configuration script; they are kept
/// as plugins are.
pub type AppLoader<P> = PluginLoader<P>;

} // verus!
