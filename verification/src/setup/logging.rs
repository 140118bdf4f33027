use vstd::prelude::*;

use crate::logging::dynamic_filter::FilterMap;
use crate::logging::logger::LogImpl;

verus! {

/// The installer's log backend: it logs everything it is given and ignores filter
/// changes from scripts.
pub struct LogHandleImpl;

impl LogImpl for LogHandleImpl {
    fn set_filter_map(&self, filter_map: FilterMap) {
    }
}

} // verus!
