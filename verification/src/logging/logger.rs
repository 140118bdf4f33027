use vstd::prelude::*;
use vstd::string::StringExecFns;

use crate::logging::dynamic_filter::FilterMap;

verus! {

/// The maximum verbosity a log target is allowed; `Off` allows nothing.
#[derive(Debug, Clone, Copy, PartialEq, Eq, Structural)]
pub enum LevelFilter {
    Off,
    Error,
    Warn,
    Info,
    Debug,
    Trace,
}

/// The verbosity of one log record.
#[derive(Debug, Clone, Copy, PartialEq, Eq, Structural)]
pub enum Level {
    Error,
    Warn,
    Info,
    Debug,
    Trace,
}

impl LevelFilter {
    /// Position in the verbosity order: `Off` is 0, `Trace` is 5.
    pub open spec fn spec_rank(self) -> int {
        match self {
            LevelFilter::Off => 0,
            LevelFilter::Error => 1,
            LevelFilter::Warn => 2,
            LevelFilter::Info => 3,
            LevelFilter::Debug => 4,
            LevelFilter::Trace => 5,
        }
    }

    pub fn rank(&self) -> (r: usize)
        ensures
            r == self.spec_rank(),
    {
        match self {
            LevelFilter::Off => 0,
            LevelFilter::Error => 1,
            LevelFilter::Warn => 2,
            LevelFilter::Info => 3,
            LevelFilter::Debug => 4,
            LevelFilter::Trace => 5,
        }
    }

    /// Whether this filter stands at the same verbosity as `level`.
    pub fn equals_level(&self, level: Level) -> (r: bool)
        ensures
            r == (self.spec_rank() == level.spec_rank()),
    {
        self.rank() == level.rank()
    }

    /// Whether this filter stands below the verbosity of `level`, so that a record of
    /// that level is not let through.
    pub fn less_than_level(&self, level: Level) -> (r: bool)
        ensures
            r == (self.spec_rank() < level.spec_rank()),
    {
        self.rank() < level.rank()
    }
}

impl Level {
    /// Position in the verbosity order: `Error` is 1, `Trace` is 5.
    pub open spec fn spec_rank(self) -> int {
        match self {
            Level::Error => 1,
            Level::Warn => 2,
            Level::Info => 3,
            Level::Debug => 4,
            Level::Trace => 5,
        }
    }

    pub fn rank(&self) -> (r: usize)
        ensures
            r == self.spec_rank(),
    {
        match self {
            Level::Error => 1,
            Level::Warn => 2,
            Level::Info => 3,
            Level::Debug => 4,
            Level::Trace => 5,
        }
    }
}

/// What a logger backend has to offer: replacing its per-target filter map.
pub trait LogImpl {
    fn set_filter_map(&self, filter_map: FilterMap);
}

/// The script-facing logger, forwarding filter changes to its backend.
pub struct Log<I: LogImpl> {
    logger: I,
}

impl<I: LogImpl> Log<I> {
    pub fn new(logger: I) -> (r: Self)
        ensures
            r.backend() == logger,
    {
        Self { logger }
    }

    pub closed spec fn backend(&self) -> I {
        self.logger
    }

    pub fn set_filter_map(&self, filter_map: FilterMap) {
        self.logger.set_filter_map(filter_map);
    }
}

/// The target a script's log record is filed under: the chunk's source, then `::` and
/// the name of each enclosing function, outermost first, given `names` from the
/// innermost call outwards.
pub open spec fn spec_log_location(source: Seq<char>, names: Seq<Seq<char>>) -> Seq<char>
    decreases names.len(),
{
    if names.len() == 0 {
        source
    } else {
        spec_log_location(source, names.drop_first()) + "::"@ + names[0]
    }
}

/// The target a script's log record is filed under; the source is `script` when the
/// chunk has none.
pub fn log_location(source: Option<&str>, names: &Vec<String>) -> (r: String)
    ensures
        r@ == spec_log_location(
            match source {
                Some(s) => s@,
                None => "script"@,
            },
            names@.map_values(|n: String| n@),
        ),
{
    let ghost src = match source {
        Some(s) => s@,
        None => "script"@,
    };
    let ghost ns = names@.map_values(|n: String| n@);
    let mut r = match source {
        Some(s) => String::from_str(s),
        None => String::from_str("script"),
    };
    let mut i: usize = names.len();
    while i > 0
        invariant
            i <= names@.len(),
            ns == names@.map_values(|n: String| n@),
            r@ == spec_log_location(src, ns.skip(i as int)),
        decreases i,
    {
        i = i - 1;
        r.append("::");
        r.append(names[i].as_str());
        assert(ns.skip(i as int).drop_first() =~= ns.skip(i + 1));
        assert(ns.skip(i as int)[0] == ns[i as int]);
    }
    assert(ns.skip(0) =~= ns);
    r
}

} // verus!
