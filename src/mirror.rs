//! The optional human-readable mirror of the structured log.
use vstd::prelude::*;

verus! {

/// Severity of an event, least severe first.
#[derive(Clone, Copy, Debug, PartialEq, Eq, Structural)]
pub enum Level {
    Debug,
    Info,
    Warning,
    Error,
    Critical,
}

pub open spec fn rank(l: Level) -> nat {
    match l {
        Level::Debug => 0,
        Level::Info => 1,
        Level::Warning => 2,
        Level::Error => 3,
        Level::Critical => 4,
    }
}

impl Level {
    /// Whether this level is at least as severe as `min`.
    pub fn at_least(&self, min: Level) -> (r: bool)
        ensures
            r == (rank(*self) >= rank(min)),
    {
        let a: u8 = match self {
            Level::Debug => 0,
            Level::Info => 1,
            Level::Warning => 2,
            Level::Error => 3,
            Level::Critical => 4,
        };
        let b: u8 = match min {
            Level::Debug => 0,
            Level::Info => 1,
            Level::Warning => 2,
            Level::Error => 3,
            Level::Critical => 4,
        };
        a >= b
    }
}

/// Why the text mirror could not be built.
#[derive(Clone, Copy, Debug, PartialEq, Eq, Structural)]
pub enum ConfigError {
    /// The call-site index was missing or could not be read.
    MissingIndex,
}

/// The text mirror's configuration: where its call-site index lives, the
/// index itself (call-site descriptions by log identifier), and the least
/// severity it shows.
pub struct ExtraTextLogger {
    index_location: String,
    call_sites: Vec<String>,
    min_level: Level,
}

impl ExtraTextLogger {
    pub closed spec fn index_location(&self) -> Seq<char> {
        self.index_location@
    }

    pub closed spec fn call_sites(&self) -> Seq<Seq<char>> {
        Seq::new(self.call_sites@.len(), |i: int| self.call_sites@[i]@)
    }

    pub closed spec fn min_level(&self) -> Level {
        self.min_level
    }

    /// Builds the mirror from the index read at `index_location`; `None`
    /// stands for an index that could not be read.
    pub fn new(index_location: String, index: Option<Vec<String>>, min_level: Level) -> (r: Result<
        ExtraTextLogger,
        ConfigError,
    >)
        ensures
            index is None <==> r == Err::<ExtraTextLogger, ConfigError>(ConfigError::MissingIndex),
            r is Ok ==> r->Ok_0.index_location() == index_location@ && r->Ok_0.min_level()
                == min_level && r->Ok_0.call_sites() == Seq::new(
                index->Some_0@.len(),
                |i: int| index->Some_0@[i]@,
            ),
    {
        match index {
            Some(call_sites) => Ok(ExtraTextLogger { index_location, call_sites, min_level }),
            None => Err(ConfigError::MissingIndex),
        }
    }

    /// Whether an event of `level` is shown.
    pub fn shows(&self, level: Level) -> (r: bool)
        ensures
            r == (rank(level) >= rank(self.min_level())),
    {
        level.at_least(self.min_level)
    }

    /// The call-site description of log identifier `id`, if the index has one.
    pub fn call_site(&self, id: usize) -> (r: Option<&String>)
        ensures
            id < self.call_sites().len() ==> r is Some && r->Some_0@ == self.call_sites()[id as int],
            id >= self.call_sites().len() ==> r is None,
    {
        if id < self.call_sites.len() {
            Some(&self.call_sites[id])
        } else {
            None
        }
    }

    /// Where the call-site index was read from.
    pub fn location(&self) -> (r: &String)
        ensures
            r@ == self.index_location(),
    {
        &self.index_location
    }

    /// The least severity shown.
    pub fn level(&self) -> (r: Level)
        ensures
            r == self.min_level(),
    {
        self.min_level
    }
}

} // verus!
