//! Settings that the diagnostics core reads.

use vstd::prelude::*;

verus! {

/// Where the service listens and how large a request body may be.
#[derive(Clone, Debug)]
pub struct Application {
    pub host: String,
    pub port: u16,
    pub body_limit: usize,
}

/// The single origin that cross-origin requests are accepted from.
#[derive(Clone, Debug)]
pub struct Cors {
    pub allow_origin: String,
}

/// Upper bound on the size of one stored paste.
#[derive(Clone, Copy, Debug)]
pub struct Paste {
    pub size_limit: usize,
}

/// How pastes are persisted.
#[derive(Clone, Copy, Debug, PartialEq, Eq, Structural)]
pub enum StorageMethod {
    File,
}

/// Settings of the log analyzer.
#[derive(Clone, Debug)]
pub struct Analyzer {
    pub custom_highlighting_delimiters: Vec<String>,
    pub lines_limits: AnalyzerLinesLimits,
}

/// How many leading lines of a log each consumer looks at.
#[derive(Clone, Copy, Debug, PartialEq, Eq, Structural)]
pub struct AnalyzerLinesLimits {
    pub server: usize,
    pub plugins: usize,
    pub ports: usize,
}

impl AnalyzerLinesLimits {
    /// The largest of the three limits, as a mathematical integer.
    pub open spec fn spec_max(self) -> int {
        if self.server >= self.plugins && self.server >= self.ports {
            self.server as int
        } else if self.plugins >= self.ports {
            self.plugins as int
        } else {
            self.ports as int
        }
    }

    /// The number of lines that satisfies every consumer with one read.
    pub fn max(&self) -> (limit: usize)
        ensures
            limit == self.spec_max(),
            limit >= self.server && limit >= self.plugins && limit >= self.ports,
            limit == self.server || limit == self.plugins || limit == self.ports,
    {
        let mut limit: usize = self.server;
        if self.plugins > limit {
            limit = self.plugins;
        }
        if self.ports > limit {
            limit = self.ports;
        }
        limit
    }
}

/// Who may call the HTTP API without presenting a key.
#[derive(Clone, Copy, Debug, PartialEq, Eq, Structural)]
pub struct Api {
    pub public: bool,
    pub no_auth: bool,
}

/// Connection settings of the key-value store behind the classification cache.
#[derive(Clone, Debug)]
pub struct Redis {
    pub url: String,
    pub pool_size: usize,
}

} // verus!
