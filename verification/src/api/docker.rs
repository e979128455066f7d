//! The boundary for the container engine: what its queries mean where they
//! leave something out.

use vstd::prelude::*;

verus! {

/// Whether stopped containers, or intermediate images, are listed too.
#[derive(Debug, PartialEq, Eq)]
pub struct AllQuery {
    pub all: Option<bool>,
}

/// Whether a removal is forced.
#[derive(Debug, PartialEq, Eq)]
pub struct ForceQuery {
    pub force: Option<bool>,
}

/// How many lines from the end of a container's log are asked for.
#[derive(Debug, PartialEq, Eq)]
pub struct LogsQuery {
    pub tail: Option<usize>,
}

/// The image to pull.
#[derive(Debug, PartialEq, Eq)]
pub struct PullImageRequest {
    pub image: String,
}

/// The number of log lines returned where the query names none.
pub const DEFAULT_LOG_TAIL: usize = 200;

/// The largest number of log lines returned.
pub const MAX_LOG_TAIL: usize = 5000;

/// The number of log lines that a query comes to.
pub open spec fn log_tail(tail: Option<usize>) -> usize {
    match tail {
        Some(n) => if n < MAX_LOG_TAIL {
            n
        } else {
            MAX_LOG_TAIL
        },
        None => DEFAULT_LOG_TAIL,
    }
}

/// A flag of a query, or `default` where the query leaves it out.
pub open spec fn flag_or(flag: Option<bool>, default: bool) -> bool {
    match flag {
        Some(value) => value,
        None => default,
    }
}

impl AllQuery {
    /// Whether stopped containers are listed too: yes, unless the query
    /// says otherwise.
    pub fn all_containers(&self) -> (out: bool)
        ensures
            out == flag_or(self.all, true),
    {
        match self.all {
            Some(value) => value,
            None => true,
        }
    }

    /// Whether intermediate images are listed too: no, unless the query says
    /// otherwise.
    pub fn all_images(&self) -> (out: bool)
        ensures
            out == flag_or(self.all, false),
    {
        match self.all {
            Some(value) => value,
            None => false,
        }
    }
}

impl ForceQuery {
    /// Whether the removal is forced: no, unless the query says otherwise.
    pub fn forced(&self) -> (out: bool)
        ensures
            out == flag_or(self.force, false),
    {
        match self.force {
            Some(value) => value,
            None => false,
        }
    }
}

impl LogsQuery {
    /// The number of log lines to return: the one asked for, at most 5000;
    /// 200 where none is asked for.
    pub fn line_count(&self) -> (out: usize)
        ensures
            out == log_tail(self.tail),
    {
        match self.tail {
            Some(n) => if n < MAX_LOG_TAIL {
                n
            } else {
                MAX_LOG_TAIL
            },
            None => DEFAULT_LOG_TAIL,
        }
    }
}

} // verus!
