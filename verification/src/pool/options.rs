//! The configuration of a pool.

use vstd::prelude::*;

verus! {

/// How large a pool may grow and how long its owner waits. Durations are in
/// milliseconds.
#[derive(Clone, Copy, Debug)]
pub struct PoolOptions {
    /// The size that the pool tries to keep up with connections made ahead
    /// of need.
    pub min_size: u32,
    /// The size that the pool never passes.
    pub max_size: u32,
    /// How long establishing one connection may take.
    pub connect_timeout: u64,
    /// How long a caller waits for a connection.
    pub acquire_timeout: u64,
    /// How long a connection may lie idle before it is closed, if at all.
    pub idle_timeout: Option<u64>,
}

impl PoolOptions {
    /// Whether a pool can be made with these options: the largest size is
    /// not below the smallest.
    pub open spec fn valid(&self) -> bool {
        self.min_size <= self.max_size
    }

    /// The options of a pool of one to ten connections that waits thirty
    /// seconds for a connection and never closes an idle one.
    pub fn new() -> (options: PoolOptions)
        ensures
            options == (PoolOptions {
                min_size: 1,
                max_size: 10,
                connect_timeout: 30_000,
                acquire_timeout: 30_000,
                idle_timeout: None,
            }),
            options.valid(),
    {
        PoolOptions {
            min_size: 1,
            max_size: 10,
            connect_timeout: 30_000,
            acquire_timeout: 30_000,
            idle_timeout: None,
        }
    }

    /// Whether a pool can be made with these options.
    pub fn is_valid(&self) -> (valid: bool)
        ensures
            valid == self.valid(),
    {
        self.min_size <= self.max_size
    }

    /// The same options, but for the smallest size.
    pub fn min_size(self, min_size: u32) -> (options: PoolOptions)
        ensures
            options == (PoolOptions { min_size, ..self }),
    {
        PoolOptions { min_size, ..self }
    }

    /// The same options, but for the largest size.
    pub fn max_size(self, max_size: u32) -> (options: PoolOptions)
        ensures
            options == (PoolOptions { max_size, ..self }),
    {
        PoolOptions { max_size, ..self }
    }

    /// The same options, but for the time that a connection may take to be
    /// established.
    pub fn connect_timeout(self, millis: u64) -> (options: PoolOptions)
        ensures
            options == (PoolOptions { connect_timeout: millis, ..self }),
    {
        PoolOptions { connect_timeout: millis, ..self }
    }

    /// The same options, but for the time that a caller waits.
    pub fn acquire_timeout(self, millis: u64) -> (options: PoolOptions)
        ensures
            options == (PoolOptions { acquire_timeout: millis, ..self }),
    {
        PoolOptions { acquire_timeout: millis, ..self }
    }

    /// The same options, but for the time that a connection may lie idle;
    /// `None` lets it lie for ever.
    pub fn idle_timeout(self, millis: Option<u64>) -> (options: PoolOptions)
        ensures
            options == (PoolOptions { idle_timeout: millis, ..self }),
    {
        PoolOptions { idle_timeout: millis, ..self }
    }
}

} // verus!
