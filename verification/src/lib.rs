//! Client-side core of a PostgreSQL driver: the binary wire codecs for
//! integers and temporal values, the catalog of type descriptors, and the
//! state machine of a bounded connection pool.

pub mod calendar;
pub mod catalog;
pub mod codec;
pub mod error;
pub mod integer;
pub mod pool;
pub mod temporal;
pub mod wire;
