//! The bounded connection pool, as a state machine.
//!
//! The pool decides; its owner acts. Every request to the pool is one call
//! that moves the pool from one state to the next and says what the owner
//! has to do: hand a lease to a caller, establish or close a session, park a
//! caller or wake one. Establishing sessions, waiting and timing are the
//! owner's part and happen between two calls, never within one.

pub mod laws;
pub mod machine;
pub mod model;
pub mod options;
pub mod seqs;
