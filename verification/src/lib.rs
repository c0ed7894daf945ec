//! A fixed-size worker pool, modelled as a verified state machine, together
//! with the pure request-handling logic of the small HTTP responder built on
//! top of it.
//!
//! The pool model tracks, for every task ever submitted, exactly where it is:
//! still queued, running on exactly one worker, or completed exactly once.
//! The surrounding process (threads, sockets, files) drives these transitions
//! and lives outside the verified library.

pub mod http;
pub mod pool;
