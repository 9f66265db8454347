//! A minimal HTTP request router with parameterized path matching, plus an
//! error type that binds failure reporting to the lifecycle of an in-flight
//! response stream.
//!
//! Route templates such as `/users/:id/posts` are compiled into matchers that
//! test concrete request paths: literal characters must match exactly, and a
//! `:name` placeholder stands for one non-empty path segment drawn from a
//! bounded character class.  A route table resolves paths against registered
//! templates in registration order, first match wins.  The error binding
//! couples a diagnostic message to a response stream and guarantees, through
//! its contracts, that a stream it holds is always in the state from which a
//! single finalization step terminates it.

pub mod nickel_error;
pub mod pattern;
pub mod router;
