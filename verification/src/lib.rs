//! A small HTTP/1.1 static-file responder and a work-stealing thread pool,
//! with the pool's scheduling logic and the request handling verified.
//!
//! The pool itself runs on OS threads, mutexes and a channel; those live in
//! the surrounding binary. What is verified here is everything the threads
//! decide and compute: the request-line parser and response builder
//! ([`httpreq`]), and the pool's state machine ([`threadpool`]) — which
//! queue a job moves to, how a steal splits a victim's deque, when a worker
//! may exit — together with the invariants that make the pool safe: every
//! submitted job is executed at most once, and a cleanly drained pool has
//! executed exactly what was submitted.

pub mod httpreq;
pub mod threadpool;

