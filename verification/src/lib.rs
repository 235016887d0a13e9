//! The decisions of a connection pool.
//!
//! A pool keeps connections to peers, hands out references to them, shares the
//! attempts to make them, and closes those that nothing has used for a while. At
//! most so many connections are kept at a time: when the pool is full, the one
//! that has been unused longest makes way for a new one.
//!
//! [`actor::Actor`] is the pool. It takes [`event::Event`]s and returns
//! [`action::Action`]s, and does neither I/O nor waiting itself. What each event
//! does is stated over [`model::PoolModel`]. [`steps`] proves what that comes to
//! case by case, [`laws`] what follows for the pool as a whole, and [`meaning`] what
//! the words stand for that both are put in.

pub mod action;
pub mod actor;
pub mod attempt;
pub mod clock;
pub mod counter;
pub mod error;
pub mod event;
pub mod ids;
pub mod laws;
pub mod meaning;
pub mod model;
pub mod options;
pub mod steps;
pub mod unused;
pub mod upkeep;
