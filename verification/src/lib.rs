//! Desktop accessibility automation router.
//!
//! The library discovers running applications through a structured
//! accessibility protocol, walks and caches their UI element trees, and
//! executes pointer, keyboard and text actions against specific elements,
//! falling back to a vision-based (screenshot plus coordinate) backend when
//! the structured protocol cannot reach a target.
//!
//! All protocol and HTTP traffic is performed by the surrounding
//! application; this crate holds the decision logic, data model and
//! caching rules, each with a verified contract. Beside the automation
//! core, the crate carries the forgetting-level library of the same
//! repository: [`levels`], [`forgotten`], [`recover`] and [`compose`].

pub mod bytebot;
pub mod cache;
pub mod client;
pub mod compose;
pub mod error;
pub mod events;
pub mod forgotten;
pub mod levels;
pub mod recover;
pub mod router;
pub mod text;
pub mod tree;
pub mod walker;
