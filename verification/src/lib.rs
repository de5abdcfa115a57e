//! Checks that the public interface of a library only exposes externally
//! defined symbols that an allow-list policy approves.
//!
//! The interface graph of the library under inspection is walked from its root
//! module. Every publicly reachable declaration is examined, every type
//! reference that names a declared item is checked against the policy, and
//! each reference that the policy does not cover is reported once for each
//! place where it stands.
//!
//! - [`graph`] holds the interface graph, [`config`] the policy.
//! - [`model`] states what a traversal yields, as mathematics.
//! - [`visitor`] is the traversal, proved to yield just that.
//! - [`path`] says where the traversal stands, [`error`] what it found, and
//!   [`collector`] gathers the findings in their order.
//! - [`laws`], [`soundness`] and [`order`] hold what is true of every
//!   traversal.
//! - [`table`] and [`text`] are what the rest is built on.

pub mod text;
pub mod table;
pub mod graph;
pub mod config;
pub mod path;
pub mod error;
pub mod collector;
pub mod model;
pub mod visitor;
pub mod laws;
pub mod soundness;
pub mod order;
