//! An in-memory store of restaurant orders, kept per table, with the
//! waitstaff simulation and the request handling that drive it.
//!
//! The store lives in [`database`], the dishes it holds in [`item`]. The
//! module [`client`] decides what a simulated waiter does in one job, and
//! [`server`] what a request against the store is answered with. Everything
//! that depends on chance or on the `uuid` crate goes through [`outside`].
//! The module [`laws`] states what holds of the store across several calls.

pub mod outside;
pub mod item;
pub mod database;
pub mod laws;
pub mod client;
pub mod server;
