//! Adaptive pre-trade risk control: a versioned account store, an order
//! decision engine, a Monte Carlo value-at-risk estimator and a controller
//! that maps the latest estimate onto the account limits.

pub mod account;
pub mod store;
pub mod order;
pub mod decision;
pub mod var;
pub mod controller;
pub mod feeds;
