//! What holds of the library as a whole.

pub mod allocation;
pub mod guard;
pub mod inventory;
pub mod ownership;
pub mod release;
pub mod report;
pub mod requests;
pub mod reuse;
pub mod rounding;
pub mod service;
pub mod steps;
