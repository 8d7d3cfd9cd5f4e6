//! Readers of the protocol's field types that stand on their own.
pub mod rest;
pub mod var_int;
pub mod var_long;
