//! Verified dispatch logic for running EVM contracts through code compiled ahead of time.

pub mod aot_precompiles;
pub mod buffer;
pub mod engine;
pub mod ffi_bridge;
pub mod inline_aot;
pub mod inline_dl;
pub mod library;
pub mod word;
