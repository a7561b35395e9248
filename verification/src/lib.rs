//! Hardware diagnostics logic: configuration rules, SMART interpretation,
//! PCIe link inspection, storage mapping and diagnostic findings.
use vstd::prelude::*;

pub mod analyzer;
pub mod config;
pub mod dashboard;
pub mod engine;
pub mod json;
pub mod models;
pub mod pci;
pub mod providers;
pub mod rag;
pub mod smart;
pub mod storage;
pub mod system;
pub mod text;
pub mod throughput;

verus! {
} // verus!
