//! Verified core of the memory orchestration layer.

pub mod big_nat;
pub mod clock;
pub mod counters;
pub mod digest;
pub mod errors;
pub mod keyed;
pub mod orchestration;
pub mod ort_backend;
pub mod promotion;
pub mod qwen3_bridge;
pub mod random;
pub mod resource_manager;
pub mod retry;
pub mod semantic_with_fallback;
pub mod service;
pub mod text;
pub mod words;
