//! GPU health evaluation: what the benchmarks have a device do, how they judge
//! what it brings back, and the report on it.
//!
//! The library holds no device. It says which steps a device is to perform,
//! as data, takes what the steps brought, and decides.
use vstd::prelude::*;

pub mod benchmarks;
pub mod cli;
pub mod compute;
pub mod device_laws;
pub mod float_bits;
pub mod gpu_info;
pub mod ideal;
pub mod limits;
pub mod memory;
pub mod program;
pub mod report;
pub mod report_laws;
pub mod rounding;
pub mod score;
pub mod session;
pub mod text;
pub mod text_laws;
pub mod vulkan;

pub use benchmarks::{BenchmarkResult, TestStatus};
pub use gpu_info::GpuInfo;
pub use vulkan::VulkanContext;

verus! {

} // verus!
