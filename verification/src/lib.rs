//! A Prometheus exporter for Linux server metrics, read from `/proc`.
//!
//! `diagnostics` reads the kernel's text files into reports; `metrics`
//! renders reports in the Prometheus text exposition format.

pub mod diagnostics;
pub mod layout;
pub mod metrics;
pub mod numbers;
pub mod text;

use vstd::prelude::*;
use crate::diagnostics::host::HostReport;
use crate::metrics::{CpuGauges, FilesystemGauges, InterfaceGauges, MemoryGauges, SystemGauges};

verus! {

/// The outcome of one collector: its report, or why it failed.
#[derive(Debug)]
pub enum CheckResult<T> {
    Success(T),
    Failure { error: String },
}

/// What the collectors found, with every gauge value already rendered as
/// the exporter writes it (the decimal text of the floating-point value).
#[derive(Debug)]
pub struct Report {
    pub host: CheckResult<HostReport>,
    pub system: CheckResult<SystemGauges>,
    pub memory: CheckResult<MemoryGauges>,
    pub cpu: CheckResult<CpuGauges>,
    pub disk: CheckResult<Vec<FilesystemGauges>>,
    pub network: CheckResult<Vec<InterfaceGauges>>,
}

} // verus!
