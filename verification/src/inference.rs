//! How the scan pipeline orchestrates inference for each backend.

use vstd::prelude::*;
use crate::benchmark::Backend;

verus! {

/// Controls how the scan pipeline orchestrates inference.
pub struct InferenceConfig {
    /// Number of model instances. CPU: several for thread-parallel inference. GPU: 1.
    pub model_instances: usize,
    /// Images per inference call. 1 = single-image; more = batched.
    pub batch_size: usize,
    /// Pipeline mode: parallel preprocessing feeding dedicated inference.
    pub pipeline: bool,
}

/// Cap on CPU model instances (each holds its own copy of the model in memory).
pub const MAX_CPU_WORKERS: usize = 4;

/// The inference configuration of a backend. `available_parallelism` is the
/// number of hardware threads the system reports, if it reports one (never 0).
pub fn inference_config(backend: Backend, available_parallelism: Option<usize>) -> (r: InferenceConfig)
    requires
        available_parallelism matches Some(n) ==> n >= 1,
    ensures
        backend == Backend::Cuda ==> r.model_instances == 1 && r.batch_size == 32 && r.pipeline,
        backend == Backend::CoreMl ==> r.model_instances == 2 && r.batch_size == 1 && r.pipeline,
        backend == Backend::Cpu ==> r.batch_size == 1 && !r.pipeline && r.model_instances == match available_parallelism {
            Some(n) => if n < MAX_CPU_WORKERS { n } else { MAX_CPU_WORKERS },
            None => 2,
        },
        1 <= r.model_instances,
{
    match backend {
        Backend::Cuda => InferenceConfig { model_instances: 1, batch_size: 32, pipeline: true },
        Backend::CoreMl => InferenceConfig { model_instances: 2, batch_size: 1, pipeline: true },
        Backend::Cpu => {
            let instances = match available_parallelism {
                Some(n) => if n < MAX_CPU_WORKERS { n } else { MAX_CPU_WORKERS },
                None => 2,
            };
            InferenceConfig { model_instances: instances, batch_size: 1, pipeline: false }
        },
    }
}

} // verus!
