//! The batch-verification engine.  Device initialisation is not wired up, so
//! the engine stays disabled and every batch request reports that.

use vstd::prelude::*;

use crate::errors::ProveItError;

verus! {

/// A batch proof-verification engine.
#[derive(Debug)]
pub struct GpuVerificationEngine {
    /// Whether an accelerator was brought up.
    pub enabled: bool,
}

impl GpuVerificationEngine {
    /// A fresh engine; no accelerator is attached.
    pub fn new() -> (r: Self)
        ensures
            !r.enabled,
    {
        GpuVerificationEngine { enabled: false }
    }

    /// Brings the engine up.  No device path is wired in, so the engine
    /// stays disabled.
    pub fn initialize(&mut self) -> (r: Result<(), ProveItError>)
        ensures
            r is Ok,
            !final(self).enabled,
    {
        self.enabled = false;
        Ok(())
    }

    /// Whether batch verification is available.
    pub fn is_enabled(&self) -> (r: bool)
        ensures
            r == self.enabled,
    {
        self.enabled
    }

    /// Verifies a batch of proofs in parallel.  Fails while the engine is
    /// disabled; an enabled engine returns one flag per proof.
    pub fn batch_verify(&self, _proof_count: usize) -> (r: Result<Vec<bool>, ProveItError>)
        ensures
            r is Err <==> !self.enabled,
    {
        if !self.enabled {
            let mut m = String::new();
            m.append("batch verification is not enabled");
            return Err(ProveItError::VerificationError(m));
        }
        Ok(Vec::new())
    }
}

/// Initialisation for hosts compiled to the web; this build has no such
/// target, so it reports that.
pub fn init_wasm_gpu() -> (r: Result<(), ProveItError>)
    ensures
        r is Err,
{
    let mut m = String::new();
    m.append("web accelerator initialisation is only available in web builds");
    Err(ProveItError::VerificationError(m))
}

} // verus!
