//! Published results of probe passes, and the probe that publishes them.

use vstd::prelude::*;

use crate::model::state::CurrentState;
use crate::probe::assemble::{
    adapter_outcomes, assemble_pass, boxed_adapters, AdapterList, describes, is_probe_pass, ProviderDescriptor,
    StateProvider,
};

verus! {

/// One immutable current-state publication.
#[derive(Debug, Clone, PartialEq, Eq)]
pub struct ProbeSnapshot {
    /// Process-local publication generation.
    pub generation: u64,
    /// State assembled from all successful providers.
    pub current: CurrentState,
}

/// Failure of a probe pass.
#[derive(Debug)]
pub enum ProbeError {
    /// Reading recorded or live input failed.
    Io(std::io::Error),
    /// Recorded JSON input was malformed.
    Json(serde_json::Error),
    /// An external command failed.
    CommandFailed { program: String, details: String },
    /// A required fixture output was absent.
    MissingOutput,
}

/// Linux current-state probe backed by provider-specific adapters.
pub struct LinuxProbe {
    providers: Vec<Box<dyn StateProvider>>,
    generation: u64,
}

impl LinuxProbe {
    /// Generation of the snapshots this probe publishes.
    pub closed spec fn spec_generation(&self) -> u64 {
        self.generation
    }

    /// Number of adapters, for contracts.
    pub closed spec fn provider_count(&self) -> nat {
        self.providers@.len()
    }

    /// The adapters this probe holds, in order.
    pub closed spec fn adapters(&self) -> Seq<&dyn StateProvider> {
        boxed_adapters(self.providers@)
    }

    /// Creates a probe from adapters with non-overlapping responsibilities.
    pub fn from_providers(providers: Vec<Box<dyn StateProvider>>) -> (r: Self)
        ensures
            r.spec_generation() == 1,
            r.provider_count() == providers@.len(),
            r.adapters() == boxed_adapters(providers@),
    {
        LinuxProbe { providers, generation: 1 }
    }

    /// Calls every adapter this probe holds through the assembler and
    /// publishes the assembled current state; an adapter's failure becomes a
    /// diagnostic of that state, never an error of the probe.
    pub fn probe(&self) -> (r: Result<ProbeSnapshot, ProbeError>)
        ensures
            r matches Ok(s) && s.generation == self.spec_generation() && s.current.graph.wf()
                && exists|ds: Seq<ProviderDescriptor>|
                describes(ds, self.adapters()) && is_probe_pass(
                    s.current,
                    ds,
                    adapter_outcomes(self.adapters()),
                ),
    {
        let adapters = self.providers.as_slice();
        assert(adapters.adapter_seq() == self.adapters());
        let current = assemble_pass(adapters);
        Ok(ProbeSnapshot { generation: self.generation, current })
    }
}

} // verus!
