//! The native session backend: what it hands the session of the discovered processors,
//! and which processor a start loads.

use vstd::prelude::*;

use crate::compute;
use crate::error::EngineError;
use crate::session;

verus! {

/// Presentation data that the session sees of a discovered processor.
pub open spec fn presented(p: compute::ComputeProcessor, shown: session::ComputeProcessor) -> bool {
    &&& shown.id@ == p.id@
    &&& shown.name@ == p.name@
    &&& shown.is_gpu == p.kind.spec_is_gpu()
    &&& shown.runtime@ == (if p.kind.spec_is_gpu() {
        compute::ComputeRuntime::Wgpu
    } else {
        compute::ComputeRuntime::Flex
    }).spec_name()
}

/// The backend that runs routes on this machine's audio system and processors.
#[derive(Clone, Copy, Debug, Default)]
pub struct NativeBackend;

impl NativeBackend {
    /// The session's view of the discovered processors, in discovery order: identifier,
    /// name, whether it is a GPU, and the name of the runtime it uses.
    pub fn processors(&self, discovered: &Vec<compute::ComputeProcessor>) -> (list: Vec<
        session::ComputeProcessor,
    >)
        ensures
            list@.len() == discovered@.len(),
            forall|k: int| 0 <= k < list@.len() ==> presented(discovered@[k], #[trigger] list@[k]),
    {
        let mut list: Vec<session::ComputeProcessor> = Vec::new();
        let mut i: usize = 0;
        while i < discovered.len()
            invariant
                i <= discovered.len(),
                list@.len() == i,
                forall|k: int| 0 <= k < i ==> presented(discovered@[k], #[trigger] list@[k]),
            decreases discovered.len() - i,
        {
            let p = &discovered[i];
            let runtime = p.default_runtime().name();
            list.push(
                session::ComputeProcessor {
                    id: p.id().to_owned(),
                    name: p.name().to_owned(),
                    is_gpu: p.is_gpu(),
                    runtime: runtime.to_owned(),
                },
            );
            i += 1;
        }
        list
    }

    /// The processor that a start loads: `None` runs the route without noise reduction;
    /// a selected identifier loads the first discovered processor with it, and fails when
    /// no discovered processor has it.
    pub fn start_processor<'a>(
        &self,
        discovered: &'a Vec<compute::ComputeProcessor>,
        processor: Option<&str>,
    ) -> (r: Result<Option<&'a compute::ComputeProcessor>, EngineError>)
        ensures
            processor is None ==> r == Ok::<Option<&compute::ComputeProcessor>, EngineError>(None),
            processor matches Some(id) ==> match r {
                Ok(Some(p)) => exists|k: int|
                    0 <= k < discovered@.len() && *p == discovered@[k] && discovered@[k].id@
                        == id@ && forall|j: int| 0 <= j < k ==> #[trigger] discovered@[j].id@ != id@,
                Ok(None) => false,
                Err(EngineError::NoiseReduction(m)) => m@
                    == "selected processor is no longer available"@ && forall|j: int|
                    0 <= j < discovered@.len() ==> #[trigger] discovered@[j].id@ != id@,
                Err(_) => false,
            },
    {
        match processor {
            None => Ok(None),
            Some(id) => {
                let found = compute::find_processor(discovered, id)?;
                Ok(Some(found))
            },
        }
    }
}

} // verus!
