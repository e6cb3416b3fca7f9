//! The inference devices of the ahead-of-time compiled network: which device a stream may
//! open, and which CPU build of the model it loads.

use vstd::prelude::*;

use crate::text::{chars_equal, chars_of, concat_str};

verus! {

/// A physical GPU that the inference runtime can open, by its persistent path.
#[derive(Clone, Debug)]
pub struct Device {
    pub uri: String,
    pub name: String,
    pub integrated: bool,
}

/// Device path of the CPU, which is always available.
pub const CPU_URI: &'static str = "cpu";

/// Whether a stream may open `uri`: the CPU, or a device that discovery listed.
pub open spec fn is_available(uri: Seq<char>, devices: Seq<Device>) -> bool {
    uri == CPU_URI@ || exists|k: int| 0 <= k < devices.len() && (#[trigger] devices[k]).uri@ == uri
}

/// Checks that `uri` can be opened before a stream is created on it; fails with the
/// message that the selected processor is gone otherwise.
pub fn check_available(uri: &str, devices: &Vec<Device>) -> (r: Result<(), &'static str>)
    ensures
        match r {
            Ok(()) => is_available(uri@, devices@),
            Err(m) => !is_available(uri@, devices@) && m@ == "selected processor is no longer available"@,
        },
{
    let wanted = chars_of(uri);
    let cpu = chars_of(CPU_URI);
    if chars_equal(wanted.as_slice(), cpu.as_slice()) {
        return Ok(());
    }
    let mut i: usize = 0;
    while i < devices.len()
        invariant
            i <= devices.len(),
            wanted@ == uri@,
            forall|j: int| 0 <= j < i ==> (#[trigger] devices@[j]).uri@ != uri@,
        decreases devices.len() - i,
    {
        let candidate = chars_of(devices[i].uri.as_str());
        if chars_equal(candidate.as_slice(), wanted.as_slice()) {
            return Ok(());
        }
        i += 1;
    }
    Err("selected processor is no longer available")
}

/// Build of the CPU model to load.
#[derive(Clone, Copy, Debug, PartialEq, Eq, Structural)]
pub enum CpuModel {
    /// Built for x86-64 processors with AVX2 and FMA.
    Avx2,
    /// Runs on any supported processor.
    Portable,
}

/// The AVX2 build on an x86-64 processor that has both AVX2 and FMA, the portable build
/// otherwise.
pub fn cpu_model(x86_64: bool, avx2: bool, fma: bool) -> (m: CpuModel)
    ensures
        m == (if x86_64 && avx2 && fma {
            CpuModel::Avx2
        } else {
            CpuModel::Portable
        }),
{
    if x86_64 && avx2 && fma {
        CpuModel::Avx2
    } else {
        CpuModel::Portable
    }
}

/// Device kind that the runtime reports for an integrated GPU.
pub const INTEGRATED_KIND: i32 = 1;

/// The device that discovery reports for a GPU at `path`: opened by the `vulkan://` path,
/// integrated when the runtime reports the integrated kind.
pub fn device_entry(path: &str, name: &str, kind: i32) -> (d: Device)
    ensures
        d.uri@ == "vulkan://"@ + path@,
        d.name@ == name@,
        d.integrated == (kind == INTEGRATED_KIND),
{
    Device { uri: concat_str("vulkan://", path), name: name.to_owned(), integrated: kind == INTEGRATED_KIND }
}

/// Length of the error message in a runtime's error buffer: up to the first NUL byte, or
/// the whole buffer when there is none.
pub fn message_end(error: &[u8]) -> (end: usize)
    ensures
        end <= error@.len(),
        forall|i: int| 0 <= i < end ==> error@[i] != 0,
        end < error@.len() ==> error@[end as int] == 0,
{
    let mut i: usize = 0;
    while i < error.len()
        invariant
            i <= error@.len(),
            forall|j: int| 0 <= j < i ==> error@[j] != 0,
        decreases error.len() - i,
    {
        if error[i] == 0 {
            return i;
        }
        i += 1;
    }
    i
}

} // verus!
