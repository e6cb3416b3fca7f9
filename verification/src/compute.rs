//! Compute processors on which noise reduction can run, and the runtime each one uses.
//!
//! Discovery (the host CPU brand, the graphics adapters) is the caller's; this module
//! turns what was discovered into the processor list and decides which device to create.

use vstd::prelude::*;

use crate::error::EngineError;
use crate::sort::{is_stable_sort_by, lemma_sort_views, stable_sort_by_keys, text_order, SortKey};
use crate::text::{
    ascii_lower, chars_equal, chars_of, concat_str, decimal, hex8, lemma_decimal_digits,
    lemma_decimal_injective, push_char, push_decimal,
    push_hex8, string_from_chars, trim_chars, trimmed,
};

verus! {

/// Physical processor class.
#[derive(Clone, Copy, Debug, PartialEq, Eq, Structural)]
pub enum ProcessorKind {
    Cpu,
    IntegratedGpu,
    DiscreteGpu,
    VirtualGpu,
}

impl ProcessorKind {
    pub open spec fn spec_is_gpu(self) -> bool {
        !(self is Cpu)
    }

    pub fn is_gpu(self) -> (r: bool)
        ensures
            r == self.spec_is_gpu(),
    {
        !matches!(self, ProcessorKind::Cpu)
    }
}

/// Inference runtime.
#[derive(Clone, Copy, Debug, PartialEq, Eq, Structural)]
pub enum ComputeRuntime {
    Flex,
    Wgpu,
}

impl ComputeRuntime {
    pub open spec fn spec_name(self) -> Seq<char> {
        match self {
            ComputeRuntime::Flex => "Flex"@,
            ComputeRuntime::Wgpu => "WGPU"@,
        }
    }

    /// The name shown for the runtime.
    pub fn name(self) -> (r: &'static str)
        ensures
            r@ == self.spec_name(),
    {
        match self {
            ComputeRuntime::Flex => "Flex",
            ComputeRuntime::Wgpu => "WGPU",
        }
    }
}

/// Which graphics adapter of a class: the n-th adapter of that class in discovery order.
#[derive(Clone, Copy, Debug, PartialEq, Eq, Structural)]
pub enum GpuSelector {
    DiscreteGpu(usize),
    IntegratedGpu(usize),
    VirtualGpu(usize),
}

/// How the runtime finds a processor's device.
#[derive(Clone, Copy, Debug, PartialEq, Eq, Structural)]
pub enum ProcessorSelector {
    Cpu,
    Wgpu(GpuSelector),
}

/// A processor on which noise reduction can run.
#[derive(Clone, Debug, PartialEq, Eq)]
pub struct ComputeProcessor {
    pub id: String,
    pub name: String,
    pub kind: ProcessorKind,
    pub selector: ProcessorSelector,
}

impl View for ComputeProcessor {
    type V = (Seq<char>, Seq<char>, ProcessorKind, ProcessorSelector);

    open spec fn view(&self) -> (Seq<char>, Seq<char>, ProcessorKind, ProcessorSelector) {
        (self.id@, self.name@, self.kind, self.selector)
    }
}

impl ComputeProcessor {
    /// Identifier used to restore a persisted selection.
    pub fn id(&self) -> (r: &str)
        ensures
            r@ == self.id@,
    {
        self.id.as_str()
    }

    /// Human-readable processor name.
    pub fn name(&self) -> (r: &str)
        ensures
            r@ == self.name@,
    {
        self.name.as_str()
    }

    pub fn kind(&self) -> (r: ProcessorKind)
        ensures
            r == self.kind,
    {
        self.kind
    }

    pub fn is_gpu(&self) -> (r: bool)
        ensures
            r == self.kind.spec_is_gpu(),
    {
        self.kind.is_gpu()
    }

    /// Runtimes supported by this processor: WGPU on a GPU, Flex on the CPU.
    pub fn runtimes(&self) -> (r: Vec<ComputeRuntime>)
        ensures
            r@ == (if self.kind.spec_is_gpu() {
                seq![ComputeRuntime::Wgpu]
            } else {
                seq![ComputeRuntime::Flex]
            }),
    {
        let mut r: Vec<ComputeRuntime> = Vec::new();
        r.push(self.default_runtime());
        assert(r@ =~= seq![r@[0]]);
        r
    }

    /// The runtime this processor uses.
    pub fn default_runtime(&self) -> (r: ComputeRuntime)
        ensures
            r == (if self.kind.spec_is_gpu() {
                ComputeRuntime::Wgpu
            } else {
                ComputeRuntime::Flex
            }),
    {
        if self.is_gpu() {
            ComputeRuntime::Wgpu
        } else {
            ComputeRuntime::Flex
        }
    }
}

/// Failure to construct the selected device.
#[derive(Debug)]
pub enum RuntimeError {
    UnsupportedSelection { processor: String, runtime: ComputeRuntime },
    WgpuInitialization(String),
}

impl RuntimeError {
    pub open spec fn spec_message(&self) -> Seq<char> {
        match self {
            RuntimeError::UnsupportedSelection { processor, runtime } => runtime.spec_name()
                + " is not supported by processor '"@ + processor@ + "'"@,
            RuntimeError::WgpuInitialization(p) => "WGPU could not initialize processor '"@ + p@
                + "'"@,
        }
    }

    /// The text shown for this error.
    pub fn message(&self) -> (m: String)
        ensures
            m@ == self.spec_message(),
    {
        match self {
            RuntimeError::UnsupportedSelection { processor, runtime } => {
                let a = concat_str(runtime.name(), " is not supported by processor '");
                let b = concat_str(a.as_str(), processor.as_str());
                concat_str(b.as_str(), "'")
            },
            RuntimeError::WgpuInitialization(p) => {
                let a = concat_str("WGPU could not initialize processor '", p.as_str());
                concat_str(a.as_str(), "'")
            },
        }
    }
}

/// The device to create for a processor and runtime.
#[derive(Clone, Copy, Debug, PartialEq, Eq, Structural)]
pub enum DeviceChoice {
    Flex,
    Wgpu(GpuSelector),
}

/// Decides which device to create: the CPU with Flex, or a GPU with WGPU; any other pair
/// is refused.
pub fn device_selection(processor: &ComputeProcessor, runtime: ComputeRuntime) -> (r: Result<
    DeviceChoice,
    RuntimeError,
>)
    ensures
        match (processor.selector, runtime) {
            (ProcessorSelector::Cpu, ComputeRuntime::Flex) => r == Ok::<
                DeviceChoice,
                RuntimeError,
            >(DeviceChoice::Flex),
            (ProcessorSelector::Wgpu(s), ComputeRuntime::Wgpu) => r == Ok::<
                DeviceChoice,
                RuntimeError,
            >(DeviceChoice::Wgpu(s)),
            _ => r matches Err(RuntimeError::UnsupportedSelection { processor: p, runtime: rt })
                && p@ == processor.name@ && rt == runtime,
        },
{
    match (processor.selector, runtime) {
        (ProcessorSelector::Cpu, ComputeRuntime::Flex) => Ok(DeviceChoice::Flex),
        (ProcessorSelector::Wgpu(s), ComputeRuntime::Wgpu) => Ok(DeviceChoice::Wgpu(s)),
        _ => Err(
            RuntimeError::UnsupportedSelection { processor: processor.name.clone(), runtime },
        ),
    }
}

/// Position of a processor class in the list: discrete GPUs first, the CPU last.
pub open spec fn spec_processor_rank(kind: ProcessorKind) -> u8 {
    match kind {
        ProcessorKind::DiscreteGpu => 0,
        ProcessorKind::IntegratedGpu => 1,
        ProcessorKind::VirtualGpu => 2,
        ProcessorKind::Cpu => 3,
    }
}

pub fn processor_rank(kind: ProcessorKind) -> (r: u8)
    ensures
        r == spec_processor_rank(kind),
{
    match kind {
        ProcessorKind::DiscreteGpu => 0,
        ProcessorKind::IntegratedGpu => 1,
        ProcessorKind::VirtualGpu => 2,
        ProcessorKind::Cpu => 3,
    }
}

/// The texts of a list of strings.
pub open spec fn string_views(strings: Seq<String>) -> Seq<Seq<char>> {
    strings.map_values(|s: String| s@)
}

/// Index of the first brand that is not blank.
pub open spec fn is_first_named(brands: Seq<Seq<char>>, k: int) -> bool {
    0 <= k < brands.len() && trimmed(brands[k]).len() > 0 && forall|j: int|
        0 <= j < k ==> trimmed(#[trigger] brands[j]).len() == 0
}

/// Whether `name` is the CPU's name for the reported brand strings: the first non-blank
/// brand, trimmed, or "CPU" when every brand is blank.
pub open spec fn cpu_name(brands: Seq<Seq<char>>, name: Seq<char>) -> bool {
    &&& (exists|k: int| #[trigger] is_first_named(brands, k)) ==> exists|k: int|
        #[trigger] is_first_named(brands, k) && name == trimmed(brands[k])
    &&& !(exists|k: int| #[trigger] is_first_named(brands, k)) ==> name == "CPU"@
}

/// The host CPU as the single Flex processor, named after the first non-blank brand
/// string reported for its cores (trimmed), or "CPU".
pub fn cpu_processor(brands: &Vec<String>) -> (p: ComputeProcessor)
    ensures
        p.id@ == "cpu"@,
        p.kind == ProcessorKind::Cpu,
        p.selector == ProcessorSelector::Cpu,
        cpu_name(string_views(brands@), p.name@),
{
    let ghost views = string_views(brands@);
    let mut i: usize = 0;
    while i < brands.len()
        invariant
            i <= brands.len(),
            views == string_views(brands@),
            forall|j: int| 0 <= j < i ==> trimmed(#[trigger] views[j]).len() == 0,
        decreases brands.len() - i,
    {
        let chars = chars_of(brands[i].as_str());
        let t = trim_chars(chars.as_slice());
        if t.len() > 0 {
            assert(is_first_named(views, i as int));
            return ComputeProcessor {
                id: String::from_str("cpu"),
                name: string_from_chars(t.as_slice()),
                kind: ProcessorKind::Cpu,
                selector: ProcessorSelector::Cpu,
            };
        }
        i += 1;
    }
    assert(forall|k: int| !is_first_named(views, k));
    ComputeProcessor {
        id: String::from_str("cpu"),
        name: String::from_str("CPU"),
        kind: ProcessorKind::Cpu,
        selector: ProcessorSelector::Cpu,
    }
}

/// Class of a graphics adapter as the graphics API reports it.
#[derive(Clone, Copy, Debug, PartialEq, Eq, Structural)]
pub enum AdapterType {
    Other,
    IntegratedGpu,
    DiscreteGpu,
    VirtualGpu,
    Cpu,
}

impl AdapterType {
    /// The variant's name, as it appears in processor identifiers.
    pub open spec fn spec_name(self) -> Seq<char> {
        match self {
            AdapterType::Other => "Other"@,
            AdapterType::IntegratedGpu => "IntegratedGpu"@,
            AdapterType::DiscreteGpu => "DiscreteGpu"@,
            AdapterType::VirtualGpu => "VirtualGpu"@,
            AdapterType::Cpu => "Cpu"@,
        }
    }

    pub fn name(self) -> (r: &'static str)
        ensures
            r@ == self.spec_name(),
    {
        match self {
            AdapterType::Other => "Other",
            AdapterType::IntegratedGpu => "IntegratedGpu",
            AdapterType::DiscreteGpu => "DiscreteGpu",
            AdapterType::VirtualGpu => "VirtualGpu",
            AdapterType::Cpu => "Cpu",
        }
    }
}

/// What the graphics API reports about one adapter.
#[derive(Debug)]
pub struct AdapterDescription {
    pub name: String,
    pub vendor: u32,
    pub device: u32,
    pub device_type: AdapterType,
    /// Name of the graphics backend, such as "Vulkan".
    pub backend: String,
    pub pci_bus_id: String,
}

/// Whether `c` is an ASCII letter or digit.
pub open spec fn is_ascii_alnum(c: char) -> bool {
    ('0' <= c && c <= '9') || ('a' <= c && c <= 'z') || ('A' <= c && c <= 'Z')
}

/// A name reduced to lower-case ASCII letters and digits, every other character a dash.
pub open spec fn id_name(s: Seq<char>) -> Seq<char> {
    Seq::new(s.len(), |i: int| if is_ascii_alnum(s[i]) { ascii_lower(s[i]) } else { '-' })
}

/// Stable identifier of an adapter: backend, class, vendor and device numbers in hex, bus
/// and the reduced name.
pub open spec fn spec_gpu_id(a: AdapterDescription) -> Seq<char> {
    "wgpu:"@ + a.backend@ + ":"@ + a.device_type.spec_name() + ":"@ + hex8(a.vendor) + ":"@
        + hex8(a.device) + ":"@ + trimmed(a.pci_bus_id@) + ":"@ + id_name(trimmed(a.name@))
}

fn push_str(s: &mut String, tail: &str)
    ensures
        final(s)@ == old(s)@ + tail@,
{
    let chars = chars_of(tail);
    push_chars(s, &chars);
}

fn push_chars(s: &mut String, chars: &Vec<char>)
    ensures
        final(s)@ == old(s)@ + chars@,
{
    let ghost start = s@;
    let mut i: usize = 0;
    while i < chars.len()
        invariant
            i <= chars.len(),
            s@ == start + chars@.take(i as int),
        decreases chars.len() - i,
    {
        push_char(s, chars[i]);
        i += 1;
        assert(s@ =~= start + chars@.take(i as int));
    }
    assert(chars@.take(chars@.len() as int) =~= chars@);
}

/// The identifier of an adapter.
pub fn gpu_id(a: &AdapterDescription) -> (id: String)
    ensures
        id@ == spec_gpu_id(*a),
{
    let name_chars = chars_of(a.name.as_str());
    let name = trim_chars(name_chars.as_slice());
    let mut reduced: Vec<char> = Vec::new();
    let mut i: usize = 0;
    while i < name.len()
        invariant
            i <= name.len(),
            reduced@ == id_name(name@).take(i as int),
        decreases name.len() - i,
    {
        let c = name[i];
        let is_alnum = ('0' <= c && c <= '9') || ('a' <= c && c <= 'z') || ('A' <= c && c <= 'Z');
        let mapped = if is_alnum {
            crate::text::char_to_ascii_lowercase(c)
        } else {
            '-'
        };
        reduced.push(mapped);
        i += 1;
        assert(reduced@ =~= id_name(name@).take(i as int));
    }
    assert(id_name(name@).take(name@.len() as int) =~= id_name(name@));
    let bus_chars = chars_of(a.pci_bus_id.as_str());
    let bus = trim_chars(bus_chars.as_slice());
    let mut id = String::from_str("wgpu:");
    push_str(&mut id, a.backend.as_str());
    push_str(&mut id, ":");
    push_str(&mut id, a.device_type.name());
    push_str(&mut id, ":");
    push_hex8(&mut id, a.vendor);
    push_str(&mut id, ":");
    push_hex8(&mut id, a.device);
    push_str(&mut id, ":");
    push_chars(&mut id, &bus);
    push_str(&mut id, ":");
    push_chars(&mut id, &reduced);
    id
}

/// Number of adapters of class `t` in `adapters`.
pub open spec fn type_count(adapters: Seq<AdapterDescription>, t: AdapterType) -> nat
    decreases adapters.len(),
{
    if adapters.len() == 0 {
        0
    } else {
        type_count(adapters.drop_last(), t) + if adapters.last().device_type == t {
            1nat
        } else {
            0nat
        }
    }
}

/// The processor an adapter becomes, given how many adapters of its class came before it;
/// CPU and unknown adapters are not offered.
pub open spec fn adapter_entry(a: AdapterDescription, index: nat) -> Option<
    (Seq<char>, Seq<char>, ProcessorKind, ProcessorSelector),
> {
    match a.device_type {
        AdapterType::DiscreteGpu => Some(
            (
                spec_gpu_id(a),
                trimmed(a.name@),
                ProcessorKind::DiscreteGpu,
                ProcessorSelector::Wgpu(GpuSelector::DiscreteGpu(index as usize)),
            ),
        ),
        AdapterType::IntegratedGpu => Some(
            (
                spec_gpu_id(a),
                trimmed(a.name@),
                ProcessorKind::IntegratedGpu,
                ProcessorSelector::Wgpu(GpuSelector::IntegratedGpu(index as usize)),
            ),
        ),
        AdapterType::VirtualGpu => Some(
            (
                spec_gpu_id(a),
                trimmed(a.name@),
                ProcessorKind::VirtualGpu,
                ProcessorSelector::Wgpu(GpuSelector::VirtualGpu(index as usize)),
            ),
        ),
        _ => None,
    }
}

/// The processors made from the adapters, in discovery order.
pub open spec fn adapter_entries(adapters: Seq<AdapterDescription>) -> Seq<
    (Seq<char>, Seq<char>, ProcessorKind, ProcessorSelector),
>
    decreases adapters.len(),
{
    if adapters.len() == 0 {
        Seq::empty()
    } else {
        let rest = adapter_entries(adapters.drop_last());
        match adapter_entry(
            adapters.last(),
            type_count(adapters.drop_last(), adapters.last().device_type),
        ) {
            Some(e) => rest.push(e),
            None => rest,
        }
    }
}

/// Number of entries in `entries` with identifier `id`.
pub open spec fn id_count(
    entries: Seq<(Seq<char>, Seq<char>, ProcessorKind, ProcessorSelector)>,
    id: Seq<char>,
) -> nat
    decreases entries.len(),
{
    if entries.len() == 0 {
        0
    } else {
        id_count(entries.drop_last(), id) + if entries.last().0 == id {
            1nat
        } else {
            0nat
        }
    }
}

/// Entry `k` made unique: the n-th repeat of an identifier (n > 0) gets "#n" appended to
/// the identifier and " (n+1)" to the name.
pub open spec fn disambiguated(
    entries: Seq<(Seq<char>, Seq<char>, ProcessorKind, ProcessorSelector)>,
    k: int,
) -> (Seq<char>, Seq<char>, ProcessorKind, ProcessorSelector) {
    let e = entries[k];
    let n = id_count(entries.take(k), e.0);
    if n == 0 {
        e
    } else {
        (e.0 + "#"@ + decimal(n), e.1 + " ("@ + decimal(n + 1) + ")"@, e.2, e.3)
    }
}

pub open spec fn all_disambiguated(
    entries: Seq<(Seq<char>, Seq<char>, ProcessorKind, ProcessorSelector)>,
) -> Seq<(Seq<char>, Seq<char>, ProcessorKind, ProcessorSelector)> {
    Seq::new(entries.len(), |k: int| disambiguated(entries, k))
}

/// An identifier counted among the first `k` entries is also counted among the first `j`
/// entries for `j >= k`, once more for each further occurrence.
proof fn lemma_id_count_grows(
    entries: Seq<(Seq<char>, Seq<char>, ProcessorKind, ProcessorSelector)>,
    id: Seq<char>,
    k: int,
    j: int,
)
    requires
        0 <= k <= j <= entries.len(),
    ensures
        id_count(entries.take(k), id) <= id_count(entries.take(j), id),
        k < j && entries[k].0 == id ==> id_count(entries.take(k), id) + 1 <= id_count(
            entries.take(j),
            id,
        ),
    decreases j - k,
{
    if k < j {
        lemma_id_count_grows(entries, id, k, j - 1);
        assert(entries.take(j).drop_last() =~= entries.take(j - 1));
        assert(entries.take(j).last() == entries[j - 1]);
        if entries[k].0 == id && k == j - 1 {
            assert(entries.take(k) =~= entries.take(j - 1));
        }
    }
}

/// The disambiguated identifiers are pairwise distinct when no discovered identifier
/// contains '#': every repeat of an identifier gets its own number.
///
/// Without that condition it fails: identifiers "x", "x", "x#1" become "x", "x#1", "x#1".
pub proof fn lemma_disambiguated_ids_are_distinct(
    entries: Seq<(Seq<char>, Seq<char>, ProcessorKind, ProcessorSelector)>,
    k1: int,
    k2: int,
)
    requires
        forall|k: int| 0 <= k < entries.len() ==> !(#[trigger] entries[k]).0.contains('#'),
        0 <= k1 < k2 < entries.len(),
    ensures
        disambiguated(entries, k1).0 != disambiguated(entries, k2).0,
{
    let s1 = entries[k1].0;
    let s2 = entries[k2].0;
    let n1 = id_count(entries.take(k1), s1);
    let n2 = id_count(entries.take(k2), s2);
    let id1 = disambiguated(entries, k1).0;
    let id2 = disambiguated(entries, k2).0;
    reveal_strlit("#");
    assert(!s1.contains('#'));
    assert(!s2.contains('#'));
    if id1 == id2 {
        if n1 == 0 && n2 == 0 {
            lemma_id_count_grows(entries, s2, k1, k2);
            lemma_id_count_grows(entries, s2, 0, k1);
        } else if n1 == 0 {
            assert(id2[s2.len() as int] == '#');
            assert(s1[s2.len() as int] == '#');
        } else if n2 == 0 {
            assert(id1[s1.len() as int] == '#');
            assert(s2[s1.len() as int] == '#');
        } else {
            lemma_decimal_digits(n1);
            lemma_decimal_digits(n2);
            if s1.len() < s2.len() {
                assert(id1[s1.len() as int] == '#');
                assert(s2[s1.len() as int] == '#');
            } else if s2.len() < s1.len() {
                assert(id2[s2.len() as int] == '#');
                assert(s1[s2.len() as int] == '#');
            } else {
                assert(s1 =~= id1.take(s1.len() as int));
                assert(s2 =~= id2.take(s2.len() as int));
                assert(decimal(n1) =~= id1.skip(s1.len() as int + 1));
                assert(decimal(n2) =~= id2.skip(s2.len() as int + 1));
                lemma_decimal_injective(n1, n2);
                lemma_id_count_grows(entries, s2, k1, k2);
            }
        }
    }
}

/// Processor order: by class rank, then by name.
pub open spec fn processor_order(
    a: (Seq<char>, Seq<char>, ProcessorKind, ProcessorSelector),
    b: (Seq<char>, Seq<char>, ProcessorKind, ProcessorSelector),
) -> int {
    if spec_processor_rank(a.2) < spec_processor_rank(b.2) {
        -1
    } else if spec_processor_rank(a.2) > spec_processor_rank(b.2) {
        1
    } else {
        text_order(a.1, b.1)
    }
}

pub open spec fn by_processor_order() -> spec_fn(
    (Seq<char>, Seq<char>, ProcessorKind, ProcessorSelector),
    (Seq<char>, Seq<char>, ProcessorKind, ProcessorSelector),
) -> int {
    |
        a: (Seq<char>, Seq<char>, ProcessorKind, ProcessorSelector),
        b: (Seq<char>, Seq<char>, ProcessorKind, ProcessorSelector),
    |
        processor_order(a, b)
}

pub open spec fn processor_views(processors: Seq<ComputeProcessor>) -> Seq<
    (Seq<char>, Seq<char>, ProcessorKind, ProcessorSelector),
> {
    processors.map_values(|p: ComputeProcessor| p@)
}

/// The selectable graphics processors: one per GPU adapter, numbered within its class in
/// discovery order, identifiers made unique, ordered discrete, integrated, virtual, then
/// by name.
pub fn gpu_processors(adapters: &Vec<AdapterDescription>) -> (processors: Vec<ComputeProcessor>)
    ensures
        exists|origin: Seq<int>|
            #[trigger] is_stable_sort_by(
                all_disambiguated(adapter_entries(adapters@)),
                by_processor_order(),
                processor_views(processors@),
                origin,
            ),
{
    let entries = discovered(adapters);
    let unique = disambiguate_duplicate_ids(entries);
    let ghost input = unique@;
    let mut keys: Vec<SortKey> = Vec::new();
    let mut i: usize = 0;
    while i < unique.len()
        invariant
            i <= unique.len(),
            input == unique@,
            keys@.len() == i,
            forall|k: int|
                0 <= k < i ==> (#[trigger] keys@[k]).text@ == input[k].name@ && keys@[k].minor == 0
                    && keys@[k].rank == spec_processor_rank(input[k].kind) as u32,
        decreases unique.len() - i,
    {
        let text = chars_of(unique[i].name.as_str());
        let rank = processor_rank(unique[i].kind) as u32;
        keys.push(SortKey { rank, text, minor: 0 });
        i += 1;
    }
    let ghost key_seq = keys@;
    let sorted = stable_sort_by_keys(unique, keys);
    proof {
        let origin = choose|origin: Seq<int>| crate::sort::is_stable_sort(input, key_seq, sorted@, origin);
        let view = |p: ComputeProcessor| p@;
        let order = by_processor_order();
        assert forall|i: int, j: int| 0 <= i < input.len() && 0 <= j < input.len() implies crate::sort::key_order(
            key_seq[i],
            key_seq[j],
        ) == order(view(input[i]), view(input[j])) by {
            assert(key_seq[i].text@ == input[i].name@);
            assert(key_seq[j].text@ == input[j].name@);
        }
        lemma_sort_views(input, key_seq, sorted@, origin, view, order);
        assert(input.map_values(view) =~= processor_views(input));
        assert(sorted@.map_values(view) =~= processor_views(sorted@));
    }
    sorted
}

/// One processor per GPU adapter, in discovery order.
fn discovered(adapters: &Vec<AdapterDescription>) -> (entries: Vec<ComputeProcessor>)
    ensures
        processor_views(entries@) == adapter_entries(adapters@),
{
    let mut entries: Vec<ComputeProcessor> = Vec::new();
    let mut discrete: usize = 0;
    let mut integrated: usize = 0;
    let mut virt: usize = 0;
    let mut i: usize = 0;
    while i < adapters.len()
        invariant
            i <= adapters.len(),
            processor_views(entries@) == adapter_entries(adapters@.take(i as int)),
            discrete == type_count(adapters@.take(i as int), AdapterType::DiscreteGpu),
            integrated == type_count(adapters@.take(i as int), AdapterType::IntegratedGpu),
            virt == type_count(adapters@.take(i as int), AdapterType::VirtualGpu),
            discrete <= i,
            integrated <= i,
            virt <= i,
        decreases adapters.len() - i,
    {
        let a = &adapters[i];
        let ghost prefix = adapters@.take(i as int);
        assert(adapters@.take(i + 1).drop_last() =~= prefix);
        assert(adapters@.take(i + 1).last() == adapters@[i as int]);
        let chosen: Option<(ProcessorKind, GpuSelector)> = match a.device_type {
            AdapterType::DiscreteGpu => {
                let s = GpuSelector::DiscreteGpu(discrete);
                discrete += 1;
                Some((ProcessorKind::DiscreteGpu, s))
            },
            AdapterType::IntegratedGpu => {
                let s = GpuSelector::IntegratedGpu(integrated);
                integrated += 1;
                Some((ProcessorKind::IntegratedGpu, s))
            },
            AdapterType::VirtualGpu => {
                let s = GpuSelector::VirtualGpu(virt);
                virt += 1;
                Some((ProcessorKind::VirtualGpu, s))
            },
            _ => None,
        };
        match chosen {
            Some((kind, selector)) => {
                let name_chars = chars_of(a.name.as_str());
                let name = trim_chars(name_chars.as_slice());
                let p = ComputeProcessor {
                    id: gpu_id(a),
                    name: string_from_chars(name.as_slice()),
                    kind,
                    selector: ProcessorSelector::Wgpu(selector),
                };
                entries.push(p);
                assert(processor_views(entries@) =~= adapter_entries(prefix).push(
                    adapter_entry(adapters@[i as int], type_count(prefix, adapters@[i as int].device_type))->0,
                ));
            },
            None => {},
        }
        i += 1;
    }
    assert(adapters@.take(adapters@.len() as int) =~= adapters@);
    entries
}

/// Gives the n-th repeat (n > 0) of an identifier the suffix "#n" and its name " (n+1)".
pub fn disambiguate_duplicate_ids(processors: Vec<ComputeProcessor>) -> (unique: Vec<ComputeProcessor>)
    ensures
        processor_views(unique@) == all_disambiguated(processor_views(processors@)),
{
    let ghost entries = processor_views(processors@);
    let mut unique: Vec<ComputeProcessor> = Vec::new();
    let mut earlier_ids: Vec<Vec<char>> = Vec::new();
    let mut rest = processors;
    let n = rest.len();
    let mut k: usize = 0;
    while k < n
        invariant
            k <= n == entries.len(),
            processor_views(rest@) == entries.skip(k as int),
            earlier_ids@.len() == k,
            forall|j: int| 0 <= j < k ==> (#[trigger] earlier_ids@[j])@ == entries[j].0,
            processor_views(unique@) == all_disambiguated(entries).take(k as int),
        decreases n - k,
    {
        assert(processor_views(rest@).len() == rest@.len());
        assert(processor_views(rest@)[0] == rest@[0]@);
        let ghost rest0 = rest@;
        let ghost unique0 = unique@;
        assert(processor_views(unique0).len() == unique0.len());
        assert(unique0.len() == k);
        let p = rest.remove(0);
        assert(p@ == entries[k as int]);
        let own_id = chars_of(p.id.as_str());
        // How many earlier entries carried the same identifier.
        let mut count: usize = 0;
        let mut j: usize = 0;
        while j < k
            invariant
                j <= k,
                count <= j,
                earlier_ids@.len() == k,
                k < n == entries.len(),
                own_id@ == entries[k as int].0,
                forall|m: int| 0 <= m < k ==> (#[trigger] earlier_ids@[m])@ == entries[m].0,
                count == id_count(entries.take(j as int), entries[k as int].0),
            decreases k - j,
        {
            assert(entries.take(j + 1).drop_last() =~= entries.take(j as int));
            if chars_equal(earlier_ids[j].as_slice(), own_id.as_slice()) {
                count += 1;
            }
            j += 1;
        }
        let fixed = if count == 0 {
            p
        } else {
            let mut id = p.id;
            push_char(&mut id, '#');
            push_decimal(&mut id, count as u64);
            let mut name = p.name;
            push_str(&mut name, " (");
            push_decimal(&mut name, (count + 1) as u64);
            push_char(&mut name, ')');
            proof {
                reveal_strlit("#");
                reveal_strlit(")");
            }
            assert(id@ =~= entries[k as int].0 + "#"@ + decimal(count as nat));
            assert(name@ =~= entries[k as int].1 + " ("@ + decimal((count + 1) as nat) + ")"@);
            ComputeProcessor { id, name, kind: p.kind, selector: p.selector }
        };
        assert(fixed@ == disambiguated(entries, k as int));
        let ghost fixed_view = fixed@;
        unique.push(fixed);
        assert(unique@[k as int]@ == fixed_view);
        earlier_ids.push(own_id);
        k += 1;
        assert forall|m: int| 0 <= m < rest@.len() implies #[trigger] processor_views(rest@)[m]
            == entries.skip(k as int)[m] by {
            assert(rest@[m] == rest0[m + 1]);
            assert(processor_views(rest0)[m + 1] == rest0[m + 1]@);
        }
        assert(processor_views(rest@) =~= entries.skip(k as int));
        assert forall|m: int| 0 <= m < unique@.len() implies #[trigger] processor_views(unique@)[m]
            == all_disambiguated(entries).take(k as int)[m] by {
            if m < unique@.len() - 1 {
                assert(unique@[m] == unique0[m]);
                assert(processor_views(unique0)[m] == unique0[m]@);
                assert(processor_views(unique0)[m] == all_disambiguated(entries).take(k - 1)[m]);
            } else {
                assert(m == k - 1);
                assert(unique@[m]@ == disambiguated(entries, m));
            }
        }
        assert(processor_views(unique@) =~= all_disambiguated(entries).take(k as int));
    }
    assert(all_disambiguated(entries).take(n as int) =~= all_disambiguated(entries));
    unique
}

/// Every processor: the CPU first, then the selectable graphics processors.
pub fn processors(brands: &Vec<String>, adapters: &Vec<AdapterDescription>) -> (list: Vec<
    ComputeProcessor,
>)
    ensures
        list@.len() >= 1,
        list@[0].id@ == "cpu"@,
        list@[0].kind == ProcessorKind::Cpu,
        list@[0].selector == ProcessorSelector::Cpu,
        cpu_name(string_views(brands@), list@[0].name@),
        exists|origin: Seq<int>|
            #[trigger] is_stable_sort_by(
                all_disambiguated(adapter_entries(adapters@)),
                by_processor_order(),
                processor_views(list@.skip(1)),
                origin,
            ),
{
    let cpu = cpu_processor(brands);
    let mut gpus = gpu_processors(adapters);
    let ghost gpu_seq = gpus@;
    let mut list: Vec<ComputeProcessor> = Vec::new();
    list.push(cpu);
    list.append(&mut gpus);
    assert(list@.skip(1) =~= gpu_seq);
    list
}

/// The first processor with identifier `id`; fails when the selected processor is no
/// longer listed.
pub fn find_processor<'a>(processors: &'a Vec<ComputeProcessor>, id: &str) -> (r: Result<
    &'a ComputeProcessor,
    EngineError,
>)
    ensures
        match r {
            Ok(p) => exists|k: int|
                0 <= k < processors@.len() && *p == processors@[k] && processors@[k].id@ == id@
                    && forall|j: int| 0 <= j < k ==> #[trigger] processors@[j].id@ != id@,
            Err(EngineError::NoiseReduction(m)) => m@ == "selected processor is no longer available"@
                && forall|j: int| 0 <= j < processors@.len() ==> #[trigger] processors@[j].id@ != id@,
            Err(_) => false,
        },
{
    let wanted = chars_of(id);
    let mut i: usize = 0;
    while i < processors.len()
        invariant
            i <= processors.len(),
            wanted@ == id@,
            forall|j: int| 0 <= j < i ==> #[trigger] processors@[j].id@ != id@,
        decreases processors.len() - i,
    {
        let candidate = chars_of(processors[i].id.as_str());
        if chars_equal(candidate.as_slice(), wanted.as_slice()) {
            return Ok(&processors[i]);
        }
        i += 1;
    }
    Err(EngineError::NoiseReduction(String::from_str("selected processor is no longer available")))
}

/// In a processor list ordered as the listing orders it, discrete GPUs come first, then
/// integrated, then virtual GPUs, then the CPU, whatever their names; within one class
/// the names are in order.
pub proof fn lemma_processor_classes_in_order(
    input: Seq<(Seq<char>, Seq<char>, ProcessorKind, ProcessorSelector)>,
    output: Seq<(Seq<char>, Seq<char>, ProcessorKind, ProcessorSelector)>,
    origin: Seq<int>,
    i: int,
    j: int,
)
    requires
        is_stable_sort_by(input, by_processor_order(), output, origin),
        0 <= i < j < output.len(),
    ensures
        output[j].2 == ProcessorKind::DiscreteGpu ==> output[i].2 == ProcessorKind::DiscreteGpu,
        output[j].2 == ProcessorKind::IntegratedGpu ==> (output[i].2 == ProcessorKind::DiscreteGpu
            || output[i].2 == ProcessorKind::IntegratedGpu),
        output[j].2 == ProcessorKind::VirtualGpu ==> output[i].2 != ProcessorKind::Cpu,
        output[i].2 == ProcessorKind::Cpu ==> output[j].2 == ProcessorKind::Cpu,
        output[i].2 == output[j].2 ==> text_order(output[i].1, output[j].1) <= 0,
{
    assert(by_processor_order()(output[i], output[j]) <= 0);
}

} // verus!
