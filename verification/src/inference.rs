//! Hot model registry: which models are resident in memory, and how a model
//! is configured and loaded.
//!
//! The registry is generic over what a slot holds; the runtime keeps the
//! loaded adapter and its load time there.

use vstd::prelude::*;
use crate::somi::{cpu_count, thread_count_of};
use crate::table::KeyedTable;
use crate::types::ModelFormat;

verus! {

/// Configuration options for loading a model into memory.
pub struct ModelLoadConfig {
    pub model_id: String,
    pub model_path: String,
    pub format: ModelFormat,
    pub context_length: u32,
    pub gpu_layers: u32,
    pub n_threads: u32,
    pub use_mmap: bool,
}

impl ModelLoadConfig {
    /// The default configuration, given the detected GPU layer count: no
    /// model yet, GGUF, a 4096-token context, one thread per logical CPU
    /// and memory-mapped weights.
    pub fn default_with_gpu_layers(gpu_layers: u32) -> (c: Self)
        ensures
            c.model_id@ == Seq::<char>::empty(),
            c.model_path@ == Seq::<char>::empty(),
            c.format == ModelFormat::Gguf,
            c.context_length == 4096,
            c.gpu_layers == gpu_layers,
            exists|cpus: usize| cpus >= 1 && c.n_threads == #[trigger] thread_count_of(cpus),
            c.use_mmap,
    {
        let cpus = cpu_count();
        assert(thread_count_of(cpus) == cpus as u32);
        ModelLoadConfig {
            model_id: String::new(),
            model_path: String::new(),
            format: ModelFormat::Gguf,
            context_length: 4096,
            gpu_layers,
            n_threads: cpus as u32,
            use_mmap: true,
        }
    }
}

/// GPU layers to offload for a detected amount of VRAM (in MB): all of them
/// (99) from 16 GB, 33 from 8 GB, 20 from 4 GB, and 24 otherwise or when no
/// VRAM could be detected.
pub fn gpu_layers_for_vram(vram_mb: Option<u32>) -> (layers: u32)
    ensures
        layers == match vram_mb {
            Some(v) => if v >= 16000 {
                99u32
            } else if v >= 8000 {
                33u32
            } else if v >= 4000 {
                20u32
            } else {
                24u32
            },
            None => 24u32,
        },
{
    match vram_mb {
        Some(v) => {
            if v >= 16000 {
                99
            } else if v >= 8000 {
                33
            } else if v >= 4000 {
                20
            } else {
                24
            }
        },
        None => 24,
    }
}

/// The in-process runtime that serves a model file.
#[derive(Clone, Copy, Debug, PartialEq, Eq, Structural)]
pub enum AdapterKind {
    Gguf,
    Onnx,
}

/// ONNX files run on the ONNX runtime; every other format on llama.cpp.
pub fn adapter_kind_for_format(format: ModelFormat) -> (k: AdapterKind)
    ensures
        k == if format == ModelFormat::Onnx { AdapterKind::Onnx } else { AdapterKind::Gguf },
{
    match format {
        ModelFormat::Onnx => AdapterKind::Onnx,
        _ => AdapterKind::Gguf,
    }
}

/// Estimated resident memory of a model: its file size, or 1.5 GB when the
/// size is unknown.
pub fn estimated_memory_bytes(file_len: Option<u64>) -> (b: u64)
    ensures
        b == match file_len {
            Some(n) => n,
            None => 1_500_000_000u64,
        },
{
    match file_len {
        Some(n) => n,
        None => 1_500_000_000,
    }
}

/// Central registry of the models resident in memory, keyed by model id.
pub struct HotModelRegistry<S> {
    slots: KeyedTable<S>,
    max_memory_bytes: u64,
}

impl<S> HotModelRegistry<S> {
    /// The loaded slots by model id.
    pub closed spec fn view(&self) -> Map<Seq<char>, S> {
        self.slots@
    }

    /// The memory budget in bytes.
    pub closed spec fn memory_budget(&self) -> u64 {
        self.max_memory_bytes
    }

    /// An empty registry with a budget of `max_memory_gb` GiB.
    pub fn new(max_memory_gb: u32) -> (r: Self)
        ensures
            r@ == Map::<Seq<char>, S>::empty(),
            r.memory_budget() == max_memory_gb as u64 * 1024 * 1024 * 1024,
    {
        let gb = max_memory_gb as u64;
        HotModelRegistry { slots: KeyedTable::new(), max_memory_bytes: gb * 1024 * 1024 * 1024 }
    }

    /// The memory budget in bytes.
    pub fn max_memory_bytes(&self) -> (b: u64)
        ensures
            b == self.memory_budget(),
    {
        self.max_memory_bytes
    }

    /// Puts `slot` in as model `model_id`, unless that model is already
    /// loaded (then the registry is unchanged). Reports whether it was
    /// loaded now.
    pub fn load_model(&mut self, model_id: String, slot: S) -> (loaded: bool)
        ensures
            loaded == !old(self)@.contains_key(model_id@),
            final(self)@ == if loaded { old(self)@.insert(model_id@, slot) } else { old(self)@ },
            final(self).memory_budget() == old(self).memory_budget(),
    {
        self.slots.insert_if_absent(model_id, slot)
    }

    /// Unloads a model; reports whether it was loaded.
    pub fn unload_model(&mut self, model_id: &str) -> (removed: bool)
        ensures
            removed == old(self)@.contains_key(model_id@),
            final(self)@ == old(self)@.remove(model_id@),
            final(self).memory_budget() == old(self).memory_budget(),
    {
        self.slots.remove(model_id).is_some()
    }

    /// Whether a model is currently loaded.
    pub fn is_loaded(&self, model_id: &str) -> (b: bool)
        ensures
            b == self@.contains_key(model_id@),
    {
        self.slots.contains(model_id)
    }

    /// The slot (the runtime keeps the model's adapter there) of a loaded
    /// model.
    pub fn get_adapter(&self, model_id: &str) -> (r: Option<&S>)
        ensures
            match r {
                Some(s) => self@.contains_key(model_id@) && *s == self@[model_id@],
                None => !self@.contains_key(model_id@),
            },
    {
        self.slots.get(model_id)
    }

    /// The ids of all loaded models, each once.
    pub fn list_loaded_ids(&self) -> (ids: Vec<String>)
        ensures
            ids@.len() == self@.dom().len(),
            forall|i: int| 0 <= i < ids@.len() ==> self@.contains_key(#[trigger] ids@[i]@),
            forall|k: Seq<char>| self@.contains_key(k) ==> exists|i: int| 0 <= i < ids@.len() && #[trigger] ids@[i]@ == k,
            forall|i: int, j: int|
                0 <= i < ids@.len() && 0 <= j < ids@.len() && i != j ==> #[trigger] ids@[i]@ != #[trigger] ids@[j]@,
    {
        self.slots.keys()
    }
}

/// Loading a model that was not loaded and then unloading it leaves the
/// registry as it was.
pub proof fn lemma_load_then_unload<S>(before: Map<Seq<char>, S>, model_id: Seq<char>, slot: S)
    requires
        !before.contains_key(model_id),
    ensures
        before.insert(model_id, slot).remove(model_id) == before,
{
    assert(before.insert(model_id, slot).remove(model_id) =~= before);
}

/// After loading, the model is loaded, its slot is the one given (when it
/// was not loaded before), and every other model keeps its slot.
pub proof fn lemma_load_then_lookup<S>(before: Map<Seq<char>, S>, model_id: Seq<char>, slot: S, other: Seq<char>)
    requires
        !before.contains_key(model_id),
        other != model_id,
    ensures
        before.insert(model_id, slot).contains_key(model_id),
        before.insert(model_id, slot)[model_id] == slot,
        before.insert(model_id, slot).contains_key(other) == before.contains_key(other),
        before.contains_key(other) ==> before.insert(model_id, slot)[other] == before[other],
{
}

/// Unloading twice is the same as unloading once.
pub proof fn lemma_unload_idempotent<S>(before: Map<Seq<char>, S>, model_id: Seq<char>)
    ensures
        before.remove(model_id).remove(model_id) == before.remove(model_id),
        !before.remove(model_id).contains_key(model_id),
{
    assert(before.remove(model_id).remove(model_id) =~= before.remove(model_id));
}

} // verus!
