//! The cache of built kernels: each key is built once, and a build that fails is not kept.
use vstd::prelude::*;
use std::sync::Arc;
use crate::desc::KernelDesc;
use crate::desc::KernelKey;
use crate::error::Error;
use crate::error::SpecError;
use crate::kernel::RawKernel;
use crate::scalar::ScalarElem;
use crate::specialize::specialized;
use crate::spirv::loaded_parts;

verus! {

/// `dashmap::DashMap`, a concurrent hash map: nothing is known of what is inside a value but
/// through `kernel_entries`.
#[verifier::external_type_specification]
#[verifier::external_body]
#[verifier::reject_recursive_types(K)]
#[verifier::reject_recursive_types(V)]
#[verifier::reject_recursive_types(S)]
pub struct ExDashMap<K, V, S>(dashmap::DashMap<K, V, S>);

/// The map that holds the built kernels by their keys.
pub type KernelMap = dashmap::DashMap<KernelKey, Arc<RawKernel>>;

/// What a `KernelMap` holds: the kernel of each key that has one, with a key taken by what
/// it holds.
pub uninterp spec fn kernel_entries(map: KernelMap) -> Map<(usize, Seq<u8>), Arc<RawKernel>>;

/// `DashMap::new`: the new map holds nothing.
#[verifier::external_body]
fn kernel_map_new() -> (map: KernelMap)
    ensures
        kernel_entries(map) =~= Map::empty(),
{
    dashmap::DashMap::new()
}

/// `DashMap::get`, and a clone of the `Arc` found: the kernel that the map holds for `key`,
/// if it holds one.
#[verifier::external_body]
fn kernel_map_get(map: &KernelMap, key: &KernelKey) -> (r: Option<Arc<RawKernel>>)
    ensures
        r == if kernel_entries(*map).contains_key(key@) {
            Some(kernel_entries(*map)[key@])
        } else {
            None
        },
{
    map.get(key).map(|entry| entry.value().clone())
}

/// `DashMap::entry` and `Entry::or_insert`: a key that the map holds keeps its kernel; any
/// other key gets `kernel`. The result is the kernel that the map then holds for the key.
#[verifier::external_body]
fn kernel_map_insert(map: &mut KernelMap, key: KernelKey, kernel: Arc<RawKernel>) -> (r: Arc<RawKernel>)
    ensures
        kernel_entries(*final(map)) == if kernel_entries(*old(map)).contains_key(key@) {
            kernel_entries(*old(map))
        } else {
            kernel_entries(*old(map)).insert(key@, kernel)
        },
        r == kernel_entries(*final(map))[key@],
{
    map.entry(key).or_insert(kernel).value().clone()
}

/// What a lookup in the cache gives.
#[derive(Debug)]
pub enum Cached {
    /// The kernel is built.
    Hit(Arc<RawKernel>),
    /// The kernel is not built: this is its specialized descriptor, to make its pipeline of.
    Miss(KernelDesc),
}

/// The built kernels of an engine.
pub struct KernelCache {
    map: KernelMap,
}

impl KernelCache {
    /// The kernels that the cache holds, by their keys.
    pub closed spec fn entries(&self) -> Map<(usize, Seq<u8>), Arc<RawKernel>> {
        kernel_entries(self.map)
    }

    /// A cache that holds nothing.
    pub fn new() -> (r: KernelCache)
        ensures
            r.entries() == Map::<(usize, Seq<u8>), Arc<RawKernel>>::empty(),
    {
        KernelCache { map: kernel_map_new() }
    }

    /// The built kernel of `key`, if the cache holds one.
    pub fn get(&self, key: &KernelKey) -> (r: Option<Arc<RawKernel>>)
        ensures
            r == if self.entries().contains_key(key@) {
                Some(self.entries()[key@])
            } else {
                None
            },
    {
        kernel_map_get(&self.map, key)
    }

    /// Looks `key` up. A kernel that is built is handed out. For any other the descriptor
    /// `desc` is specialized: the result is what the pipeline is to be made of, or the error
    /// of the specialization. The cache itself does not change.
    pub fn cached(
        &self,
        key: &KernelKey,
        desc: &KernelDesc,
        threads: u32,
        spec_consts: &[ScalarElem],
        debug_printf: bool,
    ) -> (r: Result<Cached, Error>)
        ensures
            self.entries().contains_key(key@) ==> (r matches Ok(Cached::Hit(k)) && k
                == self.entries()[key@]),
            !self.entries().contains_key(key@) ==> match specialized(
                loaded_parts(desc.spirv@),
                threads,
                spec_consts@,
                debug_printf,
            ) {
                Ok(words) => (r matches Ok(Cached::Miss(d)) && d.spirv@ == words && d.threads == threads
                    && d.name == desc.name && d.features == desc.features && d.spec_descs@.len() == 0
                    && d.slice_descs@ == desc.slice_descs@ && d.push_descs@ == desc.push_descs@),
                Err(reason) => (r matches Err(e) && e == (Error::Spec { reason })),
            },
    {
        match self.get(key) {
            Some(kernel) => Ok(Cached::Hit(kernel)),
            None => match desc.specialize(threads, spec_consts, debug_printf) {
                Ok(d) => Ok(Cached::Miss(d)),
                Err(e) => Err(e),
            },
        }
    }

    /// Keeps the kernel `kernel` for `key`, unless the cache holds one for it already, and
    /// hands out the one that it then holds.
    pub fn insert(&mut self, key: KernelKey, kernel: RawKernel) -> (r: Arc<RawKernel>)
        ensures
            old(self).entries().contains_key(key@) ==> final(self).entries() == old(self).entries(),
            !old(self).entries().contains_key(key@) ==> final(self).entries() == old(self).entries().insert(key@, r) && *r == kernel,
            final(self).entries().contains_key(key@),
            r == final(self).entries()[key@],
    {
        kernel_map_insert(&mut self.map, key, Arc::new(kernel))
    }
}

} // verus!
