//! The parts of a validated shader module that the emission pipeline reads:
//! its global resource variables and its entry points.
use vstd::prelude::*;

verus! {

/// A resource's group and binding indices.
#[derive(Clone, Copy, Debug, PartialEq, Eq, Structural)]
pub struct ResourceBinding {
    pub group: u32,
    pub binding: u32,
}

/// Where a global variable lives.
#[derive(Clone, Copy, Debug, PartialEq, Eq, Structural)]
pub enum AddressSpace {
    /// A uniform buffer.
    Uniform,
    /// A storage buffer; `writable` is set when the access includes stores.
    Storage { writable: bool },
    /// A texture or sampler handle.
    Handle,
    /// Private, function-local, workgroup or push-constant storage.
    Other,
}

/// Shader pipeline stage of an entry point.
#[derive(Clone, Copy, Debug, PartialEq, Eq, Structural)]
pub enum ShaderStage {
    Vertex,
    Fragment,
    Compute,
    Task,
    Mesh,
}

/// A global variable of the module.
#[derive(Clone, Debug)]
pub struct GlobalVariable {
    pub name: Option<String>,
    pub space: AddressSpace,
    pub binding: Option<ResourceBinding>,
}

/// An entry point of the module.
#[derive(Clone, Debug)]
pub struct EntryPoint {
    pub name: String,
    pub stage: ShaderStage,
    pub workgroup_size: [u32; 3],
}

/// A validated module, as far as emission and post-processing read it.
#[derive(Clone, Debug)]
pub struct Module {
    pub global_variables: Vec<GlobalVariable>,
    pub entry_points: Vec<EntryPoint>,
}

/// Uniform buffers, storage buffers and handles are shader-visible resources.
pub open spec fn is_resource_space(space: AddressSpace) -> bool {
    !(space is Other)
}

/// A variable that can be bound from outside: it has a binding and lives in a
/// resource address space.
pub open spec fn is_bindable(v: GlobalVariable) -> bool {
    v.binding is Some && is_resource_space(v.space)
}

/// `i` is the first entry point of `eps` named `name`.
pub open spec fn is_first_named(eps: Seq<EntryPoint>, name: Seq<char>, i: int) -> bool {
    &&& 0 <= i < eps.len()
    &&& eps[i].name@ == name
    &&& forall|j: int| 0 <= j < i ==> eps[j].name@ != name
}

/// Some entry point of `m` is named `name`.
pub open spec fn has_entry(m: Module, name: Seq<char>) -> bool {
    exists|i: int| 0 <= i < m.entry_points@.len() && m.entry_points@[i].name@ == name
}

/// The first entry point of `m` named `name` (meaningful under `has_entry`).
pub open spec fn named_entry(m: Module, name: Seq<char>) -> EntryPoint {
    m.entry_points@[choose|i: int| is_first_named(m.entry_points@, name, i)]
}

/// Finds the first entry point named `name`.
pub fn find_entry(m: &Module, name: &Vec<char>) -> (r: Option<usize>)
    ensures
        match r {
            Some(i) => is_first_named(m.entry_points@, name@, i as int),
            None => !has_entry(*m, name@),
        },
{
    let mut i: usize = 0;
    while i < m.entry_points.len()
        invariant
            i <= m.entry_points.len(),
            forall|j: int| 0 <= j < i ==> m.entry_points@[j].name@ != name@,
        decreases m.entry_points.len() - i,
    {
        let candidate = crate::text::chars_of(m.entry_points[i].name.as_str());
        if crate::text::chars_equal(&candidate, name) {
            return Some(i);
        }
        i = i + 1;
    }
    None
}

/// There is exactly one first entry point of a given name.
pub proof fn lemma_first_named_unique(eps: Seq<EntryPoint>, name: Seq<char>, i: int, k: int)
    requires
        is_first_named(eps, name, i),
        is_first_named(eps, name, k),
    ensures
        i == k,
{
}

} // verus!
