//! Translation of the module's group/binding pairs into HLSL register slots,
//! and the listing of bound resources.
use vstd::prelude::*;

use crate::module::{is_bindable, AddressSpace, GlobalVariable, Module, ResourceBinding};
use crate::text::{decimal, push_decimal};
use vstd::string::StringExecFns;

verus! {

/// The largest register space index that the HLSL backend can express.
pub const MAX_SPACE: u32 = 255;

/// An HLSL register slot: register space and register number.
#[derive(Clone, Copy, Debug, PartialEq, Eq, Structural)]
pub struct BindTarget {
    pub space: u8,
    pub register: u32,
    pub binding_array_size: Option<u32>,
    pub dynamic_storage_buffer_offsets_index: Option<u32>,
    pub restrict_indexing: bool,
}

/// The slot assignment of one resource.
#[derive(Clone, Copy, Debug, PartialEq, Eq, Structural)]
pub struct BindingEntry {
    pub resource: ResourceBinding,
    pub target: BindTarget,
}

/// Slot assignments in declaration order; where two entries share a
/// resource binding, the later one is the one that counts.
#[derive(Clone, Debug)]
pub struct BindingMap {
    pub entries: Vec<BindingEntry>,
}

/// Why a module's bindings cannot be expressed in HLSL.
#[derive(Clone, Copy, Debug, PartialEq, Eq, Structural)]
pub enum BindingError {
    /// The group index does not fit in an HLSL register space.
    GroupOutOfRange { group: u32, binding: u32 },
}

/// A bindable variable whose group exceeds the largest register space.
pub open spec fn is_oversized(v: GlobalVariable) -> bool {
    is_bindable(v) && v.binding->0.group > MAX_SPACE
}

/// The slot of a bindable variable: its group as space, its binding as register.
pub open spec fn entry_of(v: GlobalVariable) -> BindingEntry {
    BindingEntry {
        resource: v.binding->0,
        target: BindTarget {
            space: v.binding->0.group as u8,
            register: v.binding->0.binding,
            binding_array_size: None,
            dynamic_storage_buffer_offsets_index: None,
            restrict_indexing: false,
        },
    }
}

/// The entries for the bindable variables of `vs`, in order.
pub open spec fn binding_entries(vs: Seq<GlobalVariable>) -> Seq<BindingEntry>
    decreases vs.len(),
{
    if vs.len() == 0 {
        Seq::empty()
    } else if is_bindable(vs.last()) {
        binding_entries(vs.drop_last()).push(entry_of(vs.last()))
    } else {
        binding_entries(vs.drop_last())
    }
}

/// Builds the HLSL slot assignment of every bindable variable of `module`:
/// register space = group, register = binding. Fails on the first bindable
/// variable whose group is above the largest register space.
pub fn generate_hlsl_binding_map(module: &Module) -> (r: Result<BindingMap, BindingError>)
    ensures
        r is Ok <==> forall|i: int|
            0 <= i < module.global_variables@.len() ==> !is_oversized(
                #[trigger] module.global_variables@[i],
            ),
        r is Ok ==> r->Ok_0.entries@ == binding_entries(module.global_variables@),
        r is Err ==> exists|i: int|
            0 <= i < module.global_variables@.len() && is_oversized(module.global_variables@[i])
                && (forall|j: int|
                0 <= j < i ==> !is_oversized(#[trigger] module.global_variables@[j]))
                && r->Err_0 == (BindingError::GroupOutOfRange {
                group: module.global_variables@[i].binding->0.group,
                binding: module.global_variables@[i].binding->0.binding,
            }),
{
    let vars = &module.global_variables;
    let mut entries: Vec<BindingEntry> = Vec::new();
    let mut i: usize = 0;
    while i < vars.len()
        invariant
            i <= vars.len(),
            vars == &module.global_variables,
            entries@ == binding_entries(vars@.subrange(0, i as int)),
            forall|j: int| 0 <= j < i ==> !is_oversized(#[trigger] vars@[j]),
        decreases vars.len() - i,
    {
        let v = &vars[i];
        let ghost vs = vars@.subrange(0, i + 1);
        assert(vs.drop_last() =~= vars@.subrange(0, i as int));
        assert(vs.last() == vars@[i as int]);
        if let Some(b) = &v.binding {
            if !matches!(v.space, AddressSpace::Other) {
                if b.group > MAX_SPACE {
                    return Err(BindingError::GroupOutOfRange { group: b.group, binding: b.binding });
                }
                entries.push(
                    BindingEntry {
                        resource: *b,
                        target: BindTarget {
                            space: b.group as u8,
                            register: b.binding,
                            binding_array_size: None,
                            dynamic_storage_buffer_offsets_index: None,
                            restrict_indexing: false,
                        },
                    },
                );
            }
        }
        i = i + 1;
    }
    assert(vars@.subrange(0, vars.len() as int) =~= vars@);
    Ok(BindingMap { entries })
}

/// A module without bindable variables gets an empty slot assignment.
pub proof fn lemma_no_bindable_no_entries(vs: Seq<GlobalVariable>)
    requires
        forall|i: int| 0 <= i < vs.len() ==> !is_bindable(#[trigger] vs[i]),
    ensures
        binding_entries(vs) == Seq::<BindingEntry>::empty(),
    decreases vs.len(),
{
    if vs.len() > 0 {
        let rest = vs.drop_last();
        assert forall|i: int| 0 <= i < rest.len() implies !is_bindable(#[trigger] rest[i]) by {
            assert(rest[i] == vs[i]);
        }
        lemma_no_bindable_no_entries(rest);
        assert(!is_bindable(vs[vs.len() - 1]));
    }
}

/// The listing name of a resource's kind.
pub open spec fn resource_kind(space: AddressSpace) -> Seq<char> {
    match space {
        AddressSpace::Uniform => "uniform-buffer"@,
        AddressSpace::Storage { .. } => "storage-buffer"@,
        AddressSpace::Handle => "texture/sampler"@,
        AddressSpace::Other => ""@,
    }
}

/// The listing line of a bindable variable.
pub open spec fn listing_line(v: GlobalVariable) -> Seq<char> {
    "group="@ + decimal(v.binding->0.group as nat) + " binding="@ + decimal(
        v.binding->0.binding as nat,
    ) + " kind="@ + resource_kind(v.space)
}

/// The listing lines of the bindable variables of `vs`, in order.
pub open spec fn listing_lines(vs: Seq<GlobalVariable>) -> Seq<Seq<char>>
    decreases vs.len(),
{
    if vs.len() == 0 {
        Seq::empty()
    } else if is_bindable(vs.last()) {
        listing_lines(vs.drop_last()).push(listing_line(vs.last()))
    } else {
        listing_lines(vs.drop_last())
    }
}

/// One line `group=G binding=B kind=K` per bindable variable of `module`.
pub fn binding_listing(module: &Module) -> (r: Vec<String>)
    ensures
        r@.len() == listing_lines(module.global_variables@).len(),
        forall|k: int|
            0 <= k < r@.len() ==> #[trigger] r@[k]@ == listing_lines(module.global_variables@)[k],
{
    let vars = &module.global_variables;
    let mut lines: Vec<String> = Vec::new();
    let mut i: usize = 0;
    while i < vars.len()
        invariant
            i <= vars.len(),
            vars == &module.global_variables,
            lines@.len() == listing_lines(vars@.subrange(0, i as int)).len(),
            forall|k: int|
                0 <= k < lines@.len() ==> #[trigger] lines@[k]@ == listing_lines(
                    vars@.subrange(0, i as int),
                )[k],
        decreases vars.len() - i,
    {
        let v = &vars[i];
        let ghost vs = vars@.subrange(0, i + 1);
        assert(vs.drop_last() =~= vars@.subrange(0, i as int));
        assert(vs.last() == vars@[i as int]);
        if let Some(b) = &v.binding {
            let kind: &str = match v.space {
                AddressSpace::Uniform => "uniform-buffer",
                AddressSpace::Storage { .. } => "storage-buffer",
                AddressSpace::Handle => "texture/sampler",
                AddressSpace::Other => "",
            };
            if !matches!(v.space, AddressSpace::Other) {
                let mut line = String::new();
                line.append("group=");
                push_decimal(&mut line, b.group);
                line.append(" binding=");
                push_decimal(&mut line, b.binding);
                line.append(" kind=");
                line.append(kind);
                assert(line@ =~= listing_line(*v));
                lines.push(line);
            }
        }
        i = i + 1;
    }
    assert(vars@.subrange(0, vars.len() as int) =~= vars@);
    lines
}

} // verus!
