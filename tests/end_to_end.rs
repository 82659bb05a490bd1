use naga::back::{hlsl, spv};
use naga::valid::{Capabilities, ShaderStages, ValidationFlags, Validator};

use wgslc::bindings::generate_hlsl_binding_map;
use wgslc::capabilities::{resolve_capabilities, CapabilityOptions};
use wgslc::metadata::add_hlsl_metadata;
use wgslc::module::{AddressSpace, EntryPoint, GlobalVariable, Module, ResourceBinding, ShaderStage};
use wgslc::pipeline::{binary_artifacts, compute_entry_indices};

const SOURCE: &str = "
@group(0) @binding(0) var<storage, read_write> data: array<u32>;

@compute @workgroup_size(8, 1, 1)
fn main(@builtin(global_invocation_id) id: vec3<u32>) {
    data[id.x] = data[id.x] * 2u;
}
";

fn view(module: &naga::Module) -> Module {
    let global_variables = module
        .global_variables
        .iter()
        .map(|(_, var)| GlobalVariable {
            name: var.name.clone(),
            space: match var.space {
                naga::AddressSpace::Uniform => AddressSpace::Uniform,
                naga::AddressSpace::Storage { access } => AddressSpace::Storage {
                    writable: access.contains(naga::StorageAccess::STORE),
                },
                naga::AddressSpace::Handle => AddressSpace::Handle,
                _ => AddressSpace::Other,
            },
            binding: var
                .binding
                .as_ref()
                .map(|b| ResourceBinding { group: b.group, binding: b.binding }),
        })
        .collect();
    let entry_points = module
        .entry_points
        .iter()
        .map(|ep| EntryPoint {
            name: ep.name.clone(),
            stage: if ep.stage == naga::ShaderStage::Compute {
                ShaderStage::Compute
            } else {
                ShaderStage::Vertex
            },
            workgroup_size: ep.workgroup_size,
        })
        .collect();
    Module { global_variables, entry_points }
}

fn validate(module: &naga::Module) -> naga::valid::ModuleInfo {
    let caps = resolve_capabilities(&CapabilityOptions {
        int64: false,
        atomic_u64: false,
        atomic_u64_min_max: false,
        float64: false,
        texture_int64_atomic: false,
    });
    let flags = [
        (caps.multiview, Capabilities::MULTIVIEW),
        (caps.subgroup, Capabilities::SUBGROUP),
        (caps.subgroup_barrier, Capabilities::SUBGROUP_BARRIER),
        (caps.clip_distance, Capabilities::CLIP_DISTANCE),
        (caps.cull_distance, Capabilities::CULL_DISTANCE),
        (caps.shader_int64, Capabilities::SHADER_INT64),
        (caps.shader_int64_atomic_all_ops, Capabilities::SHADER_INT64_ATOMIC_ALL_OPS),
        (caps.shader_int64_atomic_min_max, Capabilities::SHADER_INT64_ATOMIC_MIN_MAX),
        (caps.float64, Capabilities::FLOAT64),
        (caps.texture_int64_atomic, Capabilities::TEXTURE_INT64_ATOMIC),
    ];
    let mut allowed = Capabilities::empty();
    for (on, flag) in flags {
        if on {
            allowed |= flag;
        }
    }
    let mut validation = ValidationFlags::all();
    validation.remove(ValidationFlags::CONTROL_FLOW_UNIFORMITY);
    let mut validator = Validator::new(validation, allowed);
    validator.subgroup_stages(ShaderStages::COMPUTE);
    validator.subgroup_operations(naga::valid::SubgroupOperationSet::all());
    validator.validate(module).expect("module validates")
}

#[test]
fn textual_mode_annotates_compute_entry() {
    let module = naga::front::wgsl::parse_str(SOURCE).unwrap();
    let info = validate(&module);
    let m = view(&module);
    let map = generate_hlsl_binding_map(&m).unwrap();
    assert_eq!(map.entries.len(), 1);

    let mut binding_map = hlsl::BindingMap::default();
    for e in &map.entries {
        binding_map.insert(
            naga::ResourceBinding { group: e.resource.group, binding: e.resource.binding },
            hlsl::BindTarget {
                space: e.target.space,
                register: e.target.register,
                binding_array_size: None,
                dynamic_storage_buffer_offsets_index: None,
                restrict_indexing: false,
            },
        );
    }
    let options = hlsl::Options {
        shader_model: hlsl::ShaderModel::V6_0,
        binding_map,
        fake_missing_bindings: false,
        special_constants_binding: None,
        zero_initialize_workgroup_memory: true,
        ..Default::default()
    };

    let indices = compute_entry_indices(&m);
    assert_eq!(indices, vec![0]);
    let name = m.entry_points[indices[0]].name.clone();
    let pipeline = hlsl::PipelineOptions {
        entry_point: Some((naga::ShaderStage::Compute, name.clone())),
    };
    let mut code = String::new();
    hlsl::Writer::new(&mut code, &options, &pipeline).write(&module, &info, None).unwrap();

    let out = add_hlsl_metadata(&code, &m, &name);
    assert!(out.contains(
        "//   data : group=0 binding=0 (read-write structured-buffer register)\n"
    ));
    assert_eq!(out.matches("[numthreads(").count(), 1);
    let attr = out.find("[numthreads(8, 1, 1)]\n").expect("attribute present");
    let def = out.rfind("void main(").unwrap();
    assert_eq!(attr + "[numthreads(8, 1, 1)]\n".len(), def);
}

#[test]
fn binary_mode_writes_two_nonempty_artifacts() {
    let module = naga::front::wgsl::parse_str(SOURCE).unwrap();
    let info = validate(&module);
    let options = spv::Options {
        lang_version: (1, 5),
        flags: spv::WriterFlags::DEBUG,
        ..Default::default()
    };
    let words = spv::write_vec(&module, &info, &options, None).unwrap();
    let artifacts = binary_artifacts("shader.spv", words, None);
    assert_eq!(artifacts.len(), 2);
    assert!(!artifacts[0].words.is_empty());
    assert!(!artifacts[1].words.is_empty());
    assert_eq!(artifacts[0].words, artifacts[1].words);
}

#[test]
fn malformed_source_is_a_parse_error() {
    let result = naga::front::wgsl::parse_str("@compute fn main( {");
    assert!(result.is_err());
}
