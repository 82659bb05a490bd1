use wgslc::metadata::{add_hlsl_metadata, register_kind_label};
use wgslc::module::{AddressSpace, EntryPoint, GlobalVariable, Module, ResourceBinding, ShaderStage};

fn var(name: Option<&str>, space: AddressSpace, binding: Option<(u32, u32)>) -> GlobalVariable {
    GlobalVariable {
        name: name.map(|n| n.to_string()),
        space,
        binding: binding.map(|(group, binding)| ResourceBinding { group, binding }),
    }
}

fn compute(name: &str, ws: [u32; 3]) -> EntryPoint {
    EntryPoint { name: name.to_string(), stage: ShaderStage::Compute, workgroup_size: ws }
}

fn sample_module() -> Module {
    Module {
        global_variables: vec![
            var(Some("params"), AddressSpace::Uniform, Some((0, 0))),
            var(Some("data"), AddressSpace::Storage { writable: true }, Some((0, 1))),
            var(Some("input"), AddressSpace::Storage { writable: false }, Some((1, 2))),
            var(Some("tex"), AddressSpace::Handle, Some((2, 3))),
            var(Some("scratch"), AddressSpace::Other, None),
            var(None, AddressSpace::Uniform, Some((3, 4))),
        ],
        entry_points: vec![compute("main", [8, 1, 1]), compute("other", [64, 2, 3])],
    }
}

const CODE: &str = "void helper() {}\nvoid main(uint3 id : SV_DispatchThreadID)\n{\n}\n";

#[test]
fn header_lists_named_bound_resources() {
    let out = add_hlsl_metadata(CODE, &sample_module(), "main");
    let expected_header = "// Generated from WGSL\n\
// Entry point: main\n\
// Workgroup size: [8, 1, 1]\n\
//\n\
// Resource Bindings:\n\
//   params : group=0 binding=0 (constant-buffer register)\n\
//   data : group=0 binding=1 (read-write structured-buffer register)\n\
//   input : group=1 binding=2 (read-only structured-buffer register)\n\
//   tex : group=2 binding=3 (texture/sampler register)\n\
//\n\n";
    assert!(out.starts_with(expected_header), "{}", out);
}

#[test]
fn storage_labels_follow_write_access() {
    assert_eq!(
        register_kind_label(AddressSpace::Storage { writable: true }),
        "read-write structured-buffer register"
    );
    assert_eq!(
        register_kind_label(AddressSpace::Storage { writable: false }),
        "read-only structured-buffer register"
    );
    assert_eq!(register_kind_label(AddressSpace::Uniform), "constant-buffer register");
    assert_eq!(register_kind_label(AddressSpace::Handle), "texture/sampler register");
}

#[test]
fn attribute_goes_before_last_definition() {
    let out = add_hlsl_metadata(CODE, &sample_module(), "main");
    assert!(out.ends_with(
        "void helper() {}\n[numthreads(8, 1, 1)]\nvoid main(uint3 id : SV_DispatchThreadID)\n{\n}\n"
    ));
    assert_eq!(out.matches("[numthreads(").count(), 1);
}

#[test]
fn attribute_uses_named_entry_workgroup_size() {
    let code = "void other(uint3 id : SV_DispatchThreadID) {}\n";
    let out = add_hlsl_metadata(code, &sample_module(), "other");
    assert!(out.contains("// Workgroup size: [64, 2, 3]\n"));
    assert!(out.ends_with("[numthreads(64, 2, 3)]\nvoid other(uint3 id : SV_DispatchThreadID) {}\n"));
}

#[test]
fn last_of_several_definitions_is_annotated() {
    let code = "void main(int a);\nvoid main(uint3 id) {}\n";
    let out = add_hlsl_metadata(code, &sample_module(), "main");
    assert!(out.ends_with("void main(int a);\n[numthreads(8, 1, 1)]\nvoid main(uint3 id) {}\n"));
}

#[test]
fn second_run_changes_nothing() {
    let m = sample_module();
    let once = add_hlsl_metadata(CODE, &m, "main");
    let twice = add_hlsl_metadata(&once, &m, "main");
    assert_eq!(twice, once);
    assert_eq!(twice.matches("[numthreads(").count(), 1);
    assert_eq!(twice.matches("// Generated from WGSL").count(), 1);
}

#[test]
fn header_of_other_entry_is_not_taken_as_own() {
    let m = sample_module();
    let code = "void other(uint3 id) {}\nvoid main(uint3 id) {}\n";
    let for_other = add_hlsl_metadata(code, &m, "other");
    let then_main = add_hlsl_metadata(&for_other, &m, "main");
    assert!(then_main.starts_with("// Generated from WGSL\n// Entry point: main\n"));
    assert!(then_main.ends_with(&for_other));
}

#[test]
fn existing_attribute_is_kept() {
    let code = "[numthreads(4, 4, 1)]\nvoid main(uint3 id) {}\n";
    let out = add_hlsl_metadata(code, &sample_module(), "main");
    assert!(out.ends_with(code));
    assert_eq!(out.matches("[numthreads(").count(), 1);
}

#[test]
fn bracket_before_definition_skips_injection() {
    let code = "[shader(\"compute\")]void main(uint3 id) {}\n";
    let out = add_hlsl_metadata(code, &sample_module(), "main");
    assert!(out.ends_with(code));
    assert!(!out.contains("[numthreads("));
}

#[test]
fn missing_definition_leaves_code_unchanged() {
    let code = "void helper() {}\n";
    let out = add_hlsl_metadata(code, &sample_module(), "main");
    assert!(out.ends_with("//\n\nvoid helper() {}\n"));
    assert!(!out.contains("[numthreads("));
}

#[test]
fn empty_module_header_has_no_resource_lines() {
    let m = Module { global_variables: vec![], entry_points: vec![compute("k", [1, 1, 1])] };
    let out = add_hlsl_metadata("", &m, "k");
    assert_eq!(
        out,
        "// Generated from WGSL\n// Entry point: k\n// Workgroup size: [1, 1, 1]\n//\n// Resource Bindings:\n//\n\n"
    );
}
