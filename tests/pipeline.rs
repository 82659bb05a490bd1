use wgslc::capabilities::{baseline, resolve_capabilities, CapabilityOptions, CapabilitySet};
use wgslc::module::{EntryPoint, Module, ShaderStage};
use wgslc::pipeline::{
    binary_artifacts, compute_entry_indices, debug_artifact_path, hlsl_file_name,
    optimizer_passes, OptimizerPass,
};
use wgslc::shader_model::{parse_shader_model, ShaderModel};

fn entry(name: &str, stage: ShaderStage) -> EntryPoint {
    EntryPoint { name: name.to_string(), stage, workgroup_size: [1, 1, 1] }
}

#[test]
fn artifact_names() {
    assert_eq!(debug_artifact_path("shader.bin"), "shader.bin.debug");
    assert_eq!(hlsl_file_name("shader", "main"), "shader.main.hlsl");
    assert_eq!(debug_artifact_path(""), ".debug");
}

#[test]
fn binary_run_falls_back_to_unoptimized_words() {
    let debug = vec![0x0723_0203, 1, 2, 3];
    let artifacts = binary_artifacts("out.spv", debug.clone(), None);
    assert_eq!(artifacts.len(), 2);
    assert_eq!(artifacts[0].path, "out.spv.debug");
    assert_eq!(artifacts[0].words, debug);
    assert_eq!(artifacts[1].path, "out.spv");
    assert_eq!(artifacts[1].words, debug);
}

#[test]
fn binary_run_uses_optimized_words() {
    let debug = vec![0x0723_0203, 1, 2, 3];
    let optimized = vec![0x0723_0203, 9];
    let artifacts = binary_artifacts("out.spv", debug.clone(), Some(optimized.clone()));
    assert_eq!(artifacts.len(), 2);
    assert_eq!(artifacts[0].words, debug);
    assert_eq!(artifacts[1].path, "out.spv");
    assert_eq!(artifacts[1].words, optimized);
}

#[test]
fn only_compute_entries_get_files() {
    let m = Module {
        global_variables: vec![],
        entry_points: vec![
            entry("vs", ShaderStage::Vertex),
            entry("a", ShaderStage::Compute),
            entry("fs", ShaderStage::Fragment),
            entry("b", ShaderStage::Compute),
            entry("t", ShaderStage::Task),
        ],
    };
    assert_eq!(compute_entry_indices(&m), vec![1, 3]);
    let none = Module {
        global_variables: vec![],
        entry_points: vec![entry("vs", ShaderStage::Vertex), entry("fs", ShaderStage::Fragment)],
    };
    assert!(compute_entry_indices(&none).is_empty());
    let empty = Module { global_variables: vec![], entry_points: vec![] };
    assert!(compute_entry_indices(&empty).is_empty());
}

#[test]
fn pass_order_ends_with_dead_code_elimination() {
    let passes = optimizer_passes();
    assert_eq!(passes.len(), 14);
    assert_eq!(passes[0], OptimizerPass::LoopPeeling);
    assert_eq!(passes[9], OptimizerPass::InlineExhaustive);
    assert_eq!(passes[13], OptimizerPass::AggressiveDce);
}

#[test]
fn shader_models_parse() {
    assert_eq!(parse_shader_model("5_0").unwrap(), ShaderModel::V5_0);
    assert_eq!(parse_shader_model("5_1").unwrap(), ShaderModel::V5_1);
    assert_eq!(parse_shader_model("6_0").unwrap(), ShaderModel::V6_0);
    assert_eq!(parse_shader_model("6_7").unwrap(), ShaderModel::V6_7);
    let err = parse_shader_model("6_8").unwrap_err();
    assert_eq!(err.given, "6_8");
    assert!(parse_shader_model("").is_err());
    assert!(parse_shader_model("6_0 ").is_err());
}

#[test]
fn capabilities_start_from_baseline() {
    let none = CapabilityOptions {
        int64: false,
        atomic_u64: false,
        atomic_u64_min_max: false,
        float64: false,
        texture_int64_atomic: false,
    };
    assert_eq!(resolve_capabilities(&none), baseline());
    let b = baseline();
    assert!(b.multiview && b.subgroup && b.subgroup_barrier && b.clip_distance && b.cull_distance);
    assert!(!b.shader_int64 && !b.float64);
}

#[test]
fn capabilities_add_selected_options() {
    let opts = CapabilityOptions {
        int64: true,
        atomic_u64: false,
        atomic_u64_min_max: true,
        float64: true,
        texture_int64_atomic: false,
    };
    let caps = resolve_capabilities(&opts);
    assert_eq!(
        caps,
        CapabilitySet {
            shader_int64: true,
            shader_int64_atomic_min_max: true,
            float64: true,
            ..baseline()
        }
    );
}
