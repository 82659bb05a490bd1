//! Decisions of the emission pipeline: which artifacts a run writes, under
//! which names, and which optimization passes run in which order.
use vstd::prelude::*;

use crate::module::{EntryPoint, Module, ShaderStage};
use vstd::string::StringExecFns;

verus! {

/// The name of the unoptimized binary: the output's name with `.debug` appended.
pub fn debug_artifact_path(output: &str) -> (r: String)
    ensures
        r@ == output@ + ".debug"@,
{
    let mut r = String::new();
    r.append(output);
    r.append(".debug");
    r
}

/// The file name of the HLSL written for one entry point: `<stem>.<entry>.hlsl`.
pub fn hlsl_file_name(stem: &str, entry: &str) -> (r: String)
    ensures
        r@ == stem@ + "."@ + entry@ + ".hlsl"@,
{
    let mut r = String::new();
    r.append(stem);
    r.append(".");
    r.append(entry);
    r.append(".hlsl");
    r
}

/// Optimization passes run after the optimizer's performance bundle.
#[derive(Clone, Copy, Debug, PartialEq, Eq, Structural)]
pub enum OptimizerPass {
    LoopPeeling,
    LoopUnswitch,
    LoopInvariantCodeMotion,
    IfConversion,
    Simplification,
    CombineAccessChains,
    ConvertRelaxedToHalf,
    DeadBranchElim,
    MergeReturn,
    InlineExhaustive,
    LocalAccessChainConvert,
    StrengthReduction,
    CodeSinking,
    AggressiveDce,
}

/// The extra passes in registration order; dead-code elimination comes last.
pub open spec fn pass_order() -> Seq<OptimizerPass> {
    seq![
        OptimizerPass::LoopPeeling,
        OptimizerPass::LoopUnswitch,
        OptimizerPass::LoopInvariantCodeMotion,
        OptimizerPass::IfConversion,
        OptimizerPass::Simplification,
        OptimizerPass::CombineAccessChains,
        OptimizerPass::ConvertRelaxedToHalf,
        OptimizerPass::DeadBranchElim,
        OptimizerPass::MergeReturn,
        OptimizerPass::InlineExhaustive,
        OptimizerPass::LocalAccessChainConvert,
        OptimizerPass::StrengthReduction,
        OptimizerPass::CodeSinking,
        OptimizerPass::AggressiveDce,
    ]
}

/// The extra optimization passes, in the order they are registered.
pub fn optimizer_passes() -> (r: Vec<OptimizerPass>)
    ensures
        r@ == pass_order(),
{
    let r = vec![
        OptimizerPass::LoopPeeling,
        OptimizerPass::LoopUnswitch,
        OptimizerPass::LoopInvariantCodeMotion,
        OptimizerPass::IfConversion,
        OptimizerPass::Simplification,
        OptimizerPass::CombineAccessChains,
        OptimizerPass::ConvertRelaxedToHalf,
        OptimizerPass::DeadBranchElim,
        OptimizerPass::MergeReturn,
        OptimizerPass::InlineExhaustive,
        OptimizerPass::LocalAccessChainConvert,
        OptimizerPass::StrengthReduction,
        OptimizerPass::CodeSinking,
        OptimizerPass::AggressiveDce,
    ];
    assert(r@ =~= pass_order());
    r
}

/// The words of the primary binary: the optimizer's result, or the
/// unoptimized words when the optimizer failed.
pub open spec fn primary_words_spec(debug: Seq<u32>, optimized: Option<Seq<u32>>) -> Seq<u32> {
    match optimized {
        Some(o) => o,
        None => debug,
    }
}

/// The words of an optimizer outcome.
pub open spec fn words_view(o: Option<Vec<u32>>) -> Option<Seq<u32>> {
    match o {
        Some(w) => Some(w@),
        None => None,
    }
}

/// The words of the primary binary: the optimizer's result, or the
/// unoptimized words when the optimizer failed.
pub fn primary_words(debug: Vec<u32>, optimized: Option<Vec<u32>>) -> (r: Vec<u32>)
    ensures
        r@ == primary_words_spec(debug@, words_view(optimized)),
{
    match optimized {
        Some(o) => o,
        None => debug,
    }
}

/// A binary file to write.
#[derive(Clone, Debug)]
pub struct BinaryArtifact {
    pub path: String,
    pub words: Vec<u32>,
}

/// The two files of a binary run, as (path, words): the unoptimized words
/// under the debug path, then the primary words under the output path.
pub open spec fn binary_plan(output: Seq<char>, debug: Seq<u32>, optimized: Option<Seq<u32>>) -> Seq<
    (Seq<char>, Seq<u32>),
> {
    seq![(output + ".debug"@, debug), (output, primary_words_spec(debug, optimized))]
}

/// The artifacts of a binary run, from the unoptimized words and the
/// optimizer's outcome (`None` when it failed).
pub fn binary_artifacts(output: &str, debug_words: Vec<u32>, optimized: Option<Vec<u32>>) -> (r: Vec<
    BinaryArtifact,
>)
    ensures
        r@.len() == binary_plan(output@, debug_words@, words_view(optimized)).len(),
        forall|k: int|
            0 <= k < r@.len() ==> (#[trigger] r@[k]).path@ == binary_plan(
                output@,
                debug_words@,
                words_view(optimized),
            )[k].0 && r@[k].words@ == binary_plan(
                output@,
                debug_words@,
                words_view(optimized),
            )[k].1,
{
    let debug_path = debug_artifact_path(output);
    let primary = primary_words(debug_words.clone(), optimized);
    let mut primary_path = String::new();
    primary_path.append(output);
    let mut r: Vec<BinaryArtifact> = Vec::new();
    r.push(BinaryArtifact { path: debug_path, words: debug_words });
    r.push(BinaryArtifact { path: primary_path, words: primary });
    r
}

/// A binary run writes exactly two files, and when the optimizer fails the
/// primary file holds exactly the words of the debug file.
pub proof fn lemma_binary_run_writes_two(
    output: Seq<char>,
    debug: Seq<u32>,
    optimized: Option<Seq<u32>>,
)
    ensures
        binary_plan(output, debug, optimized).len() == 2,
        binary_plan(output, debug, optimized)[0].0 != binary_plan(output, debug, optimized)[1].0,
        optimized is None ==> binary_plan(output, debug, optimized)[1].1 == binary_plan(
            output,
            debug,
            optimized,
        )[0].1,
{
    let plan = binary_plan(output, debug, optimized);
    reveal_strlit(".debug");
    assert(plan[0].0.len() != plan[1].0.len());
}

/// The positions of the compute-stage entry points of `eps`, in order.
pub open spec fn compute_indices(eps: Seq<EntryPoint>) -> Seq<int>
    decreases eps.len(),
{
    if eps.len() == 0 {
        Seq::empty()
    } else if eps.last().stage == ShaderStage::Compute {
        compute_indices(eps.drop_last()).push(eps.len() - 1)
    } else {
        compute_indices(eps.drop_last())
    }
}

/// The entry points that get an HLSL file: the compute-stage ones, in order.
pub fn compute_entry_indices(module: &Module) -> (r: Vec<usize>)
    ensures
        r@.len() == compute_indices(module.entry_points@).len(),
        forall|k: int|
            0 <= k < r@.len() ==> #[trigger] r@[k] as int == compute_indices(
                module.entry_points@,
            )[k],
{
    let eps = &module.entry_points;
    let mut r: Vec<usize> = Vec::new();
    let mut i: usize = 0;
    while i < eps.len()
        invariant
            i <= eps.len(),
            eps == &module.entry_points,
            r@.len() == compute_indices(eps@.subrange(0, i as int)).len(),
            forall|k: int|
                0 <= k < r@.len() ==> #[trigger] r@[k] as int == compute_indices(
                    eps@.subrange(0, i as int),
                )[k],
        decreases eps.len() - i,
    {
        let ghost es = eps@.subrange(0, i + 1);
        assert(es.drop_last() =~= eps@.subrange(0, i as int));
        assert(es.last() == eps@[i as int]);
        if eps[i].stage == ShaderStage::Compute {
            r.push(i);
        }
        i = i + 1;
    }
    assert(eps@.subrange(0, eps.len() as int) =~= eps@);
    r
}

/// The number of compute-stage entry points of `eps`.
pub open spec fn compute_count(eps: Seq<EntryPoint>) -> nat
    decreases eps.len(),
{
    if eps.len() == 0 {
        0
    } else {
        compute_count(eps.drop_last()) + if eps.last().stage == ShaderStage::Compute {
            1nat
        } else {
            0nat
        }
    }
}

/// A textual run makes one file per compute entry point and none for any
/// other: the selected positions are increasing, and a position is selected
/// exactly when its entry point is a compute one.
pub proof fn lemma_one_file_per_compute_entry(eps: Seq<EntryPoint>)
    ensures
        compute_indices(eps).len() == compute_count(eps),
        forall|a: int, b: int|
            0 <= a < b < compute_indices(eps).len() ==> compute_indices(eps)[a] < compute_indices(
                eps,
            )[b],
        forall|k: int|
            0 <= k < compute_indices(eps).len() ==> 0 <= #[trigger] compute_indices(eps)[k]
                < eps.len() && eps[compute_indices(eps)[k]].stage == ShaderStage::Compute,
        forall|i: int|
            0 <= i < eps.len() && eps[i].stage == ShaderStage::Compute ==> compute_indices(
                eps,
            ).contains(i),
    decreases eps.len(),
{
    if eps.len() > 0 {
        let rest = eps.drop_last();
        lemma_one_file_per_compute_entry(rest);
        assert forall|i: int|
            0 <= i < eps.len() && eps[i].stage == ShaderStage::Compute implies compute_indices(
            eps,
        ).contains(i) by {
            if i < eps.len() - 1 {
                assert(rest[i] == eps[i]);
                assert(compute_indices(rest).contains(i));
                let k = choose|k: int|
                    0 <= k < compute_indices(rest).len() && compute_indices(rest)[k] == i;
                assert(compute_indices(eps)[k] == compute_indices(rest)[k]);
            } else {
                assert(compute_indices(eps).last() == i);
            }
        }
    }
}

} // verus!
