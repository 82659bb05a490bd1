//! HLSL shader model tiers and their command-line spelling.
use vstd::prelude::*;

use crate::text::{chars_equal, chars_of};
use vstd::string::StringExecFns;

verus! {

/// Shader model tiers accepted by the textual backend.
#[derive(Clone, Copy, Debug, PartialEq, Eq, Structural)]
pub enum ShaderModel {
    V5_0,
    V5_1,
    V6_0,
    V6_1,
    V6_2,
    V6_3,
    V6_4,
    V6_5,
    V6_6,
    V6_7,
}

/// A shader model spelling that names no known tier.
#[derive(Clone, Debug)]
pub struct InvalidShaderModel {
    pub given: String,
}

/// The tier that `s` names (`"5_0"` ... `"6_7"`), if any.
pub open spec fn shader_model_named(s: Seq<char>) -> Option<ShaderModel> {
    if s == "5_0"@ {
        Some(ShaderModel::V5_0)
    } else if s == "5_1"@ {
        Some(ShaderModel::V5_1)
    } else if s == "6_0"@ {
        Some(ShaderModel::V6_0)
    } else if s == "6_1"@ {
        Some(ShaderModel::V6_1)
    } else if s == "6_2"@ {
        Some(ShaderModel::V6_2)
    } else if s == "6_3"@ {
        Some(ShaderModel::V6_3)
    } else if s == "6_4"@ {
        Some(ShaderModel::V6_4)
    } else if s == "6_5"@ {
        Some(ShaderModel::V6_5)
    } else if s == "6_6"@ {
        Some(ShaderModel::V6_6)
    } else if s == "6_7"@ {
        Some(ShaderModel::V6_7)
    } else {
        None
    }
}

fn spelled(given: &Vec<char>, word: &str) -> (r: bool)
    ensures
        r == (given@ == word@),
{
    let w = chars_of(word);
    chars_equal(given, &w)
}

/// Reads a shader model tier written as `major_minor`.
pub fn parse_shader_model(model_str: &str) -> (r: Result<ShaderModel, InvalidShaderModel>)
    ensures
        match r {
            Ok(m) => shader_model_named(model_str@) == Some(m),
            Err(e) => shader_model_named(model_str@) is None && e.given@ == model_str@,
        },
{
    let s = chars_of(model_str);
    if spelled(&s, "5_0") {
        Ok(ShaderModel::V5_0)
    } else if spelled(&s, "5_1") {
        Ok(ShaderModel::V5_1)
    } else if spelled(&s, "6_0") {
        Ok(ShaderModel::V6_0)
    } else if spelled(&s, "6_1") {
        Ok(ShaderModel::V6_1)
    } else if spelled(&s, "6_2") {
        Ok(ShaderModel::V6_2)
    } else if spelled(&s, "6_3") {
        Ok(ShaderModel::V6_3)
    } else if spelled(&s, "6_4") {
        Ok(ShaderModel::V6_4)
    } else if spelled(&s, "6_5") {
        Ok(ShaderModel::V6_5)
    } else if spelled(&s, "6_6") {
        Ok(ShaderModel::V6_6)
    } else if spelled(&s, "6_7") {
        Ok(ShaderModel::V6_7)
    } else {
        let mut given = String::new();
        given.append(model_str);
        Err(InvalidShaderModel { given })
    }
}

} // verus!
