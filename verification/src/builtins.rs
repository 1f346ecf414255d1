//! The functions that every program can call without importing them.

use vstd::prelude::*;
use crate::ir::ValueType;

verus! {

/// A built-in function.
#[derive(Clone, Copy, Debug, PartialEq, Eq, Structural)]
pub enum BuiltinFunction {
    Len,
    Slice,
    Concat,
    ArrayNew,
    ArrayPush,
    MapNew,
    Get,
    SetAt,
    Keys,
    Count,
    TypeOf,
    ToString,
    Assert,
    FormatTemplate,
    ReMatch,
    ReFind,
    ReReplace,
    ReSplit,
    ReCaptures,
    MathAbs,
    MathFloor,
    MathCeil,
    MathRound,
    MathTrunc,
    MathSignum,
    MathMin,
    MathMax,
    MathClamp,
}

/// What a parameter of a callable accepts.
#[derive(Clone, Copy, Debug, PartialEq, Eq, Structural)]
pub enum CallableParamType {
    Any,
    Null,
    Int,
    Float,
    Bool,
    String,
    Array,
    Mapping,
    Number,
}

/// A parameter of a callable.
#[derive(Debug)]
pub struct CallableParam {
    pub name: String,
    pub ty: CallableParamType,
    pub optional: bool,
}

/// The model of a parameter.
pub struct ParamV {
    pub name: Seq<char>,
    pub ty: CallableParamType,
    pub optional: bool,
}

/// One way to call a callable.
#[derive(Debug)]
pub struct CallableSignature {
    pub params: Vec<CallableParam>,
}

impl CallableParam {
    pub open spec fn view(&self) -> ParamV {
        ParamV { name: self.name@, ty: self.ty, optional: self.optional }
    }
}

/// The models of a parameter list.
pub open spec fn params_view(s: Seq<CallableParam>) -> Seq<ParamV> {
    Seq::new(s.len(), |i: int| s[i]@)
}

/// The models of a list of signatures.
pub open spec fn signatures_view(s: Seq<CallableSignature>) -> Seq<Seq<ParamV>> {
    Seq::new(s.len(), |i: int| params_view(s[i].params@))
}

impl Clone for CallableParam {
    fn clone(&self) -> (r: Self)
        ensures
            r@ == self@,
    {
        CallableParam { name: self.name.clone(), ty: self.ty, optional: self.optional }
    }
}

/// A copy of a parameter list.
pub fn clone_params(v: &Vec<CallableParam>) -> (r: Vec<CallableParam>)
    ensures
        params_view(r@) == params_view(v@),
{
    let mut out: Vec<CallableParam> = Vec::new();
    let mut i: usize = 0;
    while i < v.len()
        invariant
            i <= v@.len(),
            out@.len() == i,
            forall|k: int| 0 <= k < i ==> (#[trigger] out@[k])@ == v@[k]@,
        decreases v@.len() - i,
    {
        out.push(v[i].clone());
        i += 1;
    }
    assert(params_view(out@) =~= params_view(v@));
    out
}

impl CallableParamType {
    /// The word for a parameter type in messages.
    pub open spec fn label_text(self) -> Seq<char> {
        match self {
            CallableParamType::Any => "any"@,
            CallableParamType::Null => "null"@,
            CallableParamType::Int => "int"@,
            CallableParamType::Float => "float"@,
            CallableParamType::Bool => "bool"@,
            CallableParamType::String => "string"@,
            CallableParamType::Array => "array"@,
            CallableParamType::Mapping => "map"@,
            CallableParamType::Number => "number"@,
        }
    }

    pub fn label(self) -> (r: &'static str)
        ensures
            r@ == self.label_text(),
    {
        match self {
            CallableParamType::Any => "any",
            CallableParamType::Null => "null",
            CallableParamType::Int => "int",
            CallableParamType::Float => "float",
            CallableParamType::Bool => "bool",
            CallableParamType::String => "string",
            CallableParamType::Array => "array",
            CallableParamType::Mapping => "map",
            CallableParamType::Number => "number",
        }
    }
}

/// The call index of a built-in function.
pub open spec fn builtin_index(b: BuiltinFunction) -> u16 {
    match b {
        BuiltinFunction::Len => 65280,
        BuiltinFunction::Slice => 65281,
        BuiltinFunction::Concat => 65282,
        BuiltinFunction::ArrayNew => 65283,
        BuiltinFunction::ArrayPush => 65284,
        BuiltinFunction::MapNew => 65285,
        BuiltinFunction::Get => 65286,
        BuiltinFunction::SetAt => 65287,
        BuiltinFunction::Keys => 65288,
        BuiltinFunction::Count => 65289,
        BuiltinFunction::TypeOf => 65290,
        BuiltinFunction::ToString => 65291,
        BuiltinFunction::Assert => 65292,
        BuiltinFunction::FormatTemplate => 65293,
        BuiltinFunction::ReMatch => 65294,
        BuiltinFunction::ReFind => 65295,
        BuiltinFunction::ReReplace => 65296,
        BuiltinFunction::ReSplit => 65297,
        BuiltinFunction::ReCaptures => 65298,
        BuiltinFunction::MathAbs => 65299,
        BuiltinFunction::MathFloor => 65300,
        BuiltinFunction::MathCeil => 65301,
        BuiltinFunction::MathRound => 65302,
        BuiltinFunction::MathTrunc => 65303,
        BuiltinFunction::MathSignum => 65304,
        BuiltinFunction::MathMin => 65305,
        BuiltinFunction::MathMax => 65306,
        BuiltinFunction::MathClamp => 65307,
    }
}

/// The built-in function with a given call index.
pub open spec fn builtin_at(index: u16) -> Option<BuiltinFunction> {
    if index == 65280 {
        Some(BuiltinFunction::Len)
    } else if index == 65281 {
        Some(BuiltinFunction::Slice)
    } else if index == 65282 {
        Some(BuiltinFunction::Concat)
    } else if index == 65283 {
        Some(BuiltinFunction::ArrayNew)
    } else if index == 65284 {
        Some(BuiltinFunction::ArrayPush)
    } else if index == 65285 {
        Some(BuiltinFunction::MapNew)
    } else if index == 65286 {
        Some(BuiltinFunction::Get)
    } else if index == 65287 {
        Some(BuiltinFunction::SetAt)
    } else if index == 65288 {
        Some(BuiltinFunction::Keys)
    } else if index == 65289 {
        Some(BuiltinFunction::Count)
    } else if index == 65290 {
        Some(BuiltinFunction::TypeOf)
    } else if index == 65291 {
        Some(BuiltinFunction::ToString)
    } else if index == 65292 {
        Some(BuiltinFunction::Assert)
    } else if index == 65293 {
        Some(BuiltinFunction::FormatTemplate)
    } else if index == 65294 {
        Some(BuiltinFunction::ReMatch)
    } else if index == 65295 {
        Some(BuiltinFunction::ReFind)
    } else if index == 65296 {
        Some(BuiltinFunction::ReReplace)
    } else if index == 65297 {
        Some(BuiltinFunction::ReSplit)
    } else if index == 65298 {
        Some(BuiltinFunction::ReCaptures)
    } else if index == 65299 {
        Some(BuiltinFunction::MathAbs)
    } else if index == 65300 {
        Some(BuiltinFunction::MathFloor)
    } else if index == 65301 {
        Some(BuiltinFunction::MathCeil)
    } else if index == 65302 {
        Some(BuiltinFunction::MathRound)
    } else if index == 65303 {
        Some(BuiltinFunction::MathTrunc)
    } else if index == 65304 {
        Some(BuiltinFunction::MathSignum)
    } else if index == 65305 {
        Some(BuiltinFunction::MathMin)
    } else if index == 65306 {
        Some(BuiltinFunction::MathMax)
    } else if index == 65307 {
        Some(BuiltinFunction::MathClamp)
    } else {
        None
    }
}

/// The name of a built-in function.
pub open spec fn builtin_name(b: BuiltinFunction) -> Seq<char> {
    match b {
        BuiltinFunction::Len => "len"@,
        BuiltinFunction::Slice => "slice"@,
        BuiltinFunction::Concat => "concat"@,
        BuiltinFunction::ArrayNew => "array_new"@,
        BuiltinFunction::ArrayPush => "array_push"@,
        BuiltinFunction::MapNew => "map_new"@,
        BuiltinFunction::Get => "get"@,
        BuiltinFunction::SetAt => "set"@,
        BuiltinFunction::Keys => "keys"@,
        BuiltinFunction::Count => "count"@,
        BuiltinFunction::TypeOf => "type_of"@,
        BuiltinFunction::ToString => "to_string"@,
        BuiltinFunction::Assert => "assert"@,
        BuiltinFunction::FormatTemplate => "format_template"@,
        BuiltinFunction::ReMatch => "re_match"@,
        BuiltinFunction::ReFind => "re_find"@,
        BuiltinFunction::ReReplace => "re_replace"@,
        BuiltinFunction::ReSplit => "re_split"@,
        BuiltinFunction::ReCaptures => "re_captures"@,
        BuiltinFunction::MathAbs => "math_abs"@,
        BuiltinFunction::MathFloor => "math_floor"@,
        BuiltinFunction::MathCeil => "math_ceil"@,
        BuiltinFunction::MathRound => "math_round"@,
        BuiltinFunction::MathTrunc => "math_trunc"@,
        BuiltinFunction::MathSignum => "math_signum"@,
        BuiltinFunction::MathMin => "math_min"@,
        BuiltinFunction::MathMax => "math_max"@,
        BuiltinFunction::MathClamp => "math_clamp"@,
    }
}

/// The number of arguments of a built-in function.
pub open spec fn builtin_arity(b: BuiltinFunction) -> u8 {
    match b {
        BuiltinFunction::Len => 1,
        BuiltinFunction::Slice => 3,
        BuiltinFunction::Concat => 2,
        BuiltinFunction::ArrayNew => 0,
        BuiltinFunction::ArrayPush => 2,
        BuiltinFunction::MapNew => 0,
        BuiltinFunction::Get => 2,
        BuiltinFunction::SetAt => 3,
        BuiltinFunction::Keys => 1,
        BuiltinFunction::Count => 1,
        BuiltinFunction::TypeOf => 1,
        BuiltinFunction::ToString => 1,
        BuiltinFunction::Assert => 1,
        BuiltinFunction::FormatTemplate => 2,
        BuiltinFunction::ReMatch => 2,
        BuiltinFunction::ReFind => 2,
        BuiltinFunction::ReReplace => 3,
        BuiltinFunction::ReSplit => 2,
        BuiltinFunction::ReCaptures => 2,
        BuiltinFunction::MathAbs => 1,
        BuiltinFunction::MathFloor => 1,
        BuiltinFunction::MathCeil => 1,
        BuiltinFunction::MathRound => 1,
        BuiltinFunction::MathTrunc => 1,
        BuiltinFunction::MathSignum => 1,
        BuiltinFunction::MathMin => 2,
        BuiltinFunction::MathMax => 2,
        BuiltinFunction::MathClamp => 3,
    }
}

/// The type of value that a built-in function always returns, where there is one.
pub open spec fn builtin_return_type(b: BuiltinFunction) -> ValueType {
    match b {
        BuiltinFunction::Len => ValueType::Int,
        BuiltinFunction::Slice => ValueType::Unknown,
        BuiltinFunction::Concat => ValueType::Unknown,
        BuiltinFunction::ArrayNew => ValueType::Array,
        BuiltinFunction::ArrayPush => ValueType::Array,
        BuiltinFunction::MapNew => ValueType::Mapping,
        BuiltinFunction::Get => ValueType::Unknown,
        BuiltinFunction::SetAt => ValueType::Unknown,
        BuiltinFunction::Keys => ValueType::Array,
        BuiltinFunction::Count => ValueType::Int,
        BuiltinFunction::TypeOf => ValueType::String,
        BuiltinFunction::ToString => ValueType::String,
        BuiltinFunction::Assert => ValueType::Null,
        BuiltinFunction::FormatTemplate => ValueType::String,
        BuiltinFunction::ReMatch => ValueType::Bool,
        BuiltinFunction::ReFind => ValueType::Unknown,
        BuiltinFunction::ReReplace => ValueType::String,
        BuiltinFunction::ReSplit => ValueType::Array,
        BuiltinFunction::ReCaptures => ValueType::Array,
        BuiltinFunction::MathAbs => ValueType::Unknown,
        BuiltinFunction::MathFloor => ValueType::Unknown,
        BuiltinFunction::MathCeil => ValueType::Unknown,
        BuiltinFunction::MathRound => ValueType::Unknown,
        BuiltinFunction::MathTrunc => ValueType::Unknown,
        BuiltinFunction::MathSignum => ValueType::Unknown,
        BuiltinFunction::MathMin => ValueType::Unknown,
        BuiltinFunction::MathMax => ValueType::Unknown,
        BuiltinFunction::MathClamp => ValueType::Unknown,
    }
}

/// A required parameter.
pub open spec fn required(name: Seq<char>, ty: CallableParamType) -> ParamV {
    ParamV { name, ty, optional: false }
}

/// The parameters of a built-in function.
pub open spec fn builtin_params(b: BuiltinFunction) -> Seq<ParamV> {
    match b {
        BuiltinFunction::Len => seq![required("value"@, CallableParamType::Any)],
        BuiltinFunction::Slice => seq![
            required("value"@, CallableParamType::Any),
            required("start"@, CallableParamType::Int),
            required("length"@, CallableParamType::Int),
        ],
        BuiltinFunction::Concat => seq![
            required("lhs"@, CallableParamType::Any),
            required("rhs"@, CallableParamType::Any),
        ],
        BuiltinFunction::ArrayNew => seq![],
        BuiltinFunction::ArrayPush => seq![
            required("array"@, CallableParamType::Array),
            required("value"@, CallableParamType::Any),
        ],
        BuiltinFunction::MapNew => seq![],
        BuiltinFunction::Get => seq![
            required("container"@, CallableParamType::Any),
            required("key"@, CallableParamType::Any),
        ],
        BuiltinFunction::SetAt => seq![
            required("container"@, CallableParamType::Any),
            required("key"@, CallableParamType::Any),
            required("value"@, CallableParamType::Any),
        ],
        BuiltinFunction::Keys => seq![required("container"@, CallableParamType::Any)],
        BuiltinFunction::Count => seq![required("value"@, CallableParamType::Any)],
        BuiltinFunction::TypeOf => seq![required("value"@, CallableParamType::Any)],
        BuiltinFunction::ToString => seq![required("value"@, CallableParamType::Any)],
        BuiltinFunction::Assert => seq![required("condition"@, CallableParamType::Bool)],
        BuiltinFunction::FormatTemplate => seq![
            required("template"@, CallableParamType::String),
            required("args"@, CallableParamType::Array),
        ],
        BuiltinFunction::ReMatch => seq![
            required("pattern"@, CallableParamType::String),
            required("text"@, CallableParamType::String),
        ],
        BuiltinFunction::ReFind => seq![
            required("pattern"@, CallableParamType::String),
            required("text"@, CallableParamType::String),
        ],
        BuiltinFunction::ReReplace => seq![
            required("pattern"@, CallableParamType::String),
            required("text"@, CallableParamType::String),
            required("replacement"@, CallableParamType::String),
        ],
        BuiltinFunction::ReSplit => seq![
            required("pattern"@, CallableParamType::String),
            required("text"@, CallableParamType::String),
        ],
        BuiltinFunction::ReCaptures => seq![
            required("pattern"@, CallableParamType::String),
            required("text"@, CallableParamType::String),
        ],
        BuiltinFunction::MathAbs => seq![required("value"@, CallableParamType::Number)],
        BuiltinFunction::MathFloor => seq![required("value"@, CallableParamType::Number)],
        BuiltinFunction::MathCeil => seq![required("value"@, CallableParamType::Number)],
        BuiltinFunction::MathRound => seq![required("value"@, CallableParamType::Number)],
        BuiltinFunction::MathTrunc => seq![required("value"@, CallableParamType::Number)],
        BuiltinFunction::MathSignum => seq![required("value"@, CallableParamType::Number)],
        BuiltinFunction::MathMin => seq![
            required("lhs"@, CallableParamType::Number),
            required("rhs"@, CallableParamType::Number),
        ],
        BuiltinFunction::MathMax => seq![
            required("lhs"@, CallableParamType::Number),
            required("rhs"@, CallableParamType::Number),
        ],
        BuiltinFunction::MathClamp => seq![
            required("value"@, CallableParamType::Number),
            required("low"@, CallableParamType::Number),
            required("high"@, CallableParamType::Number),
        ],
    }
}

fn required_param(name: &str, ty: CallableParamType) -> (r: CallableParam)
    ensures
        r@ == required(name@, ty),
{
    CallableParam { name: name.to_string(), ty, optional: false }
}

impl BuiltinFunction {
    pub fn call_index(self) -> (r: u16)
        ensures
            r == builtin_index(self),
    {
        match self {
            BuiltinFunction::Len => 65280,
            BuiltinFunction::Slice => 65281,
            BuiltinFunction::Concat => 65282,
            BuiltinFunction::ArrayNew => 65283,
            BuiltinFunction::ArrayPush => 65284,
            BuiltinFunction::MapNew => 65285,
            BuiltinFunction::Get => 65286,
            BuiltinFunction::SetAt => 65287,
            BuiltinFunction::Keys => 65288,
            BuiltinFunction::Count => 65289,
            BuiltinFunction::TypeOf => 65290,
            BuiltinFunction::ToString => 65291,
            BuiltinFunction::Assert => 65292,
            BuiltinFunction::FormatTemplate => 65293,
            BuiltinFunction::ReMatch => 65294,
            BuiltinFunction::ReFind => 65295,
            BuiltinFunction::ReReplace => 65296,
            BuiltinFunction::ReSplit => 65297,
            BuiltinFunction::ReCaptures => 65298,
            BuiltinFunction::MathAbs => 65299,
            BuiltinFunction::MathFloor => 65300,
            BuiltinFunction::MathCeil => 65301,
            BuiltinFunction::MathRound => 65302,
            BuiltinFunction::MathTrunc => 65303,
            BuiltinFunction::MathSignum => 65304,
            BuiltinFunction::MathMin => 65305,
            BuiltinFunction::MathMax => 65306,
            BuiltinFunction::MathClamp => 65307,
        }
    }

    pub fn from_call_index(index: u16) -> (r: Option<BuiltinFunction>)
        ensures
            r == builtin_at(index),
    {
        if index == 65280 {
            Some(BuiltinFunction::Len)
        } else if index == 65281 {
            Some(BuiltinFunction::Slice)
        } else if index == 65282 {
            Some(BuiltinFunction::Concat)
        } else if index == 65283 {
            Some(BuiltinFunction::ArrayNew)
        } else if index == 65284 {
            Some(BuiltinFunction::ArrayPush)
        } else if index == 65285 {
            Some(BuiltinFunction::MapNew)
        } else if index == 65286 {
            Some(BuiltinFunction::Get)
        } else if index == 65287 {
            Some(BuiltinFunction::SetAt)
        } else if index == 65288 {
            Some(BuiltinFunction::Keys)
        } else if index == 65289 {
            Some(BuiltinFunction::Count)
        } else if index == 65290 {
            Some(BuiltinFunction::TypeOf)
        } else if index == 65291 {
            Some(BuiltinFunction::ToString)
        } else if index == 65292 {
            Some(BuiltinFunction::Assert)
        } else if index == 65293 {
            Some(BuiltinFunction::FormatTemplate)
        } else if index == 65294 {
            Some(BuiltinFunction::ReMatch)
        } else if index == 65295 {
            Some(BuiltinFunction::ReFind)
        } else if index == 65296 {
            Some(BuiltinFunction::ReReplace)
        } else if index == 65297 {
            Some(BuiltinFunction::ReSplit)
        } else if index == 65298 {
            Some(BuiltinFunction::ReCaptures)
        } else if index == 65299 {
            Some(BuiltinFunction::MathAbs)
        } else if index == 65300 {
            Some(BuiltinFunction::MathFloor)
        } else if index == 65301 {
            Some(BuiltinFunction::MathCeil)
        } else if index == 65302 {
            Some(BuiltinFunction::MathRound)
        } else if index == 65303 {
            Some(BuiltinFunction::MathTrunc)
        } else if index == 65304 {
            Some(BuiltinFunction::MathSignum)
        } else if index == 65305 {
            Some(BuiltinFunction::MathMin)
        } else if index == 65306 {
            Some(BuiltinFunction::MathMax)
        } else if index == 65307 {
            Some(BuiltinFunction::MathClamp)
        } else {
            None
        }
    }

    pub fn name(self) -> (r: &'static str)
        ensures
            r@ == builtin_name(self),
    {
        match self {
            BuiltinFunction::Len => "len",
            BuiltinFunction::Slice => "slice",
            BuiltinFunction::Concat => "concat",
            BuiltinFunction::ArrayNew => "array_new",
            BuiltinFunction::ArrayPush => "array_push",
            BuiltinFunction::MapNew => "map_new",
            BuiltinFunction::Get => "get",
            BuiltinFunction::SetAt => "set",
            BuiltinFunction::Keys => "keys",
            BuiltinFunction::Count => "count",
            BuiltinFunction::TypeOf => "type_of",
            BuiltinFunction::ToString => "to_string",
            BuiltinFunction::Assert => "assert",
            BuiltinFunction::FormatTemplate => "format_template",
            BuiltinFunction::ReMatch => "re_match",
            BuiltinFunction::ReFind => "re_find",
            BuiltinFunction::ReReplace => "re_replace",
            BuiltinFunction::ReSplit => "re_split",
            BuiltinFunction::ReCaptures => "re_captures",
            BuiltinFunction::MathAbs => "math_abs",
            BuiltinFunction::MathFloor => "math_floor",
            BuiltinFunction::MathCeil => "math_ceil",
            BuiltinFunction::MathRound => "math_round",
            BuiltinFunction::MathTrunc => "math_trunc",
            BuiltinFunction::MathSignum => "math_signum",
            BuiltinFunction::MathMin => "math_min",
            BuiltinFunction::MathMax => "math_max",
            BuiltinFunction::MathClamp => "math_clamp",
        }
    }

    pub fn arity(self) -> (r: u8)
        ensures
            r == builtin_arity(self),
    {
        match self {
            BuiltinFunction::Len => 1,
            BuiltinFunction::Slice => 3,
            BuiltinFunction::Concat => 2,
            BuiltinFunction::ArrayNew => 0,
            BuiltinFunction::ArrayPush => 2,
            BuiltinFunction::MapNew => 0,
            BuiltinFunction::Get => 2,
            BuiltinFunction::SetAt => 3,
            BuiltinFunction::Keys => 1,
            BuiltinFunction::Count => 1,
            BuiltinFunction::TypeOf => 1,
            BuiltinFunction::ToString => 1,
            BuiltinFunction::Assert => 1,
            BuiltinFunction::FormatTemplate => 2,
            BuiltinFunction::ReMatch => 2,
            BuiltinFunction::ReFind => 2,
            BuiltinFunction::ReReplace => 3,
            BuiltinFunction::ReSplit => 2,
            BuiltinFunction::ReCaptures => 2,
            BuiltinFunction::MathAbs => 1,
            BuiltinFunction::MathFloor => 1,
            BuiltinFunction::MathCeil => 1,
            BuiltinFunction::MathRound => 1,
            BuiltinFunction::MathTrunc => 1,
            BuiltinFunction::MathSignum => 1,
            BuiltinFunction::MathMin => 2,
            BuiltinFunction::MathMax => 2,
            BuiltinFunction::MathClamp => 3,
        }
    }

    pub fn accepts_arity(self, arity: u8) -> (r: bool)
        ensures
            r == (arity == builtin_arity(self)),
    {
        arity == self.arity()
    }

    pub fn static_return_type(self) -> (r: ValueType)
        ensures
            r == builtin_return_type(self),
    {
        match self {
            BuiltinFunction::Len => ValueType::Int,
            BuiltinFunction::Slice => ValueType::Unknown,
            BuiltinFunction::Concat => ValueType::Unknown,
            BuiltinFunction::ArrayNew => ValueType::Array,
            BuiltinFunction::ArrayPush => ValueType::Array,
            BuiltinFunction::MapNew => ValueType::Mapping,
            BuiltinFunction::Get => ValueType::Unknown,
            BuiltinFunction::SetAt => ValueType::Unknown,
            BuiltinFunction::Keys => ValueType::Array,
            BuiltinFunction::Count => ValueType::Int,
            BuiltinFunction::TypeOf => ValueType::String,
            BuiltinFunction::ToString => ValueType::String,
            BuiltinFunction::Assert => ValueType::Null,
            BuiltinFunction::FormatTemplate => ValueType::String,
            BuiltinFunction::ReMatch => ValueType::Bool,
            BuiltinFunction::ReFind => ValueType::Unknown,
            BuiltinFunction::ReReplace => ValueType::String,
            BuiltinFunction::ReSplit => ValueType::Array,
            BuiltinFunction::ReCaptures => ValueType::Array,
            BuiltinFunction::MathAbs => ValueType::Unknown,
            BuiltinFunction::MathFloor => ValueType::Unknown,
            BuiltinFunction::MathCeil => ValueType::Unknown,
            BuiltinFunction::MathRound => ValueType::Unknown,
            BuiltinFunction::MathTrunc => ValueType::Unknown,
            BuiltinFunction::MathSignum => ValueType::Unknown,
            BuiltinFunction::MathMin => ValueType::Unknown,
            BuiltinFunction::MathMax => ValueType::Unknown,
            BuiltinFunction::MathClamp => ValueType::Unknown,
        }
    }

    /// The parameters of the function.
    fn params(self) -> (r: Vec<CallableParam>)
        ensures
            params_view(r@) == builtin_params(self),
    {
        let mut out: Vec<CallableParam> = Vec::new();
        match self {
            BuiltinFunction::Len => {
                out.push(required_param("value", CallableParamType::Any));
            },
            BuiltinFunction::Slice => {
                out.push(required_param("value", CallableParamType::Any));
                out.push(required_param("start", CallableParamType::Int));
                out.push(required_param("length", CallableParamType::Int));
            },
            BuiltinFunction::Concat => {
                out.push(required_param("lhs", CallableParamType::Any));
                out.push(required_param("rhs", CallableParamType::Any));
            },
            BuiltinFunction::ArrayNew => {},
            BuiltinFunction::ArrayPush => {
                out.push(required_param("array", CallableParamType::Array));
                out.push(required_param("value", CallableParamType::Any));
            },
            BuiltinFunction::MapNew => {},
            BuiltinFunction::Get => {
                out.push(required_param("container", CallableParamType::Any));
                out.push(required_param("key", CallableParamType::Any));
            },
            BuiltinFunction::SetAt => {
                out.push(required_param("container", CallableParamType::Any));
                out.push(required_param("key", CallableParamType::Any));
                out.push(required_param("value", CallableParamType::Any));
            },
            BuiltinFunction::Keys => {
                out.push(required_param("container", CallableParamType::Any));
            },
            BuiltinFunction::Count => {
                out.push(required_param("value", CallableParamType::Any));
            },
            BuiltinFunction::TypeOf => {
                out.push(required_param("value", CallableParamType::Any));
            },
            BuiltinFunction::ToString => {
                out.push(required_param("value", CallableParamType::Any));
            },
            BuiltinFunction::Assert => {
                out.push(required_param("condition", CallableParamType::Bool));
            },
            BuiltinFunction::FormatTemplate => {
                out.push(required_param("template", CallableParamType::String));
                out.push(required_param("args", CallableParamType::Array));
            },
            BuiltinFunction::ReMatch => {
                out.push(required_param("pattern", CallableParamType::String));
                out.push(required_param("text", CallableParamType::String));
            },
            BuiltinFunction::ReFind => {
                out.push(required_param("pattern", CallableParamType::String));
                out.push(required_param("text", CallableParamType::String));
            },
            BuiltinFunction::ReReplace => {
                out.push(required_param("pattern", CallableParamType::String));
                out.push(required_param("text", CallableParamType::String));
                out.push(required_param("replacement", CallableParamType::String));
            },
            BuiltinFunction::ReSplit => {
                out.push(required_param("pattern", CallableParamType::String));
                out.push(required_param("text", CallableParamType::String));
            },
            BuiltinFunction::ReCaptures => {
                out.push(required_param("pattern", CallableParamType::String));
                out.push(required_param("text", CallableParamType::String));
            },
            BuiltinFunction::MathAbs => {
                out.push(required_param("value", CallableParamType::Number));
            },
            BuiltinFunction::MathFloor => {
                out.push(required_param("value", CallableParamType::Number));
            },
            BuiltinFunction::MathCeil => {
                out.push(required_param("value", CallableParamType::Number));
            },
            BuiltinFunction::MathRound => {
                out.push(required_param("value", CallableParamType::Number));
            },
            BuiltinFunction::MathTrunc => {
                out.push(required_param("value", CallableParamType::Number));
            },
            BuiltinFunction::MathSignum => {
                out.push(required_param("value", CallableParamType::Number));
            },
            BuiltinFunction::MathMin => {
                out.push(required_param("lhs", CallableParamType::Number));
                out.push(required_param("rhs", CallableParamType::Number));
            },
            BuiltinFunction::MathMax => {
                out.push(required_param("lhs", CallableParamType::Number));
                out.push(required_param("rhs", CallableParamType::Number));
            },
            BuiltinFunction::MathClamp => {
                out.push(required_param("value", CallableParamType::Number));
                out.push(required_param("low", CallableParamType::Number));
                out.push(required_param("high", CallableParamType::Number));
            },
        }
        assert(params_view(out@) =~= builtin_params(self));
        out
    }

    /// The ways to call the function.
    pub fn callable_signatures(self) -> (r: Vec<CallableSignature>)
        ensures
            signatures_view(r@) == seq![builtin_params(self)],
    {
        let mut out: Vec<CallableSignature> = Vec::new();
        out.push(CallableSignature { params: self.params() });
        assert(signatures_view(out@) =~= seq![builtin_params(self)]);
        out
    }
}

/// Every built-in function is found again by its call index, and a call index
/// stands for at most one.
pub proof fn law_call_index_round_trip(b: BuiltinFunction, index: u16)
    ensures
        builtin_at(builtin_index(b)) == Some(b),
        builtin_at(index) == Some(b) <==> index == builtin_index(b),
{
}

/// A built-in function has as many parameters as its arity.
pub proof fn law_arity_is_parameter_count(b: BuiltinFunction)
    ensures
        builtin_params(b).len() == builtin_arity(b),
{
}

} // verus!
