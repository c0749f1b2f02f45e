//! The types and values that cross the boundary of a module.
use vstd::prelude::*;

use crate::func::Func;

verus! {

/// The type of a WebAssembly value.
#[derive(Debug, Clone, Copy, PartialEq, Eq, Structural)]
pub enum ValueType {
    I32,
    I64,
    F32,
    F64,
    FuncRef,
    ExternRef,
}

/// A reference to an object of the host.
#[derive(Debug, Clone, Copy, PartialEq, Eq, Structural)]
pub struct ExternRef {
    pub id: usize,
}

/// A WebAssembly value. A floating-point number is held as its bits.
#[derive(Debug, Clone, Copy, PartialEq, Eq, Structural)]
pub enum Value {
    I32(i32),
    I64(i64),
    F32(u32),
    F64(u64),
    FuncRef(Option<Func>),
    ExternRef(Option<ExternRef>),
}

/// The type of a function: the types of its parameters and of its results.
#[derive(Debug)]
pub struct FuncType {
    /// The types of the parameters, followed by those of the results.
    params_results: Vec<ValueType>,
    len_params: usize,
}

impl FuncType {
    #[verifier::type_invariant]
    spec fn wf(&self) -> bool {
        self.len_params <= self.params_results@.len()
    }

    /// The types of the parameters, in order.
    pub closed spec fn param_types(&self) -> Seq<ValueType> {
        self.params_results@.subrange(0, self.len_params as int)
    }

    /// The types of the results, in order.
    pub closed spec fn result_types(&self) -> Seq<ValueType> {
        self.params_results@.subrange(self.len_params as int, self.params_results@.len() as int)
    }

    /// Both types have the same parameters and the same results.
    pub open spec fn same(&self, other: &FuncType) -> bool {
        self.param_types() == other.param_types() && self.result_types() == other.result_types()
    }

    pub fn new(params: &[ValueType], results: &[ValueType]) -> (ty: FuncType)
        ensures
            ty.param_types() == params@,
            ty.result_types() == results@,
    {
        let mut params_results: Vec<ValueType> = Vec::new();
        for i in 0..params.len()
            invariant
                params_results@ == params@.take(i as int),
        {
            params_results.push(params[i]);
        }
        for i in 0..results.len()
            invariant
                params_results@ == params@ + results@.take(i as int),
        {
            params_results.push(results[i]);
        }
        let ty = FuncType { params_results, len_params: params.len() };
        assert(ty.param_types() =~= params@);
        assert(ty.result_types() =~= results@);
        ty
    }

    pub fn params(&self) -> (types: &[ValueType])
        ensures
            types@ == self.param_types(),
    {
        proof {
            use_type_invariant(self);
        }
        self.params_results.as_slice().split_at(self.len_params).0
    }

    pub fn results(&self) -> (types: &[ValueType])
        ensures
            types@ == self.result_types(),
    {
        proof {
            use_type_invariant(self);
        }
        self.params_results.as_slice().split_at(self.len_params).1
    }
}

impl Clone for FuncType {
    fn clone(&self) -> (copy: FuncType)
        ensures
            copy.same(self),
            copy.param_types() == self.param_types(),
            copy.result_types() == self.result_types(),
    {
        FuncType::new(self.params(), self.results())
    }
}

/// Two function types are the same exactly when they agree on the parameters and on
/// the results, each in order.
pub proof fn law_same_types_agree(one: FuncType, other: FuncType)
    ensures
        one.same(&other) <==> one.param_types() == other.param_types() && one.result_types()
            == other.result_types(),
{
}

} // verus!
