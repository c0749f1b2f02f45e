//! Functions of the host, as the guest calls them.
use vstd::prelude::*;
use wasm_bindgen::JsValue;

#[allow(unused_imports)]
use crate::convert::{all_given, all_taken, gives, takes};
use crate::convert::{values_from_js, values_to_js};
use crate::func::MAX_HOST_PARAMS;
use crate::js::array_of;
#[allow(unused_imports)]
use crate::js::{array_items, is_undefined};
use crate::store::{StoreContextMut, StoreInner};
use crate::types::{FuncType, Value, ValueType};

verus! {

/// A function of the host that the guest can call.
#[derive(Debug)]
pub struct HostFunc {
    ty: FuncType,
    /// Where the function writes its results. It is kept from call to call, so a
    /// result that a call does not write is that of the call before.
    res: Vec<Value>,
}

/// What one run of a function of the host was handed, and what it wrote.
pub ghost struct HostRun {
    pub args: Seq<Value>,
    /// The results as the function found them.
    pub given: Seq<Value>,
    /// The results as the function left them.
    pub left: Seq<Value>,
}

/// The results that a new function of the host starts with.
pub open spec fn zeros(len: nat) -> Seq<Value> {
    Seq::new(len, |i: int| Value::I32(0))
}

impl HostFunc {
    /// The type of the function.
    pub closed spec fn func_type(&self) -> FuncType {
        self.ty
    }

    /// The results as the last call left them.
    pub closed spec fn results(&self) -> Seq<Value> {
        self.res@
    }

    /// `self` became `after` by one run of the function.
    pub open spec fn ran(self, after: HostFunc, run: HostRun) -> bool {
        &&& after.func_type() == self.func_type()
        &&& run.given == self.results()
        &&& run.left == after.results()
    }

    pub fn new(ty: FuncType) -> (host: HostFunc)
        requires
            ty.param_types().len() <= MAX_HOST_PARAMS,
        ensures
            host.func_type() == ty,
            host.results() == zeros(ty.result_types().len()),
            host.results().len() == ty.result_types().len(),
            forall|i: int| 0 <= i < host.results().len() ==> #[trigger] host.results()[i]
                == Value::I32(0),
    {
        let mut res: Vec<Value> = Vec::new();
        let len: usize = ty.results().len();
        for i in 0..len
            invariant
                res@ == zeros(i as nat),
        {
            res.push(Value::I32(0));
        }
        HostFunc { ty, res }
    }

    /// Runs the function, once, on arguments of the guest and answers with an array
    /// of its results, or with `undefined` if it fails.
    pub fn run<
        T,
        E,
        H: Fn(StoreContextMut<'_, T>, &[Value], &mut [Value]) -> Result<(), E>,
        J: Fn(&Value, &StoreInner<T>) -> JsValue,
    >(&mut self, store: &mut StoreInner<T>, args: &[Value], host: &H, to_js: &J) -> (reply: JsValue)
        requires
            forall|ctx: StoreContextMut<'_, T>, res: &mut [Value]|
                *ctx.store == *old(store) && res@ == old(self).results()
                    ==> #[trigger] call_requires(*host, (ctx, args, res)),
            forall|ctx: StoreContextMut<'_, T>, res: &mut [Value], outcome: Result<(), E>|
                *ctx.store == *old(store) && res@ == old(self).results()
                    && #[trigger] call_ensures(*host, (ctx, args, res), outcome) && outcome is Ok
                    ==> gives(*to_js, *final(ctx.store), final(res)@),
        ensures
            exists|ctx: StoreContextMut<'_, T>, res: &mut [Value], outcome: Result<(), E>|
                {
                    &&& #[trigger] call_ensures(*host, (ctx, args, res), outcome)
                    &&& *ctx.store == *old(store)
                    &&& *final(store) == *final(ctx.store)
                    &&& old(self).ran(
                        *final(self),
                        HostRun { args: args@, given: res@, left: final(res)@ },
                    )
                    &&& res@ == old(self).results()
                    &&& final(self).results() == final(res)@
                    &&& final(self).func_type() == old(self).func_type()
                    &&& match outcome {
                        Ok(_) => {
                            &&& !is_undefined(reply)
                            &&& all_given(
                                *to_js,
                                *final(store),
                                final(self).results(),
                                array_items(reply),
                            )
                            &&& array_items(reply).len() == final(self).results().len()
                            &&& forall|i: int|
                                0 <= i < final(self).results().len() ==> call_ensures(
                                    *to_js,
                                    (&final(self).results()[i], final(store)),
                                    #[trigger] array_items(reply)[i],
                                )
                        },
                        Err(_) => is_undefined(reply),
                    }
                },
            (forall|ctx: StoreContextMut<'_, T>, res: &mut [Value], outcome: Result<(), E>|
                #[trigger] call_ensures(*host, (ctx, args, res), outcome) ==> (*final(ctx.store))@.extends((*ctx.store)@)) ==> final(store)@.extends(old(store)@),
    {
        let ctx = StoreContextMut::from_ref(store);
        match host(ctx, args, self.res.as_mut_slice()) {
            Ok(_) => {
                let js = values_to_js(store, self.res.as_slice(), to_js);
                array_of(js)
            },
            Err(_) => JsValue::undefined(),
        }
    }

    /// Answers a call of the guest: takes its arguments as values of the types of
    /// the parameters, each of which they have to be, and runs the function on them.
    pub fn call<
        T,
        E,
        X,
        H: Fn(StoreContextMut<'_, T>, &[Value], &mut [Value]) -> Result<(), E>,
        J: Fn(&Value, &StoreInner<T>) -> JsValue,
        C: Fn(&mut StoreInner<T>, ValueType, JsValue) -> Result<Value, X>,
    >(
        &mut self,
        store: &mut StoreInner<T>,
        js: Vec<JsValue>,
        host: &H,
        to_js: &J,
        from_js: &C,
    ) -> (reply: JsValue)
        requires
            js@.len() == old(self).func_type().param_types().len(),
            forall|
                borrows: Seq<&mut StoreInner<T>>,
                args: &[Value],
                ctx: StoreContextMut<'_, T>,
                res: &mut [Value],
            | #[trigger]
                all_taken(
                    *from_js,
                    borrows,
                    old(self).func_type().param_types(),
                    js@,
                    args@,
                ) && (forall|i: int|
                    0 <= i < js@.len() ==> *(#[trigger] borrows[i]) == if i == 0 {
                        *old(store)
                    } else {
                        *final(borrows[i - 1])
                    }) && *ctx.store == (if js@.len() == 0 {
                    *old(store)
                } else {
                    *final(borrows[js@.len() - 1])
                }) && res@ == old(self).results() ==> #[trigger] call_requires(
                    *host,
                    (ctx, args, res),
                ),
            forall|
                borrows: Seq<&mut StoreInner<T>>,
                args: &[Value],
                ctx: StoreContextMut<'_, T>,
                res: &mut [Value],
                outcome: Result<(), E>,
            | #[trigger]
                all_taken(
                    *from_js,
                    borrows,
                    old(self).func_type().param_types(),
                    js@,
                    args@,
                ) && (forall|i: int|
                    0 <= i < js@.len() ==> *(#[trigger] borrows[i]) == if i == 0 {
                        *old(store)
                    } else {
                        *final(borrows[i - 1])
                    }) && *ctx.store == (if js@.len() == 0 {
                    *old(store)
                } else {
                    *final(borrows[js@.len() - 1])
                }) && res@ == old(self).results() && #[trigger] call_ensures(
                    *host,
                    (ctx, args, res),
                    outcome,
                ) && outcome is Ok ==> gives(*to_js, *final(ctx.store), final(res)@),
            takes(*from_js, old(self).func_type().param_types(), js@),
            forall|
                i: int,
                borrows: Seq<&mut StoreInner<T>>,
                taken: Seq<Value>,
                borrow: &mut StoreInner<T>,
                outcome: Result<Value, X>,
            |
                0 <= i < js@.len() && #[trigger] all_taken(
                    *from_js,
                    borrows,
                    old(self).func_type().param_types().take(i),
                    js@.take(i),
                    taken,
                ) && (forall|j: int|
                    0 <= j < i ==> *(#[trigger] borrows[j]) == if j == 0 {
                        *old(store)
                    } else {
                        *final(borrows[j - 1])
                    }) && *borrow == (if i == 0 {
                    *old(store)
                } else {
                    *final(borrows[i - 1])
                }) && #[trigger] call_ensures(
                    *from_js,
                    (borrow, old(self).func_type().param_types()[i], js@[i]),
                    outcome,
                ) ==> outcome is Ok,
        ensures
            exists|
                borrows: Seq<&mut StoreInner<T>>,
                args: &[Value],
                ctx: StoreContextMut<'_, T>,
                res: &mut [Value],
                outcome: Result<(), E>,
            |
                {
                    &&& #[trigger] all_taken(
                        *from_js,
                        borrows,
                        old(self).func_type().param_types(),
                        js@,
                        args@,
                    )
                    &&& borrows.len() == js@.len()
                    &&& args@.len() == js@.len()
                    &&& forall|i: int|
                        0 <= i < js@.len() ==> call_ensures(
                            *from_js,
                            (borrows[i], old(self).func_type().param_types()[i], js@[i]),
                            Ok::<Value, X>(#[trigger] args@[i]),
                        )
                    &&& forall|i: int|
                        0 <= i < js@.len() ==> *(#[trigger] borrows[i]) == if i == 0 {
                            *old(store)
                        } else {
                            *final(borrows[i - 1])
                        }
                    &&& #[trigger] call_ensures(*host, (ctx, args, res), outcome)
                    &&& *ctx.store == if js@.len() == 0 {
                        *old(store)
                    } else {
                        *final(borrows[js@.len() - 1])
                    }
                    &&& *final(store) == *final(ctx.store)
                    &&& old(self).ran(
                        *final(self),
                        HostRun { args: args@, given: res@, left: final(res)@ },
                    )
                    &&& res@ == old(self).results()
                    &&& final(self).results() == final(res)@
                    &&& final(self).func_type() == old(self).func_type()
                    &&& match outcome {
                        Ok(_) => {
                            &&& !is_undefined(reply)
                            &&& all_given(
                                *to_js,
                                *final(store),
                                final(self).results(),
                                array_items(reply),
                            )
                            &&& array_items(reply).len() == final(self).results().len()
                            &&& forall|i: int|
                                0 <= i < final(self).results().len() ==> call_ensures(
                                    *to_js,
                                    (&final(self).results()[i], final(store)),
                                    #[trigger] array_items(reply)[i],
                                )
                        },
                        Err(_) => is_undefined(reply),
                    }
                },
            (forall|
                ctx: StoreContextMut<'_, T>,
                args: &[Value],
                res: &mut [Value],
                outcome: Result<(), E>,
            | #[trigger]
                call_ensures(*host, (ctx, args, res), outcome) ==> (*final(ctx.store))@.extends(
                    (*ctx.store)@,
                )) && (forall|
                borrow: &mut StoreInner<T>,
                ty: ValueType,
                value: JsValue,
                taken: Result<Value, X>,
            | #[trigger]
                call_ensures(*from_js, (borrow, ty, value), taken) ==> (*final(borrow))@.extends((*borrow)@)) ==> final(store)@.extends(old(store)@),
    {
        let args = values_from_js(store, self.ty.params(), js, from_js);
        self.run(store, args.as_slice(), host, to_js)
    }
}

/// A new function of the host starts with one zero for each result.
pub proof fn law_results_start_as_zeros(len: nat)
    ensures
        zeros(len).len() == len,
        forall|i: int| 0 <= i < len ==> #[trigger] zeros(len)[i] == Value::I32(0),
{
}

/// A run is handed the results as the function of the host holds them, leaves there
/// what it wrote, and does not touch the type.
pub proof fn law_run_writes_to_the_results(before: HostFunc, after: HostFunc, run: HostRun)
    ensures
        before.ran(after, run) <==> {
            &&& run.given == before.results()
            &&& after.results() == run.left
            &&& after.func_type() == before.func_type()
        },
{
}

} // verus!
