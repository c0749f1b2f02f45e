//! Functions of a store.
use js_sys::Function;
use vstd::prelude::*;
use wasm_bindgen::JsValue;

#[allow(unused_imports)]
use crate::convert::{all_given, gives};
use crate::convert::values_to_js;
use crate::js::{apply, into_function, GuestLog};
#[allow(unused_imports)]
use crate::js::{applied, function_value, is_function, is_undefined, GuestEvent};
#[allow(unused_imports)]
use crate::slots::{inserted, law_insertion_fills_one_entry};
#[allow(unused_imports)]
use crate::store::StoreModel;
use crate::store::{DropResource, StoreInner};
use crate::types::{FuncType, Value, ValueType};

verus! {

/// The most parameters that a function of the host can have.
pub const MAX_HOST_PARAMS: usize = 8;

/// A bound function.
#[derive(Debug, Clone, Copy, PartialEq, Eq, Structural)]
pub struct Func {
    pub id: usize,
}

/// What a store holds of a function.
#[derive(Debug)]
pub struct FuncInner {
    pub func: Function,
    pub ty: FuncType,
    pub name: String,
}

/// Why a call of a guest function failed.
#[derive(Debug)]
pub enum CallError<X> {
    /// The function threw this value.
    GuestThrew(JsValue),
    /// What the function returned is no value of its result type, for this reason.
    ReturnConversion(X),
}

/// A call of a guest function that is ready to be made.
#[derive(Debug)]
pub struct GuestCall {
    /// The JavaScript function.
    pub func: Function,
    /// The type of the function.
    pub ty: FuncType,
    /// The arguments, as JavaScript takes them.
    pub args: Vec<JsValue>,
}

/// The function throws whenever it is applied to what `to_js` gives for `args`.
pub open spec fn throws_on<T, J: Fn(&Value, &StoreInner<T>) -> JsValue>(
    func: Function,
    to_js: J,
    store: StoreInner<T>,
    args: Seq<Value>,
) -> bool {
    forall|this: JsValue, js: Seq<JsValue>, outcome: Result<JsValue, JsValue>|
        is_undefined(this) && all_given(to_js, store, args, js) && #[trigger] applied(
            func,
            this,
            js,
            outcome,
        ) ==> outcome is Err
}

/// What came back from a guest function.
#[derive(Debug)]
pub struct GuestReturn {
    /// The type of the function.
    pub ty: FuncType,
    /// What the function returned, or what it threw.
    pub outcome: Result<JsValue, JsValue>,
}

impl<X> CallError<X> {
    /// What went wrong, in words.
    pub fn message(&self) -> (message: &'static str)
        ensures
            message@ == match self {
                CallError::GuestThrew(_) => "Guest function threw an error"@,
                CallError::ReturnConversion(_) => "Failed to convert return value"@,
            },
    {
        match self {
            CallError::GuestThrew(_) => "Guest function threw an error",
            CallError::ReturnConversion(_) => "Failed to convert return value",
        }
    }
}

impl Func {
    /// `self` is the handle under which the store came to hold the function, and
    /// its functions are otherwise those of before.
    pub open spec fn bound<T>(
        self,
        before: StoreModel<T>,
        after: StoreModel<T>,
        func: Function,
        ty: FuncType,
        name: Seq<char>,
    ) -> bool {
        let inner = after.func(self);
        &&& inserted(before.funcs, after.funcs, self.id as int, inner)
        &&& inner.func == func
        &&& inner.ty == ty
        &&& inner.name@ == name
    }

    /// `self` is the handle under which the store came to hold a function that a
    /// module exports as `name`, which is the JavaScript object `value`.
    pub open spec fn exported<T>(
        self,
        before: StoreModel<T>,
        after: StoreModel<T>,
        value: JsValue,
        signature: FuncType,
        name: Seq<char>,
    ) -> bool {
        let func = after.func(self).func;
        &&& function_value(func) == value
        &&& self.bound(before, after, func, signature, "guest."@ + name)
        &&& after == (StoreModel { funcs: after.funcs, ..before })
    }

    /// `self` is the handle under which the store came to hold a function of the
    /// host and the resource that the function needs.
    pub open spec fn hosted<T>(
        self,
        before: StoreModel<T>,
        after: StoreModel<T>,
        func: Function,
        ty: FuncType,
        name: Seq<char>,
        resource: DropResource,
    ) -> bool {
        &&& self.bound(before, after, func, ty, name)
        &&& after == (StoreModel {
            funcs: after.funcs,
            drop_resources: before.drop_resources.push(resource),
            ..before
        })
    }

    /// The JavaScript function that a handle stands for.
    pub fn to_stored_js<T>(&self, store: &StoreInner<T>) -> (func: Function)
        requires
            store@.has_func(*self),
        ensures
            func == store@.func(*self).func,
            func == store@.funcs[self.id as int]->0.func,
    {
        let func = store.func(*self);
        func.func.clone()
    }

    /// Binds what a module exports under a name, if it is a function.
    pub fn from_exported_function<T>(
        name: &str,
        store: &mut StoreInner<T>,
        value: JsValue,
        signature: FuncType,
    ) -> (handle: Option<Func>)
        ensures
            handle is Some <==> is_function(value),
            match handle {
                Some(handle) => {
                    &&& handle.exported(old(store)@, final(store)@, value, signature, name@)
                    &&& handle.id <= old(store)@.funcs.len()
                    &&& handle.id < old(store)@.funcs.len() ==> old(store)@.funcs[handle.id as int] is None
                    &&& handle.id == old(store)@.funcs.len() <==> (forall|i: int|
                        0 <= i < old(store)@.funcs.len() ==> #[trigger] old(store)@.funcs[i] is Some)
                    &&& final(store)@.funcs.len() == old(store)@.funcs.len() + if handle.id == old(store)@.funcs.len() {
                        1int
                    } else {
                        0int
                    }
                    &&& final(store)@.funcs[handle.id as int] is Some
                    &&& function_value(final(store)@.funcs[handle.id as int]->0.func) == value
                    &&& final(store)@.funcs[handle.id as int]->0.ty == signature
                    &&& final(store)@.funcs[handle.id as int]->0.ty.param_types() == signature.param_types()
                    &&& final(store)@.funcs[handle.id as int]->0.ty.result_types() == signature.result_types()
                    &&& final(store)@.funcs[handle.id as int]->0.name@ == "guest."@ + name@
                    &&& forall|i: int|
                        0 <= i < old(store)@.funcs.len() && i != handle.id ==> #[trigger] final(store)@.funcs[i] == old(store)@.funcs[i]
                    &&& final(store)@.engine == old(store)@.engine
                    &&& final(store)@.instances == old(store)@.instances
                    &&& final(store)@.globals == old(store)@.globals
                    &&& final(store)@.tables == old(store)@.tables
                    &&& final(store)@.memories == old(store)@.memories
                    &&& final(store)@.data == old(store)@.data
                    &&& final(store)@.drop_resources == old(store)@.drop_resources
                },
                None => *final(store) == *old(store),
            },
            final(store)@.extends(old(store)@),
            old(store)@.dense() ==> final(store)@.dense(),
    {
        match into_function(value) {
            Ok(func) => Some(Func::bind_exported(name, store, func, signature)),
            Err(_) => None,
        }
    }

    /// Binds a function that a module exports under a name.
    pub fn bind_exported<T>(
        name: &str,
        store: &mut StoreInner<T>,
        func: Function,
        signature: FuncType,
    ) -> (handle: Func)
        ensures
            handle.bound(old(store)@, final(store)@, func, signature, "guest."@ + name@),
            handle.id <= old(store)@.funcs.len(),
            handle.id < old(store)@.funcs.len() ==> old(store)@.funcs[handle.id as int] is None,
            handle.id == old(store)@.funcs.len() <==> (forall|i: int|
                0 <= i < old(store)@.funcs.len() ==> #[trigger] old(store)@.funcs[i] is Some),
            final(store)@.funcs.len() == old(store)@.funcs.len() + if handle.id == old(store)@.funcs.len() {
                1int
            } else {
                0int
            },
            final(store)@.funcs[handle.id as int] is Some,
            final(store)@.funcs[handle.id as int]->0.func == func,
            final(store)@.funcs[handle.id as int]->0.ty == signature,
            final(store)@.funcs[handle.id as int]->0.ty.param_types() == signature.param_types(),
            final(store)@.funcs[handle.id as int]->0.ty.result_types() == signature.result_types(),
            final(store)@.funcs[handle.id as int]->0.name@ == "guest."@ + name@,
            forall|i: int|
                0 <= i < old(store)@.funcs.len() && i != handle.id ==> #[trigger] final(store)@.funcs[i] == old(store)@.funcs[i],
            final(store)@.engine == old(store)@.engine,
            final(store)@.instances == old(store)@.instances,
            final(store)@.globals == old(store)@.globals,
            final(store)@.tables == old(store)@.tables,
            final(store)@.memories == old(store)@.memories,
            final(store)@.data == old(store)@.data,
            final(store)@.drop_resources == old(store)@.drop_resources,
            final(store)@ == (StoreModel { funcs: final(store)@.funcs, ..old(store)@ }),
            final(store)@.extends(old(store)@),
            old(store)@.dense() ==> final(store)@.dense(),
    {
        let mut full_name = "guest.".to_string();
        full_name.append(name);
        store.insert_func(FuncInner { func, ty: signature, name: full_name })
    }

    /// Binds a function of the host, given as the JavaScript function that calls
    /// it, which lives as long as the resource.
    pub fn new<T>(
        name: &str,
        store: &mut StoreInner<T>,
        ty: FuncType,
        func: Function,
        resource: DropResource,
    ) -> (handle: Func)
        requires
            ty.param_types().len() <= MAX_HOST_PARAMS,
        ensures
            handle.hosted(old(store)@, final(store)@, func, ty, name@, resource),
            handle.id <= old(store)@.funcs.len(),
            handle.id < old(store)@.funcs.len() ==> old(store)@.funcs[handle.id as int] is None,
            handle.id == old(store)@.funcs.len() <==> (forall|i: int|
                0 <= i < old(store)@.funcs.len() ==> #[trigger] old(store)@.funcs[i] is Some),
            final(store)@.funcs.len() == old(store)@.funcs.len() + if handle.id == old(store)@.funcs.len() {
                1int
            } else {
                0int
            },
            final(store)@.funcs[handle.id as int] is Some,
            final(store)@.funcs[handle.id as int]->0.func == func,
            final(store)@.funcs[handle.id as int]->0.ty == ty,
            final(store)@.funcs[handle.id as int]->0.ty.param_types() == ty.param_types(),
            final(store)@.funcs[handle.id as int]->0.ty.result_types() == ty.result_types(),
            final(store)@.funcs[handle.id as int]->0.name@ == name@,
            forall|i: int|
                0 <= i < old(store)@.funcs.len() && i != handle.id ==> #[trigger] final(store)@.funcs[i] == old(store)@.funcs[i],
            final(store)@.drop_resources == old(store)@.drop_resources.push(resource),
            final(store)@.engine == old(store)@.engine,
            final(store)@.instances == old(store)@.instances,
            final(store)@.globals == old(store)@.globals,
            final(store)@.tables == old(store)@.tables,
            final(store)@.memories == old(store)@.memories,
            final(store)@.data == old(store)@.data,
            final(store)@.extends(old(store)@),
            old(store)@.dense() ==> final(store)@.dense(),
    {
        let handle = store.insert_func(FuncInner { func, ty, name: name.to_string() });
        store.insert_drop_resource(resource);
        handle
    }

    /// The type of the function.
    pub fn ty<T>(&self, store: &StoreInner<T>) -> (ty: FuncType)
        requires
            store@.has_func(*self),
        ensures
            ty.same(&store@.func(*self).ty),
            ty.param_types() == store@.funcs[self.id as int]->0.ty.param_types(),
            ty.result_types() == store@.funcs[self.id as int]->0.ty.result_types(),
    {
        store.func(*self).ty.clone()
    }

    /// Makes ready a call of the function on these arguments.
    pub fn prepare_call<T, J: Fn(&Value, &StoreInner<T>) -> JsValue>(
        &self,
        store: &StoreInner<T>,
        args: &[Value],
        to_js: &J,
    ) -> (call: GuestCall)
        requires
            store@.has_func(*self),
            gives(*to_js, *store, args@),
        ensures
            call.func == store@.func(*self).func,
            call.ty.same(&store@.func(*self).ty),
            call.func == store@.funcs[self.id as int]->0.func,
            call.ty.param_types() == store@.funcs[self.id as int]->0.ty.param_types(),
            call.ty.result_types() == store@.funcs[self.id as int]->0.ty.result_types(),
            all_given(*to_js, *store, args@, call.args@),
            call.args@.len() == args@.len(),
            forall|i: int|
                0 <= i < args@.len() ==> call_ensures(
                    *to_js,
                    (&args@[i], store),
                    #[trigger] call.args@[i],
                ),
    {
        GuestCall {
            func: self.to_stored_js(store),
            ty: self.ty(store),
            args: values_to_js(store, args, to_js),
        }
    }

    /// Calls the function, once, and writes what it returns to `results`. Unless it
    /// throws on these arguments, `results` has room for its results, which are at
    /// most one.
    ///
    /// The function may call back into the store, and leaves it as it likes; the
    /// log says how. The call adds to that no more than `from_js` does.
    pub fn call<
        T,
        X,
        J: Fn(&Value, &StoreInner<T>) -> JsValue,
        C: Fn(&mut StoreInner<T>, ValueType, JsValue) -> Result<Value, X>,
    >(
        &self,
        store: &mut StoreInner<T>,
        args: &[Value],
        results: &mut [Value],
        to_js: &J,
        from_js: &C,
        log: &mut GuestLog<T>,
    ) -> (done: Result<(), CallError<X>>)
        requires
            old(store)@.has_func(*self),
            throws_on(old(store)@.func(*self).func, *to_js, *old(store), args@) || {
                &&& old(results)@.len() == old(store)@.func(*self).ty.result_types().len()
                &&& old(results)@.len() <= 1
                &&& forall|borrow: &mut StoreInner<T>, value: JsValue|
                    old(results)@.len() == 1 ==> #[trigger] call_requires(
                        *from_js,
                        (borrow, old(store)@.func(*self).ty.result_types()[0], value),
                    )
            },
            gives(*to_js, *old(store), args@),
        ensures
            final(log)@.len() == old(log)@.len() + 1,
            final(log)@.drop_last() == old(log)@,
            final(log)@.last().func == old(store)@.func(*self).func,
            is_undefined(final(log)@.last().this),
            final(log)@.last().func == old(store)@.funcs[self.id as int]->0.func,
            all_given(*to_js, *old(store), args@, final(log)@.last().args),
            final(log)@.last().args.len() == args@.len(),
            forall|i: int|
                0 <= i < args@.len() ==> call_ensures(
                    *to_js,
                    (&args@[i], old(store)),
                    #[trigger] final(log)@.last().args[i],
                ),
            final(log)@.last().entered == *old(store),
            applied(
                final(log)@.last().func,
                final(log)@.last().this,
                final(log)@.last().args,
                final(log)@.last().outcome,
            ),
            match final(log)@.last().outcome {
                Err(thrown) => {
                    &&& done == Err::<(), CallError<X>>(CallError::GuestThrew(thrown))
                    &&& final(results)@ == old(results)@
                    &&& *final(store) == final(log)@.last().left
                },
                Ok(value) => if old(results)@.len() == 0 {
                    &&& done is Ok
                    &&& final(results)@ == old(results)@
                    &&& *final(store) == final(log)@.last().left
                } else {
                    exists|borrow: &mut StoreInner<T>, taken: Result<Value, X>|
                        {
                            &&& #[trigger] call_ensures(
                                *from_js,
                                (borrow, old(store)@.func(*self).ty.result_types()[0], value),
                                taken,
                            )
                            &&& *borrow == final(log)@.last().left
                            &&& *final(store) == *final(borrow)
                            &&& match taken {
                                Ok(result) => {
                                    &&& done is Ok
                                    &&& final(results)@ == old(results)@.update(0, result)
                                },
                                Err(reason) => {
                                    &&& done == Err::<(), CallError<X>>(
                                        CallError::ReturnConversion(reason),
                                    )
                                    &&& final(results)@ == old(results)@
                                },
                            }
                        }
                },
            },
            final(log)@.last().left@.extends(old(store)@) && (forall|
                borrow: &mut StoreInner<T>,
                ty: ValueType,
                value: JsValue,
                taken: Result<Value, X>,
            | #[trigger]
                call_ensures(*from_js, (borrow, ty, value), taken) ==> (*final(borrow))@.extends((*borrow)@)) ==> final(store)@.extends(old(store)@),
    {
        let call = self.prepare_call(store, args, to_js);
        let ret = call.apply(store, log);
        assert(log@.drop_last() =~= old(log)@);
        ret.finish(store, results, from_js)
    }
}

impl GuestCall {
    /// Calls the function in JavaScript, once, with `undefined` for `this`, and
    /// hands back what came of it.
    ///
    /// Nothing is said of how the function leaves the store, which it can reach when
    /// it calls back into the host, but that the log has it.
    pub fn apply<T>(self, store: &mut StoreInner<T>, log: &mut GuestLog<T>) -> (ret: GuestReturn)
        ensures
            ret.ty == self.ty,
            exists|this: JsValue|
                {
                    &&& is_undefined(this)
                    &&& #[trigger] applied(self.func, this, self.args@, ret.outcome)
                    &&& final(log)@ == old(log)@.push(
                        GuestEvent {
                            func: self.func,
                            this,
                            args: self.args@,
                            entered: *old(store),
                            left: *final(store),
                            outcome: ret.outcome,
                        },
                    )
                },
    {
        let outcome = apply(&self.func, &JsValue::undefined(), self.args, store, log);
        GuestReturn { ty: self.ty, outcome }
    }
}

impl GuestReturn {
    /// Ends a call of a guest function: writes what it returned to `results`, or
    /// says why it failed.
    ///
    /// Of a function that returned, `results` has room for the results, which are
    /// at most one.
    pub fn finish<T, X, C: Fn(&mut StoreInner<T>, ValueType, JsValue) -> Result<Value, X>>(
        self,
        store: &mut StoreInner<T>,
        results: &mut [Value],
        from_js: &C,
    ) -> (done: Result<(), CallError<X>>)
        requires
            self.outcome is Ok ==> {
                &&& old(results)@.len() == self.ty.result_types().len()
                &&& old(results)@.len() <= 1
            },
            forall|borrow: &mut StoreInner<T>|
                self.outcome is Ok && self.ty.result_types().len() > 0 && *borrow == *old(store)
                    ==> #[trigger] call_requires(
                    *from_js,
                    (borrow, self.ty.result_types()[0], self.outcome->Ok_0),
                ),
        ensures
            match self.outcome {
                Err(thrown) => {
                    &&& done == Err::<(), CallError<X>>(CallError::GuestThrew(thrown))
                    &&& final(results)@ == old(results)@
                    &&& *final(store) == *old(store)
                },
                Ok(value) => if self.ty.result_types().len() == 0 {
                    &&& done is Ok
                    &&& final(results)@ == old(results)@
                    &&& *final(store) == *old(store)
                } else {
                    exists|borrow: &mut StoreInner<T>, taken: Result<Value, X>|
                        {
                            &&& #[trigger] call_ensures(
                                *from_js,
                                (borrow, self.ty.result_types()[0], value),
                                taken,
                            )
                            &&& *borrow == *old(store)
                            &&& *final(store) == *final(borrow)
                            &&& match taken {
                                Ok(result) => {
                                    &&& done is Ok
                                    &&& final(results)@ == old(results)@.update(0, result)
                                },
                                Err(reason) => {
                                    &&& done == Err::<(), CallError<X>>(
                                        CallError::ReturnConversion(reason),
                                    )
                                    &&& final(results)@ == old(results)@
                                },
                            }
                        }
                },
            },
    {
        match self.outcome {
            Err(thrown) => Err(CallError::GuestThrew(thrown)),
            Ok(value) => {
                let types = self.ty.results();
                if types.len() == 0 {
                    return Ok(());
                }
                match from_js(store, types[0], value) {
                    Ok(result) => {
                        results[0] = result;
                        Ok(())
                    },
                    Err(reason) => Err(CallError::ReturnConversion(reason)),
                }
            },
        }
    }
}

/// A function is bound under a handle exactly when the table has at its id, where
/// nothing was, the JavaScript function, the type and the name that were given, and
/// has all other functions where they were.
pub proof fn law_bound_function_is_as_given<T>(
    before: StoreModel<T>,
    after: StoreModel<T>,
    handle: Func,
    func: Function,
    ty: FuncType,
    name: Seq<char>,
)
    ensures
        handle.bound(before, after, func, ty, name) <==> {
            &&& handle.id <= before.funcs.len()
            &&& handle.id < before.funcs.len() ==> before.funcs[handle.id as int] is None
            &&& handle.id == before.funcs.len() <==> (forall|i: int|
                0 <= i < before.funcs.len() ==> #[trigger] before.funcs[i] is Some)
            &&& after.funcs.len() == before.funcs.len() + if handle.id == before.funcs.len() {
                1int
            } else {
                0int
            }
            &&& after.funcs[handle.id as int] is Some
            &&& after.funcs[handle.id as int]->0.func == func
            &&& after.funcs[handle.id as int]->0.ty == ty
            &&& after.funcs[handle.id as int]->0.name@ == name
            &&& forall|i: int|
                0 <= i < before.funcs.len() && i != handle.id ==> #[trigger] after.funcs[i] == before.funcs[i]
        },
{
    law_insertion_fills_one_entry(
        before.funcs,
        after.funcs,
        handle.id as int,
        after.func(handle),
    );
}

/// An exported function is bound as the JavaScript object that was given, with the
/// signature that was given, under the name of the export within the guest; nothing
/// else of the store changes.
pub proof fn law_exported_function_is_as_given<T>(
    before: StoreModel<T>,
    after: StoreModel<T>,
    handle: Func,
    value: JsValue,
    signature: FuncType,
    name: Seq<char>,
)
    ensures
        handle.exported(before, after, value, signature, name) <==> {
            &&& handle.id <= before.funcs.len()
            &&& handle.id < before.funcs.len() ==> before.funcs[handle.id as int] is None
            &&& handle.id == before.funcs.len() <==> (forall|i: int|
                0 <= i < before.funcs.len() ==> #[trigger] before.funcs[i] is Some)
            &&& after.funcs.len() == before.funcs.len() + if handle.id == before.funcs.len() {
                1int
            } else {
                0int
            }
            &&& after.funcs[handle.id as int] is Some
            &&& function_value(after.funcs[handle.id as int]->0.func) == value
            &&& after.funcs[handle.id as int]->0.ty == signature
            &&& after.funcs[handle.id as int]->0.name@ == "guest."@ + name
            &&& forall|i: int|
                0 <= i < before.funcs.len() && i != handle.id ==> #[trigger] after.funcs[i] == before.funcs[i]
            &&& after.engine == before.engine
            &&& after.instances == before.instances
            &&& after.globals == before.globals
            &&& after.tables == before.tables
            &&& after.memories == before.memories
            &&& after.data == before.data
            &&& after.drop_resources == before.drop_resources
        },
{
    law_bound_function_is_as_given(
        before,
        after,
        handle,
        after.func(handle).func,
        signature,
        "guest."@ + name,
    );
}

/// A function of the host is bound as the JavaScript function, with the type and
/// under the name that were given, and its resource is kept behind all others;
/// nothing else of the store changes.
pub proof fn law_host_function_is_as_given<T>(
    before: StoreModel<T>,
    after: StoreModel<T>,
    handle: Func,
    func: Function,
    ty: FuncType,
    name: Seq<char>,
    resource: DropResource,
)
    ensures
        handle.hosted(before, after, func, ty, name, resource) <==> {
            &&& handle.id <= before.funcs.len()
            &&& handle.id < before.funcs.len() ==> before.funcs[handle.id as int] is None
            &&& handle.id == before.funcs.len() <==> (forall|i: int|
                0 <= i < before.funcs.len() ==> #[trigger] before.funcs[i] is Some)
            &&& after.funcs.len() == before.funcs.len() + if handle.id == before.funcs.len() {
                1int
            } else {
                0int
            }
            &&& after.funcs[handle.id as int] is Some
            &&& after.funcs[handle.id as int]->0.func == func
            &&& after.funcs[handle.id as int]->0.ty == ty
            &&& after.funcs[handle.id as int]->0.name@ == name
            &&& forall|i: int|
                0 <= i < before.funcs.len() && i != handle.id ==> #[trigger] after.funcs[i] == before.funcs[i]
            &&& after.drop_resources == before.drop_resources.push(resource)
            &&& after.engine == before.engine
            &&& after.instances == before.instances
            &&& after.globals == before.globals
            &&& after.tables == before.tables
            &&& after.memories == before.memories
            &&& after.data == before.data
        },
{
    law_bound_function_is_as_given(before, after, handle, func, ty, name);
}

/// A function throws on arguments exactly when every application of it, with
/// `undefined` for `this` and with what was given for each argument at its place,
/// comes to its throwing something.
pub proof fn law_throwing_is_of_every_application<T, J: Fn(&Value, &StoreInner<T>) -> JsValue>(
    func: Function,
    to_js: J,
    store: StoreInner<T>,
    args: Seq<Value>,
)
    ensures
        throws_on(func, to_js, store, args) <==> (forall|
            this: JsValue,
            js: Seq<JsValue>,
            outcome: Result<JsValue, JsValue>,
        |
            {
                &&& is_undefined(this)
                &&& js.len() == args.len()
                &&& forall|i: int|
                    0 <= i < args.len() ==> call_ensures(
                        to_js,
                        (&args[i], &store),
                        #[trigger] js[i],
                    )
                &&& #[trigger] applied(func, this, js, outcome)
            } ==> outcome is Err),
{
}

} // verus!
