//! The values of the JavaScript host, and what the library asks of it.
//!
//! All of it needs such a host: on a target without one every call here but that of
//! `JsValue::undefined` panics.
//!
//! A [`JsValue`] stands for the JavaScript value that it refers to: two of them
//! are equal in a contract when they refer to the same value.
use js_sys::{Array, Function};
use vstd::prelude::*;
use wasm_bindgen::{JsCast, JsValue};

use crate::store::StoreInner;

verus! {

/// A value owned by the JavaScript host.
#[verifier::external_type_specification]
#[verifier::external_body]
pub struct ExJsValue(JsValue);

/// A JavaScript value that is a function.
#[verifier::external_type_specification]
#[verifier::external_body]
pub struct ExFunction(Function);

/// `JsValue::is_function`: whether the `typeof` operator gives `"function"`.
pub uninterp spec fn is_function(value: JsValue) -> bool;

/// `JsValue::is_undefined`: whether the value is `undefined`.
pub uninterp spec fn is_undefined(value: JsValue) -> bool;

/// The JavaScript value that a function is: what its `AsRef<JsValue>` refers to.
pub uninterp spec fn function_value(func: Function) -> JsValue;

/// The elements that an array was made of by `Array::from_iter`.
pub uninterp spec fn array_items(array: JsValue) -> Seq<JsValue>;

/// `outcome` is what one call of `Function::apply` on `func` with this `this`
/// and these `args` came to: `Ok` with what the function returned, `Err` with
/// what it threw. Another call with the same arguments may come to another.
pub uninterp spec fn applied(
    func: Function,
    this: JsValue,
    args: Seq<JsValue>,
    outcome: Result<JsValue, JsValue>,
) -> bool;

/// One application of a function of JavaScript.
pub ghost struct GuestEvent<T> {
    pub func: Function,
    pub this: JsValue,
    pub args: Seq<JsValue>,
    /// The store that the function could reach, as it was when it was applied.
    pub entered: StoreInner<T>,
    /// The store as the function left it.
    pub left: StoreInner<T>,
    /// What the function returned, or what it threw.
    pub outcome: Result<JsValue, JsValue>,
}

/// The applications of functions of JavaScript that were made with this log, in
/// their order. It takes no room when the program runs.
pub struct GuestLog<T> {
    events: Ghost<Seq<GuestEvent<T>>>,
}

impl<T> View for GuestLog<T> {
    type V = Seq<GuestEvent<T>>;

    closed spec fn view(&self) -> Seq<GuestEvent<T>> {
        self.events@
    }
}

impl<T> GuestLog<T> {
    pub fn new() -> (log: GuestLog<T>)
        ensures
            log@ == Seq::<GuestEvent<T>>::empty(),
    {
        GuestLog { events: Ghost(Seq::empty()) }
    }
}

/// `JsValue::undefined`: the value `undefined`.
pub assume_specification[ JsValue::undefined ]() -> (value: JsValue)
    ensures
        is_undefined(value),
;

/// `Function::clone`: one more reference to the same function.
pub assume_specification[ <Function as Clone>::clone ](func: &Function) -> (copy: Function)
    ensures
        copy == *func,
;

/// `JsCast::dyn_into`: the same value as a `Function` if it is one, and the
/// value itself if it is not.
#[verifier::external_body]
pub(crate) fn into_function(value: JsValue) -> (cast: Result<Function, JsValue>)
    ensures
        match cast {
            Ok(func) => is_function(value) && function_value(func) == value,
            Err(same) => !is_function(value) && same == value,
        },
{
    value.dyn_into::<Function>()
}

/// `Array::from_iter`: a new array of the items in their order. An array is
/// an object, so it is not `undefined`.
#[verifier::external_body]
pub(crate) fn array_of(items: Vec<JsValue>) -> (array: JsValue)
    ensures
        array_items(array) == items@,
        !is_undefined(array),
{
    Array::from_iter(items).into()
}

/// `Function::apply`: calls the function once, with `this` and the arguments in
/// their order, and enters the call in the log.
///
/// What it returns or throws is for the function to decide, and so is whether it
/// returns at all. While it runs it can call functions of the host, which reach
/// the store, and nothing is said of how it leaves that. The log it cannot reach.
#[verifier::external_body]
pub(crate) fn apply<T>(
    func: &Function,
    this: &JsValue,
    args: Vec<JsValue>,
    store: &mut StoreInner<T>,
    log: &mut GuestLog<T>,
) -> (outcome: Result<JsValue, JsValue>)
    ensures
        applied(*func, *this, args@, outcome),
        final(log)@ == old(log)@.push(
            GuestEvent {
                func: *func,
                this: *this,
                args: args@,
                entered: *old(store),
                left: *final(store),
                outcome,
            },
        ),
{
    let _ = (store, log);
    func.apply(this, &Array::from_iter(args))
}

} // verus!
