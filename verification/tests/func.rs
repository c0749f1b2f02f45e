use std::cell::Cell;
use std::rc::Rc;

use js_sys::Function;
use wasm_bindgen::convert::IntoWasmAbi;
use wasm_bindgen::{JsCast, JsValue};
use web_store::func::{CallError, Func, GuestReturn, MAX_HOST_PARAMS};
use web_store::store::{DropResource, Engine, StoreInner};
use web_store::types::{FuncType, Value, ValueType};

const ENGINE: Engine = Engine { id: 0 };

fn function(value: JsValue) -> Function {
    value.unchecked_into::<Function>()
}

fn resource() -> DropResource {
    DropResource { value: Box::new(()) }
}

fn returned(results: &[ValueType], outcome: Result<JsValue, JsValue>) -> GuestReturn {
    GuestReturn { ty: FuncType::new(&[], results), outcome }
}

/// Takes `true` and `false` as numbers, and nothing else.
fn from_js(
    store: &mut StoreInner<Vec<ValueType>>,
    ty: ValueType,
    value: JsValue,
) -> Result<Value, &'static str> {
    store.data_mut().push(ty);
    let index = value.into_abi();
    if index == JsValue::TRUE.into_abi() {
        Ok(Value::I32(1))
    } else if index == JsValue::FALSE.into_abi() {
        Ok(Value::I32(0))
    } else {
        Err("not a truth value")
    }
}

#[test]
fn exported_function_is_named_after_the_guest() {
    let mut store = StoreInner::new(&ENGINE, ());
    let ty = FuncType::new(&[ValueType::I32], &[ValueType::I32]);
    let handle = Func::bind_exported("add", &mut store, function(JsValue::TRUE), ty);
    assert_eq!(handle, Func { id: 0 });
    assert_eq!(store.func(handle).name, "guest.add");
    let object: &JsValue = store.func(handle).func.as_ref();
    assert_eq!(object.into_abi(), JsValue::TRUE.into_abi());
    let unnamed = FuncType::new(&[], &[]);
    let handle = Func::bind_exported("", &mut store, function(JsValue::TRUE), unnamed);
    assert_eq!(store.func(handle).name, "guest.");
}

#[test]
fn host_function_keeps_its_name_and_type() {
    let mut store = StoreInner::new(&ENGINE, ());
    let ty = FuncType::new(&[ValueType::I32, ValueType::FuncRef], &[ValueType::ExternRef]);
    let handle = Func::new("log", &mut store, ty, function(JsValue::NULL), resource());
    assert_eq!(store.func(handle).name, "log");
    let ty = handle.ty(&store);
    assert_eq!(ty.params(), [ValueType::I32, ValueType::FuncRef]);
    assert_eq!(ty.results(), [ValueType::ExternRef]);
}

#[test]
fn host_function_may_have_eight_parameters() {
    let mut store = StoreInner::new(&ENGINE, ());
    assert_eq!(MAX_HOST_PARAMS, 8);
    let ty = FuncType::new(&[ValueType::I64; 8], &[]);
    let handle = Func::new("wide", &mut store, ty, function(JsValue::NULL), resource());
    assert_eq!(handle.ty(&store).params().len(), 8);
}

#[test]
fn host_function_lives_as_long_as_the_store() {
    #[derive(Debug)]
    struct Dropped(Rc<Cell<bool>>);
    impl Drop for Dropped {
        fn drop(&mut self) {
            self.0.set(true);
        }
    }
    let dropped = Rc::new(Cell::new(false));
    let mut store = StoreInner::new(&ENGINE, ());
    let value = Box::new(Dropped(dropped.clone()));
    let ty = FuncType::new(&[], &[]);
    Func::new("f", &mut store, ty, function(JsValue::NULL), DropResource { value });
    assert!(!dropped.get());
    drop(store);
    assert!(dropped.get());
}

#[test]
fn type_splits_into_parameters_and_results() {
    let params = [ValueType::I32, ValueType::I64];
    let results = [ValueType::F32, ValueType::F64, ValueType::I32];
    let ty = FuncType::new(&params, &results);
    assert_eq!(ty.params(), params);
    assert_eq!(ty.results(), results);
    let copy = ty.clone();
    assert_eq!(copy.params(), params);
    assert_eq!(copy.results(), results);
    assert!(FuncType::new(&[], &results).params().is_empty());
    assert!(FuncType::new(&params, &[]).results().is_empty());
}

#[test]
fn thrown_value_is_the_error() {
    let mut store = StoreInner::new(&ENGINE, Vec::new());
    let mut results = [Value::I64(9)];
    let ret = returned(&[ValueType::I32], Err(JsValue::NULL));
    let error = ret.finish(&mut store, &mut results, &from_js).unwrap_err();
    assert_eq!(error.message(), "Guest function threw an error");
    match error {
        CallError::GuestThrew(thrown) => {
            assert_eq!(thrown.into_abi(), JsValue::NULL.into_abi());
        }
        CallError::ReturnConversion(_) => panic!("the guest threw"),
    }
    assert_eq!(results, [Value::I64(9)]);
    assert!(store.data().is_empty());
}

#[test]
fn thrown_value_comes_before_the_number_of_results() {
    let mut store = StoreInner::new(&ENGINE, Vec::new());
    let ret = returned(&[ValueType::I32, ValueType::I32], Err(JsValue::NULL));
    assert!(ret.finish(&mut store, &mut [], &from_js).is_err());
}

#[test]
fn function_without_results_writes_none() {
    let mut store = StoreInner::new(&ENGINE, Vec::new());
    let ret = returned(&[], Ok(JsValue::TRUE));
    assert!(ret.finish(&mut store, &mut [], &from_js).is_ok());
    assert!(store.data().is_empty());
}

#[test]
fn single_result_is_converted_and_written() {
    let mut store = StoreInner::new(&ENGINE, Vec::new());
    let mut results = [Value::I64(9)];
    let ret = returned(&[ValueType::I32], Ok(JsValue::TRUE));
    assert!(ret.finish(&mut store, &mut results, &from_js).is_ok());
    assert_eq!(results, [Value::I32(1)]);
    assert_eq!(store.data(), &[ValueType::I32]);
}

#[test]
fn result_of_another_type_is_an_error() {
    let mut store = StoreInner::new(&ENGINE, Vec::new());
    let mut results = [Value::I64(9)];
    let ret = returned(&[ValueType::F64], Ok(JsValue::UNDEFINED));
    let error = ret.finish(&mut store, &mut results, &from_js).unwrap_err();
    assert_eq!(error.message(), "Failed to convert return value");
    assert!(matches!(error, CallError::ReturnConversion("not a truth value")));
    assert_eq!(results, [Value::I64(9)]);
    assert_eq!(store.data(), &[ValueType::F64]);
}

#[test]
fn one_object_bound_twice_is_two_functions() {
    let mut store = StoreInner::new(&ENGINE, ());
    let one = Func::bind_exported("f", &mut store, function(JsValue::TRUE), FuncType::new(&[], &[]));
    let two = Func::bind_exported("f", &mut store, function(JsValue::TRUE), FuncType::new(&[], &[]));
    assert_ne!(one, two);
    let one: &JsValue = store.func(one).func.as_ref();
    let two: &JsValue = store.func(two).func.as_ref();
    assert_eq!(one.into_abi(), two.into_abi());
}
