use wasm_bindgen::convert::IntoWasmAbi;
use wasm_bindgen::JsValue;
use web_store::convert::{values_from_js, values_to_js};
use web_store::host::HostFunc;
use web_store::store::{Engine, StoreContextMut, StoreInner};
use web_store::types::{FuncType, Value, ValueType};

const ENGINE: Engine = Engine { id: 0 };

/// The arguments that a function of the host was run on, with the results it found.
type Runs = Vec<(Vec<Value>, Vec<Value>)>;

fn to_js<T>(value: &Value, _store: &StoreInner<T>) -> JsValue {
    match value {
        Value::I32(0) => JsValue::FALSE,
        Value::I32(_) => JsValue::TRUE,
        _ => JsValue::NULL,
    }
}

fn from_js<T>(_store: &mut StoreInner<T>, ty: ValueType, value: JsValue) -> Result<Value, ()> {
    let index = value.into_abi();
    match ty {
        ValueType::I32 => Ok(Value::I32(index as i32)),
        ValueType::I64 => Ok(Value::I64(index as i64)),
        _ => Err(()),
    }
}

fn number(value: JsValue) -> u32 {
    value.into_abi()
}

/// Records what it is run on, writes its first result and fails.
fn failing(
    mut ctx: StoreContextMut<'_, Runs>,
    args: &[Value],
    res: &mut [Value],
) -> Result<(), String> {
    ctx.data_mut().push((args.to_vec(), res.to_vec()));
    if let Some(first) = res.first_mut() {
        *first = Value::I64(5);
    }
    Err("no".to_string())
}

#[test]
fn failing_function_answers_undefined() {
    let mut store = StoreInner::new(&ENGINE, Vec::new());
    let mut host = HostFunc::new(FuncType::new(&[], &[ValueType::I32]));
    let reply = host.run(&mut store, &[], &failing, &to_js);
    assert_eq!(number(reply), number(JsValue::UNDEFINED));
}

#[test]
fn arguments_reach_the_function_in_order_and_typed() {
    let mut store = StoreInner::new(&ENGINE, Vec::new());
    let params = [ValueType::I64, ValueType::I32, ValueType::I64];
    let mut host = HostFunc::new(FuncType::new(&params, &[]));
    let js = vec![JsValue::TRUE, JsValue::NULL, JsValue::FALSE];
    let reply = host.call(&mut store, js, &failing, &to_js, &from_js);
    assert_eq!(number(reply), number(JsValue::UNDEFINED));
    let expected = vec![
        Value::I64(number(JsValue::TRUE) as i64),
        Value::I32(number(JsValue::NULL) as i32),
        Value::I64(number(JsValue::FALSE) as i64),
    ];
    assert_eq!(store.data(), &[(expected, vec![])]);
}

#[test]
fn results_start_as_zeros_and_are_kept_between_calls() {
    let mut store = StoreInner::new(&ENGINE, Vec::new());
    let results = [ValueType::I64, ValueType::F32];
    let mut host = HostFunc::new(FuncType::new(&[], &results));
    host.call(&mut store, vec![], &failing, &to_js, &from_js);
    host.call(&mut store, vec![], &failing, &to_js, &from_js);
    let first = (vec![], vec![Value::I32(0), Value::I32(0)]);
    let second = (vec![], vec![Value::I64(5), Value::I32(0)]);
    assert_eq!(store.data(), &[first, second]);
}

#[test]
fn values_go_to_javascript_in_order() {
    let store = StoreInner::new(&ENGINE, ());
    let values = [Value::I32(1), Value::I64(3), Value::I32(0)];
    let js: Vec<u32> = values_to_js(&store, &values, &to_js).into_iter().map(number).collect();
    let expected = vec![number(JsValue::TRUE), number(JsValue::NULL), number(JsValue::FALSE)];
    assert_eq!(js, expected);
    assert!(values_to_js(&store, &[], &to_js).is_empty());
}

#[test]
fn each_conversion_sees_the_store_of_the_one_before() {
    let mut store = StoreInner::new(&ENGINE, 0u64);
    let counting = |store: &mut StoreInner<u64>, _ty: ValueType, _value: JsValue| {
        *store.data_mut() += 1;
        Ok::<Value, ()>(Value::F64(*store.data()))
    };
    let types = [ValueType::F64; 3];
    let js = vec![JsValue::NULL, JsValue::NULL, JsValue::NULL];
    let values = values_from_js(&mut store, &types, js, &counting);
    assert_eq!(values, [Value::F64(1), Value::F64(2), Value::F64(3)]);
    assert_eq!(*store.data(), 3);
}

#[test]
fn function_may_rely_on_the_lengths_it_is_handed() {
    let mut store = StoreInner::new(&ENGINE, Vec::new());
    let params = [ValueType::I32, ValueType::I64];
    let mut host = HostFunc::new(FuncType::new(&params, &[ValueType::I64]));
    let second_argument = |mut ctx: StoreContextMut<'_, Vec<Value>>,
                           args: &[Value],
                           res: &mut [Value]| {
        ctx.data_mut().push(res[0]);
        res[0] = args[1];
        Err(())
    };
    for _ in 0..2 {
        let js = vec![JsValue::NULL, JsValue::TRUE];
        let reply = host.call(&mut store, js, &second_argument, &to_js, &from_js);
        assert_eq!(number(reply), number(JsValue::UNDEFINED));
    }
    let kept = Value::I64(number(JsValue::TRUE) as i64);
    assert_eq!(store.data(), &[Value::I32(0), kept]);
}
