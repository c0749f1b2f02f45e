use std::cell::Cell;
use std::rc::Rc;

use js_sys::Function;
use wasm_bindgen::convert::IntoWasmAbi;
use wasm_bindgen::{JsCast, JsValue};
use web_store::func::{Func, FuncInner};
use web_store::store::{
    DropResource, Engine, Global, GlobalInner, Instance, InstanceInner, Memory, MemoryInner,
    Store, StoreContext, StoreContextMut, StoreInner, Table, TableInner,
};
use web_store::types::{FuncType, ValueType};

const ENGINE: Engine = Engine { id: 7 };

/// A stand-in for a function of JavaScript, told apart by the value it wraps.
fn function(value: JsValue) -> Function {
    value.unchecked_into::<Function>()
}

fn inner(name: &str, params: &[ValueType], results: &[ValueType]) -> FuncInner {
    FuncInner {
        func: function(JsValue::UNDEFINED),
        ty: FuncType::new(params, results),
        name: name.to_string(),
    }
}

#[derive(Debug)]
struct Dropped(Rc<Cell<u32>>);

impl Drop for Dropped {
    fn drop(&mut self) {
        self.0.set(self.0.get() + 1);
    }
}

#[test]
fn new_store_holds_engine_and_data() {
    let store = Store::new(&ENGINE, "data".to_string());
    assert_eq!(*store.get().engine(), ENGINE);
    assert_eq!(store.get().data(), "data");
    assert_eq!(store.as_context().data(), "data");
}

#[test]
fn ids_count_up_in_each_table_on_its_own() {
    let mut store = StoreInner::new(&ENGINE, ());
    assert_eq!(store.insert_func(inner("a", &[], &[])), Func { id: 0 });
    assert_eq!(store.insert_func(inner("b", &[], &[])), Func { id: 1 });
    assert_eq!(store.insert_global(GlobalInner { value: JsValue::NULL }), Global { id: 0 });
    assert_eq!(store.insert_table(TableInner { value: JsValue::NULL }), Table { id: 0 });
    assert_eq!(store.insert_global(GlobalInner { value: JsValue::NULL }), Global { id: 1 });
    assert_eq!(store.insert_memory(MemoryInner { value: JsValue::NULL }), Memory { id: 0 });
    assert_eq!(store.insert_instance(InstanceInner { value: JsValue::NULL }), Instance { id: 0 });
    assert_eq!(store.insert_instance(InstanceInner { value: JsValue::NULL }), Instance { id: 1 });
    assert_eq!(store.insert_table(TableInner { value: JsValue::NULL }), Table { id: 1 });
    assert_eq!(store.insert_memory(MemoryInner { value: JsValue::NULL }), Memory { id: 1 });
    assert_eq!(store.insert_func(inner("c", &[], &[])), Func { id: 2 });
}

#[test]
fn inserted_function_is_found_by_its_handle() {
    let mut store = StoreInner::new(&ENGINE, ());
    let a = store.insert_func(inner("a", &[ValueType::I32], &[ValueType::I64]));
    let b = store.insert_func(inner("b", &[], &[ValueType::F32]));
    assert_eq!(store.func(a).name, "a");
    assert_eq!(store.func(a).ty.params(), [ValueType::I32]);
    assert_eq!(store.func(a).ty.results(), [ValueType::I64]);
    assert_eq!(store.func(b).name, "b");
    assert_eq!(store.func(b).ty.results(), [ValueType::F32]);
}

#[test]
fn handles_are_stable_while_the_store_grows() {
    let mut store = StoreInner::new(&ENGINE, ());
    let first = store.insert_func(inner("first", &[ValueType::F64], &[]));
    for i in 0..100 {
        let handle = store.insert_func(inner("later", &[], &[]));
        assert_ne!(handle, first);
        assert_eq!(handle.id, i + 1);
        store.insert_global(GlobalInner { value: JsValue::TRUE });
    }
    assert_eq!(store.func(first).name, "first");
    assert_eq!(store.func(first).ty.params(), [ValueType::F64]);
}

#[test]
fn inserting_keeps_the_function_object() {
    let mut store = StoreInner::new(&ENGINE, ());
    let handle = store.insert_func(FuncInner {
        func: function(JsValue::FALSE),
        ty: FuncType::new(&[], &[]),
        name: String::new(),
    });
    let object: &JsValue = store.func(handle).func.as_ref();
    assert_eq!(object.into_abi(), JsValue::FALSE.into_abi());
}

#[test]
fn resources_live_as_long_as_the_store() {
    let count = Rc::new(Cell::new(0));
    let mut store = Store::new(&ENGINE, ());
    for _ in 0..3 {
        let value = Box::new(Dropped(count.clone()));
        store.get_mut().insert_drop_resource(DropResource { value });
    }
    store.get_mut().insert_func(inner("f", &[], &[]));
    *store.get_mut().data_mut() = ();
    assert_eq!(count.get(), 0);
    drop(store);
    assert_eq!(count.get(), 3);
}

#[test]
fn writes_through_a_context_reach_the_store() {
    let mut store = Store::new(&ENGINE, 1);
    *store.get_mut().data_mut() = 2;
    assert_eq!(*store.get().data(), 2);
    {
        let mut ctx = store.as_context_mut();
        *ctx.data_mut() += 10;
        assert_eq!(*ctx.data(), 12);
        assert_eq!(*ctx.engine(), ENGINE);
    }
    assert_eq!(*store.get().data(), 12);
}

#[test]
fn stacked_contexts_share_one_store() {
    let mut store = StoreInner::new(&ENGINE, vec![1]);
    let mut outer = StoreContextMut::from_ref(&mut store);
    {
        let mut middle = outer.as_context_mut();
        middle.data_mut().push(2);
        {
            let mut inner_ctx = middle.as_context_mut();
            inner_ctx.data_mut().push(3);
            inner_ctx.insert_func(inner("f", &[], &[]));
        }
        assert_eq!(middle.data(), &[1, 2, 3]);
    }
    outer.data_mut().push(4);
    assert_eq!(outer.as_context().data(), &[1, 2, 3, 4]);
    assert_eq!(outer.insert_func(inner("g", &[], &[])), Func { id: 1 });
    assert_eq!(store.data(), &[1, 2, 3, 4]);
}

#[test]
fn shared_context_reads_the_store() {
    let store = StoreInner::new(&ENGINE, 5);
    let ctx = StoreContext::from_ref(&store);
    assert_eq!(*ctx.data(), 5);
    assert_eq!(*ctx.engine(), ENGINE);
    assert_eq!(*ctx.as_context().data(), 5);
    assert_eq!(*(&*ctx as &StoreInner<i32>).data(), 5);
}

fn index(value: &JsValue) -> u32 {
    value.into_abi()
}

#[test]
fn objects_are_found_by_their_handles() {
    let mut store = StoreInner::new(&ENGINE, ());
    let global = store.insert_global(GlobalInner { value: JsValue::TRUE });
    let table = store.insert_table(TableInner { value: JsValue::FALSE });
    let memory = store.insert_memory(MemoryInner { value: JsValue::NULL });
    let instance = store.insert_instance(InstanceInner { value: JsValue::UNDEFINED });
    let second = store.insert_memory(MemoryInner { value: JsValue::TRUE });
    assert_eq!(index(store.global(global)), index(&JsValue::TRUE));
    assert_eq!(index(store.table(table)), index(&JsValue::FALSE));
    assert_eq!(index(store.memory(memory)), index(&JsValue::NULL));
    assert_eq!(index(store.instance(instance)), index(&JsValue::UNDEFINED));
    assert_eq!(index(store.memory(second)), index(&JsValue::TRUE));
}

#[test]
fn memory_ids_are_not_affected_by_other_kinds() {
    let mut store = StoreInner::new(&ENGINE, ());
    let first = store.insert_memory(MemoryInner { value: JsValue::TRUE });
    store.insert_func(inner("f", &[], &[]));
    store.insert_global(GlobalInner { value: JsValue::NULL });
    store.insert_table(TableInner { value: JsValue::NULL });
    store.insert_instance(InstanceInner { value: JsValue::NULL });
    store.insert_drop_resource(DropResource { value: Box::new(()) });
    let second = store.insert_memory(MemoryInner { value: JsValue::FALSE });
    assert_eq!(second.id, first.id + 1);
    assert_eq!(index(store.memory(first)), index(&JsValue::TRUE));
    assert_eq!(index(store.memory(second)), index(&JsValue::FALSE));
}

#[test]
fn stores_of_one_engine_share_nothing() {
    let mut one = Store::new(&ENGINE, 1);
    let mut other = Store::new(&ENGINE, 2);
    let handle = one.get_mut().insert_func(inner("one", &[], &[]));
    one.get_mut().insert_func(inner("two", &[], &[]));
    *one.get_mut().data_mut() = 10;
    assert_eq!(*other.get().data(), 2);
    assert_eq!(other.get_mut().insert_func(inner("other", &[], &[])), Func { id: 0 });
    assert_eq!(one.get().func(handle).name, "one");
    assert_eq!(other.get().func(handle).name, "other");
}

#[test]
fn shared_context_sees_all_that_a_mutable_one_did() {
    let mut store = Store::new(&ENGINE, 1);
    let handle = {
        let mut ctx = store.get_mut();
        *ctx.data_mut() = 3;
        ctx.insert_func(inner("f", &[ValueType::I32], &[]))
    };
    for _ in 0..2 {
        assert_eq!(*store.get().data(), 3);
        assert_eq!(store.get().func(handle).name, "f");
        assert_eq!(*store.get().engine(), ENGINE);
    }
}

#[test]
fn type_is_kept_while_the_store_grows() {
    let mut store = StoreInner::new(&ENGINE, ());
    let handle = store.insert_func(inner("f", &[ValueType::I32], &[ValueType::F64]));
    for _ in 0..10 {
        store.insert_func(inner("g", &[], &[]));
        store.insert_table(TableInner { value: JsValue::NULL });
        let ty = handle.clone().ty(&store);
        assert_eq!(ty.params(), [ValueType::I32]);
        assert_eq!(ty.results(), [ValueType::F64]);
    }
}

#[test]
fn store_can_be_shown() {
    let mut store = StoreInner::new(&ENGINE, "shown");
    store.insert_drop_resource(DropResource { value: Box::new(12345) });
    let text = format!("{store:?}");
    assert!(text.contains("shown"));
    assert!(text.contains("12345"));
}
