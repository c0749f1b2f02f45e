//! The store, which owns all the data of the modules, and its contexts.
use slab::Slab;
use vstd::prelude::*;
use wasm_bindgen::JsValue;

use crate::func::{Func, FuncInner};
#[allow(unused_imports)]
use crate::history::Change;
use crate::slots::{
    func_slot, insert_func_slot, insert_object_slot, new_func_slab, new_object_slab, object_slot,
};
#[allow(unused_imports)]
use crate::slots::{
    func_slots, full, keeps, law_kept_items_stay_at_their_keys, live, object_slots,
};

verus! {

/// The runtime that a store belongs to.
#[derive(Debug, Clone, Copy, PartialEq, Eq, Structural)]
pub struct Engine {
    pub id: usize,
}

/// Ties the lifetime of a value to that of the store that holds it: nothing is
/// asked of the value but that it can be shown.
#[derive(Debug)]
pub struct DropResource {
    pub value: Box<dyn std::fmt::Debug>,
}

/// The JavaScript object of a global.
#[derive(Debug)]
pub struct GlobalInner {
    pub value: JsValue,
}

/// The JavaScript object of a table.
#[derive(Debug)]
pub struct TableInner {
    pub value: JsValue,
}

/// The JavaScript object of a memory.
#[derive(Debug)]
pub struct MemoryInner {
    pub value: JsValue,
}

/// The JavaScript object of an instantiated module.
#[derive(Debug)]
pub struct InstanceInner {
    pub value: JsValue,
}

/// A global of a store.
#[derive(Debug, Clone, Copy, PartialEq, Eq, Structural)]
pub struct Global {
    pub id: usize,
}

/// A table of a store.
#[derive(Debug, Clone, Copy, PartialEq, Eq, Structural)]
pub struct Table {
    pub id: usize,
}

/// A memory of a store.
#[derive(Debug, Clone, Copy, PartialEq, Eq, Structural)]
pub struct Memory {
    pub id: usize,
}

/// An instance of a store.
#[derive(Debug, Clone, Copy, PartialEq, Eq, Structural)]
pub struct Instance {
    pub id: usize,
}

/// What a store holds. Each of the tables is indexed by the ids of its handles.
#[verifier::ext_equal]
pub ghost struct StoreModel<T> {
    pub engine: Engine,
    pub instances: Seq<Option<JsValue>>,
    pub funcs: Seq<Option<FuncInner>>,
    pub globals: Seq<Option<JsValue>>,
    pub tables: Seq<Option<JsValue>>,
    pub memories: Seq<Option<JsValue>>,
    pub data: T,
    pub drop_resources: Seq<DropResource>,
}

impl<T> StoreModel<T> {
    /// A store in which nothing was inserted yet.
    pub open spec fn empty(engine: Engine, data: T) -> StoreModel<T> {
        StoreModel {
            engine,
            instances: Seq::empty(),
            funcs: Seq::empty(),
            globals: Seq::empty(),
            tables: Seq::empty(),
            memories: Seq::empty(),
            data,
            drop_resources: Seq::empty(),
        }
    }

    /// No table has a vacant entry, so that each hands out its ids in order.
    pub open spec fn dense(self) -> bool {
        &&& full(self.instances)
        &&& full(self.funcs)
        &&& full(self.globals)
        &&& full(self.tables)
        &&& full(self.memories)
    }

    /// `self` can come after `before` in the life of one store: every handle
    /// still stands for what it stood for, no resource was dropped, and the
    /// store belongs to the same engine.
    pub open spec fn extends(self, before: StoreModel<T>) -> bool {
        &&& self.engine == before.engine
        &&& keeps(before.instances, self.instances)
        &&& keeps(before.funcs, self.funcs)
        &&& keeps(before.globals, self.globals)
        &&& keeps(before.tables, self.tables)
        &&& keeps(before.memories, self.memories)
        &&& before.drop_resources.is_prefix_of(self.drop_resources)
    }

    /// The handle is that of a function of the store.
    pub open spec fn has_func(self, func: Func) -> bool {
        live(self.funcs, func.id as int)
    }

    /// The function of the store that a handle stands for.
    pub open spec fn func(self, func: Func) -> FuncInner
        recommends
            self.has_func(func),
    {
        self.funcs[func.id as int]->0
    }
}

/// The data of a store.
#[derive(Debug)]
pub struct StoreInner<T> {
    engine: Engine,
    instances: Slab<JsValue>,
    funcs: Slab<FuncInner>,
    globals: Slab<JsValue>,
    tables: Slab<JsValue>,
    memories: Slab<JsValue>,
    data: T,
    /// Append only: no resource is dropped or removed while the store is alive.
    drop_resources: Vec<DropResource>,
}

impl<T> View for StoreInner<T> {
    type V = StoreModel<T>;

    closed spec fn view(&self) -> StoreModel<T> {
        StoreModel {
            engine: self.engine,
            instances: object_slots(self.instances),
            funcs: func_slots(self.funcs),
            globals: object_slots(self.globals),
            tables: object_slots(self.tables),
            memories: object_slots(self.memories),
            data: self.data,
            drop_resources: self.drop_resources@,
        }
    }
}

impl<T> StoreInner<T> {
    pub fn new(engine: &Engine, data: T) -> (store: StoreInner<T>)
        ensures
            store@ == StoreModel::empty(*engine, data),
            store@.engine == *engine,
            store@.data == data,
            store@.instances.len() == 0,
            store@.funcs.len() == 0,
            store@.globals.len() == 0,
            store@.tables.len() == 0,
            store@.memories.len() == 0,
            store@.drop_resources.len() == 0,
    {
        StoreInner {
            engine: engine.clone(),
            instances: new_object_slab(),
            funcs: new_func_slab(),
            globals: new_object_slab(),
            tables: new_object_slab(),
            memories: new_object_slab(),
            drop_resources: Vec::new(),
            data,
        }
    }

    pub fn insert_func(&mut self, func: FuncInner) -> (handle: Func)
        ensures
            Change::Func(handle, func).made(old(self)@, final(self)@),
            handle.id <= old(self)@.funcs.len(),
            handle.id < old(self)@.funcs.len() ==> old(self)@.funcs[handle.id as int] is None,
            handle.id == old(self)@.funcs.len() <==> (forall|i: int|
                0 <= i < old(self)@.funcs.len() ==> #[trigger] old(self)@.funcs[i] is Some),
            final(self)@.funcs.len() == old(self)@.funcs.len() + if handle.id == old(self)@.funcs.len() {
                1int
            } else {
                0int
            },
            final(self)@.funcs[handle.id as int] == Some(func),
            forall|i: int|
                0 <= i < old(self)@.funcs.len() && i != handle.id ==> #[trigger] final(self)@.funcs[i]
                    == old(self)@.funcs[i],
            final(self)@.engine == old(self)@.engine,
            final(self)@.instances == old(self)@.instances,
            final(self)@.globals == old(self)@.globals,
            final(self)@.tables == old(self)@.tables,
            final(self)@.memories == old(self)@.memories,
            final(self)@.data == old(self)@.data,
            final(self)@.drop_resources == old(self)@.drop_resources,
            final(self)@.extends(old(self)@),
            old(self)@.dense() ==> final(self)@.dense(),
    {
        Func { id: insert_func_slot(&mut self.funcs, func) }
    }

    pub fn insert_global(&mut self, global: GlobalInner) -> (handle: Global)
        ensures
            Change::Global(handle, global.value).made(old(self)@, final(self)@),
            handle.id <= old(self)@.globals.len(),
            handle.id < old(self)@.globals.len() ==> old(self)@.globals[handle.id as int] is None,
            handle.id == old(self)@.globals.len() <==> (forall|i: int|
                0 <= i < old(self)@.globals.len() ==> #[trigger] old(self)@.globals[i] is Some),
            final(self)@.globals.len() == old(self)@.globals.len() + if handle.id == old(self)@.globals.len() {
                1int
            } else {
                0int
            },
            final(self)@.globals[handle.id as int] == Some(global.value),
            forall|i: int|
                0 <= i < old(self)@.globals.len() && i != handle.id ==> #[trigger] final(self)@.globals[i]
                    == old(self)@.globals[i],
            final(self)@.engine == old(self)@.engine,
            final(self)@.instances == old(self)@.instances,
            final(self)@.funcs == old(self)@.funcs,
            final(self)@.tables == old(self)@.tables,
            final(self)@.memories == old(self)@.memories,
            final(self)@.data == old(self)@.data,
            final(self)@.drop_resources == old(self)@.drop_resources,
            final(self)@.extends(old(self)@),
            old(self)@.dense() ==> final(self)@.dense(),
    {
        Global { id: insert_object_slot(&mut self.globals, global.value) }
    }

    pub fn insert_table(&mut self, table: TableInner) -> (handle: Table)
        ensures
            Change::Table(handle, table.value).made(old(self)@, final(self)@),
            handle.id <= old(self)@.tables.len(),
            handle.id < old(self)@.tables.len() ==> old(self)@.tables[handle.id as int] is None,
            handle.id == old(self)@.tables.len() <==> (forall|i: int|
                0 <= i < old(self)@.tables.len() ==> #[trigger] old(self)@.tables[i] is Some),
            final(self)@.tables.len() == old(self)@.tables.len() + if handle.id == old(self)@.tables.len() {
                1int
            } else {
                0int
            },
            final(self)@.tables[handle.id as int] == Some(table.value),
            forall|i: int|
                0 <= i < old(self)@.tables.len() && i != handle.id ==> #[trigger] final(self)@.tables[i]
                    == old(self)@.tables[i],
            final(self)@.engine == old(self)@.engine,
            final(self)@.instances == old(self)@.instances,
            final(self)@.funcs == old(self)@.funcs,
            final(self)@.globals == old(self)@.globals,
            final(self)@.memories == old(self)@.memories,
            final(self)@.data == old(self)@.data,
            final(self)@.drop_resources == old(self)@.drop_resources,
            final(self)@.extends(old(self)@),
            old(self)@.dense() ==> final(self)@.dense(),
    {
        Table { id: insert_object_slot(&mut self.tables, table.value) }
    }

    pub fn insert_instance(&mut self, instance: InstanceInner) -> (handle: Instance)
        ensures
            Change::Instance(handle, instance.value).made(old(self)@, final(self)@),
            handle.id <= old(self)@.instances.len(),
            handle.id < old(self)@.instances.len() ==> old(self)@.instances[handle.id as int] is None,
            handle.id == old(self)@.instances.len() <==> (forall|i: int|
                0 <= i < old(self)@.instances.len() ==> #[trigger] old(self)@.instances[i] is Some),
            final(self)@.instances.len() == old(self)@.instances.len() + if handle.id == old(self)@.instances.len() {
                1int
            } else {
                0int
            },
            final(self)@.instances[handle.id as int] == Some(instance.value),
            forall|i: int|
                0 <= i < old(self)@.instances.len() && i != handle.id ==> #[trigger] final(self)@.instances[i]
                    == old(self)@.instances[i],
            final(self)@.engine == old(self)@.engine,
            final(self)@.funcs == old(self)@.funcs,
            final(self)@.globals == old(self)@.globals,
            final(self)@.tables == old(self)@.tables,
            final(self)@.memories == old(self)@.memories,
            final(self)@.data == old(self)@.data,
            final(self)@.drop_resources == old(self)@.drop_resources,
            final(self)@.extends(old(self)@),
            old(self)@.dense() ==> final(self)@.dense(),
    {
        Instance { id: insert_object_slot(&mut self.instances, instance.value) }
    }

    pub fn insert_memory(&mut self, memory: MemoryInner) -> (handle: Memory)
        ensures
            Change::Memory(handle, memory.value).made(old(self)@, final(self)@),
            handle.id <= old(self)@.memories.len(),
            handle.id < old(self)@.memories.len() ==> old(self)@.memories[handle.id as int] is None,
            handle.id == old(self)@.memories.len() <==> (forall|i: int|
                0 <= i < old(self)@.memories.len() ==> #[trigger] old(self)@.memories[i] is Some),
            final(self)@.memories.len() == old(self)@.memories.len() + if handle.id == old(self)@.memories.len() {
                1int
            } else {
                0int
            },
            final(self)@.memories[handle.id as int] == Some(memory.value),
            forall|i: int|
                0 <= i < old(self)@.memories.len() && i != handle.id ==> #[trigger] final(self)@.memories[i]
                    == old(self)@.memories[i],
            final(self)@.engine == old(self)@.engine,
            final(self)@.instances == old(self)@.instances,
            final(self)@.funcs == old(self)@.funcs,
            final(self)@.globals == old(self)@.globals,
            final(self)@.tables == old(self)@.tables,
            final(self)@.data == old(self)@.data,
            final(self)@.drop_resources == old(self)@.drop_resources,
            final(self)@.extends(old(self)@),
            old(self)@.dense() ==> final(self)@.dense(),
    {
        Memory { id: insert_object_slot(&mut self.memories, memory.value) }
    }

    /// Ties the lifetime of a reference or other value to that of the store.
    pub fn insert_drop_resource(&mut self, value: DropResource)
        ensures
            Change::Resource(value).made(old(self)@, final(self)@),
            final(self)@.drop_resources == old(self)@.drop_resources.push(value),
            final(self)@.engine == old(self)@.engine,
            final(self)@.instances == old(self)@.instances,
            final(self)@.funcs == old(self)@.funcs,
            final(self)@.globals == old(self)@.globals,
            final(self)@.tables == old(self)@.tables,
            final(self)@.memories == old(self)@.memories,
            final(self)@.data == old(self)@.data,
            final(self)@.extends(old(self)@),
            old(self)@.dense() ==> final(self)@.dense(),
    {
        self.drop_resources.push(value)
    }

    /// The resources that the store keeps, in the order in which it got them.
    pub fn drop_resources(&self) -> (resources: &[DropResource])
        ensures
            resources@ == self@.drop_resources,
    {
        self.drop_resources.as_slice()
    }

    /// The function that a handle stands for.
    pub fn func(&self, func: Func) -> (inner: &FuncInner)
        requires
            self@.has_func(func),
        ensures
            *inner == self@.func(func),
            Some(*inner) == self@.funcs[func.id as int],
    {
        func_slot(&self.funcs, func.id)
    }

    /// The JavaScript object of a global.
    pub fn global(&self, global: Global) -> (value: &JsValue)
        requires
            live(self@.globals, global.id as int),
        ensures
            Some(*value) == self@.globals[global.id as int],
    {
        object_slot(&self.globals, global.id)
    }

    /// The JavaScript object of a table.
    pub fn table(&self, table: Table) -> (value: &JsValue)
        requires
            live(self@.tables, table.id as int),
        ensures
            Some(*value) == self@.tables[table.id as int],
    {
        object_slot(&self.tables, table.id)
    }

    /// The JavaScript object of a memory.
    pub fn memory(&self, memory: Memory) -> (value: &JsValue)
        requires
            live(self@.memories, memory.id as int),
        ensures
            Some(*value) == self@.memories[memory.id as int],
    {
        object_slot(&self.memories, memory.id)
    }

    /// The JavaScript object of an instance.
    pub fn instance(&self, instance: Instance) -> (value: &JsValue)
        requires
            live(self@.instances, instance.id as int),
        ensures
            Some(*value) == self@.instances[instance.id as int],
    {
        object_slot(&self.instances, instance.id)
    }

    pub fn engine(&self) -> (engine: &Engine)
        ensures
            *engine == self@.engine,
    {
        &self.engine
    }

    pub fn data(&self) -> (data: &T)
        ensures
            *data == self@.data,
    {
        &self.data
    }

    pub fn data_mut(&mut self) -> (data: &mut T)
        ensures
            *data == old(self)@.data,
            Change::Data(*final(data)).made(old(self)@, final(self)@),
            final(self)@.data == *final(data),
            final(self)@.engine == old(self)@.engine,
            final(self)@.instances == old(self)@.instances,
            final(self)@.funcs == old(self)@.funcs,
            final(self)@.globals == old(self)@.globals,
            final(self)@.tables == old(self)@.tables,
            final(self)@.memories == old(self)@.memories,
            final(self)@.drop_resources == old(self)@.drop_resources,
            final(self)@.extends(old(self)@),
            old(self)@.dense() ==> final(self)@.dense(),
    {
        &mut self.data
    }
}

/// Owns all the data of the modules.
pub struct Store<T> {
    inner: Box<StoreInner<T>>,
}

impl<T> Store<T> {
    /// The data of the store.
    pub closed spec fn contents(&self) -> StoreInner<T> {
        *self.inner
    }

    fn from_inner(inner: Box<StoreInner<T>>) -> (store: Store<T>)
        ensures
            store.contents() == *inner,
    {
        Store { inner }
    }

    pub fn new(engine: &Engine, data: T) -> (store: Store<T>)
        ensures
            store.contents()@ == StoreModel::empty(*engine, data),
            store.contents()@.engine == *engine,
            store.contents()@.data == data,
            store.contents()@.instances.len() == 0,
            store.contents()@.funcs.len() == 0,
            store.contents()@.globals.len() == 0,
            store.contents()@.tables.len() == 0,
            store.contents()@.memories.len() == 0,
            store.contents()@.drop_resources.len() == 0,
    {
        Store::from_inner(Box::new(StoreInner::new(engine, data)))
    }

    pub fn get(&self) -> (ctx: StoreContext<'_, T>)
        ensures
            *ctx.store == self.contents(),
    {
        StoreContext::from_ref(&*self.inner)
    }

    pub fn get_mut(&mut self) -> (ctx: StoreContextMut<'_, T>)
        ensures
            ctx.current() == old(self).contents(),
            final(self).contents() == *final(ctx.store),
    {
        StoreContextMut::from_ref(&mut *self.inner)
    }

    pub fn as_context(&self) -> (ctx: StoreContext<'_, T>)
        ensures
            *ctx.store == self.contents(),
    {
        self.get()
    }

    pub fn as_context_mut(&mut self) -> (ctx: StoreContextMut<'_, T>)
        ensures
            ctx.current() == old(self).contents(),
            final(self).contents() == *final(ctx.store),
    {
        self.get_mut()
    }
}

/// Immutable context to the store.
pub struct StoreContext<'a, T> {
    /// The store.
    pub store: &'a StoreInner<T>,
}

impl<'a, T> StoreContext<'a, T> {
    pub fn from_ref(store: &'a StoreInner<T>) -> (ctx: StoreContext<'a, T>)
        ensures
            *ctx.store == *store,
    {
        StoreContext { store }
    }

    pub fn engine(&self) -> (engine: &Engine)
        ensures
            *engine == self.store@.engine,
    {
        self.store.engine()
    }

    pub fn data(&self) -> (data: &T)
        ensures
            *data == self.store@.data,
    {
        self.store.data()
    }

    pub fn as_context(&self) -> (ctx: StoreContext<'_, T>)
        ensures
            *ctx.store == *self.store,
    {
        StoreContext { store: self.store }
    }
}

impl<'a, T> std::ops::Deref for StoreContext<'a, T> {
    type Target = StoreInner<T>;

    fn deref(&self) -> (store: &StoreInner<T>)
        ensures
            *store == *self.store,
    {
        &*self.store
    }
}

/// Mutable context to the store.
pub struct StoreContextMut<'a, T> {
    /// The store.
    pub store: &'a mut StoreInner<T>,
}

impl<'a, T> StoreContextMut<'a, T> {
    /// The store as it is now.
    pub open spec fn current(&self) -> StoreInner<T> {
        *self.store
    }

    pub fn from_ref(store: &'a mut StoreInner<T>) -> (ctx: StoreContextMut<'a, T>)
        ensures
            ctx.current() == *old(store),
            *final(store) == *final(ctx.store),
    {
        StoreContextMut { store }
    }

    pub fn engine(&self) -> (engine: &Engine)
        ensures
            *engine == self.current()@.engine,
    {
        self.store.engine()
    }

    pub fn data(&self) -> (data: &T)
        ensures
            *data == self.current()@.data,
    {
        self.store.data()
    }

    pub fn data_mut(&mut self) -> (data: &mut T)
        ensures
            *data == old(self).current()@.data,
            Change::Data(*final(data)).made(old(self).current()@, final(self).current()@),
            final(self).current()@.data == *final(data),
            final(self).current()@.engine == old(self).current()@.engine,
            final(self).current()@.instances == old(self).current()@.instances,
            final(self).current()@.funcs == old(self).current()@.funcs,
            final(self).current()@.globals == old(self).current()@.globals,
            final(self).current()@.tables == old(self).current()@.tables,
            final(self).current()@.memories == old(self).current()@.memories,
            final(self).current()@.drop_resources == old(self).current()@.drop_resources,
            final(self).current()@.extends(old(self).current()@),
            old(self).current()@.dense() ==> final(self).current()@.dense(),
            *final(final(self).store) == *final(old(self).store),
    {
        self.store.data_mut()
    }

    pub fn as_context(&self) -> (ctx: StoreContext<'_, T>)
        ensures
            *ctx.store == self.current(),
    {
        StoreContext { store: self.store }
    }

    /// A context stacked on this one, which is usable again once that is gone.
    pub fn as_context_mut(&mut self) -> (ctx: StoreContextMut<'_, T>)
        ensures
            ctx.current() == old(self).current(),
            final(self).current() == *final(ctx.store),
            *final(final(self).store) == *final(old(self).store),
    {
        StoreContextMut { store: self.store }
    }
}

impl<'a, T> std::ops::Deref for StoreContextMut<'a, T> {
    type Target = StoreInner<T>;

    fn deref(&self) -> (store: &StoreInner<T>)
        ensures
            *store == self.current(),
    {
        &*self.store
    }
}

impl<'a, T> std::ops::DerefMut for StoreContextMut<'a, T> {
    fn deref_mut(&mut self) -> (store: &mut StoreInner<T>)
        ensures
            *store == old(self).current(),
            final(self).current() == *final(store),
            *final(final(self).store) == *final(old(self).store),
    {
        &mut *self.store
    }
}

/// A new store belongs to its engine, has its data, and holds nothing.
pub proof fn law_empty_store_holds_nothing<T>(engine: Engine, data: T)
    ensures
        ({
            let store = StoreModel::empty(engine, data);
            &&& store.engine == engine
            &&& store.data == data
            &&& store.instances.len() == 0
            &&& store.funcs.len() == 0
            &&& store.globals.len() == 0
            &&& store.tables.len() == 0
            &&& store.memories.len() == 0
            &&& store.drop_resources.len() == 0
        }),
{
}

/// A store is dense exactly when no table of it has a gap.
pub proof fn law_dense_stores_have_no_gap<T>(store: StoreModel<T>)
    ensures
        store.dense() <==> {
            &&& forall|i: int| 0 <= i < store.instances.len() ==> #[trigger] store.instances[i] is Some
            &&& forall|i: int| 0 <= i < store.funcs.len() ==> #[trigger] store.funcs[i] is Some
            &&& forall|i: int| 0 <= i < store.globals.len() ==> #[trigger] store.globals[i] is Some
            &&& forall|i: int| 0 <= i < store.tables.len() ==> #[trigger] store.tables[i] is Some
            &&& forall|i: int| 0 <= i < store.memories.len() ==> #[trigger] store.memories[i] is Some
        },
{
}

/// A store extends another exactly when it belongs to the same engine, has all that
/// is in the tables of that under the same ids, and has its resources first.
pub proof fn law_extending_keeps_all<T>(before: StoreModel<T>, after: StoreModel<T>)
    ensures
        after.extends(before) <==> {
            &&& after.engine == before.engine
            &&& forall|i: int|
                0 <= i < before.instances.len() && #[trigger] before.instances[i] is Some ==> i
                    < after.instances.len() && after.instances[i] == before.instances[i]
            &&& forall|i: int|
                0 <= i < before.funcs.len() && #[trigger] before.funcs[i] is Some ==> i
                    < after.funcs.len() && after.funcs[i] == before.funcs[i]
            &&& forall|i: int|
                0 <= i < before.globals.len() && #[trigger] before.globals[i] is Some ==> i
                    < after.globals.len() && after.globals[i] == before.globals[i]
            &&& forall|i: int|
                0 <= i < before.tables.len() && #[trigger] before.tables[i] is Some ==> i
                    < after.tables.len() && after.tables[i] == before.tables[i]
            &&& forall|i: int|
                0 <= i < before.memories.len() && #[trigger] before.memories[i] is Some ==> i
                    < after.memories.len() && after.memories[i] == before.memories[i]
            &&& before.drop_resources.len() <= after.drop_resources.len()
            &&& forall|i: int|
                0 <= i < before.drop_resources.len() ==> #[trigger] after.drop_resources[i]
                    == before.drop_resources[i]
        },
{
    law_kept_items_stay_at_their_keys(before.instances, after.instances);
    law_kept_items_stay_at_their_keys(before.funcs, after.funcs);
    law_kept_items_stay_at_their_keys(before.globals, after.globals);
    law_kept_items_stay_at_their_keys(before.tables, after.tables);
    law_kept_items_stay_at_their_keys(before.memories, after.memories);
    if before.drop_resources.len() <= after.drop_resources.len() && (forall|i: int|
        0 <= i < before.drop_resources.len() ==> #[trigger] after.drop_resources[i]
            == before.drop_resources[i]) {
        assert(before.drop_resources =~= after.drop_resources.subrange(
            0,
            before.drop_resources.len() as int,
        ));
    }
    if before.drop_resources.is_prefix_of(after.drop_resources) {
        assert forall|i: int| 0 <= i < before.drop_resources.len() implies #[trigger]
            after.drop_resources[i] == before.drop_resources[i] by {
            assert(after.drop_resources.subrange(0, before.drop_resources.len() as int)[i]
                == before.drop_resources[i]);
        }
    }
}

/// A handle of a function stands for what the table has at its id.
pub proof fn law_function_handles_are_ids<T>(store: StoreModel<T>, handle: Func)
    ensures
        store.has_func(handle) <==> handle.id < store.funcs.len() && store.funcs[handle.id as int]
            is Some,
        store.has_func(handle) ==> store.funcs[handle.id as int] == Some(store.func(handle)),
{
}

/// What a context shows is the store that it borrows.
pub proof fn law_context_shows_its_store<T>()
    ensures
        forall|ctx: StoreContextMut<'_, T>| (#[trigger] ctx.current()) == *ctx.store,
{
}

} // verus!
