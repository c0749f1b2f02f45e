//! The changes that a store goes through in its life.
use vstd::prelude::*;
use wasm_bindgen::JsValue;

use crate::func::{Func, FuncInner};
#[allow(unused_imports)]
use crate::slots::{inserted, law_insertion_fills_one_entry, put};
use crate::store::{DropResource, Global, Instance, Memory, StoreModel, Table};

verus! {

/// A kind of JavaScript object that a store holds.
pub ghost enum Kind {
    Global,
    Table,
    Memory,
    Instance,
}

/// One change of a store. An insertion names the handle that it gave out.
pub ghost enum Change<T> {
    Func(Func, FuncInner),
    Global(Global, JsValue),
    Table(Table, JsValue),
    Memory(Memory, JsValue),
    Instance(Instance, JsValue),
    Resource(DropResource),
    Data(T),
}

impl<T> Change<T> {
    /// This change, and nothing else, turned `before` into `after`.
    pub open spec fn made(self, before: StoreModel<T>, after: StoreModel<T>) -> bool {
        match self {
            Change::Func(handle, func) => {
                &&& inserted(before.funcs, after.funcs, handle.id as int, func)
                &&& after == (StoreModel { funcs: after.funcs, ..before })
            },
            Change::Global(handle, value) => {
                &&& inserted(before.globals, after.globals, handle.id as int, value)
                &&& after == (StoreModel { globals: after.globals, ..before })
            },
            Change::Table(handle, value) => {
                &&& inserted(before.tables, after.tables, handle.id as int, value)
                &&& after == (StoreModel { tables: after.tables, ..before })
            },
            Change::Memory(handle, value) => {
                &&& inserted(before.memories, after.memories, handle.id as int, value)
                &&& after == (StoreModel { memories: after.memories, ..before })
            },
            Change::Instance(handle, value) => {
                &&& inserted(before.instances, after.instances, handle.id as int, value)
                &&& after == (StoreModel { instances: after.instances, ..before })
            },
            Change::Resource(value) => {
                after == (StoreModel {
                    drop_resources: before.drop_resources.push(value),
                    ..before
                })
            },
            Change::Data(data) => after == (StoreModel { data, ..before }),
        }
    }

    /// The id and the function of an insertion of a function.
    pub open spec fn as_func(self) -> Option<(int, FuncInner)> {
        match self {
            Change::Func(handle, func) => Some((handle.id as int, func)),
            _ => None,
        }
    }

    /// The id and the object of an insertion of an object of this kind.
    pub open spec fn as_object(self, kind: Kind) -> Option<(int, JsValue)> {
        match (self, kind) {
            (Change::Global(handle, value), Kind::Global) => Some((handle.id as int, value)),
            (Change::Table(handle, value), Kind::Table) => Some((handle.id as int, value)),
            (Change::Memory(handle, value), Kind::Memory) => Some((handle.id as int, value)),
            (Change::Instance(handle, value), Kind::Instance) => Some((handle.id as int, value)),
            _ => None,
        }
    }
}

impl<T> StoreModel<T> {
    /// The objects of a kind.
    pub open spec fn objects(self, kind: Kind) -> Seq<Option<JsValue>> {
        match kind {
            Kind::Global => self.globals,
            Kind::Table => self.tables,
            Kind::Memory => self.memories,
            Kind::Instance => self.instances,
        }
    }

    /// The store with one change made to it.
    pub open spec fn with(self, change: Change<T>) -> StoreModel<T> {
        match change {
            Change::Func(handle, func) => StoreModel {
                funcs: put(self.funcs, handle.id as int, func),
                ..self
            },
            Change::Global(handle, value) => StoreModel {
                globals: put(self.globals, handle.id as int, value),
                ..self
            },
            Change::Table(handle, value) => StoreModel {
                tables: put(self.tables, handle.id as int, value),
                ..self
            },
            Change::Memory(handle, value) => StoreModel {
                memories: put(self.memories, handle.id as int, value),
                ..self
            },
            Change::Instance(handle, value) => StoreModel {
                instances: put(self.instances, handle.id as int, value),
                ..self
            },
            Change::Resource(value) => StoreModel {
                drop_resources: self.drop_resources.push(value),
                ..self
            },
            Change::Data(data) => StoreModel { data, ..self },
        }
    }

    /// The store with these changes made to it, in their order.
    pub open spec fn with_all(self, changes: Seq<Change<T>>) -> StoreModel<T>
        decreases changes.len(),
    {
        if changes.len() == 0 {
            self
        } else {
            self.with_all(changes.drop_last()).with(changes.last())
        }
    }
}

/// A store went through `states`, each by one of `changes` out of the one before.
pub open spec fn history<T>(states: Seq<StoreModel<T>>, changes: Seq<Change<T>>) -> bool {
    &&& states.len() == changes.len() + 1
    &&& forall|i: int|
        0 <= i < changes.len() ==> (#[trigger] changes[i]).made(states[i], states[i + 1])
}

/// `states` can be states of one store, in the order of time: each extends the
/// one before.
pub open spec fn life<T>(states: Seq<StoreModel<T>>) -> bool {
    forall|i: int| 0 < i < states.len() ==> (#[trigger] states[i]).extends(states[i - 1])
}

/// The functions that were inserted, with their ids, in the order of time.
pub open spec fn funcs_inserted<T>(changes: Seq<Change<T>>) -> Seq<(int, FuncInner)>
    decreases changes.len(),
{
    if changes.len() == 0 {
        Seq::empty()
    } else {
        match changes.last().as_func() {
            Some(entry) => funcs_inserted(changes.drop_last()).push(entry),
            None => funcs_inserted(changes.drop_last()),
        }
    }
}

/// The objects of a kind that were inserted, with their ids, in the order of time.
pub open spec fn objects_inserted<T>(changes: Seq<Change<T>>, kind: Kind) -> Seq<(int, JsValue)>
    decreases changes.len(),
{
    if changes.len() == 0 {
        Seq::empty()
    } else {
        match changes.last().as_object(kind) {
            Some(entry) => objects_inserted(changes.drop_last(), kind).push(entry),
            None => objects_inserted(changes.drop_last(), kind),
        }
    }
}

/// To insert a function is to have it found by the id of its handle, by which nothing
/// was found, and to leave all else as it was. The id is the next one exactly when
/// there is no gap to fill.
pub proof fn law_inserted_function_is_found_by_its_handle<T>(
    before: StoreModel<T>,
    after: StoreModel<T>,
    handle: Func,
    func: FuncInner,
)
    ensures
        Change::Func(handle, func).made(before, after) <==> {
            &&& handle.id <= before.funcs.len()
            &&& handle.id < before.funcs.len() ==> before.funcs[handle.id as int] is None
            &&& handle.id == before.funcs.len() <==> (forall|i: int|
                0 <= i < before.funcs.len() ==> #[trigger] before.funcs[i] is Some)
            &&& after.funcs.len() == before.funcs.len() + if handle.id == before.funcs.len() {
                1int
            } else {
                0int
            }
            &&& after.funcs[handle.id as int] == Some(func)
            &&& forall|i: int|
                0 <= i < before.funcs.len() && i != handle.id ==> #[trigger] after.funcs[i]
                    == before.funcs[i]
            &&& after.engine == before.engine
            &&& after.instances == before.instances
            &&& after.globals == before.globals
            &&& after.tables == before.tables
            &&& after.memories == before.memories
            &&& after.data == before.data
            &&& after.drop_resources == before.drop_resources
        },
{
    law_insertion_fills_one_entry(before.funcs, after.funcs, handle.id as int, func);
}

/// To insert a global is to have it found by the id of its handle, by which nothing
/// was found, and to leave all else as it was. The id is the next one exactly when
/// there is no gap to fill.
pub proof fn law_inserted_global_is_found_by_its_handle<T>(
    before: StoreModel<T>,
    after: StoreModel<T>,
    handle: Global,
    value: JsValue,
)
    ensures
        Change::Global(handle, value).made(before, after) <==> {
            &&& handle.id <= before.globals.len()
            &&& handle.id < before.globals.len() ==> before.globals[handle.id as int] is None
            &&& handle.id == before.globals.len() <==> (forall|i: int|
                0 <= i < before.globals.len() ==> #[trigger] before.globals[i] is Some)
            &&& after.globals.len() == before.globals.len() + if handle.id == before.globals.len() {
                1int
            } else {
                0int
            }
            &&& after.globals[handle.id as int] == Some(value)
            &&& forall|i: int|
                0 <= i < before.globals.len() && i != handle.id ==> #[trigger] after.globals[i]
                    == before.globals[i]
            &&& after.engine == before.engine
            &&& after.instances == before.instances
            &&& after.funcs == before.funcs
            &&& after.tables == before.tables
            &&& after.memories == before.memories
            &&& after.data == before.data
            &&& after.drop_resources == before.drop_resources
        },
{
    law_insertion_fills_one_entry(before.globals, after.globals, handle.id as int, value);
}

/// To insert a table is to have it found by the id of its handle, by which nothing
/// was found, and to leave all else as it was. The id is the next one exactly when
/// there is no gap to fill.
pub proof fn law_inserted_table_is_found_by_its_handle<T>(
    before: StoreModel<T>,
    after: StoreModel<T>,
    handle: Table,
    value: JsValue,
)
    ensures
        Change::Table(handle, value).made(before, after) <==> {
            &&& handle.id <= before.tables.len()
            &&& handle.id < before.tables.len() ==> before.tables[handle.id as int] is None
            &&& handle.id == before.tables.len() <==> (forall|i: int|
                0 <= i < before.tables.len() ==> #[trigger] before.tables[i] is Some)
            &&& after.tables.len() == before.tables.len() + if handle.id == before.tables.len() {
                1int
            } else {
                0int
            }
            &&& after.tables[handle.id as int] == Some(value)
            &&& forall|i: int|
                0 <= i < before.tables.len() && i != handle.id ==> #[trigger] after.tables[i]
                    == before.tables[i]
            &&& after.engine == before.engine
            &&& after.instances == before.instances
            &&& after.funcs == before.funcs
            &&& after.globals == before.globals
            &&& after.memories == before.memories
            &&& after.data == before.data
            &&& after.drop_resources == before.drop_resources
        },
{
    law_insertion_fills_one_entry(before.tables, after.tables, handle.id as int, value);
}

/// To insert a memory is to have it found by the id of its handle, by which nothing
/// was found, and to leave all else as it was. The id is the next one exactly when
/// there is no gap to fill.
pub proof fn law_inserted_memory_is_found_by_its_handle<T>(
    before: StoreModel<T>,
    after: StoreModel<T>,
    handle: Memory,
    value: JsValue,
)
    ensures
        Change::Memory(handle, value).made(before, after) <==> {
            &&& handle.id <= before.memories.len()
            &&& handle.id < before.memories.len() ==> before.memories[handle.id as int] is None
            &&& handle.id == before.memories.len() <==> (forall|i: int|
                0 <= i < before.memories.len() ==> #[trigger] before.memories[i] is Some)
            &&& after.memories.len() == before.memories.len() + if handle.id == before.memories.len() {
                1int
            } else {
                0int
            }
            &&& after.memories[handle.id as int] == Some(value)
            &&& forall|i: int|
                0 <= i < before.memories.len() && i != handle.id ==> #[trigger] after.memories[i]
                    == before.memories[i]
            &&& after.engine == before.engine
            &&& after.instances == before.instances
            &&& after.funcs == before.funcs
            &&& after.globals == before.globals
            &&& after.tables == before.tables
            &&& after.data == before.data
            &&& after.drop_resources == before.drop_resources
        },
{
    law_insertion_fills_one_entry(before.memories, after.memories, handle.id as int, value);
}

/// To insert a instance is to have it found by the id of its handle, by which nothing
/// was found, and to leave all else as it was. The id is the next one exactly when
/// there is no gap to fill.
pub proof fn law_inserted_instance_is_found_by_its_handle<T>(
    before: StoreModel<T>,
    after: StoreModel<T>,
    handle: Instance,
    value: JsValue,
)
    ensures
        Change::Instance(handle, value).made(before, after) <==> {
            &&& handle.id <= before.instances.len()
            &&& handle.id < before.instances.len() ==> before.instances[handle.id as int] is None
            &&& handle.id == before.instances.len() <==> (forall|i: int|
                0 <= i < before.instances.len() ==> #[trigger] before.instances[i] is Some)
            &&& after.instances.len() == before.instances.len() + if handle.id == before.instances.len() {
                1int
            } else {
                0int
            }
            &&& after.instances[handle.id as int] == Some(value)
            &&& forall|i: int|
                0 <= i < before.instances.len() && i != handle.id ==> #[trigger] after.instances[i]
                    == before.instances[i]
            &&& after.engine == before.engine
            &&& after.funcs == before.funcs
            &&& after.globals == before.globals
            &&& after.tables == before.tables
            &&& after.memories == before.memories
            &&& after.data == before.data
            &&& after.drop_resources == before.drop_resources
        },
{
    law_insertion_fills_one_entry(before.instances, after.instances, handle.id as int, value);
}

/// To keep a resource is to have it behind all that were kept before, and to leave
/// all else as it was.
pub proof fn law_kept_resource_is_the_last<T>(
    before: StoreModel<T>,
    after: StoreModel<T>,
    value: DropResource,
)
    ensures
        Change::Resource(value).made(before, after) <==> {
            &&& after.drop_resources.len() == before.drop_resources.len() + 1
            &&& after.drop_resources[before.drop_resources.len() as int] == value
            &&& forall|i: int|
                0 <= i < before.drop_resources.len() ==> #[trigger] after.drop_resources[i]
                    == before.drop_resources[i]
            &&& after.engine == before.engine
            &&& after.instances == before.instances
            &&& after.funcs == before.funcs
            &&& after.globals == before.globals
            &&& after.tables == before.tables
            &&& after.memories == before.memories
            &&& after.data == before.data
        },
{
    if after.drop_resources.len() == before.drop_resources.len() + 1
        && after.drop_resources[before.drop_resources.len() as int] == value && (forall|i: int|
        0 <= i < before.drop_resources.len() ==> #[trigger] after.drop_resources[i]
            == before.drop_resources[i]) {
        assert(after.drop_resources =~= before.drop_resources.push(value));
    }
}

/// To write the data is to have it in the store, and to leave all else as it was.
pub proof fn law_written_data_is_there<T>(before: StoreModel<T>, after: StoreModel<T>, data: T)
    ensures
        Change::Data(data).made(before, after) <==> {
            &&& after.data == data
            &&& after.engine == before.engine
            &&& after.instances == before.instances
            &&& after.funcs == before.funcs
            &&& after.globals == before.globals
            &&& after.tables == before.tables
            &&& after.memories == before.memories
            &&& after.drop_resources == before.drop_resources
        },
{
}

/// A store with a function put into it has that at the id of its handle, and all else
/// as it was.
pub proof fn law_store_with_a_function_has_it<T>(
    store: StoreModel<T>,
    handle: Func,
    func: FuncInner,
)
    requires
        handle.id <= store.funcs.len(),
    ensures
        ({
            let after = store.with(Change::Func(handle, func));
            &&& after.funcs.len() == store.funcs.len() + if handle.id == store.funcs.len() {
                1int
            } else {
                0int
            }
            &&& after.funcs[handle.id as int] == Some(func)
            &&& forall|i: int|
                0 <= i < store.funcs.len() && i != handle.id ==> #[trigger] after.funcs[i]
                    == store.funcs[i]
            &&& after.engine == store.engine
            &&& after.instances == store.instances
            &&& after.globals == store.globals
            &&& after.tables == store.tables
            &&& after.memories == store.memories
            &&& after.data == store.data
            &&& after.drop_resources == store.drop_resources
        }),
{
}

/// A store with a global put into it has that at the id of its handle, and all else
/// as it was.
pub proof fn law_store_with_a_global_has_it<T>(
    store: StoreModel<T>,
    handle: Global,
    value: JsValue,
)
    requires
        handle.id <= store.globals.len(),
    ensures
        ({
            let after = store.with(Change::Global(handle, value));
            &&& after.globals.len() == store.globals.len() + if handle.id == store.globals.len() {
                1int
            } else {
                0int
            }
            &&& after.globals[handle.id as int] == Some(value)
            &&& forall|i: int|
                0 <= i < store.globals.len() && i != handle.id ==> #[trigger] after.globals[i]
                    == store.globals[i]
            &&& after.engine == store.engine
            &&& after.instances == store.instances
            &&& after.funcs == store.funcs
            &&& after.tables == store.tables
            &&& after.memories == store.memories
            &&& after.data == store.data
            &&& after.drop_resources == store.drop_resources
        }),
{
}

/// A store with a table put into it has that at the id of its handle, and all else
/// as it was.
pub proof fn law_store_with_a_table_has_it<T>(
    store: StoreModel<T>,
    handle: Table,
    value: JsValue,
)
    requires
        handle.id <= store.tables.len(),
    ensures
        ({
            let after = store.with(Change::Table(handle, value));
            &&& after.tables.len() == store.tables.len() + if handle.id == store.tables.len() {
                1int
            } else {
                0int
            }
            &&& after.tables[handle.id as int] == Some(value)
            &&& forall|i: int|
                0 <= i < store.tables.len() && i != handle.id ==> #[trigger] after.tables[i]
                    == store.tables[i]
            &&& after.engine == store.engine
            &&& after.instances == store.instances
            &&& after.funcs == store.funcs
            &&& after.globals == store.globals
            &&& after.memories == store.memories
            &&& after.data == store.data
            &&& after.drop_resources == store.drop_resources
        }),
{
}

/// A store with a memory put into it has that at the id of its handle, and all else
/// as it was.
pub proof fn law_store_with_a_memory_has_it<T>(
    store: StoreModel<T>,
    handle: Memory,
    value: JsValue,
)
    requires
        handle.id <= store.memories.len(),
    ensures
        ({
            let after = store.with(Change::Memory(handle, value));
            &&& after.memories.len() == store.memories.len() + if handle.id == store.memories.len() {
                1int
            } else {
                0int
            }
            &&& after.memories[handle.id as int] == Some(value)
            &&& forall|i: int|
                0 <= i < store.memories.len() && i != handle.id ==> #[trigger] after.memories[i]
                    == store.memories[i]
            &&& after.engine == store.engine
            &&& after.instances == store.instances
            &&& after.funcs == store.funcs
            &&& after.globals == store.globals
            &&& after.tables == store.tables
            &&& after.data == store.data
            &&& after.drop_resources == store.drop_resources
        }),
{
}

/// A store with a instance put into it has that at the id of its handle, and all else
/// as it was.
pub proof fn law_store_with_a_instance_has_it<T>(
    store: StoreModel<T>,
    handle: Instance,
    value: JsValue,
)
    requires
        handle.id <= store.instances.len(),
    ensures
        ({
            let after = store.with(Change::Instance(handle, value));
            &&& after.instances.len() == store.instances.len() + if handle.id == store.instances.len() {
                1int
            } else {
                0int
            }
            &&& after.instances[handle.id as int] == Some(value)
            &&& forall|i: int|
                0 <= i < store.instances.len() && i != handle.id ==> #[trigger] after.instances[i]
                    == store.instances[i]
            &&& after.engine == store.engine
            &&& after.funcs == store.funcs
            &&& after.globals == store.globals
            &&& after.tables == store.tables
            &&& after.memories == store.memories
            &&& after.data == store.data
            &&& after.drop_resources == store.drop_resources
        }),
{
}

/// A store with a resource put into it has that as the last one, one with other data
/// has those, and all else is as it was.
pub proof fn law_store_with_a_resource_or_data_has_it<T>(
    store: StoreModel<T>,
    value: DropResource,
    data: T,
)
    ensures
        ({
            let after = store.with(Change::Resource(value));
            &&& after.drop_resources == store.drop_resources.push(value)
            &&& after.engine == store.engine
            &&& after.instances == store.instances
            &&& after.funcs == store.funcs
            &&& after.globals == store.globals
            &&& after.tables == store.tables
            &&& after.memories == store.memories
            &&& after.data == store.data
        }),
        ({
            let after = store.with(Change::Data(data));
            &&& after.data == data
            &&& after.engine == store.engine
            &&& after.instances == store.instances
            &&& after.funcs == store.funcs
            &&& after.globals == store.globals
            &&& after.tables == store.tables
            &&& after.memories == store.memories
            &&& after.drop_resources == store.drop_resources
        }),
{
}

/// No change leaves a store as it is, and one more change is made to what the changes
/// before it left.
pub proof fn law_changes_are_made_one_after_the_other<T>(
    store: StoreModel<T>,
    changes: Seq<Change<T>>,
    change: Change<T>,
)
    ensures
        store.with_all(Seq::empty()) == store,
        store.with_all(changes.push(change)) == store.with_all(changes).with(change),
{
    assert(changes.push(change).drop_last() =~= changes);
}

/// A history has one more state than changes, and each change was made to the state
/// at its place and left the next one.
pub proof fn law_history_goes_step_by_step<T>(
    states: Seq<StoreModel<T>>,
    changes: Seq<Change<T>>,
)
    ensures
        history(states, changes) <==> {
            &&& states.len() == changes.len() + 1
            &&& forall|i: int|
                0 <= i < changes.len() ==> (#[trigger] changes[i]).made(states[i], states[i + 1])
        },
{
}

/// In a life each state but the first extends the one before.
pub proof fn law_life_goes_step_by_step<T>(states: Seq<StoreModel<T>>)
    ensures
        life(states) <==> (forall|i: int|
            0 < i < states.len() ==> (#[trigger] states[i]).extends(states[i - 1])),
{
}

/// The objects of each kind are those of the table of that kind.
pub proof fn law_kinds_have_their_tables<T>(store: StoreModel<T>)
    ensures
        store.objects(Kind::Global) == store.globals,
        store.objects(Kind::Table) == store.tables,
        store.objects(Kind::Memory) == store.memories,
        store.objects(Kind::Instance) == store.instances,
{
}

/// Of the changes of a store the list of functions has the insertions of functions,
/// with the ids of their handles, in their order, and nothing else.
pub proof fn law_inserted_functions_are_listed<T>(changes: Seq<Change<T>>, change: Change<T>)
    ensures
        funcs_inserted(Seq::<Change<T>>::empty()) == Seq::<(int, FuncInner)>::empty(),
        funcs_inserted(changes.push(change)) == match change {
            Change::Func(handle, func) => funcs_inserted(changes).push((handle.id as int, func)),
            _ => funcs_inserted(changes),
        },
{
    assert(changes.push(change).drop_last() =~= changes);
}

/// Of the changes of a store the list of objects of a kind has the insertions of
/// objects of that kind, with the ids of their handles, in their order, and nothing
/// else.
pub proof fn law_inserted_objects_are_listed<T>(
    changes: Seq<Change<T>>,
    change: Change<T>,
    kind: Kind,
)
    ensures
        objects_inserted(Seq::<Change<T>>::empty(), kind) == Seq::<(int, JsValue)>::empty(),
        objects_inserted(changes.push(change), kind) == match (change, kind) {
            (Change::Global(handle, value), Kind::Global) => objects_inserted(changes, kind).push(
                (handle.id as int, value),
            ),
            (Change::Table(handle, value), Kind::Table) => objects_inserted(changes, kind).push(
                (handle.id as int, value),
            ),
            (Change::Memory(handle, value), Kind::Memory) => objects_inserted(changes, kind).push(
                (handle.id as int, value),
            ),
            (Change::Instance(handle, value), Kind::Instance) => objects_inserted(
                changes,
                kind,
            ).push((handle.id as int, value)),
            _ => objects_inserted(changes, kind),
        },
{
    assert(changes.push(change).drop_last() =~= changes);
}

} // verus!
