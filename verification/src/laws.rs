//! What holds of a store over its whole life.
use js_sys::Function;
use vstd::prelude::*;
use wasm_bindgen::JsValue;

use crate::convert::all_taken;
use crate::func::{
    law_exported_function_is_as_given, law_host_function_is_as_given, Func, FuncInner,
};
use crate::history::{
    funcs_inserted, history, law_inserted_function_is_found_by_its_handle,
    law_inserted_global_is_found_by_its_handle, law_inserted_instance_is_found_by_its_handle,
    law_inserted_memory_is_found_by_its_handle, law_inserted_table_is_found_by_its_handle,
    law_kept_resource_is_the_last, life, objects_inserted, Change, Kind,
};
use crate::host::{zeros, HostFunc, HostRun};
use crate::js::function_value;
use crate::slots::{full, inserted, keeps, keys, live, put};
use crate::store::{
    law_extending_keeps_all, DropResource, Engine, Global, Instance, Memory, Store, StoreContext,
    StoreInner, StoreModel, Table,
};
use crate::types::{FuncType, Value, ValueType};

verus! {

/// What is inserted is found by the key that it was given, and that key found
/// nothing before; what was there is still found by its own.
pub proof fn law_inserted_is_found<V>(
    before: Seq<Option<V>>,
    after: Seq<Option<V>>,
    key: int,
    item: V,
)
    requires
        inserted(before, after, key, item),
    ensures
        !live(before, key),
        live(after, key),
        after[key] == Some(item),
        keeps(before, after),
{
}

/// Two items that go into the same table never get the same key, however much
/// goes in between.
pub proof fn law_keys_differ<V>(
    first: Seq<Option<V>>,
    second: Seq<Option<V>>,
    third: Seq<Option<V>>,
    fourth: Seq<Option<V>>,
    one: int,
    one_item: V,
    other: int,
    other_item: V,
)
    requires
        inserted(first, second, one, one_item),
        keeps(second, third),
        inserted(third, fourth, other, other_item),
    ensures
        one != other,
        fourth[one] == Some(one_item),
        fourth[other] == Some(other_item),
{
    law_inserted_is_found(first, second, one, one_item);
    law_inserted_is_found(third, fourth, other, other_item);
}

/// A table without vacant entries gives out its keys in order, and stays so.
pub proof fn law_keys_count_up<V>(
    before: Seq<Option<V>>,
    after: Seq<Option<V>>,
    key: int,
    item: V,
)
    requires
        full(before),
        inserted(before, after, key, item),
    ensures
        key == before.len(),
        after.len() == before.len() + 1,
        full(after),
{
}

/// A new store has no vacant entry in any table.
pub proof fn law_new_store_is_dense<T>(engine: Engine, data: T)
    ensures
        StoreModel::empty(engine, data).dense(),
{
}

/// A store extends itself.
pub proof fn law_extends_is_reflexive<T>(store: StoreModel<T>)
    ensures
        store.extends(store),
{
}

/// What a store extends, it extends still after it was extended once more.
pub proof fn law_extends_is_transitive<T>(
    first: StoreModel<T>,
    second: StoreModel<T>,
    third: StoreModel<T>,
)
    requires
        second.extends(first),
        third.extends(second),
    ensures
        third.extends(first),
{
}

/// A handle stands for the same thing as long as the store lives.
pub proof fn law_handles_are_stable<T>(before: StoreModel<T>, after: StoreModel<T>, id: int)
    requires
        after.extends(before),
    ensures
        live(before.funcs, id) ==> live(after.funcs, id) && after.funcs[id] == before.funcs[id],
        live(before.globals, id) ==> live(after.globals, id) && after.globals[id]
            == before.globals[id],
        live(before.tables, id) ==> live(after.tables, id) && after.tables[id] == before.tables[id],
        live(before.memories, id) ==> live(after.memories, id) && after.memories[id]
            == before.memories[id],
        live(before.instances, id) ==> live(after.instances, id) && after.instances[id]
            == before.instances[id],
{
}

/// A function that was bound keeps its JavaScript function, its type and its name
/// as long as the store lives.
pub proof fn law_bound_function_is_kept<T>(
    before: StoreModel<T>,
    after: StoreModel<T>,
    later: StoreModel<T>,
    handle: Func,
    func: Function,
    ty: FuncType,
    name: Seq<char>,
)
    requires
        handle.bound(before, after, func, ty, name),
        later.extends(after),
    ensures
        !before.has_func(handle),
        later.has_func(handle),
        later.func(handle).func == func,
        later.func(handle).ty == ty,
        later.func(handle).name@ == name,
{
    law_handles_are_stable(after, later, handle.id as int);
}

/// An insertion makes one more entry of a table occupied: it takes the place of
/// none.
pub proof fn law_insertion_adds_one<V>(
    before: Seq<Option<V>>,
    after: Seq<Option<V>>,
    key: int,
    item: V,
)
    requires
        inserted(before, after, key, item),
    ensures
        keys(after) == keys(before).insert(key),
        keys(before).finite(),
        keys(after).finite(),
        keys(after).len() == keys(before).len() + 1,
{
    let all = vstd::set_lib::set_int_range(0, before.len() as int);
    vstd::set_lib::lemma_int_range(0, before.len() as int);
    assert(keys(before).subset_of(all));
    vstd::set_lib::lemma_len_subset(keys(before), all);
    assert(keys(after) =~= keys(before).insert(key));
}

/// Every change of a store extends it, and keeps it without vacant entries.
pub proof fn law_change_extends<T>(before: StoreModel<T>, after: StoreModel<T>, change: Change<T>)
    requires
        change.made(before, after),
    ensures
        after.extends(before),
        before.dense() ==> after.dense(),
{
}

/// A history of changes is a life: each state extends the one before.
pub proof fn law_history_is_a_life<T>(states: Seq<StoreModel<T>>, changes: Seq<Change<T>>)
    requires
        history(states, changes),
    ensures
        life(states),
{
    assert forall|i: int| 0 < i < states.len() implies (#[trigger] states[i]).extends(
        states[i - 1],
    ) by {
        law_change_extends(states[i - 1], states[i], changes[i - 1]);
    }
}

/// In the life of a store every state extends every earlier one.
pub proof fn law_later_extends_earlier<T>(states: Seq<StoreModel<T>>, i: int, j: int)
    requires
        life(states),
        0 <= i <= j < states.len(),
    ensures
        states[j].extends(states[i]),
    decreases j - i,
{
    if i < j {
        law_later_extends_earlier(states, i, j - 1);
        law_extends_is_transitive(states[i], states[j - 1], states[j]);
    }
}

/// The engine of a store is never replaced.
pub proof fn law_engine_is_kept<T>(states: Seq<StoreModel<T>>, i: int, j: int)
    requires
        life(states),
        0 <= i <= j < states.len(),
    ensures
        states[j].engine == states[i].engine,
{
    law_later_extends_earlier(states, i, j);
}

/// The resources of a store are only ever added to, at the end: none is removed,
/// moved or replaced.
pub proof fn law_resources_are_append_only<T>(states: Seq<StoreModel<T>>, i: int, j: int)
    requires
        life(states),
        0 <= i <= j < states.len(),
    ensures
        states[i].drop_resources.is_prefix_of(states[j].drop_resources),
{
    law_later_extends_earlier(states, i, j);
}

/// A store holds all the changes that were made to it, in their order, and no
/// others.
pub proof fn law_changes_are_all_there<T>(states: Seq<StoreModel<T>>, changes: Seq<Change<T>>)
    requires
        history(states, changes),
    ensures
        states.last() == states.first().with_all(changes),
        changes.len() == 0 ==> states.last() == states.first(),
    decreases changes.len(),
{
    if changes.len() > 0 {
        let earlier = states.drop_last();
        let fewer = changes.drop_last();
        lemma_history_without_last(states, changes);
        law_changes_are_all_there(earlier, fewer);
        let last = changes.len() - 1;
        lemma_made_is_with(states[last], states[last + 1], changes[last]);
    }
}

proof fn lemma_history_without_last<T>(states: Seq<StoreModel<T>>, changes: Seq<Change<T>>)
    requires
        history(states, changes),
        changes.len() > 0,
    ensures
        history(states.drop_last(), changes.drop_last()),
        changes.last().made(states.drop_last().last(), states.last()),
{
    let earlier = states.drop_last();
    let fewer = changes.drop_last();
    assert forall|i: int| 0 <= i < fewer.len() implies (#[trigger] fewer[i]).made(
        earlier[i],
        earlier[i + 1],
    ) by {
        assert(changes[i].made(states[i], states[i + 1]));
    }
    assert(changes[changes.len() - 1].made(states[states.len() - 2], states[states.len() - 1]));
}

proof fn lemma_inserted_is_put<V>(
    before: Seq<Option<V>>,
    after: Seq<Option<V>>,
    key: int,
    item: V,
)
    requires
        inserted(before, after, key, item),
    ensures
        after == put(before, key, item),
{
}

proof fn lemma_made_is_with<T>(before: StoreModel<T>, after: StoreModel<T>, change: Change<T>)
    requires
        change.made(before, after),
    ensures
        after == before.with(change),
{
    match change {
        Change::Func(handle, func) => {
            lemma_inserted_is_put(before.funcs, after.funcs, handle.id as int, func);
        },
        Change::Global(handle, value) => {
            lemma_inserted_is_put(before.globals, after.globals, handle.id as int, value);
        },
        Change::Table(handle, value) => {
            lemma_inserted_is_put(before.tables, after.tables, handle.id as int, value);
        },
        Change::Memory(handle, value) => {
            lemma_inserted_is_put(before.memories, after.memories, handle.id as int, value);
        },
        Change::Instance(handle, value) => {
            lemma_inserted_is_put(before.instances, after.instances, handle.id as int, value);
        },
        Change::Resource(_) => {},
        Change::Data(_) => {},
    }
}

/// What was done to a store through a mutable context, all of it and nothing
/// else, is what a shared context taken afterwards shows, however often one is
/// taken. `given` is the store as the mutable context showed it first, `given_up`
/// as it showed it last.
pub proof fn law_get_sees_what_get_mut_did<T>(
    before: Store<T>,
    after: Store<T>,
    given: StoreInner<T>,
    given_up: StoreInner<T>,
    states: Seq<StoreModel<T>>,
    changes: Seq<Change<T>>,
    one: StoreContext<'_, T>,
    other: StoreContext<'_, T>,
)
    requires
        given == before.contents(),
        after.contents() == given_up,
        history(states, changes),
        states.first() == given@,
        states.last() == given_up@,
        *one.store == after.contents(),
        *other.store == after.contents(),
    ensures
        one.store@ == before.contents()@.with_all(changes),
        changes.len() == 0 ==> one.store@ == before.contents()@,
        *other.store == *one.store,
{
    law_changes_are_all_there(states, changes);
}

/// What was done through a context that was made of a reference to a store, all of
/// it and nothing else, is in the store when the context is given up. `given` is
/// the store as the context showed it first, `given_up` as it showed it last.
pub proof fn law_context_changes_reach_the_store<T>(
    before: StoreInner<T>,
    after: StoreInner<T>,
    given: StoreInner<T>,
    given_up: StoreInner<T>,
    states: Seq<StoreModel<T>>,
    changes: Seq<Change<T>>,
)
    requires
        given == before,
        after == given_up,
        history(states, changes),
        states.first() == given@,
        states.last() == given_up@,
    ensures
        after@ == before@.with_all(changes),
        changes.len() == 0 ==> after@ == before@,
{
    law_changes_are_all_there(states, changes);
}

/// In a store without vacant entries each table gives out its ids in order, on
/// from those that it has, and is not affected by what the others do.
pub proof fn law_ids_count_on<T>(
    states: Seq<StoreModel<T>>,
    changes: Seq<Change<T>>,
    kind: Kind,
)
    requires
        history(states, changes),
        states.first().dense(),
    ensures
        states.last().dense(),
        states.last().funcs == states.first().funcs + funcs_inserted(changes).map_values(
            |entry: (int, FuncInner)| Some(entry.1),
        ),
        forall|i: int|
            0 <= i < funcs_inserted(changes).len() ==> (#[trigger] funcs_inserted(changes)[i]).0
                == states.first().funcs.len() + i,
        states.last().objects(kind) == states.first().objects(kind) + objects_inserted(
            changes,
            kind,
        ).map_values(|entry: (int, JsValue)| Some(entry.1)),
        forall|i: int|
            0 <= i < objects_inserted(changes, kind).len() ==> (#[trigger] objects_inserted(
                changes,
                kind,
            )[i]).0 == states.first().objects(kind).len() + i,
    decreases changes.len(),
{
    if changes.len() == 0 {
        assert(states.last().funcs =~= states.first().funcs + Seq::empty());
        assert(states.last().objects(kind) =~= states.first().objects(kind) + Seq::empty());
    } else {
        let earlier = states.drop_last();
        let fewer = changes.drop_last();
        lemma_history_without_last(states, changes);
        law_ids_count_on(earlier, fewer, kind);
        let last = changes.len() - 1;
        law_change_extends(states[last], states[last + 1], changes[last]);
    }
}

/// In a store that was empty at first, the functions that were inserted have the
/// ids from 0 on, in the order in which they were inserted, whatever else was
/// inserted in between; and each is found by its id. So it is with the objects of
/// each kind.
pub proof fn law_ids_are_consecutive<T>(
    engine: Engine,
    data: T,
    states: Seq<StoreModel<T>>,
    changes: Seq<Change<T>>,
    kind: Kind,
)
    requires
        history(states, changes),
        states.first() == StoreModel::empty(engine, data),
    ensures
        states.last().funcs.len() == funcs_inserted(changes).len(),
        forall|i: int|
            0 <= i < funcs_inserted(changes).len() ==> {
                &&& (#[trigger] funcs_inserted(changes)[i]).0 == i
                &&& states.last().funcs[i] == Some(funcs_inserted(changes)[i].1)
            },
        states.last().objects(kind).len() == objects_inserted(changes, kind).len(),
        forall|i: int|
            0 <= i < objects_inserted(changes, kind).len() ==> {
                &&& (#[trigger] objects_inserted(changes, kind)[i]).0 == i
                &&& states.last().objects(kind)[i] == Some(objects_inserted(changes, kind)[i].1)
            },
{
    law_ids_count_on(states, changes, kind);
}

/// Of two objects of a kind that were inserted one after the other, the second has
/// the id after that of the first, whatever else was inserted in between, and both
/// are found by their ids.
pub proof fn law_kinds_number_their_ids_alone<T>(
    states: Seq<StoreModel<T>>,
    changes: Seq<Change<T>>,
    kind: Kind,
    one: (int, JsValue),
    other: (int, JsValue),
)
    requires
        history(states, changes),
        states.first().dense(),
        objects_inserted(changes, kind) == seq![one, other],
    ensures
        other.0 == one.0 + 1,
        states.last().objects(kind)[one.0] == Some(one.1),
        states.last().objects(kind)[other.0] == Some(other.1),
{
    law_ids_count_on(states, changes, kind);
    assert(objects_inserted(changes, kind)[0] == one);
    assert(objects_inserted(changes, kind)[1] == other);
}

/// Two stores of one engine, each made anew and then changed, share nothing: each
/// holds what was put into it, under ids that it counted on its own, and nothing of
/// what was put into the other. One that was not changed is as it was made.
pub proof fn law_stores_share_nothing<T>(
    engine: Engine,
    one: Store<T>,
    one_after: Store<T>,
    one_data: T,
    one_states: Seq<StoreModel<T>>,
    one_changes: Seq<Change<T>>,
    other: Store<T>,
    other_after: Store<T>,
    other_data: T,
    other_states: Seq<StoreModel<T>>,
    other_changes: Seq<Change<T>>,
    kind: Kind,
)
    requires
        one.contents()@ == StoreModel::empty(engine, one_data),
        history(one_states, one_changes),
        one_states.first() == one.contents()@,
        one_states.last() == one_after.contents()@,
        other.contents()@ == StoreModel::empty(engine, other_data),
        history(other_states, other_changes),
        other_states.first() == other.contents()@,
        other_states.last() == other_after.contents()@,
    ensures
        one_after.contents()@ == StoreModel::empty(engine, one_data).with_all(one_changes),
        other_after.contents()@ == StoreModel::empty(engine, other_data).with_all(other_changes),
        forall|id: int|
            live(one_after.contents()@.funcs, id) <==> 0 <= id < funcs_inserted(one_changes).len(),
        forall|id: int|
            live(other_after.contents()@.funcs, id) <==> 0 <= id < funcs_inserted(
                other_changes,
            ).len(),
        forall|id: int|
            live(one_after.contents()@.objects(kind), id) <==> 0 <= id < objects_inserted(
                one_changes,
                kind,
            ).len(),
        forall|id: int|
            live(other_after.contents()@.objects(kind), id) <==> 0 <= id < objects_inserted(
                other_changes,
                kind,
            ).len(),
        other_changes.len() == 0 ==> other_after.contents()@ == other.contents()@,
{
    law_changes_are_all_there(one_states, one_changes);
    law_changes_are_all_there(other_states, other_changes);
    law_new_store_is_dense(engine, one_data);
    law_new_store_is_dense(engine, other_data);
    law_ids_count_on(one_states, one_changes, kind);
    law_ids_count_on(other_states, other_changes, kind);
}

/// To bind a function of the host is to insert the function and then to keep its
/// resource.
pub proof fn law_host_binding_is_two_changes<T>(
    before: StoreModel<T>,
    after: StoreModel<T>,
    handle: Func,
    func: Function,
    ty: FuncType,
    name: Seq<char>,
    resource: DropResource,
)
    requires
        handle.hosted(before, after, func, ty, name, resource),
    ensures
        history(
            seq![before, StoreModel { funcs: after.funcs, ..before }, after],
            seq![Change::Func(handle, after.func(handle)), Change::Resource(resource)],
        ),
{
    let middle = StoreModel { funcs: after.funcs, ..before };
    let states = seq![before, middle, after];
    let changes = seq![Change::Func(handle, after.func(handle)), Change::Resource(resource)];
    assert(changes[0].made(states[0], states[1]));
    assert(changes[1].made(states[1], states[2]));
}

/// The type that a function was bound with is the one that its handle gives, as
/// long as the store lives. `answer` is what is given for the type at some time.
pub proof fn law_type_is_kept<T>(
    before: StoreModel<T>,
    states: Seq<StoreModel<T>>,
    at: int,
    handle: Func,
    func: Function,
    ty: FuncType,
    name: Seq<char>,
    answer: FuncType,
)
    requires
        life(states),
        handle.bound(before, states.first(), func, ty, name),
        0 <= at < states.len(),
        answer.same(&states[at].func(handle).ty),
    ensures
        states[at].has_func(handle),
        answer.param_types() == ty.param_types(),
        answer.result_types() == ty.result_types(),
{
    law_later_extends_earlier(states, 0, at);
    law_bound_function_is_kept(before, states.first(), states[at], handle, func, ty, name);
}

/// The function that a handle of an exported function gives back is the JavaScript
/// object that was exported, as long as the store lives. `answer` is what is given
/// for the function at some time.
pub proof fn law_exported_function_comes_back<T>(
    before: StoreModel<T>,
    states: Seq<StoreModel<T>>,
    at: int,
    handle: Func,
    value: JsValue,
    signature: FuncType,
    name: Seq<char>,
    answer: Function,
)
    requires
        life(states),
        handle.exported(before, states.first(), value, signature, name),
        0 <= at < states.len(),
        answer == states[at].func(handle).func,
    ensures
        states[at].has_func(handle),
        function_value(answer) == value,
{
    let func = states.first().func(handle).func;
    law_later_extends_earlier(states, 0, at);
    law_bound_function_is_kept(
        before,
        states.first(),
        states[at],
        handle,
        func,
        signature,
        "guest."@ + name,
    );
}

/// Binding one value twice gives two functions, under two ids, which are the same
/// JavaScript object.
pub proof fn law_bindings_are_not_shared<T>(
    first: StoreModel<T>,
    second: StoreModel<T>,
    third: StoreModel<T>,
    one: Func,
    other: Func,
    value: JsValue,
    one_signature: FuncType,
    other_signature: FuncType,
    one_name: Seq<char>,
    other_name: Seq<char>,
)
    requires
        one.exported(first, second, value, one_signature, one_name),
        other.exported(second, third, value, other_signature, other_name),
    ensures
        one.id != other.id,
        keys(third.funcs).len() == keys(first.funcs).len() + 2,
        third.has_func(one),
        third.has_func(other),
        function_value(third.func(one).func) == value,
        function_value(third.func(other).func) == value,
{
    let one_inner = second.func(one);
    let other_inner = third.func(other);
    law_insertion_adds_one(first.funcs, second.funcs, one.id as int, one_inner);
    law_insertion_adds_one(second.funcs, third.funcs, other.id as int, other_inner);
    law_keys_differ(
        first.funcs,
        second.funcs,
        second.funcs,
        third.funcs,
        one.id as int,
        one_inner,
        other.id as int,
        other_inner,
    );
}

/// The results of a function of the host are kept from run to run: each run finds
/// them as the run before left them, whether that succeeded or failed, and the
/// first finds zeros. A run that leaves as many as it finds, which is all that a
/// slice allows, makes each find as many as the type has.
pub proof fn law_results_are_kept_between_runs(
    hosts: Seq<HostFunc>,
    runs: Seq<HostRun>,
    ty: FuncType,
    i: int,
)
    requires
        hosts.len() == runs.len() + 1,
        hosts.first().func_type() == ty,
        hosts.first().results() == zeros(ty.result_types().len()),
        forall|i: int|
            0 <= i < runs.len() ==> hosts[i].ran(hosts[i + 1], #[trigger] runs[i]),
        0 <= i < runs.len(),
    ensures
        hosts[i].func_type() == ty,
        runs[i].given == if i == 0 {
            zeros(ty.result_types().len())
        } else {
            runs[i - 1].left
        },
        (forall|i: int|
            0 <= i < runs.len() ==> (#[trigger] runs[i]).left.len() == runs[i].given.len())
            ==> runs[i].given.len() == ty.result_types().len(),
    decreases i,
{
    assert(hosts[i].ran(hosts[i + 1], runs[i]));
    if i > 0 {
        law_results_are_kept_between_runs(hosts, runs, ty, i - 1);
        assert(hosts[i - 1].ran(hosts[i], runs[i - 1]));
    }
}

/// A bound function of the host is run on as many arguments as its type has
/// parameters, each of them what the value of the guest at its place was taken as,
/// for the type of the parameter there. `host` answers for the function that the
/// store holds under the handle, at any time of its life.
pub proof fn law_bound_host_function_gets_its_arguments<
    T,
    X,
    C: Fn(&mut StoreInner<T>, ValueType, JsValue) -> Result<Value, X>,
>(
    before: StoreModel<T>,
    states: Seq<StoreModel<T>>,
    at: int,
    handle: Func,
    func: Function,
    ty: FuncType,
    name: Seq<char>,
    resource: DropResource,
    host: HostFunc,
    after: HostFunc,
    run: HostRun,
    from_js: C,
    borrows: Seq<&mut StoreInner<T>>,
    js: Seq<JsValue>,
)
    requires
        life(states),
        handle.hosted(before, states.first(), func, ty, name, resource),
        0 <= at < states.len(),
        host.func_type().same(&ty),
        all_taken(from_js, borrows, host.func_type().param_types(), js, run.args),
        host.ran(after, run),
    ensures
        states[at].has_func(handle),
        run.args.len() == states[at].func(handle).ty.param_types().len(),
        forall|i: int|
            0 <= i < run.args.len() ==> call_ensures(
                from_js,
                (borrows[i], states[at].func(handle).ty.param_types()[i], js[i]),
                Ok::<Value, X>(#[trigger] run.args[i]),
            ),
        run.given == host.results(),
{
    law_later_extends_earlier(states, 0, at);
    law_bound_function_is_kept(before, states.first(), states[at], handle, func, ty, name);
}

/// A function of the host that was bound has, as long as the store lives, the
/// parameters and the results of the type that it was bound with, the JavaScript
/// function and the name; and its resource is still where it was put.
pub proof fn law_host_function_is_kept_as_given<T>(
    before: StoreModel<T>,
    states: Seq<StoreModel<T>>,
    at: int,
    handle: Func,
    func: Function,
    ty: FuncType,
    name: Seq<char>,
    resource: DropResource,
)
    requires
        life(states),
        handle.hosted(before, states.first(), func, ty, name, resource),
        0 <= at < states.len(),
    ensures
        handle.id < states[at].funcs.len(),
        states[at].funcs[handle.id as int] is Some,
        states[at].funcs[handle.id as int]->0.func == func,
        states[at].funcs[handle.id as int]->0.ty.param_types() == ty.param_types(),
        states[at].funcs[handle.id as int]->0.ty.result_types() == ty.result_types(),
        states[at].funcs[handle.id as int]->0.name@ == name,
        before.drop_resources.len() < states[at].drop_resources.len(),
        states[at].drop_resources[before.drop_resources.len() as int] == resource,
        forall|i: int|
            0 <= i < before.drop_resources.len() ==> #[trigger] states[at].drop_resources[i]
                == before.drop_resources[i],
{
    law_later_extends_earlier(states, 0, at);
    law_host_function_is_as_given(before, states.first(), handle, func, ty, name, resource);
    law_extending_keeps_all(states.first(), states[at]);
    let first = states.first();
    assert(first.funcs[handle.id as int] is Some);
    assert(first.drop_resources[before.drop_resources.len() as int] == resource);
    assert forall|i: int| 0 <= i < before.drop_resources.len() implies #[trigger]
        states[at].drop_resources[i] == before.drop_resources[i] by {
        assert(first.drop_resources[i] == before.drop_resources[i]);
    }
}

/// An exported function that was bound has, as long as the store lives, the
/// parameters and the results of the signature that it was bound with, and is the
/// JavaScript object that was exported, under its name within the guest.
pub proof fn law_exported_function_is_kept_as_given<T>(
    before: StoreModel<T>,
    states: Seq<StoreModel<T>>,
    at: int,
    handle: Func,
    value: JsValue,
    signature: FuncType,
    name: Seq<char>,
)
    requires
        life(states),
        handle.exported(before, states.first(), value, signature, name),
        0 <= at < states.len(),
    ensures
        handle.id < states[at].funcs.len(),
        states[at].funcs[handle.id as int] is Some,
        function_value(states[at].funcs[handle.id as int]->0.func) == value,
        states[at].funcs[handle.id as int]->0.ty.param_types() == signature.param_types(),
        states[at].funcs[handle.id as int]->0.ty.result_types() == signature.result_types(),
        states[at].funcs[handle.id as int]->0.name@ == "guest."@ + name,
{
    law_later_extends_earlier(states, 0, at);
    law_exported_function_is_as_given(before, states.first(), handle, value, signature, name);
    law_extending_keeps_all(states.first(), states[at]);
    assert(states.first().funcs[handle.id as int] is Some);
}

/// Every resource that was ever put into a store is, from then on, behind all that
/// were there before it.
pub proof fn law_every_resource_is_still_there<T>(
    states: Seq<StoreModel<T>>,
    changes: Seq<Change<T>>,
    put_at: int,
    at: int,
    resource: DropResource,
)
    requires
        history(states, changes),
        0 <= put_at < at < states.len(),
        changes[put_at] == Change::<T>::Resource(resource),
    ensures
        states[put_at].drop_resources.len() < states[at].drop_resources.len(),
        states[at].drop_resources[states[put_at].drop_resources.len() as int] == resource,
{
    assert(changes[put_at].made(states[put_at], states[put_at + 1]));
    law_kept_resource_is_the_last(states[put_at], states[put_at + 1], resource);
    law_history_is_a_life(states, changes);
    law_later_extends_earlier(states, put_at + 1, at);
    law_extending_keeps_all(states[put_at + 1], states[at]);
}

/// Every function that was ever inserted into a store is, from then on, found by the
/// id of the handle that was given out for it.
pub proof fn law_every_function_is_still_found<T>(
    states: Seq<StoreModel<T>>,
    changes: Seq<Change<T>>,
    put_at: int,
    at: int,
    handle: Func,
    func: FuncInner,
)
    requires
        history(states, changes),
        0 <= put_at < at < states.len(),
        changes[put_at] == Change::<T>::Func(handle, func),
    ensures
        handle.id < states[at].funcs.len(),
        states[at].funcs[handle.id as int] == Some(func),
{
    assert(changes[put_at].made(states[put_at], states[put_at + 1]));
    law_inserted_function_is_found_by_its_handle(states[put_at], states[put_at + 1], handle, func);
    law_history_is_a_life(states, changes);
    law_later_extends_earlier(states, put_at + 1, at);
    law_extending_keeps_all(states[put_at + 1], states[at]);
    assert(states[put_at + 1].funcs[handle.id as int] is Some);
}

/// Every global that was ever inserted into a store is, from then on, found by the id
/// of the handle that was given out for it.
pub proof fn law_every_global_is_still_found<T>(
    states: Seq<StoreModel<T>>,
    changes: Seq<Change<T>>,
    put_at: int,
    at: int,
    handle: Global,
    value: JsValue,
)
    requires
        history(states, changes),
        0 <= put_at < at < states.len(),
        changes[put_at] == Change::<T>::Global(handle, value),
    ensures
        handle.id < states[at].globals.len(),
        states[at].globals[handle.id as int] == Some(value),
{
    assert(changes[put_at].made(states[put_at], states[put_at + 1]));
    law_inserted_global_is_found_by_its_handle(states[put_at], states[put_at + 1], handle, value);
    law_history_is_a_life(states, changes);
    law_later_extends_earlier(states, put_at + 1, at);
    law_extending_keeps_all(states[put_at + 1], states[at]);
    assert(states[put_at + 1].globals[handle.id as int] is Some);
}

/// Every table that was ever inserted into a store is, from then on, found by the id
/// of the handle that was given out for it.
pub proof fn law_every_table_is_still_found<T>(
    states: Seq<StoreModel<T>>,
    changes: Seq<Change<T>>,
    put_at: int,
    at: int,
    handle: Table,
    value: JsValue,
)
    requires
        history(states, changes),
        0 <= put_at < at < states.len(),
        changes[put_at] == Change::<T>::Table(handle, value),
    ensures
        handle.id < states[at].tables.len(),
        states[at].tables[handle.id as int] == Some(value),
{
    assert(changes[put_at].made(states[put_at], states[put_at + 1]));
    law_inserted_table_is_found_by_its_handle(states[put_at], states[put_at + 1], handle, value);
    law_history_is_a_life(states, changes);
    law_later_extends_earlier(states, put_at + 1, at);
    law_extending_keeps_all(states[put_at + 1], states[at]);
    assert(states[put_at + 1].tables[handle.id as int] is Some);
}

/// Every memory that was ever inserted into a store is, from then on, found by the id
/// of the handle that was given out for it.
pub proof fn law_every_memory_is_still_found<T>(
    states: Seq<StoreModel<T>>,
    changes: Seq<Change<T>>,
    put_at: int,
    at: int,
    handle: Memory,
    value: JsValue,
)
    requires
        history(states, changes),
        0 <= put_at < at < states.len(),
        changes[put_at] == Change::<T>::Memory(handle, value),
    ensures
        handle.id < states[at].memories.len(),
        states[at].memories[handle.id as int] == Some(value),
{
    assert(changes[put_at].made(states[put_at], states[put_at + 1]));
    law_inserted_memory_is_found_by_its_handle(states[put_at], states[put_at + 1], handle, value);
    law_history_is_a_life(states, changes);
    law_later_extends_earlier(states, put_at + 1, at);
    law_extending_keeps_all(states[put_at + 1], states[at]);
    assert(states[put_at + 1].memories[handle.id as int] is Some);
}

/// Every instance that was ever inserted into a store is, from then on, found by the id
/// of the handle that was given out for it.
pub proof fn law_every_instance_is_still_found<T>(
    states: Seq<StoreModel<T>>,
    changes: Seq<Change<T>>,
    put_at: int,
    at: int,
    handle: Instance,
    value: JsValue,
)
    requires
        history(states, changes),
        0 <= put_at < at < states.len(),
        changes[put_at] == Change::<T>::Instance(handle, value),
    ensures
        handle.id < states[at].instances.len(),
        states[at].instances[handle.id as int] == Some(value),
{
    assert(changes[put_at].made(states[put_at], states[put_at + 1]));
    law_inserted_instance_is_found_by_its_handle(states[put_at], states[put_at + 1], handle, value);
    law_history_is_a_life(states, changes);
    law_later_extends_earlier(states, put_at + 1, at);
    law_extending_keeps_all(states[put_at + 1], states[at]);
    assert(states[put_at + 1].instances[handle.id as int] is Some);
}

} // verus!
