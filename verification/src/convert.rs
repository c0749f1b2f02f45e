//! Values that cross between WebAssembly and JavaScript.
//!
//! What a single value becomes is decided by two functions that the caller hands
//! in: one gives a value of a store to JavaScript, the other takes a JavaScript
//! value as one of a given type, for which it may add to the store, or says why it
//! is none.
use vstd::prelude::*;
use wasm_bindgen::JsValue;

use crate::store::StoreInner;
use crate::types::{Value, ValueType};

verus! {

/// `to_js` takes each of `values` with this store.
pub open spec fn gives<T, J: Fn(&Value, &StoreInner<T>) -> JsValue>(
    to_js: J,
    store: StoreInner<T>,
    values: Seq<Value>,
) -> bool {
    forall|i: int| 0 <= i < values.len() ==> call_requires(to_js, (&#[trigger] values[i], &store))
}

/// `from_js` takes each of `js` for the type at its place, with every store.
pub open spec fn takes<T, X, C: Fn(&mut StoreInner<T>, ValueType, JsValue) -> Result<Value, X>>(
    from_js: C,
    types: Seq<ValueType>,
    js: Seq<JsValue>,
) -> bool {
    forall|i: int, store: &mut StoreInner<T>|
        0 <= i < types.len() ==> #[trigger] call_requires(from_js, (store, types[i], js[i]))
}

/// `js` is what `to_js` gave for each of `values`, in their order.
pub open spec fn all_given<T, J: Fn(&Value, &StoreInner<T>) -> JsValue>(
    to_js: J,
    store: StoreInner<T>,
    values: Seq<Value>,
    js: Seq<JsValue>,
) -> bool {
    &&& js.len() == values.len()
    &&& forall|i: int|
        0 <= i < values.len() ==> call_ensures(to_js, (&values[i], &store), #[trigger] js[i])
}

/// `from_js` took each of `js` as the one of `values` at its place, for the type
/// there, and each time had the store through the one of `borrows` there.
pub open spec fn all_taken<T, X, C: Fn(&mut StoreInner<T>, ValueType, JsValue) -> Result<Value, X>>(
    from_js: C,
    borrows: Seq<&mut StoreInner<T>>,
    types: Seq<ValueType>,
    js: Seq<JsValue>,
    values: Seq<Value>,
) -> bool {
    &&& borrows.len() == types.len()
    &&& values.len() == types.len()
    &&& forall|i: int|
        0 <= i < types.len() ==> call_ensures(
            from_js,
            (borrows[i], types[i], js[i]),
            Ok::<Value, X>(#[trigger] values[i]),
        )
}

/// Gives the values to JavaScript, one after the other.
pub fn values_to_js<T, J: Fn(&Value, &StoreInner<T>) -> JsValue>(
    store: &StoreInner<T>,
    values: &[Value],
    to_js: &J,
) -> (js: Vec<JsValue>)
    requires
        gives(*to_js, *store, values@),
    ensures
        all_given(*to_js, *store, values@, js@),
        js@.len() == values@.len(),
        forall|i: int|
            0 <= i < values@.len() ==> call_ensures(*to_js, (&values@[i], store), #[trigger] js@[i]),
{
    let mut js: Vec<JsValue> = Vec::new();
    for i in 0..values.len()
        invariant
            gives(*to_js, *store, values@),
            all_given(*to_js, *store, values@.take(i as int), js@),
    {
        js.push(to_js(&values[i], store));
    }
    assert(values@.take(values@.len() as int) =~= values@);
    js
}

/// Takes the JavaScript values as values of the types at their places, one after
/// the other, each with the store as the one before left it. Each of them has to
/// be a value of its type.
pub fn values_from_js<T, X, C: Fn(&mut StoreInner<T>, ValueType, JsValue) -> Result<Value, X>>(
    store: &mut StoreInner<T>,
    types: &[ValueType],
    js: Vec<JsValue>,
    from_js: &C,
) -> (values: Vec<Value>)
    requires
        js@.len() == types@.len(),
        takes(*from_js, types@, js@),
        forall|
            i: int,
            borrows: Seq<&mut StoreInner<T>>,
            taken: Seq<Value>,
            borrow: &mut StoreInner<T>,
            outcome: Result<Value, X>,
        |
            0 <= i < types@.len() && #[trigger] all_taken(
                *from_js,
                borrows,
                types@.take(i),
                js@.take(i),
                taken,
            ) && (forall|j: int|
                0 <= j < i ==> *(#[trigger] borrows[j]) == if j == 0 {
                    *old(store)
                } else {
                    *final(borrows[j - 1])
                }) && *borrow == (if i == 0 {
                *old(store)
            } else {
                *final(borrows[i - 1])
            }) && #[trigger] call_ensures(
                *from_js,
                (borrow, types@[i], js@[i]),
                outcome,
            ) ==> outcome is Ok,
    ensures
        exists|borrows: Seq<&mut StoreInner<T>>|
            {
                &&& #[trigger] all_taken(*from_js, borrows, types@, js@, values@)
                &&& borrows.len() == types@.len()
                &&& values@.len() == types@.len()
                &&& forall|i: int|
                    0 <= i < types@.len() ==> call_ensures(
                        *from_js,
                        (borrows[i], types@[i], js@[i]),
                        Ok::<Value, X>(#[trigger] values@[i]),
                    )
                &&& forall|i: int|
                    0 <= i < types@.len() ==> *(#[trigger] borrows[i]) == if i == 0 {
                        *old(store)
                    } else {
                        *final(borrows[i - 1])
                    }
                &&& *final(store) == if types@.len() == 0 {
                    *old(store)
                } else {
                    *final(borrows[types@.len() - 1])
                }
            },
        (forall|borrow: &mut StoreInner<T>, ty: ValueType, value: JsValue, taken: Result<Value, X>|
            #[trigger] call_ensures(*from_js, (borrow, ty, value), taken) ==> (*final(borrow))@.extends((*borrow)@)) ==> final(store)@.extends(old(store)@),
{
    let mut values: Vec<Value> = Vec::new();
    let mut rest: Vec<JsValue> = js;
    assert(all_taken(*from_js, Seq::empty(), types@.take(0), js@.take(0), values@));
    let mut i: usize = 0;
    while i < types.len()
        invariant
            i <= types@.len(),
            js@.len() == types@.len(),
            takes(*from_js, types@, js@),
            forall|
                i: int,
                borrows: Seq<&mut StoreInner<T>>,
                taken: Seq<Value>,
                borrow: &mut StoreInner<T>,
                outcome: Result<Value, X>,
            |
                0 <= i < types@.len() && #[trigger] all_taken(
                    *from_js,
                    borrows,
                    types@.take(i),
                    js@.take(i),
                    taken,
                ) && (forall|j: int|
                    0 <= j < i ==> *(#[trigger] borrows[j]) == if j == 0 {
                        *old(store)
                    } else {
                        *final(borrows[j - 1])
                    }) && *borrow == (if i == 0 {
                    *old(store)
                } else {
                    *final(borrows[i - 1])
                }) && #[trigger] call_ensures(
                    *from_js,
                    (borrow, types@[i], js@[i]),
                    outcome,
                ) ==> outcome is Ok,
            rest@ == js@.skip(i as int),
            (forall|borrow: &mut StoreInner<T>, ty: ValueType, value: JsValue, taken: Result<Value, X>|
                #[trigger] call_ensures(*from_js, (borrow, ty, value), taken) ==> (*final(borrow))@.extends((*borrow)@)) ==> store@.extends(old(store)@),
            exists|borrows: Seq<&mut StoreInner<T>>|
                {
                    &&& #[trigger] all_taken(
                        *from_js,
                        borrows,
                        types@.take(i as int),
                        js@.take(i as int),
                        values@,
                    )
                    &&& forall|j: int|
                        0 <= j < i ==> *(#[trigger] borrows[j]) == if j == 0 {
                            *old(store)
                        } else {
                            *final(borrows[j - 1])
                        }
                    &&& *store == if i == 0 {
                        *old(store)
                    } else {
                        *final(borrows[i - 1])
                    }
                },
        decreases types@.len() - i,
    {
        let ghost before = *store;
        let ghost values_before = values@;
        let value = rest.remove(0);
        let taken = from_js(store, types[i], value);
        if let Ok(value) = taken {
            values.push(value);
        }
        proof {
            let borrows = choose|borrows: Seq<&mut StoreInner<T>>|
                {
                    &&& #[trigger] all_taken(
                        *from_js,
                        borrows,
                        types@.take(i as int),
                        js@.take(i as int),
                        values_before,
                    )
                    &&& forall|j: int|
                        0 <= j < i ==> *(#[trigger] borrows[j]) == if j == 0 {
                            *old(store)
                        } else {
                            *final(borrows[j - 1])
                        }
                    &&& before == if i == 0 {
                        *old(store)
                    } else {
                        *final(borrows[i - 1])
                    }
                };
            let borrow = choose|borrow: &mut StoreInner<T>|
                {
                    &&& *borrow == before
                    &&& *final(borrow) == *store
                    &&& #[trigger] call_ensures(
                        *from_js,
                        (borrow, types@[i as int], js@[i as int]),
                        taken,
                    )
                };
            let longer = borrows.push(borrow);
            assert(all_taken(*from_js, longer, types@.take(i + 1), js@.take(i + 1), values@));
        }
        i += 1;
    }
    assert(types@.take(types@.len() as int) =~= types@);
    assert(js@.take(js@.len() as int) =~= js@);
    values
}

/// The JavaScript values that were given for a list of values are as many as these,
/// and the one at each place is what `to_js` gave for the value at that place.
pub proof fn law_values_are_given_in_order<T, J: Fn(&Value, &StoreInner<T>) -> JsValue>(
    to_js: J,
    store: StoreInner<T>,
    values: Seq<Value>,
    js: Seq<JsValue>,
)
    ensures
        all_given(to_js, store, values, js) <==> {
            &&& js.len() == values.len()
            &&& forall|i: int|
                0 <= i < values.len() ==> call_ensures(
                    to_js,
                    (&values[i], &store),
                    #[trigger] js[i],
                )
        },
{
}

/// Giving a list of values and then another gives what giving both at once does.
pub proof fn law_giving_goes_piece_by_piece<T, J: Fn(&Value, &StoreInner<T>) -> JsValue>(
    to_js: J,
    store: StoreInner<T>,
    first: Seq<Value>,
    second: Seq<Value>,
    first_js: Seq<JsValue>,
    second_js: Seq<JsValue>,
)
    requires
        first_js.len() == first.len(),
    ensures
        all_given(to_js, store, first + second, first_js + second_js) <==> all_given(
            to_js,
            store,
            first,
            first_js,
        ) && all_given(to_js, store, second, second_js),
{
    let values = first + second;
    let js = first_js + second_js;
    if all_given(to_js, store, values, js) {
        assert forall|i: int| 0 <= i < first.len() implies call_ensures(
            to_js,
            (&first[i], &store),
            #[trigger] first_js[i],
        ) by {
            assert(js[i] == first_js[i]);
            assert(values[i] == first[i]);
        }
        assert forall|i: int| 0 <= i < second.len() implies call_ensures(
            to_js,
            (&second[i], &store),
            #[trigger] second_js[i],
        ) by {
            assert(js[first.len() + i] == second_js[i]);
            assert(values[first.len() + i] == second[i]);
        }
    }
}

/// The values that a list of JavaScript values was taken as are as many as there are
/// types, and the one at each place is what `from_js` took the JavaScript value at
/// that place as, for the type at that place.
pub proof fn law_values_are_taken_in_order<
    T,
    X,
    C: Fn(&mut StoreInner<T>, ValueType, JsValue) -> Result<Value, X>,
>(
    from_js: C,
    borrows: Seq<&mut StoreInner<T>>,
    types: Seq<ValueType>,
    js: Seq<JsValue>,
    values: Seq<Value>,
)
    ensures
        all_taken(from_js, borrows, types, js, values) <==> {
            &&& borrows.len() == types.len()
            &&& values.len() == types.len()
            &&& forall|i: int|
                0 <= i < types.len() ==> call_ensures(
                    from_js,
                    (borrows[i], types[i], js[i]),
                    Ok::<Value, X>(#[trigger] values[i]),
                )
        },
{
}

/// What `to_js` has to take is each of the values, with the store.
pub proof fn law_gives_asks_for_each_value<T, J: Fn(&Value, &StoreInner<T>) -> JsValue>(
    to_js: J,
    store: StoreInner<T>,
    values: Seq<Value>,
)
    ensures
        gives(to_js, store, values) <==> (forall|i: int|
            0 <= i < values.len() ==> call_requires(to_js, (&#[trigger] values[i], &store))),
{
}

/// What `from_js` has to take is each of the JavaScript values, for the type at its
/// place.
pub proof fn law_takes_asks_for_each_value<
    T,
    X,
    C: Fn(&mut StoreInner<T>, ValueType, JsValue) -> Result<Value, X>,
>(from_js: C, types: Seq<ValueType>, js: Seq<JsValue>)
    ensures
        takes(from_js, types, js) <==> (forall|i: int, store: &mut StoreInner<T>|
            0 <= i < types.len() ==> #[trigger] call_requires(from_js, (store, types[i], js[i]))),
{
}

} // verus!
