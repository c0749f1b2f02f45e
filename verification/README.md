# web_store

The store of a WebAssembly runtime whose modules run in a JavaScript host,
verified with Verus.

A store owns the instances, functions, globals, tables and memories of the
modules, and hands out handles to them. Handles stay valid as long as the store
lives, and so do the resources that it is given to keep.

- `src/slots.rs`: the slabs that hold the items, and what inserting does to them.
- `src/js.rs`: the values of JavaScript, and the calls into the host.
- `src/types.rs`: value types, values and function types.
- `src/store.rs`: the store and its contexts.
- `src/history.rs`: the changes that a store goes through.
- `src/convert.rs`: lists of values on their way to and from JavaScript.
- `src/func.rs`: functions of a store, and calls of guest functions.
- `src/host.rs`: functions of the host, as the guest calls them.
- `src/laws.rs`: what holds of a store over its whole life.
- `app/`: the raw pointer for re-entrant calls, the JavaScript closures, the
  conversion of a single number, and logging.

The tests run without a JavaScript host, so they stop short of the calls that
need one.
