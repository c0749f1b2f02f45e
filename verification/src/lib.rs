//! The store of a WebAssembly runtime whose modules run in a JavaScript host.
//!
//! A [`store::StoreInner`] owns the instances, functions, globals, tables and
//! memories of the modules, and hands out small handles to them. A
//! [`func::Func`] is such a handle to a function of the guest or of the host.
pub mod convert;
pub mod func;
pub mod history;
pub mod host;
pub mod js;
pub mod laws;
pub mod slots;
pub mod store;
pub mod types;
