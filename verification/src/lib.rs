//! Verified core of a Python tracing bridge: argument binding for instrumented
//! functions, interning of field names, callsite planning, template rendering and
//! the configuration decisions of the formatting layer.

pub mod leak;
pub mod signature;
pub mod level;
pub mod ret_log;
pub mod instrument;
pub mod introspect;
pub mod cached;
pub mod callsite;
pub mod template;
pub mod event;
pub mod formatting;
pub mod layer;
