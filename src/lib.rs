//! Request-dispatch core of a small HTTP toolkit: a routing tree of handler
//! lists, a tri-state argument extraction protocol, and request/response
//! middleware chains around every dispatch.

pub mod http;
pub mod resolve;
pub mod systems;
pub mod layers;
pub mod routing;
pub mod laws;
