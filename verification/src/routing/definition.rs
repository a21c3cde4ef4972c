//! Route definitions as the application layer states them.

use vstd::prelude::*;
use crate::string_map::StringMap;

verus! {

/// A route as the application layer defines it: the method, the path
/// pattern, the handler's name, the middleware that applies, and the
/// declared type of each parameter.
pub struct RouteDefinition {
    pub method: String,
    pub path: String,
    pub handler_name: String,
    pub middleware: Vec<String>,
    pub params: StringMap,
}

} // verus!
