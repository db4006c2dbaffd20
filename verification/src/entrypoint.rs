//! Finding a module's entry function: a function carrying the string
//! attribute `EntryPoint` is preferred; the fixed name
//! `QuantumApplication__Run__body` is the fallback.

use vstd::prelude::*;
use vstd::string::StringSliceAdditionalSpecFns;

use crate::bytes::bytes_eq_str;
use crate::qir::{QirFunctionView, QirModule, QirModuleView};

verus! {

/// The fallback entry function name.
pub open spec fn entry_fallback_name() -> Seq<u8> {
    "QuantumApplication__Run__body".spec_bytes()
}

/// Index of the first function from `i` on with the entry attribute.
pub open spec fn first_attr_index(fns: Seq<QirFunctionView>, i: int) -> Option<int>
    decreases fns.len() - i,
{
    if i >= fns.len() {
        None
    } else if fns[i].has_entry_point_attribute {
        Some(i)
    } else {
        first_attr_index(fns, i + 1)
    }
}

/// Index of the first function from `i` on with the given name.
pub open spec fn first_named_index(fns: Seq<QirFunctionView>, name: Seq<u8>, i: int) -> Option<int>
    decreases fns.len() - i,
{
    if i >= fns.len() {
        None
    } else if fns[i].name == name {
        Some(i)
    } else {
        first_named_index(fns, name, i + 1)
    }
}

/// The entry function's index: by attribute first, by name second.
pub open spec fn entry_function_index(m: QirModuleView) -> Option<int> {
    match first_attr_index(m.functions, 0) {
        Some(i) => Some(i),
        None => first_named_index(m.functions, entry_fallback_name(), 0),
    }
}

/// Find the function carrying the `EntryPoint` attribute.
pub fn get_entrypoint_function(module: &QirModule) -> (r: Option<usize>)
    ensures
        match r {
            Some(i) => first_attr_index(module@.functions, 0) == Some(i as int) && (i as int)
                < module@.functions.len(),
            None => first_attr_index(module@.functions, 0) is None,
        },
{
    let n = module.functions.len();
    let mut i: usize = 0;
    while i < n
        invariant
            i <= n,
            n == module.functions@.len(),
            module@.functions.len() == n,
            first_attr_index(module@.functions, 0) == first_attr_index(
                module@.functions,
                i as int,
            ),
        decreases n - i,
    {
        proof {
            assert(module@.functions[i as int] == module.functions@[i as int]@);
        }
        if module.functions[i].has_entry_point_attribute {
            return Some(i);
        }
        i += 1;
    }
    None
}

/// Find the entry function: prefer the attribute, fall back to the name.
pub fn get_entry_function(module: &QirModule) -> (r: Option<usize>)
    ensures
        match r {
            Some(i) => entry_function_index(module@) == Some(i as int) && (i as int)
                < module@.functions.len(),
            None => entry_function_index(module@) is None,
        },
{
    if let Some(i) = get_entrypoint_function(module) {
        return Some(i);
    }
    let n = module.functions.len();
    let mut i: usize = 0;
    while i < n
        invariant
            i <= n,
            n == module.functions@.len(),
            module@.functions.len() == n,
            first_attr_index(module@.functions, 0) is None,
            first_named_index(module@.functions, entry_fallback_name(), 0) == first_named_index(
                module@.functions,
                entry_fallback_name(),
                i as int,
            ),
        decreases n - i,
    {
        proof {
            assert(module@.functions[i as int] == module.functions@[i as int]@);
        }
        if bytes_eq_str(module.functions[i].name.as_slice(), "QuantumApplication__Run__body") {
            return Some(i);
        }
        i += 1;
    }
    None
}

} // verus!
