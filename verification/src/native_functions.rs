//! The built-in functions of the language. Only `print` exists: it renders
//! each element of its evaluated argument array, joins them with `, `, and
//! returns `Null`. The library computes the printed line; writing it out is
//! the driver's business.

use crate::types::{render_list_v, render_values, value_view, RuntimeValue, ValueV};
use vstd::prelude::*;

verus! {

/// The `print` built-in, split at the output edge: given the evaluated
/// argument array it returns the line that would be printed and the call's
/// result, `Null`. A non-array argument prints nothing, as in the runtime's
/// dispatch, which always hands an array.
pub fn nf_print(args: &RuntimeValue) -> (r: (Option<String>, RuntimeValue))
    ensures
        (match value_view(*args) {
            ValueV::Array(vs) => r.0 matches Some(line) && line@ == render_list_v(vs),
            _ => r.0 is None,
        }),
        value_view(r.1) == ValueV::Null,
{
    match args {
        RuntimeValue::Array(values) => {
            let line = render_values(values);
            (Some(line), RuntimeValue::Null)
        },
        _ => (None, RuntimeValue::Null),
    }
}

} // verus!
