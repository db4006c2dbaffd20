//! Pre-validation of the declared quantum functions: every parameter of a
//! `__quantum__qis__*` function must be a `double` or a pointer to the
//! opaque structs `Qubit` or `Result`. This is the earliest guard against
//! malformed QIR, run before any matching.

use vstd::prelude::*;
use vstd::string::StringSliceAdditionalSpecFns;

use crate::bytes::{clone_bytes, starts_with};
use crate::error::{InvalidParameter, InvalidParameterView, TranspileError, TranspileErrorView};
use crate::names::qis_prefix;
use crate::qir::{ParamType, ParamTypeView, QirFunction, QirFunctionView, QirModule,
    QirModuleView};

verus! {

/// An accepted parameter type.
pub open spec fn param_type_ok(p: ParamTypeView) -> bool {
    match p {
        ParamTypeView::DoubleParam => true,
        ParamTypeView::PointerTo(n) => n == "Qubit".spec_bytes() || n == "Result".spec_bytes(),
        ParamTypeView::OtherType => false,
    }
}

/// The offending parameters of one function, from index `i` on.
pub open spec fn invalid_params_of(
    f: QirFunctionView,
    i: int,
    acc: Seq<InvalidParameterView>,
) -> Seq<InvalidParameterView>
    decreases f.param_types.len() - i,
{
    if i >= f.param_types.len() {
        acc
    } else if param_type_ok(f.param_types[i]) {
        invalid_params_of(f, i + 1, acc)
    } else {
        invalid_params_of(
            f,
            i + 1,
            acc.push(InvalidParameterView { function: f.name, index: i as u64 }),
        )
    }
}

/// The offending parameters of all quantum functions, from function `i` on.
pub open spec fn invalid_params(
    fns: Seq<QirFunctionView>,
    i: int,
    acc: Seq<InvalidParameterView>,
) -> Seq<InvalidParameterView>
    decreases fns.len() - i,
{
    if i >= fns.len() {
        acc
    } else if starts_with(fns[i].name, qis_prefix()) {
        invalid_params(fns, i + 1, invalid_params_of(fns[i], 0, acc))
    } else {
        invalid_params(fns, i + 1, acc)
    }
}

/// The offending parameters of the whole module.
pub open spec fn module_invalid_params(m: QirModuleView) -> Seq<InvalidParameterView> {
    invalid_params(m.functions, 0, Seq::<InvalidParameterView>::empty())
}

/// Collect the offending parameters of one quantum function.
fn collect_invalid_of(f: &QirFunction, out: &mut Vec<InvalidParameter>)
    ensures
        final(out).deep_view() == invalid_params_of(f@, 0, old(out).deep_view()),
{
    let n = f.param_types.len();
    let mut i: usize = 0;
    while i < n
        invariant
            i <= n,
            n == f.param_types@.len(),
            f@.param_types.len() == n,
            invalid_params_of(f@, 0, old(out).deep_view()) == invalid_params_of(
                f@,
                i as int,
                out.deep_view(),
            ),
        decreases n - i,
    {
        proof {
            assert(f@.param_types[i as int] == f.param_types@[i as int]@);
        }
        let ok = match &f.param_types[i] {
            ParamType::DoubleParam => true,
            ParamType::PointerTo(name) => crate::bytes::bytes_eq_str(name.as_slice(), "Qubit")
                || crate::bytes::bytes_eq_str(name.as_slice(), "Result"),
            ParamType::OtherType => false,
        };
        if !ok {
            let ghost prev = out.deep_view();
            let entry = InvalidParameter { function: clone_bytes(&f.name), index: i as u64 };
            let ghost ev = entry@;
            out.push(entry);
            proof {
                assert(out.deep_view() =~= prev.push(ev));
            }
        }
        i += 1;
    }
}

/// Check the parameters of every `__quantum__qis__*` function; reject the
/// module when any is neither a `double` nor a `Qubit`/`Result` pointer,
/// reporting every offender.
pub fn validate_quantum_fn_params(module: &QirModule) -> (r: Result<(), TranspileError>)
    ensures
        match r {
            Ok(()) => module_invalid_params(module@).len() == 0,
            Err(e) => module_invalid_params(module@).len() > 0 && e@
                == TranspileErrorView::QuantumFnParamBadType(module_invalid_params(module@)),
        },
{
    let mut out: Vec<InvalidParameter> = Vec::new();
    proof {
        assert(out.deep_view() =~= Seq::<InvalidParameterView>::empty());
    }
    let n = module.functions.len();
    let mut i: usize = 0;
    while i < n
        invariant
            i <= n,
            n == module.functions@.len(),
            module@.functions.len() == n,
            module_invalid_params(module@) == invalid_params(
                module@.functions,
                i as int,
                out.deep_view(),
            ),
        decreases n - i,
    {
        proof {
            assert(module@.functions[i as int] == module.functions@[i as int]@);
        }
        let f = &module.functions[i];
        if crate::bytes::starts_with_str(f.name.as_slice(), "__quantum__qis__") {
            collect_invalid_of(f, &mut out);
        }
        i += 1;
    }
    if out.len() == 0 {
        proof {
            assert(module_invalid_params(module@).len() == 0);
        }
        Ok(())
    } else {
        proof {
            assert(module_invalid_params(module@).len() > 0);
        }
        Err(TranspileError::QuantumFnParamBadType(out))
    }
}

} // verus!
