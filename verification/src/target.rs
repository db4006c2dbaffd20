//! The execution target chosen for a patched module: a named QPU or the QVM.

use vstd::prelude::*;
use vstd::string::{StringExecFns, StrSliceExecFns};

verus! {

/// Where the emitted runtime calls will execute the Quil program: either a
/// QPU identified by an opaque device-identifier string, or the QVM.
pub enum ExecutionTarget {
    Qpu(String),
    Qvm,
}

/// Spec-level mirror of [`ExecutionTarget`].
pub ghost enum ExecutionTargetView {
    Qpu(Seq<char>),
    Qvm,
}

impl View for ExecutionTarget {
    type V = ExecutionTargetView;

    open spec fn view(&self) -> ExecutionTargetView {
        match self {
            ExecutionTarget::Qpu(id) => ExecutionTargetView::Qpu(id@),
            ExecutionTarget::Qvm => ExecutionTargetView::Qvm,
        }
    }
}

impl ExecutionTarget {
    /// True when this target is the QVM.
    pub fn is_qvm(&self) -> (r: bool)
        ensures
            r == (self is Qvm),
    {
        match self {
            ExecutionTarget::Qvm => true,
            ExecutionTarget::Qpu(_) => false,
        }
    }
}

/// The name selects the QVM exactly when it spells `qvm` in any casing.
pub open spec fn is_qvm_name(s: Seq<char>) -> bool {
    s.len() == 3 && (s[0] == 'q' || s[0] == 'Q') && (s[1] == 'v' || s[1] == 'V') && (s[2] == 'm'
        || s[2] == 'M')
}

impl ExecutionTarget {
    /// Parse a target name: `qvm` in any casing selects the QVM; any other
    /// name is taken as a QPU identifier.
    pub fn from_str(s: &str) -> (r: ExecutionTarget)
        ensures
            is_qvm_name(s@) ==> r is Qvm,
            !is_qvm_name(s@) ==> (r matches ExecutionTarget::Qpu(id) && id@ == s@),
    {
        let qvm = if s.unicode_len() == 3 {
            let c0 = s.get_char(0);
            let c1 = s.get_char(1);
            let c2 = s.get_char(2);
            (c0 == 'q' || c0 == 'Q') && (c1 == 'v' || c1 == 'V') && (c2 == 'm' || c2 == 'M')
        } else {
            false
        };
        if qvm {
            ExecutionTarget::Qvm
        } else {
            ExecutionTarget::Qpu(String::from_str(s))
        }
    }
}

impl Default for ExecutionTarget {
    /// The default execution target is the QVM.
    fn default() -> (r: Self)
        ensures
            r is Qvm,
    {
        ExecutionTarget::Qvm
    }
}

} // verus!
