//! The grammar of QIR intrinsic names.
//!
//! A quantum-instruction intrinsic is named
//! `__quantum__qis__<op>[__ctl][__adj][__body]`, where `<op>` is a nonempty
//! run of bytes containing no underscore; a record-output intrinsic is named
//! `__quantum__rt__<kind>_record_output` with `<kind>` nonempty and `<kind>`
//! as long as possible.

use vstd::prelude::*;
use vstd::string::StringSliceAdditionalSpecFns;

use crate::bytes::{bytes_eq_str, bytes_subrange, ends_with, ends_with_str, starts_with,
    starts_with_str};

verus! {

/// The byte that may not occur inside the `<op>` part of a QIS name.
pub open spec fn underscore() -> u8 {
    '_' as u8
}

pub open spec fn qis_prefix() -> Seq<u8> {
    "__quantum__qis__".spec_bytes()
}

pub open spec fn rt_prefix() -> Seq<u8> {
    "__quantum__rt__".spec_bytes()
}

pub open spec fn record_output_suffix() -> Seq<u8> {
    "_record_output".spec_bytes()
}

/// Length of the longest prefix of `s` holding no underscore.
pub open spec fn op_run_len(s: Seq<u8>) -> int
    decreases s.len(),
{
    if s.len() == 0 || s[0] == underscore() {
        0
    } else {
        1 + op_run_len(s.skip(1))
    }
}

/// `op_run_len` is the unique cut meeting its characterization.
pub proof fn lemma_op_run_len_is(s: Seq<u8>, k: int)
    requires
        0 <= k <= s.len(),
        forall|i: int| 0 <= i < k ==> s[i] != underscore(),
        k < s.len() ==> s[k] == underscore(),
    ensures
        op_run_len(s) == k,
    decreases s.len(),
{
    if s.len() == 0 || s[0] == underscore() {
    } else {
        assert(k > 0);
        lemma_op_run_len_is(s.skip(1), k - 1);
    }
}

/// The modifier flags encoded by what follows `<op>` in a QIS name, or
/// `None` when the remainder is not a recognized combination. The order is
/// fixed: `__ctl` before `__adj` before `__body`.
pub open spec fn qis_suffix_flags(rest: Seq<u8>) -> Option<(bool, bool)> {
    if rest.len() == 0 {
        Some((false, false))
    } else if rest == "__ctl".spec_bytes() {
        Some((true, false))
    } else if rest == "__adj".spec_bytes() {
        Some((false, true))
    } else if rest == "__ctl__adj".spec_bytes() {
        Some((true, true))
    } else if rest == "__body".spec_bytes() {
        Some((false, false))
    } else if rest == "__ctl__body".spec_bytes() {
        Some((true, false))
    } else if rest == "__adj__body".spec_bytes() {
        Some((false, true))
    } else if rest == "__ctl__adj__body".spec_bytes() {
        Some((true, true))
    } else {
        None
    }
}

/// A decomposed QIS intrinsic name: the operation and its modifier flags.
pub struct QisName {
    pub op: Vec<u8>,
    pub controlled: bool,
    pub adjoint: bool,
}

/// Spec-level mirror of [`QisName`].
pub ghost struct QisNameView {
    pub op: Seq<u8>,
    pub controlled: bool,
    pub adjoint: bool,
}

impl View for QisName {
    type V = QisNameView;

    open spec fn view(&self) -> QisNameView {
        QisNameView { op: self.op@, controlled: self.controlled, adjoint: self.adjoint }
    }
}

impl DeepView for QisName {
    type V = QisNameView;

    open spec fn deep_view(&self) -> QisNameView {
        self.view()
    }
}

/// Decomposition of a name under the QIS grammar: after the fixed prefix,
/// `<op>` is the longest underscore-free run, and the remainder must be a
/// recognized modifier combination.
pub open spec fn parse_qis_name(name: Seq<u8>) -> Option<QisNameView> {
    if starts_with(name, qis_prefix()) {
        let tail = name.skip(qis_prefix().len() as int);
        let n = op_run_len(tail);
        if n > 0 {
            match qis_suffix_flags(tail.skip(n)) {
                Some((c, a)) => Some(QisNameView { op: tail.take(n), controlled: c, adjoint: a }),
                None => None,
            }
        } else {
            None
        }
    } else {
        None
    }
}

/// Decomposition of a name under the record-output grammar: the fixed
/// prefix, a nonempty `<kind>`, and the fixed suffix.
pub open spec fn parse_record_name(name: Seq<u8>) -> Option<Seq<u8>> {
    if starts_with(name, rt_prefix()) && ends_with(name, record_output_suffix()) && name.len()
        > rt_prefix().len() + record_output_suffix().len() {
        Some(
            name.subrange(
                rt_prefix().len() as int,
                name.len() - record_output_suffix().len(),
            ),
        )
    } else {
        None
    }
}

/// Parse a symbol name as a QIS intrinsic.
pub fn qis_name_of(name: &[u8]) -> (r: Option<QisName>)
    ensures
        r.deep_view() == parse_qis_name(name@),
{
    if !starts_with_str(name, "__quantum__qis__") {
        return None;
    }
    let prefix_len = "__quantum__qis__".as_bytes().len();
    let ghost tail = name@.skip(qis_prefix().len() as int);
    let mut i: usize = prefix_len;
    while i < name.len() && name[i] != ('_' as u8)
        invariant
            prefix_len <= i <= name@.len(),
            prefix_len == qis_prefix().len(),
            tail == name@.skip(qis_prefix().len() as int),
            forall|j: int| prefix_len <= j < i ==> name@[j] != underscore(),
        decreases name.len() - i,
    {
        i += 1;
    }
    proof {
        assert forall|j: int| 0 <= j < i - prefix_len implies tail[j] != underscore() by {
            assert(tail[j] == name@[qis_prefix().len() + j]);
        }
        if i < name@.len() {
            assert(tail[i - prefix_len] == name@[i as int]);
        }
        lemma_op_run_len_is(tail, i - prefix_len);
    }
    if i == prefix_len {
        return None;
    }
    let op = bytes_subrange(name, prefix_len, i);
    proof {
        assert(op@ =~= tail.take(i - prefix_len));
    }
    let rest = bytes_subrange(name, i, name.len());
    proof {
        assert(rest@ =~= tail.skip(i - prefix_len));
    }
    let flags: Option<(bool, bool)> = if rest.len() == 0 {
        Some((false, false))
    } else if bytes_eq_str(rest.as_slice(), "__ctl") {
        Some((true, false))
    } else if bytes_eq_str(rest.as_slice(), "__adj") {
        Some((false, true))
    } else if bytes_eq_str(rest.as_slice(), "__ctl__adj") {
        Some((true, true))
    } else if bytes_eq_str(rest.as_slice(), "__body") {
        Some((false, false))
    } else if bytes_eq_str(rest.as_slice(), "__ctl__body") {
        Some((true, false))
    } else if bytes_eq_str(rest.as_slice(), "__adj__body") {
        Some((false, true))
    } else if bytes_eq_str(rest.as_slice(), "__ctl__adj__body") {
        Some((true, true))
    } else {
        None
    };
    match flags {
        Some((controlled, adjoint)) => Some(QisName { op, controlled, adjoint }),
        None => None,
    }
}

/// Parse a symbol name as a record-output intrinsic, returning `<kind>`.
pub fn record_name_of(name: &[u8]) -> (r: Option<Vec<u8>>)
    ensures
        r.deep_view() == parse_record_name(name@),
{
    if !starts_with_str(name, "__quantum__rt__") {
        return None;
    }
    if !ends_with_str(name, "_record_output") {
        return None;
    }
    let prefix_len = "__quantum__rt__".as_bytes().len();
    let suffix_len = "_record_output".as_bytes().len();
    if name.len() - suffix_len <= prefix_len {
        return None;
    }
    Some(bytes_subrange(name, prefix_len, name.len() - suffix_len))
}

} // verus!
