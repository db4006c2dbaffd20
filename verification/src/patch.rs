//! The in-place rewrite of a matched module, computed as a plan.
//!
//! The surrounding program owns the LLVM module; the engine decides, per
//! matched block, which runtime-ABI calls to insert, how branches and phi
//! edges are retargeted, which `read_result` values are replaced by
//! readout-bit fetches, and in which order the consumed calls can be
//! deleted without ever leaving a dangling use.

use vstd::prelude::*;

use crate::error::{TranspileError, TranspileErrorView};
use crate::pattern::{first_index_of, lemma_first_index_of};

verus! {

/// One instruction scheduled for deletion, with the ids of the
/// instructions that currently use its value (after all substitutions).
pub struct RemovalCandidate {
    pub id: u64,
    pub used_by: Vec<u64>,
}

/// Spec-level mirror of [`RemovalCandidate`].
pub ghost struct RemovalCandidateView {
    pub id: u64,
    pub used_by: Seq<u64>,
}

impl View for RemovalCandidate {
    type V = RemovalCandidateView;

    open spec fn view(&self) -> RemovalCandidateView {
        RemovalCandidateView { id: self.id, used_by: self.used_by@ }
    }
}

impl DeepView for RemovalCandidate {
    type V = RemovalCandidateView;

    open spec fn deep_view(&self) -> RemovalCandidateView {
        self.view()
    }
}

/// The ids of a candidate list, in order.
pub open spec fn ids_of(cs: Seq<RemovalCandidateView>) -> Seq<u64> {
    Seq::new(cs.len(), |k: int| cs[k].id)
}

/// A deletion order is safe when it lists every candidate exactly once and
/// deletes each user before what it uses.
pub open spec fn safe_removal_order(cs: Seq<RemovalCandidateView>, order: Seq<u64>) -> bool {
    &&& order.no_duplicates()
    &&& order.len() == cs.len()
    &&& forall|x: u64| order.contains(x) ==> ids_of(cs).contains(x)
    &&& forall|k: int, u: int|
        0 <= k < cs.len() && 0 <= u < cs[k].used_by.len() ==> #[trigger] order.contains(
            cs[k].used_by[u],
        ) && first_index_of(order, cs[k].used_by[u]) < first_index_of(order, cs[k].id)
}

/// A nonempty set of candidates, none of which can ever be deleted: each is
/// still used by a member of the set, or by an instruction that is not
/// scheduled for deletion at all.
pub open spec fn stuck_set(cs: Seq<RemovalCandidateView>, s: Seq<u64>) -> bool {
    &&& s.len() > 0
    &&& forall|a: int| 0 <= a < s.len() ==> ids_of(cs).contains(#[trigger] s[a])
    &&& forall|a: int|
        0 <= a < s.len() ==> exists|k: int|
            0 <= k < cs.len() && cs[k].id == #[trigger] s[a] && exists|u: int|
                0 <= u < cs[k].used_by.len() && (s.contains(#[trigger] cs[k].used_by[u])
                    || !ids_of(cs).contains(cs[k].used_by[u]))
}

/// Appending to a sequence leaves the first occurrence of a present value
/// in place, and puts a fresh value at the end.
pub proof fn lemma_first_index_push(s: Seq<u64>, v: u64, x: u64)
    ensures
        s.contains(v) ==> first_index_of(s.push(x), v) == first_index_of(s, v),
        !s.contains(v) && v == x ==> first_index_of(s.push(x), v) == s.len(),
    decreases s.len(),
{
    lemma_first_index_of(s, v);
    lemma_first_index_of(s.push(x), v);
    if s.len() == 0 {
        assert(s.push(x)[0] == x);
    } else {
        assert(s.push(x)[0] == s[0]);
        if s[0] == v {
        } else {
            assert(s.push(x).skip(1) =~= s.skip(1).push(x));
            if s.contains(v) {
                let w = choose|j: int| 0 <= j < s.len() && s[j] == v;
                assert(w > 0);
                assert(s.skip(1)[w - 1] == v);
                assert(s.skip(1).contains(v));
            } else {
                if s.skip(1).contains(v) {
                    let w = choose|j: int| 0 <= j < s.skip(1).len() && s.skip(1)[j] == v;
                    assert(s[w + 1] == v);
                }
            }
            lemma_first_index_push(s.skip(1), v, x);
        }
    }
}

/// Compute an order in which the scheduled instructions can be deleted so
/// that each is deleted only when nothing uses it any more: repeatedly
/// delete any candidate all of whose users are already deleted. When no
/// such order exists — some candidates use each other in a cycle, or an
/// instruction outside the schedule still uses one — the rewrite is
/// refused.
#[verifier::loop_isolation(false)]
#[verifier::rlimit(100)]
pub fn removal_order(candidates: &Vec<RemovalCandidate>) -> (r: Result<Vec<u64>, TranspileError>)
    requires
        ids_of(candidates.deep_view()).no_duplicates(),
    ensures
        match r {
            Ok(order) => safe_removal_order(candidates.deep_view(), order@),
            Err(e) => e@ == TranspileErrorView::UseCycle && exists|s: Seq<u64>|
                stuck_set(candidates.deep_view(), s),
        },
{
    let ghost cs = candidates.deep_view();
    let n = candidates.len();
    proof {
        assert(cs.len() == n);
        assert forall|k: int| 0 <= k < n implies candidates.deep_view()[k]
            == candidates@[k]@ by {}
    }
    let mut order: Vec<u64> = Vec::new();
    let mut done: Vec<bool> = Vec::new();
    let mut j: usize = 0;
    while j < n
        invariant
            j <= n,
            done@.len() == j,
            forall|k: int| 0 <= k < j ==> !done@[k],
        decreases n - j,
    {
        done.push(false);
        j += 1;
    }
    while order.len() < n
        invariant
            cs == candidates.deep_view(),
            n == cs.len(),
            n == candidates@.len(),
            forall|k: int| 0 <= k < n ==> candidates.deep_view()[k] == candidates@[k]@,
            done@.len() == n,
            order@.len() <= n,
            order@.no_duplicates(),
            forall|x: u64| order@.contains(x) ==> ids_of(cs).contains(x),
            forall|k: int| 0 <= k < n ==> (done@[k] <==> order@.contains(cs[k].id)),
            forall|k: int, u: int|
                0 <= k < n && done@[k] && 0 <= u < cs[k].used_by.len() ==> #[trigger] order@.contains(
                    cs[k].used_by[u],
                ) && first_index_of(order@, cs[k].used_by[u]) < first_index_of(order@, cs[k].id),
            ids_of(cs).no_duplicates(),
        decreases n - order.len(),
    {
        let ghost olen = order@.len();
        let mut progressed = false;
        let mut k: usize = 0;
        while k < n
            invariant
                k <= n,
                order@.len() >= olen,
                !progressed ==> order@.len() == olen,
                progressed ==> order@.len() > olen,
                cs == candidates.deep_view(),
                n == cs.len(),
                n == candidates@.len(),
                forall|kk: int| 0 <= kk < n ==> candidates.deep_view()[kk] == candidates@[kk]@,
                done@.len() == n,
                order@.len() <= n,
                order@.no_duplicates(),
                forall|x: u64| order@.contains(x) ==> ids_of(cs).contains(x),
                forall|kk: int| 0 <= kk < n ==> (done@[kk] <==> order@.contains(cs[kk].id)),
                forall|kk: int, u: int|
                    0 <= kk < n && done@[kk] && 0 <= u < cs[kk].used_by.len()
                        ==> #[trigger] order@.contains(cs[kk].used_by[u]) && first_index_of(
                        order@,
                        cs[kk].used_by[u],
                    ) < first_index_of(order@, cs[kk].id),
                ids_of(cs).no_duplicates(),
                !progressed ==> forall|kk: int|
                    0 <= kk < k && !done@[kk] ==> exists|u: int|
                        0 <= u < cs[kk].used_by.len() && !order@.contains(
                            #[trigger] cs[kk].used_by[u],
                        ),
            decreases n - k,
        {
            if done[k] {
                k += 1;
                continue;
            }
            let cand = &candidates[k];
            proof {
                assert(cand@ == cs[k as int]);
            }
            let mut all_removed = true;
                let mut u: usize = 0;
                let m = cand.used_by.len();
                while u < m
                    invariant
                        u <= m,
                        m == cand.used_by@.len(),
                        cand@ == cs[k as int],
                        k < n,
                        n == cs.len(),
                        all_removed ==> forall|uu: int|
                            0 <= uu < u ==> order@.contains(#[trigger] cand.used_by@[uu]),
                        !all_removed ==> exists|uu: int|
                            0 <= uu < m && !order@.contains(#[trigger] cand.used_by@[uu]),
                    decreases m - u,
                {
                    match crate::pattern::index_of_u64(&order, cand.used_by[u]) {
                        Some(_) => {},
                        None => {
                            all_removed = false;
                        },
                    }
                    u += 1;
                }
                if !all_removed {
                    k += 1;
                    continue;
                }
                {
                    let ghost order0 = order@;
                    proof {
                        assert(!order@.contains(cs[k as int].id));
                        lemma_first_index_of(order@, cs[k as int].id);
                    }
                    order.push(cand.id);
                    done[k] = true;
                    progressed = true;
                    proof {
                        assert(order@ == order0.push(cs[k as int].id));
                        assert(order@[order0.len() as int] == cs[k as int].id);
                        assert(forall|p: int| 0 <= p < order0.len() ==> order@[p] == order0[p]);
                        lemma_first_index_push(order0, cs[k as int].id, cs[k as int].id);
                        assert(order@.no_duplicates()) by {
                            assert(forall|p: int|
                                0 <= p < order0.len() ==> order0[p] != cs[k as int].id);
                        }
                        assert(ids_of(cs)[k as int] == cs[k as int].id);
                        assert(ids_of(cs).contains(cs[k as int].id));
                        assert forall|x: u64| order@.contains(x) implies ids_of(cs).contains(
                            x,
                        ) by {
                            let w = choose|p: int| 0 <= p < order@.len() && order@[p] == x;
                            if w < order0.len() {
                                assert(order0[w] == x);
                                assert(order0.contains(x));
                            }
                        }
                        assert forall|a: int| 0 <= a < order@.len() implies ids_of(cs).contains(
                            #[trigger] order@[a],
                        ) by {
                            assert(order@.contains(order@[a]));
                        }
                        lemma_contained_no_dup_len(order@, ids_of(cs));
                        assert forall|kk: int, u2: int|
                            0 <= kk < n && done@[kk] && 0 <= u2 < cs[kk].used_by.len()
                            implies #[trigger] order@.contains(cs[kk].used_by[u2])
                            && first_index_of(order@, cs[kk].used_by[u2]) < first_index_of(
                            order@,
                            cs[kk].id,
                        ) by {
                            if kk == k {
                                assert(cand.used_by@[u2] == cs[kk].used_by[u2]);
                                assert(order0.contains(cs[kk].used_by[u2]));
                                lemma_first_index_push(order0, cs[kk].used_by[u2], cs[k as int].id);
                                lemma_first_index_of(order0, cs[kk].used_by[u2]);
                                assert(first_index_of(order@, cs[kk].id) == order0.len());
                                let w = choose|p: int|
                                    0 <= p < order0.len() && order0[p] == cs[kk].used_by[u2];
                                assert(order@[w] == cs[kk].used_by[u2]);
                                assert(order@.contains(cs[kk].used_by[u2]));
                            } else {
                                assert(order0.contains(cs[kk].used_by[u2]));
                                assert(order0.contains(cs[kk].id));
                                lemma_first_index_push(order0, cs[kk].used_by[u2], cs[k as int].id);
                                lemma_first_index_push(order0, cs[kk].id, cs[k as int].id);
                                let w = choose|p: int|
                                    0 <= p < order0.len() && order0[p] == cs[kk].used_by[u2];
                                assert(order@[w] == cs[kk].used_by[u2]);
                                assert(order@.contains(cs[kk].used_by[u2]));
                            }
                        }
                        assert forall|kk: int| 0 <= kk < n implies (done@[kk] <==> order@.contains(
                            cs[kk].id,
                        )) by {
                            if kk == k {
                                assert(order@.contains(cs[k as int].id)) by {
                                    assert(order@[order0.len() as int] == cs[k as int].id);
                                }
                            } else {
                                if order0.contains(cs[kk].id) {
                                    let w = choose|p: int|
                                        0 <= p < order0.len() && order0[p] == cs[kk].id;
                                    assert(order@[w] == cs[kk].id);
                                    assert(order@.contains(cs[kk].id));
                                } else {
                                    if order@.contains(cs[kk].id) {
                                        let w = choose|p: int|
                                            0 <= p < order@.len() && order@[p] == cs[kk].id;
                                        if w < order0.len() {
                                            assert(order0[w] == cs[kk].id);
                                            assert(order0.contains(cs[kk].id));
                                        } else {
                                            assert(cs[kk].id == cs[k as int].id);
                                            assert(ids_of(cs)[kk] == cs[kk].id);
                                            assert(ids_of(cs)[k as int] == cs[k as int].id);
                                            assert(false);
                                        }
                                    }
                                }
                            }
                        }
                    }
                }
            k += 1;
        }
        if !progressed {
            let mut stuck: Vec<u64> = Vec::new();
            let ghost mut owners: Seq<int> = Seq::<int>::empty();
            let mut k: usize = 0;
            while k < n
                invariant
                    k <= n,
                    cs == candidates.deep_view(),
                    n == cs.len(),
                    n == candidates@.len(),
                    forall|kk: int| 0 <= kk < n ==> candidates.deep_view()[kk] == candidates@[kk]@,
                    done@.len() == n,
                    forall|kk: int| 0 <= kk < n ==> (done@[kk] <==> order@.contains(cs[kk].id)),
                    forall|a: int| 0 <= a < stuck@.len() ==> ids_of(cs).contains(
                        #[trigger] stuck@[a],
                    ),
                    owners.len() == stuck@.len(),
                    forall|a: int|
                        0 <= a < stuck@.len() ==> 0 <= #[trigger] owners[a] < n && cs[owners[a]].id
                            == stuck@[a] && !done@[owners[a]],
                    forall|kk: int|
                        0 <= kk < k && !done@[kk] ==> stuck@.contains(#[trigger] cs[kk].id),
                    forall|kk: int|
                        0 <= kk < n && !done@[kk] ==> exists|u: int|
                            0 <= u < cs[kk].used_by.len() && !order@.contains(
                                #[trigger] cs[kk].used_by[u],
                            ),
                decreases n - k,
            {
                if done[k] {
                    k += 1;
                    continue;
                }
                {
                    let ghost prev = stuck@;
                    stuck.push(candidates[k].id);
                    proof {
                        owners = owners.push(k as int);
                        assert(stuck@ == prev.push(cs[k as int].id));
                        assert(forall|p: int| 0 <= p < prev.len() ==> stuck@[p] == prev[p]);
                        assert(ids_of(cs)[k as int] == cs[k as int].id);
                        assert(stuck@.contains(cs[k as int].id)) by {
                            assert(stuck@[stuck@.len() - 1] == cs[k as int].id);
                        }
                        assert forall|kk: int| 0 <= kk < k + 1 && !done@[kk]
                            implies stuck@.contains(#[trigger] cs[kk].id) by {
                            if kk < k {
                                let w = choose|p: int|
                                    0 <= p < prev.len() && prev[p] == cs[kk].id;
                                assert(stuck@[w] == cs[kk].id);
                            }
                        }
                    }
                }
                k += 1;
            }
            proof {
                assert(order@.len() < n);
                assert(exists|kk: int| 0 <= kk < n && !done@[kk]) by {
                    if forall|kk: int| 0 <= kk < n ==> #[trigger] done@[kk] {
                        assert forall|kk: int| 0 <= kk < n implies ids_of(cs).contains(
                            #[trigger] ids_of(cs)[kk],
                        ) && order@.contains(ids_of(cs)[kk]) by {
                            assert(ids_of(cs)[kk] == cs[kk].id);
                            assert(done@[kk]);
                        }
                        crate::patch::lemma_contained_no_dup_len(ids_of(cs), order@);
                    }
                }
                let kw = choose|kk: int| 0 <= kk < n && !done@[kk];
                assert(stuck@.contains(cs[kw].id));
                assert(stuck@.len() > 0);
                assert forall|a: int| 0 <= a < stuck@.len() implies exists|kk: int|
                    0 <= kk < cs.len() && cs[kk].id == #[trigger] stuck@[a] && exists|u: int|
                        0 <= u < cs[kk].used_by.len() && (stuck@.contains(
                            #[trigger] cs[kk].used_by[u],
                        ) || !ids_of(cs).contains(cs[kk].used_by[u])) by {
                    let kk = owners[a];
                    let u = choose|u: int|
                        0 <= u < cs[kk].used_by.len() && !order@.contains(
                            #[trigger] cs[kk].used_by[u],
                        );
                    let uid = cs[kk].used_by[u];
                    if ids_of(cs).contains(uid) {
                        let ku = choose|p: int| 0 <= p < n && ids_of(cs)[p] == uid;
                        assert(cs[ku].id == uid);
                        assert(!done@[ku]);
                        assert(stuck@.contains(uid));
                    }
                    assert(cs[kk].id == stuck@[a] && 0 <= u < cs[kk].used_by.len() && (
                    stuck@.contains(cs[kk].used_by[u]) || !ids_of(cs).contains(
                        cs[kk].used_by[u],
                    )));
                }
                assert(stuck_set(cs, stuck@));
            }
            return Err(TranspileError::UseCycle);
        }
    }
    proof {
        order@.unique_seq_to_set();
        ids_of(cs).unique_seq_to_set();
        assert(order@.to_set().subset_of(ids_of(cs).to_set())) by {
            assert forall|x: u64| order@.to_set().contains(x) implies ids_of(cs).to_set().contains(
                x,
            ) by {
                assert(order@.contains(x));
            }
        }
        vstd::seq_lib::seq_to_set_is_finite(order@);
        vstd::seq_lib::seq_to_set_is_finite(ids_of(cs));
        vstd::set_lib::lemma_subset_equality(order@.to_set(), ids_of(cs).to_set());
        assert forall|k: int| 0 <= k < n implies done@[k] by {
            assert(ids_of(cs)[k] == cs[k].id);
            assert(ids_of(cs).to_set().contains(cs[k].id));
            assert(order@.to_set().contains(cs[k].id));
            assert(order@.contains(cs[k].id));
        }
        assert(safe_removal_order(cs, order@));
    }
    Ok(order)
}

/// A sequence without duplicates whose members all occur in another
/// sequence is no longer than it.
pub proof fn lemma_contained_no_dup_len<A>(sub: Seq<A>, sup: Seq<A>)
    requires
        sub.no_duplicates(),
        forall|a: int| 0 <= a < sub.len() ==> sup.contains(#[trigger] sub[a]),
    ensures
        sub.len() <= sup.len(),
{
    sub.unique_seq_to_set();
    assert(sub.to_set().subset_of(sup.to_set())) by {
        assert forall|x: A| sub.to_set().contains(x) implies sup.to_set().contains(x) by {
            assert(sub.contains(x));
            let a = choose|a: int| 0 <= a < sub.len() && sub[a] == x;
            assert(sup.contains(x));
        }
    }
    vstd::seq_lib::seq_to_set_is_finite(sup);
    vstd::set_lib::lemma_len_subset(sub.to_set(), sup.to_set());
    sup.lemma_cardinality_of_set();
}

/// One call into the runtime ABI, emitted into the execution block.
pub enum AbiCall {
    /// `read_from_executable_cache(executable_cache, index)`.
    GetCachedExecutable { cache_index: u64 },
    /// `executable_from_quil(<global holding this text>)`.
    ExecutableFromQuil { program_text: String },
    /// `wrap_in_shots(executable, shots)`.
    WrapInShots { shots: u64 },
    /// `set_param(executable, "__qir_param", slot, <double with this key>)`.
    SetParam { slot: u64, value_key: u64 },
    /// `execute_on_qpu(executable, <global holding this id>)`.
    ExecuteOnQpu { processor_id: String },
    /// `execute_on_qvm(executable)`.
    ExecuteOnQvm,
    /// `panic_on_failure(execution_result)`.
    PanicOnFailure,
}

/// Spec-level mirror of [`AbiCall`].
pub ghost enum AbiCallView {
    GetCachedExecutable { cache_index: u64 },
    ExecutableFromQuil { program_text: Seq<char> },
    WrapInShots { shots: u64 },
    SetParam { slot: u64, value_key: u64 },
    ExecuteOnQpu { processor_id: Seq<char> },
    ExecuteOnQvm,
    PanicOnFailure,
}

impl View for AbiCall {
    type V = AbiCallView;

    open spec fn view(&self) -> AbiCallView {
        match self {
            AbiCall::GetCachedExecutable { cache_index } => AbiCallView::GetCachedExecutable {
                cache_index: *cache_index,
            },
            AbiCall::ExecutableFromQuil { program_text } => AbiCallView::ExecutableFromQuil {
                program_text: program_text@,
            },
            AbiCall::WrapInShots { shots } => AbiCallView::WrapInShots { shots: *shots },
            AbiCall::SetParam { slot, value_key } => AbiCallView::SetParam {
                slot: *slot,
                value_key: *value_key,
            },
            AbiCall::ExecuteOnQpu { processor_id } => AbiCallView::ExecuteOnQpu {
                processor_id: processor_id@,
            },
            AbiCall::ExecuteOnQvm => AbiCallView::ExecuteOnQvm,
            AbiCall::PanicOnFailure => AbiCallView::PanicOnFailure,
        }
    }
}

impl DeepView for AbiCall {
    type V = AbiCallView;

    open spec fn deep_view(&self) -> AbiCallView {
        self.view()
    }
}

/// The rewrite of one matched counted-loop block `B`. Two blocks are added
/// right after `B`: `B_execution`, holding `execution_calls` in order and an
/// unconditional branch back to `B`, and `B_cleanup`, holding a call to
/// `free_execution_result` and an unconditional branch to
/// `cleanup_branch_target`. All prior uses of `B` are retargeted to
/// `B_execution` (phi edges not coming from `B` included); `B`'s own
/// terminator keeps its then-edge to `B` but its else-edge moves to
/// `B_cleanup`. Each recorded `read_result` call is replaced by
/// `get_readout_bit(result, <shot_index_value>, <ro offset>)`, and the
/// consumed calls are deleted in an order [`removal_order`] approves.
pub struct BlockPatch {
    /// The matched block's name.
    pub block_name: Vec<u8>,
    /// The runtime calls of the execution block, in order.
    pub execution_calls: Vec<AbiCall>,
    /// The id of the loop phi: the shot index handed to readout fetches.
    pub shot_index_value: u64,
    /// `(ro offset, read_result call id)` substitutions.
    pub readout_substitutions: Vec<(u64, u64)>,
    /// Where the cleanup block branches: the block's original else-target.
    pub cleanup_branch_target: Vec<u8>,
    /// The consumed calls, to be deleted in a safe order.
    pub instructions_to_remove: Vec<u64>,
}

/// Spec-level mirror of [`BlockPatch`].
#[verifier::ext_equal]
pub ghost struct BlockPatchView {
    pub block_name: Seq<u8>,
    pub execution_calls: Seq<AbiCallView>,
    pub shot_index_value: u64,
    pub readout_substitutions: Seq<(u64, u64)>,
    pub cleanup_branch_target: Seq<u8>,
    pub instructions_to_remove: Seq<u64>,
}

impl View for BlockPatch {
    type V = BlockPatchView;

    open spec fn view(&self) -> BlockPatchView {
        BlockPatchView {
            block_name: self.block_name@,
            execution_calls: self.execution_calls.deep_view(),
            shot_index_value: self.shot_index_value,
            readout_substitutions: self.readout_substitutions@,
            cleanup_branch_target: self.cleanup_branch_target@,
            instructions_to_remove: self.instructions_to_remove@,
        }
    }
}

impl DeepView for BlockPatch {
    type V = BlockPatchView;

    open spec fn deep_view(&self) -> BlockPatchView {
        self.view()
    }
}

/// One `set_param` call per parameter slot, appended to `acc`.
pub open spec fn set_param_calls(params: Seq<u64>, i: int, acc: Seq<AbiCallView>) -> Seq<
    AbiCallView,
>
    decreases params.len() - i,
{
    if i >= params.len() {
        acc
    } else {
        set_param_calls(
            params,
            i + 1,
            acc.push(AbiCallView::SetParam { slot: i as u64, value_key: params[i] }),
        )
    }
}

/// The calls of the execution block: obtain the executable (from the cache,
/// or freshly from the program text), wrap it in the shot count, set each
/// parameter slot, execute on the chosen target, and fail loudly on error.
pub open spec fn execution_calls_spec(
    st: crate::pattern::PatternMatchStateView,
    shots: u64,
    cache_index: Option<u64>,
    program_text: Seq<char>,
    target: crate::target::ExecutionTargetView,
) -> Seq<AbiCallView> {
    let head = (match cache_index {
        Some(ci) => seq![AbiCallView::GetCachedExecutable { cache_index: ci }],
        None => seq![AbiCallView::ExecutableFromQuil { program_text }],
    }).push(AbiCallView::WrapInShots { shots });
    set_param_calls(st.parameters, 0, head).push(
        match target {
            crate::target::ExecutionTargetView::Qpu(id) => AbiCallView::ExecuteOnQpu {
                processor_id: id,
            },
            crate::target::ExecutionTargetView::Qvm => AbiCallView::ExecuteOnQvm,
        },
    ).push(AbiCallView::PanicOnFailure)
}

/// The patch of one block, given its matched context.
pub open spec fn block_patch_spec(
    block_name: Seq<u8>,
    ctx: crate::shot_count::ShotCountContextView,
    cache_index: Option<u64>,
    rewiring: Option<Seq<char>>,
    target: crate::target::ExecutionTargetView,
) -> BlockPatchView {
    BlockPatchView {
        block_name,
        execution_calls: execution_calls_spec(
            ctx.state,
            match ctx.shot_count {
                Some(s) => s,
                None => 0,
            },
            cache_index,
            crate::quil::program_text(crate::shot_count::emitted_program(ctx.state, rewiring)),
            target,
        ),
        shot_index_value: match ctx.initial_instruction {
            Some(p) => p,
            None => 0,
        },
        readout_substitutions: ctx.state.readout_instruction_mapping,
        cleanup_branch_target: match ctx.next_basic_block {
            Some(t) => t,
            None => Seq::<u8>::empty(),
        },
        instructions_to_remove: ctx.state.instructions_to_remove,
    }
}

/// Build the patch of one block from its scanned context, or nothing when
/// the pattern was not matched (the block is then left alone). The second
/// result is the finished program's text, for the executable cache.
pub fn build_block_patch(
    ctx: crate::shot_count::ShotCountPatternMatchContext,
    block_name: Vec<u8>,
    cache_index: Option<u64>,
    rewiring: &Option<String>,
    target: &crate::ExecutionTarget,
) -> (r: Option<(BlockPatch, String)>)
    ensures
        match r {
            Some((p, text)) => crate::shot_count::context_matched(ctx@)
                && ctx@.initial_instruction is Some && ctx@.next_basic_block is Some && p@
                == block_patch_spec(
                block_name@,
                ctx@,
                cache_index,
                rewiring.deep_view(),
                target@,
            ) && text@ == crate::quil::program_text(
                crate::shot_count::emitted_program(ctx@.state, rewiring.deep_view()),
            ),
            None => !(crate::shot_count::context_matched(ctx@) && ctx@.initial_instruction is Some
                && ctx@.next_basic_block is Some),
        },
{
    let crate::shot_count::ShotCountPatternMatchContext {
        state,
        initial_instruction,
        shot_count,
        next_basic_block,
    } = ctx;
    let shots = match shot_count {
        Some(s) => s,
        None => {
            return None;
        },
    };
    let shot_index_value = match initial_instruction {
        Some(p) => p,
        None => {
            return None;
        },
    };
    let cleanup_branch_target = match next_basic_block {
        Some(t) => t,
        None => {
            return None;
        },
    };
    if state.quil_body.len() == 0 {
        return None;
    }
    let ghost stv = state@;
    let readout_substitutions = crate::bytes::clone_u64_pairs(&state.readout_instruction_mapping);
    let instructions_to_remove = crate::bytes::clone_u64s(&state.instructions_to_remove);
    let ghost params = state@.parameters;
    let parameters = crate::bytes::clone_u64s(&state.parameters);
    let (instructions, _recorded) = crate::shot_count::emit_state(state, rewiring);
    let program = crate::quil::QuilProgram { instructions };
    let text = program.to_quil_text();
    let mut calls: Vec<AbiCall> = Vec::new();
    match cache_index {
        Some(ci) => {
            calls.push(AbiCall::GetCachedExecutable { cache_index: ci });
        },
        None => {
            calls.push(AbiCall::ExecutableFromQuil { program_text: text.clone() });
        },
    }
    calls.push(AbiCall::WrapInShots { shots });
    let ghost head = calls.deep_view();
    proof {
        match cache_index {
            Some(ci) => {
                assert(head =~= seq![
                    AbiCallView::GetCachedExecutable { cache_index: ci },
                ].push(AbiCallView::WrapInShots { shots }));
            },
            None => {
                assert(head =~= seq![
                    AbiCallView::ExecutableFromQuil { program_text: text@ },
                ].push(AbiCallView::WrapInShots { shots }));
            },
        }
    }
    let mut i: usize = 0;
    let m = parameters.len();
    while i < m
        invariant
            i <= m,
            m == parameters@.len(),
            parameters@ == params,
            set_param_calls(params, 0, head) == set_param_calls(params, i as int, calls.deep_view()),
        decreases m - i,
    {
        let ghost prev = calls.deep_view();
        calls.push(AbiCall::SetParam { slot: i as u64, value_key: parameters[i] });
        proof {
            assert(calls.deep_view() =~= prev.push(
                AbiCallView::SetParam { slot: i as u64, value_key: params[i as int] },
            ));
        }
        i += 1;
    }
    match target {
        crate::ExecutionTarget::Qpu(id) => {
            calls.push(AbiCall::ExecuteOnQpu { processor_id: id.clone() });
        },
        crate::ExecutionTarget::Qvm => {
            calls.push(AbiCall::ExecuteOnQvm);
        },
    }
    calls.push(AbiCall::PanicOnFailure);
    let p = BlockPatch {
        block_name,
        execution_calls: calls,
        shot_index_value,
        readout_substitutions,
        cleanup_branch_target,
        instructions_to_remove,
    };
    proof {
        assert(p.execution_calls.deep_view() =~= execution_calls_spec(
            stv,
            shots,
            cache_index,
            text@,
            target@,
        ));
        assert(p@ =~= block_patch_spec(
            p.block_name@,
            ctx@,
            cache_index,
            rewiring.deep_view(),
            target@,
        ));
    }
    Some((p, text))
}

/// The retargeted edge for one incoming block.
pub open spec fn retargeted_edge(
    edge: Seq<u8>,
    old_block: Seq<u8>,
    new_block: Seq<u8>,
    reverse_match: bool,
) -> Seq<u8> {
    if reverse_match != (edge == old_block) {
        new_block
    } else {
        edge
    }
}

/// The retargeted edges from index `i` on, appended to `acc`.
pub open spec fn retargeted_edges(
    incoming: Seq<Seq<u8>>,
    old_block: Seq<u8>,
    new_block: Seq<u8>,
    reverse_match: bool,
    i: int,
    acc: Seq<Seq<u8>>,
) -> Seq<Seq<u8>>
    decreases incoming.len() - i,
{
    if i >= incoming.len() {
        acc
    } else {
        retargeted_edges(
            incoming,
            old_block,
            new_block,
            reverse_match,
            i + 1,
            acc.push(retargeted_edge(incoming[i], old_block, new_block, reverse_match)),
        )
    }
}

/// Each element of the accumulated result is the retargeting of its edge.
pub proof fn lemma_retargeted_edges(
    incoming: Seq<Seq<u8>>,
    old_block: Seq<u8>,
    new_block: Seq<u8>,
    reverse_match: bool,
    i: int,
    acc: Seq<Seq<u8>>,
)
    requires
        0 <= i <= incoming.len(),
    ensures
        ({
            let r = retargeted_edges(incoming, old_block, new_block, reverse_match, i, acc);
            &&& r.len() == acc.len() + incoming.len() - i
            &&& forall|j: int| 0 <= j < acc.len() ==> #[trigger] r[j] == acc[j]
            &&& forall|j: int|
                i <= j < incoming.len() ==> #[trigger] r[acc.len() + j - i] == retargeted_edge(
                    incoming[j],
                    old_block,
                    new_block,
                    reverse_match,
                )
        }),
    decreases incoming.len() - i,
{
    if i < incoming.len() {
        let e = retargeted_edge(incoming[i], old_block, new_block, reverse_match);
        let acc2 = acc.push(e);
        lemma_retargeted_edges(incoming, old_block, new_block, reverse_match, i + 1, acc2);
        let r = retargeted_edges(incoming, old_block, new_block, reverse_match, i, acc);
        assert(r == retargeted_edges(incoming, old_block, new_block, reverse_match, i + 1, acc2));
        assert(forall|j: int| 0 <= j < acc.len() ==> #[trigger] acc2[j] == acc[j]);
        assert(acc2[acc.len() as int] == e);
        assert forall|j: int| i <= j < incoming.len() implies #[trigger] r[acc.len() + j - i]
            == retargeted_edge(incoming[j], old_block, new_block, reverse_match) by {
            if j == i {
                assert(r[acc2.len() - 1] == acc2[acc2.len() - 1]);
            } else {
                assert(r[acc2.len() + j - (i + 1)] == retargeted_edge(
                    incoming[j],
                    old_block,
                    new_block,
                    reverse_match,
                ));
            }
        }
    }
}

/// Retarget the incoming edges of a phi: each edge from `old_block` (or,
/// with `reverse_match`, each edge not from it) now comes from `new_block`.
pub fn retarget_phi_incoming(
    incoming: &Vec<Vec<u8>>,
    old_block: &Vec<u8>,
    new_block: &Vec<u8>,
    reverse_match: bool,
) -> (r: Vec<Vec<u8>>)
    ensures
        r.deep_view() == retargeted_edges(
            incoming.deep_view(),
            old_block@,
            new_block@,
            reverse_match,
            0,
            Seq::<Seq<u8>>::empty(),
        ),
        r.deep_view().len() == incoming.deep_view().len(),
        forall|j: int|
            0 <= j < incoming.deep_view().len() ==> #[trigger] r.deep_view()[j] == retargeted_edge(
                incoming.deep_view()[j],
                old_block@,
                new_block@,
                reverse_match,
            ),
{
    let ghost inv = incoming.deep_view();
    let mut r: Vec<Vec<u8>> = Vec::new();
    let n = incoming.len();
    proof {
        assert(r.deep_view() =~= Seq::<Seq<u8>>::empty());
    }
    let mut i: usize = 0;
    while i < n
        invariant
            i <= n,
            n == incoming@.len(),
            inv == incoming.deep_view(),
            inv.len() == n,
            retargeted_edges(inv, old_block@, new_block@, reverse_match, 0, Seq::<Seq<u8>>::empty())
                == retargeted_edges(inv, old_block@, new_block@, reverse_match, i as int, r.deep_view()),
        decreases n - i,
    {
        proof {
            assert(incoming.deep_view()[i as int] == incoming@[i as int]@);
        }
        let ghost prev = r.deep_view();
        let hit = crate::bytes::bytes_eq(incoming[i].as_slice(), old_block.as_slice());
        let value: Vec<u8> = if reverse_match != hit {
            crate::bytes::clone_bytes(new_block)
        } else {
            crate::bytes::clone_bytes(&incoming[i])
        };
        let ghost vv = value@;
        r.push(value);
        proof {
            assert(r.deep_view() =~~= prev.push(vv));
            assert(vv == retargeted_edge(inv[i as int], old_block@, new_block@, reverse_match));
        }
        i += 1;
    }
    proof {
        lemma_retargeted_edges(
            inv,
            old_block@,
            new_block@,
            reverse_match,
            0,
            Seq::<Seq<u8>>::empty(),
        );
        let full = retargeted_edges(
            inv,
            old_block@,
            new_block@,
            reverse_match,
            0,
            Seq::<Seq<u8>>::empty(),
        );
        assert forall|j: int| 0 <= j < inv.len() implies #[trigger] r.deep_view()[j]
            == retargeted_edge(inv[j], old_block@, new_block@, reverse_match) by {
            assert(full[0 + j - 0] == retargeted_edge(inv[j], old_block@, new_block@, reverse_match));
        }
    }
    r
}

/// A type in a runtime-ABI signature.
#[derive(Clone, Copy, PartialEq, Eq, Structural)]
pub enum AbiType {
    I1,
    I32,
    I64,
    DoubleType,
    VoidType,
    /// `i8*`: a C string.
    CStringPtr,
    /// A pointer to the opaque struct `Executable`.
    ExecutablePtr,
    /// A pointer to the opaque struct `ExecutionResult`.
    ExecutionResultPtr,
    /// A pointer to the opaque struct `ExecutableCache`.
    ExecutableCachePtr,
}

/// One externally linked runtime function to declare (or reuse when the
/// module already declares it).
pub struct AbiFunction {
    pub symbol: String,
    pub params: Vec<AbiType>,
    pub ret: AbiType,
}

/// Spec-level mirror of [`AbiFunction`].
#[verifier::ext_equal]
pub ghost struct AbiFunctionView {
    pub symbol: Seq<char>,
    pub params: Seq<AbiType>,
    pub ret: AbiType,
}

impl View for AbiFunction {
    type V = AbiFunctionView;

    open spec fn view(&self) -> AbiFunctionView {
        AbiFunctionView { symbol: self.symbol@, params: self.params@, ret: self.ret }
    }
}

impl DeepView for AbiFunction {
    type V = AbiFunctionView;

    open spec fn deep_view(&self) -> AbiFunctionView {
        self.view()
    }
}

/// The runtime ABI: the external C functions the emitted calls rely on.
pub open spec fn runtime_abi() -> Seq<AbiFunctionView> {
    seq![
        AbiFunctionView {
            symbol: "executable_from_quil"@,
            params: seq![AbiType::CStringPtr],
            ret: AbiType::ExecutablePtr,
        },
        AbiFunctionView {
            symbol: "execute_on_qpu"@,
            params: seq![AbiType::ExecutablePtr, AbiType::CStringPtr],
            ret: AbiType::ExecutionResultPtr,
        },
        AbiFunctionView {
            symbol: "execute_on_qvm"@,
            params: seq![AbiType::ExecutablePtr],
            ret: AbiType::ExecutionResultPtr,
        },
        AbiFunctionView {
            symbol: "free_executable"@,
            params: seq![AbiType::ExecutablePtr],
            ret: AbiType::VoidType,
        },
        AbiFunctionView {
            symbol: "free_execution_result"@,
            params: seq![AbiType::ExecutionResultPtr],
            ret: AbiType::VoidType,
        },
        AbiFunctionView {
            symbol: "set_param"@,
            params: seq![
                AbiType::ExecutablePtr,
                AbiType::CStringPtr,
                AbiType::I32,
                AbiType::DoubleType,
            ],
            ret: AbiType::VoidType,
        },
        AbiFunctionView {
            symbol: "wrap_in_shots"@,
            params: seq![AbiType::ExecutablePtr, AbiType::I32],
            ret: AbiType::VoidType,
        },
        AbiFunctionView {
            symbol: "get_readout_bit"@,
            params: seq![AbiType::ExecutionResultPtr, AbiType::I64, AbiType::I64],
            ret: AbiType::I1,
        },
        AbiFunctionView {
            symbol: "panic_on_failure"@,
            params: seq![AbiType::ExecutionResultPtr],
            ret: AbiType::VoidType,
        },
        AbiFunctionView {
            symbol: "create_executable_cache"@,
            params: seq![AbiType::I32],
            ret: AbiType::ExecutableCachePtr,
        },
        AbiFunctionView {
            symbol: "add_executable_cache_item"@,
            params: seq![AbiType::ExecutableCachePtr, AbiType::I32, AbiType::CStringPtr],
            ret: AbiType::VoidType,
        },
        AbiFunctionView {
            symbol: "read_from_executable_cache"@,
            params: seq![AbiType::ExecutableCachePtr, AbiType::I32],
            ret: AbiType::ExecutablePtr,
        },
        AbiFunctionView {
            symbol: "free_executable_cache"@,
            params: seq![AbiType::ExecutableCachePtr],
            ret: AbiType::VoidType,
        },
    ]
}

/// Build the runtime-ABI declaration list.
pub fn runtime_abi_schema() -> (r: Vec<AbiFunction>)
    ensures
        r.deep_view() == runtime_abi(),
{
    let mut r: Vec<AbiFunction> = Vec::new();
    r.push(
        AbiFunction {
            symbol: String::from_str("executable_from_quil"),
            params: vec![AbiType::CStringPtr],
            ret: AbiType::ExecutablePtr,
        },
    );
    r.push(
        AbiFunction {
            symbol: String::from_str("execute_on_qpu"),
            params: vec![AbiType::ExecutablePtr, AbiType::CStringPtr],
            ret: AbiType::ExecutionResultPtr,
        },
    );
    r.push(
        AbiFunction {
            symbol: String::from_str("execute_on_qvm"),
            params: vec![AbiType::ExecutablePtr],
            ret: AbiType::ExecutionResultPtr,
        },
    );
    r.push(
        AbiFunction {
            symbol: String::from_str("free_executable"),
            params: vec![AbiType::ExecutablePtr],
            ret: AbiType::VoidType,
        },
    );
    r.push(
        AbiFunction {
            symbol: String::from_str("free_execution_result"),
            params: vec![AbiType::ExecutionResultPtr],
            ret: AbiType::VoidType,
        },
    );
    r.push(
        AbiFunction {
            symbol: String::from_str("set_param"),
            params: vec![
                AbiType::ExecutablePtr,
                AbiType::CStringPtr,
                AbiType::I32,
                AbiType::DoubleType,
            ],
            ret: AbiType::VoidType,
        },
    );
    r.push(
        AbiFunction {
            symbol: String::from_str("wrap_in_shots"),
            params: vec![AbiType::ExecutablePtr, AbiType::I32],
            ret: AbiType::VoidType,
        },
    );
    r.push(
        AbiFunction {
            symbol: String::from_str("get_readout_bit"),
            params: vec![AbiType::ExecutionResultPtr, AbiType::I64, AbiType::I64],
            ret: AbiType::I1,
        },
    );
    r.push(
        AbiFunction {
            symbol: String::from_str("panic_on_failure"),
            params: vec![AbiType::ExecutionResultPtr],
            ret: AbiType::VoidType,
        },
    );
    r.push(
        AbiFunction {
            symbol: String::from_str("create_executable_cache"),
            params: vec![AbiType::I32],
            ret: AbiType::ExecutableCachePtr,
        },
    );
    r.push(
        AbiFunction {
            symbol: String::from_str("add_executable_cache_item"),
            params: vec![AbiType::ExecutableCachePtr, AbiType::I32, AbiType::CStringPtr],
            ret: AbiType::VoidType,
        },
    );
    r.push(
        AbiFunction {
            symbol: String::from_str("read_from_executable_cache"),
            params: vec![AbiType::ExecutableCachePtr, AbiType::I32],
            ret: AbiType::ExecutablePtr,
        },
    );
    r.push(
        AbiFunction {
            symbol: String::from_str("free_executable_cache"),
            params: vec![AbiType::ExecutableCachePtr],
            ret: AbiType::VoidType,
        },
    );
    proof {
        assert(r.deep_view() =~~= runtime_abi());
    }
    r
}

/// The names of a module's functions, in order.
pub open spec fn function_names(m: crate::qir::QirModuleView) -> Seq<Seq<u8>> {
    Seq::new(m.functions.len(), |j: int| m.functions[j].name)
}

/// A module defines each symbol once.
pub open spec fn distinct_function_names(m: crate::qir::QirModuleView) -> bool {
    forall|a: int, b: int|
        0 <= a < b < m.functions.len() ==> #[trigger] m.functions[a].name
            != #[trigger] m.functions[b].name
}

/// What the patch driver is configured with.
pub ghost struct DriveOptions {
    pub rewiring: Option<Seq<char>>,
    pub target: crate::target::ExecutionTargetView,
    pub cache: bool,
}

/// The driver's accumulated work: the functions discovered so far (their
/// indices, in discovery order, and their names), the patches of the
/// matched blocks, and the cached program texts, in index order.
#[verifier::ext_equal]
pub ghost struct DriveView {
    pub pending: Seq<int>,
    pub visited: Seq<Seq<u8>>,
    pub patches: Seq<BlockPatchView>,
    pub cached: Seq<Seq<char>>,
}

/// Discovering a callee: a name that was not seen yet and is defined in the
/// module joins the worklist (and the visited names); anything else changes
/// nothing.
pub open spec fn drive_discover(
    m: crate::qir::QirModuleView,
    d: DriveView,
    name: Seq<u8>,
) -> DriveView {
    if d.visited.contains(name) {
        d
    } else {
        match crate::qir::first_definition_index(m, name, 0) {
            Some(fj) => DriveView {
                pending: d.pending.push(fj),
                visited: d.visited.push(name),
                patches: d.patches,
                cached: d.cached,
            },
            None => d,
        }
    }
}

/// The driver's scan of one block body from instruction `i`: exactly the
/// lenient scan of the context, and in addition each unrecognized call is
/// offered to [`drive_discover`].
pub open spec fn drive_scan(
    m: crate::qir::QirModuleView,
    instrs: Seq<crate::qir::QirInstructionView>,
    i: int,
    phi: u64,
    ctx: crate::shot_count::ShotCountContextView,
    d: DriveView,
) -> Result<(crate::shot_count::ShotCountContextView, DriveView), TranspileErrorView>
    decreases instrs.len() - i,
{
    if i >= instrs.len() {
        Ok((ctx, d))
    } else {
        match instrs[i] {
            crate::qir::QirInstructionView::Call { id, callee, operands } => {
                match callee {
                    Some(name) => match crate::pattern::qis_step(ctx.state, id, name, operands) {
                        crate::pattern::StepView::Matched(st2) => drive_scan(
                            m,
                            instrs,
                            i + 1,
                            phi,
                            crate::shot_count::with_state(ctx, st2),
                            d,
                        ),
                        crate::pattern::StepView::Failed(e) => Err(e),
                        crate::pattern::StepView::NotMatched => match crate::pattern::rt_record_step(
                            ctx.state,
                            id,
                            name,
                            operands,
                        ) {
                            crate::pattern::StepView::Matched(st2) => drive_scan(
                                m,
                                instrs,
                                i + 1,
                                phi,
                                crate::shot_count::with_state(ctx, st2),
                                d,
                            ),
                            crate::pattern::StepView::Failed(e) => Err(e),
                            crate::pattern::StepView::NotMatched => drive_scan(
                                m,
                                instrs,
                                i + 1,
                                phi,
                                ctx,
                                drive_discover(m, d, name),
                            ),
                        },
                    },
                    None => drive_scan(m, instrs, i + 1, phi, ctx, d),
                }
            },
            crate::qir::QirInstructionView::Add { id, lhs, rhs } => {
                if lhs == crate::qir::IntOperand::Defined(phi) && rhs
                    == crate::qir::IntOperand::Constant(1i64) {
                    match crate::shot_count::loop_end_step(instrs, i, phi, ctx) {
                        Ok(c2) => Ok((c2, d)),
                        Err(e) => Err(e),
                    }
                } else {
                    drive_scan(m, instrs, i + 1, phi, ctx, d)
                }
            },
            _ => drive_scan(m, instrs, i + 1, phi, ctx, d),
        }
    }
}

/// A matched context becomes a patch of its block; with caching, the
/// finished program's text takes the next cache slot, and the patch reads
/// that very slot back. An unmatched context changes nothing.
pub open spec fn add_patch(
    block_name: Seq<u8>,
    ctx: crate::shot_count::ShotCountContextView,
    o: DriveOptions,
    d: DriveView,
) -> DriveView {
    if crate::shot_count::context_matched(ctx) && ctx.initial_instruction is Some
        && ctx.next_basic_block is Some {
        let cache_index: Option<u64> = if o.cache {
            Some(d.cached.len() as u64)
        } else {
            None
        };
        DriveView {
            pending: d.pending,
            visited: d.visited,
            patches: d.patches.push(
                block_patch_spec(block_name, ctx, cache_index, o.rewiring, o.target),
            ),
            cached: if o.cache {
                d.cached.push(
                    crate::quil::program_text(
                        crate::shot_count::emitted_program(ctx.state, o.rewiring),
                    ),
                )
            } else {
                d.cached
            },
        }
    } else {
        d
    }
}

/// The driver's walk over one function's blocks from `bi` on: scan each
/// block (a block not opening with a phi is left alone) and patch it when
/// it matched.
pub open spec fn drive_blocks(
    m: crate::qir::QirModuleView,
    o: DriveOptions,
    fi: int,
    bi: int,
    d: DriveView,
) -> Result<DriveView, TranspileErrorView>
    decreases (if 0 <= fi < m.functions.len() {
        m.functions[fi].blocks.len()
    } else {
        0
    }) - bi,
{
    if fi < 0 || fi >= m.functions.len() || bi < 0 || bi >= m.functions[fi].blocks.len() {
        Ok(d)
    } else {
        let block = m.functions[fi].blocks[bi];
        let scanned: Result<
            (crate::shot_count::ShotCountContextView, DriveView),
            TranspileErrorView,
        > = if block.instructions.len() == 0 {
            Ok((crate::shot_count::initial_context(), d))
        } else {
            match block.instructions[0] {
                crate::qir::QirInstructionView::Phi { id } => drive_scan(
                    m,
                    block.instructions,
                    1,
                    id,
                    crate::shot_count::started(crate::shot_count::initial_context(), id),
                    d,
                ),
                _ => Ok((crate::shot_count::initial_context(), d)),
            }
        };
        match scanned {
            Err(e) => Err(e),
            Ok((ctx, d2)) => drive_blocks(m, o, fi, bi + 1, add_patch(block.name, ctx, o, d2)),
        }
    }
}

/// The driver's walk over the worklist from position `k`: rewrite the
/// function at `pending[k]`, which may discover and append more functions,
/// then move on. Each function joins the worklist at most once, so the walk
/// covers at most as many functions as the module has.
pub open spec fn drive_pending(
    m: crate::qir::QirModuleView,
    o: DriveOptions,
    k: int,
    d: DriveView,
) -> Result<DriveView, TranspileErrorView>
    decreases m.functions.len() - k,
{
    if k < 0 || k >= d.pending.len() || k >= m.functions.len() {
        Ok(d)
    } else {
        match drive_blocks(m, o, d.pending[k], 0, d) {
            Err(e) => Err(e),
            Ok(d2) => drive_pending(m, o, k + 1, d2),
        }
    }
}

/// What patching a module yields: the declared quantum functions are
/// validated and the entry function located; then, starting from the entry
/// function, each reached function's blocks are scanned and every matched
/// block is patched, and each function a scanned block calls is reached
/// once in discovery order.
pub open spec fn patch_spec(m: crate::qir::QirModuleView, o: DriveOptions) -> Result<
    DriveView,
    TranspileErrorView,
> {
    if crate::validate::module_invalid_params(m).len() > 0 {
        Err(
            TranspileErrorView::QuantumFnParamBadType(crate::validate::module_invalid_params(m)),
        )
    } else {
        match crate::entrypoint::entry_function_index(m) {
            None => Err(TranspileErrorView::EntrypointMissing),
            Some(fi) => drive_pending(
                m,
                o,
                0,
                DriveView {
                    pending: seq![fi],
                    visited: seq![m.functions[fi].name],
                    patches: Seq::<BlockPatchView>::empty(),
                    cached: Seq::<Seq<char>>::empty(),
                },
            ),
        }
    }
}

/// Whether a name was already visited.
fn contains_name(visited: &Vec<Vec<u8>>, name: &Vec<u8>) -> (r: bool)
    ensures
        r == visited_names(visited@).contains(name@),
{
    let n = visited.len();
    let mut i: usize = 0;
    while i < n
        invariant
            i <= n,
            n == visited@.len(),
            forall|j: int| 0 <= j < i ==> visited@[j]@ != name@,
        decreases n - i,
    {
        if crate::bytes::bytes_eq(visited[i].as_slice(), name.as_slice()) {
            assert(visited_names(visited@)[i as int] == name@);
            return true;
        }
        i += 1;
    }
    proof {
        if visited_names(visited@).contains(name@) {
            let w = choose|j: int|
                0 <= j < visited@.len() && visited_names(visited@)[j] == name@;
            assert(visited@[w]@ != name@);
        }
    }
    false
}

/// The visited names, as the spec sees them.
pub open spec fn visited_names(vs: Seq<Vec<u8>>) -> Seq<Seq<u8>> {
    Seq::new(vs.len(), |p: int| vs[p]@)
}

/// The worklist as the spec sees it.
pub open spec fn pending_view(p: Seq<usize>) -> Seq<int> {
    Seq::new(p.len(), |j: int| p[j] as int)
}

/// The driver's accumulated work as the spec sees it.
pub open spec fn drive_view(
    pending: Seq<usize>,
    visited: Seq<Vec<u8>>,
    patches: Seq<BlockPatch>,
    cached: Seq<String>,
) -> DriveView {
    DriveView {
        pending: pending_view(pending),
        visited: visited_names(visited),
        patches: Seq::new(patches.len(), |j: int| patches[j]@),
        cached: Seq::new(cached.len(), |j: int| cached[j]@),
    }
}

/// The worklist names each discovered function once: entry `j` holds the
/// index of a function of the module paired with that function's name, and
/// no name repeats.
pub open spec fn worklist_wf(
    m: crate::qir::QirModuleView,
    pending: Seq<usize>,
    visited: Seq<Vec<u8>>,
) -> bool {
    &&& visited.len() == pending.len()
    &&& visited_names(visited).no_duplicates()
    &&& forall|j: int|
        0 <= j < pending.len() ==> (#[trigger] pending[j] as int) < m.functions.len()
    &&& forall|j: int|
        0 <= j < visited.len() ==> #[trigger] visited_names(visited)[j] == m.functions[
            pending[j] as int
        ].name
}

/// Outcome of one driver scan step.
enum DriveStep {
    /// Scan on with the next instruction.
    Next,
    /// The loop end was recognized; the scan stops.
    Stop,
}

/// Offer the instruction at `i` to the recognizers under the driver's scan,
/// discovering called definitions into the worklist.
#[verifier::rlimit(100)]
fn drive_scan_one(
    module: &crate::qir::QirModule,
    block: &crate::qir::QirBlock,
    i: usize,
    phi: u64,
    ctx: &mut crate::shot_count::ShotCountPatternMatchContext,
    pending: &mut Vec<usize>,
    visited: &mut Vec<Vec<u8>>,
    patches: &Vec<BlockPatch>,
    cached: &Vec<String>,
) -> (r: Result<DriveStep, TranspileError>)
    requires
        i < block@.instructions.len(),
        worklist_wf(module@, old(pending)@, old(visited)@),
    ensures
        worklist_wf(module@, final(pending)@, final(visited)@),
        final(pending)@.len() >= old(pending)@.len(),
        forall|j: int|
            0 <= j < old(pending)@.len() ==> #[trigger] final(pending)@[j] == old(pending)@[j],
        match r {
            Ok(DriveStep::Next) => drive_scan(
                module@,
                block@.instructions,
                i as int,
                phi,
                old(ctx)@,
                drive_view(old(pending)@, old(visited)@, patches@, cached@),
            ) == drive_scan(
                module@,
                block@.instructions,
                i + 1,
                phi,
                final(ctx)@,
                drive_view(final(pending)@, final(visited)@, patches@, cached@),
            ),
            Ok(DriveStep::Stop) => drive_scan(
                module@,
                block@.instructions,
                i as int,
                phi,
                old(ctx)@,
                drive_view(old(pending)@, old(visited)@, patches@, cached@),
            ) == Ok::<
                (crate::shot_count::ShotCountContextView, DriveView),
                TranspileErrorView,
            >((final(ctx)@, drive_view(final(pending)@, final(visited)@, patches@, cached@))),
            Err(e) => drive_scan(
                module@,
                block@.instructions,
                i as int,
                phi,
                old(ctx)@,
                drive_view(old(pending)@, old(visited)@, patches@, cached@),
            ) == Err::<
                (crate::shot_count::ShotCountContextView, DriveView),
                TranspileErrorView,
            >(e@),
        },
{
    proof {
        assert(block@.instructions[i as int] == block.instructions@[i as int]@);
    }
    let ghost d0 = drive_view(pending@, visited@, patches@, cached@);
    match &block.instructions[i] {
        crate::qir::QirInstruction::Call { id, callee, operands } => {
            match callee {
                Some(name) => {
                    let ghost c0 = ctx@;
                    proof {
                        assert(name.deep_view() =~= name@);
                    }
                    match crate::pattern::quantum_instruction(&mut ctx.state, *id, name, operands) {
                        Ok(crate::pattern::MatchOutcome::Matched) => {
                            proof {
                                assert(ctx@ =~= crate::shot_count::with_state(c0, ctx@.state));
                            }
                            Ok(DriveStep::Next)
                        },
                        Err(e) => Err(e),
                        Ok(crate::pattern::MatchOutcome::NotMatched) => {
                            match crate::pattern::rt_record_instruction(
                                &mut ctx.state,
                                *id,
                                name,
                                operands,
                            ) {
                                Ok(crate::pattern::MatchOutcome::Matched) => {
                                    proof {
                                        assert(ctx@ =~= crate::shot_count::with_state(
                                            c0,
                                            ctx@.state,
                                        ));
                                    }
                                    Ok(DriveStep::Next)
                                },
                                Err(e) => Err(e),
                                Ok(crate::pattern::MatchOutcome::NotMatched) => {
                                    proof {
                                        assert(ctx@ =~= c0);
                                    }
                                    match module.find_definition(name) {
                                        Some(fj) => {
                                            proof {
                                                crate::qir::lemma_definition_index_defines(
                                                    module@,
                                                    name@,
                                                    0,
                                                );
                                            }
                                            if !contains_name(visited, name) {
                                                let ghost pend0 = pending@;
                                                let ghost vis0 = visited@;
                                                pending.push(fj);
                                                visited.push(crate::bytes::clone_bytes(name));
                                                proof {
                                                    assert(visited_names(visited@) =~~= visited_names(
                                                        vis0,
                                                    ).push(name@));
                                                    assert(visited_names(visited@).no_duplicates())
                                                        by {
                                                        assert(forall|p: int|
                                                            0 <= p < visited_names(vis0).len()
                                                                ==> visited_names(vis0)[p]
                                                                != name@);
                                                    }
                                                    assert(drive_view(
                                                        pending@,
                                                        visited@,
                                                        patches@,
                                                        cached@,
                                                    ) =~~= drive_discover(module@, d0, name@));
                                                    assert(worklist_wf(
                                                        module@,
                                                        pending@,
                                                        visited@,
                                                    )) by {
                                                        assert(forall|j: int|
                                                            0 <= j < pend0.len()
                                                                ==> #[trigger] pending@[j]
                                                                == pend0[j]);
                                                        assert(pending@[pend0.len() as int] == fj);
                                                        assert(visited_names(visited@)[
                                                            vis0.len() as int
                                                        ] == name@);
                                                        assert(module@.functions[fj as int].name
                                                            == name@);
                                                    }
                                                }
                                            } else {
                                                proof {
                                                    assert(d0.visited =~~= visited_names(
                                                        visited@,
                                                    ));
                                                    assert(drive_view(
                                                        pending@,
                                                        visited@,
                                                        patches@,
                                                        cached@,
                                                    ) =~~= drive_discover(module@, d0, name@));
                                                }
                                            }
                                            Ok(DriveStep::Next)
                                        },
                                        None => {
                                            proof {
                                                crate::qir::lemma_definition_index_defines(
                                                    module@,
                                                    name@,
                                                    0,
                                                );
                                                assert(drive_view(
                                                    pending@,
                                                    visited@,
                                                    patches@,
                                                    cached@,
                                                ) =~~= drive_discover(module@, d0, name@));
                                            }
                                            Ok(DriveStep::Next)
                                        },
                                    }
                                },
                            }
                        },
                    }
                },
                None => Ok(DriveStep::Next),
            }
        },
        crate::qir::QirInstruction::Add { id: _, lhs, rhs } => {
            if *lhs == crate::qir::IntOperand::Defined(phi) && *rhs
                == crate::qir::IntOperand::Constant(1i64) {
                crate::shot_count::ShotCountPatternMatchContext::loop_end(block, i, phi, ctx)?;
                Ok(DriveStep::Stop)
            } else {
                Ok(DriveStep::Next)
            }
        },
        crate::qir::QirInstruction::Phi { .. } => Ok(DriveStep::Next),
        crate::qir::QirInstruction::ICmp { .. } => Ok(DriveStep::Next),
        crate::qir::QirInstruction::CondBr { .. } => Ok(DriveStep::Next),
        crate::qir::QirInstruction::Ret => Ok(DriveStep::Next),
        crate::qir::QirInstruction::Other { .. } => Ok(DriveStep::Next),
    }
}

/// Rewrite one function: scan each of its blocks, discovering the functions
/// they call into the worklist, and emit a patch for each matched block.
/// With caching, each matched program's text takes the next cache slot.
#[verifier::loop_isolation(false)]
#[verifier::rlimit(100)]
fn process_function(
    module: &crate::qir::QirModule,
    fi: usize,
    pending: &mut Vec<usize>,
    visited: &mut Vec<Vec<u8>>,
    patches: &mut Vec<BlockPatch>,
    cached: &mut Vec<String>,
    rewiring: &Option<String>,
    target: &crate::ExecutionTarget,
    cache: bool,
) -> (r: Result<(), TranspileError>)
    requires
        fi < module@.functions.len(),
        worklist_wf(module@, old(pending)@, old(visited)@),
    ensures
        worklist_wf(module@, final(pending)@, final(visited)@),
        final(pending)@.len() >= old(pending)@.len(),
        forall|j: int|
            0 <= j < old(pending)@.len() ==> #[trigger] final(pending)@[j] == old(pending)@[j],
        ({
            let o = DriveOptions { rewiring: rewiring.deep_view(), target: target@, cache };
            match r {
                Ok(()) => drive_blocks(
                    module@,
                    o,
                    fi as int,
                    0,
                    drive_view(old(pending)@, old(visited)@, old(patches)@, old(cached)@),
                ) == Ok::<DriveView, TranspileErrorView>(
                    drive_view(final(pending)@, final(visited)@, final(patches)@, final(cached)@),
                ),
                Err(e) => drive_blocks(
                    module@,
                    o,
                    fi as int,
                    0,
                    drive_view(old(pending)@, old(visited)@, old(patches)@, old(cached)@),
                ) == Err::<DriveView, TranspileErrorView>(e@),
            }
        }),
{
    let ghost o = DriveOptions { rewiring: rewiring.deep_view(), target: target@, cache };
    let nblocks = module.functions[fi].blocks.len();
    proof {
        assert(module@.functions[fi as int] == module.functions@[fi as int]@);
    }
    let mut bi: usize = 0;
    while bi < nblocks
        invariant
            bi <= nblocks,
            nblocks == module@.functions[fi as int].blocks.len(),
            worklist_wf(module@, pending@, visited@),
            pending@.len() >= old(pending)@.len(),
            forall|j: int|
                0 <= j < old(pending)@.len() ==> #[trigger] pending@[j] == old(pending)@[j],
            drive_blocks(
                module@,
                o,
                fi as int,
                0,
                drive_view(old(pending)@, old(visited)@, old(patches)@, old(cached)@),
            ) == drive_blocks(
                module@,
                o,
                fi as int,
                bi as int,
                drive_view(pending@, visited@, patches@, cached@),
            ),
        decreases nblocks - bi,
    {
        let block = &module.functions[fi].blocks[bi];
        proof {
            assert(module@.functions[fi as int] == module.functions@[fi as int]@);
            assert(module@.functions[fi as int].blocks[bi as int]
                == module.functions@[fi as int].blocks@[bi as int]@);
        }
        let mut ctx = crate::shot_count::ShotCountPatternMatchContext {
            state: crate::pattern::PatternMatchState::new(),
            initial_instruction: None,
            shot_count: None,
            next_basic_block: None,
        };
        proof {
            assert(ctx@ =~= crate::shot_count::initial_context());
        }
        let ghost d_block = drive_view(pending@, visited@, patches@, cached@);
        let n = block.instructions.len();
        let mut scanned = false;
        if n > 0 {
            let phi: u64 = match &block.instructions[0] {
                crate::qir::QirInstruction::Phi { id } => {
                    scanned = true;
                    *id
                },
                _ => 0,
            };
            proof {
                assert(block@.instructions[0] == block.instructions@[0]@);
            }
            if scanned {
                ctx.initial_instruction = Some(phi);
                ctx.state.recorded_output.push(crate::RecordedOutput::ShotStart);
                proof {
                    assert(ctx@ =~= crate::shot_count::started(
                        crate::shot_count::initial_context(),
                        phi,
                    ));
                }
                let mut i: usize = 1;
                while i < n
                    invariant
                        1 <= i <= n,
                        n == block.instructions@.len(),
                        block@.instructions.len() == n,
                        worklist_wf(module@, pending@, visited@),
                        pending@.len() >= old(pending)@.len(),
                        forall|j: int|
                            0 <= j < old(pending)@.len() ==> #[trigger] pending@[j] == old(
                                pending,
                            )@[j],
                        drive_scan(
                            module@,
                            block@.instructions,
                            1,
                            phi,
                            crate::shot_count::started(crate::shot_count::initial_context(), phi),
                            d_block,
                        ) == drive_scan(
                            module@,
                            block@.instructions,
                            i as int,
                            phi,
                            ctx@,
                            drive_view(pending@, visited@, patches@, cached@),
                        ),
                    decreases n - i,
                {
                    match drive_scan_one(
                        module,
                        block,
                        i,
                        phi,
                        &mut ctx,
                        pending,
                        visited,
                        patches,
                        cached,
                    ) {
                        Ok(DriveStep::Next) => {},
                        Ok(DriveStep::Stop) => {
                            break;
                        },
                        Err(e) => {
                            return Err(e);
                        },
                    }
                    i += 1;
                }
            }
        }
        let ghost scan_result = drive_view(pending@, visited@, patches@, cached@);
        let cache_index: Option<u64> = if cache {
            Some(cached.len() as u64)
        } else {
            None
        };
        let block_name = crate::bytes::clone_bytes(&module.functions[fi].blocks[bi].name);
        proof {
            assert(module@.functions[fi as int] == module.functions@[fi as int]@);
            assert(module@.functions[fi as int].blocks[bi as int]
                == module.functions@[fi as int].blocks@[bi as int]@);
        }
        let ghost ctx_scanned = ctx@;
        match build_block_patch(ctx, block_name, cache_index, rewiring, target) {
            Some((p, text)) => {
                if cache {
                    cached.push(text);
                }
                patches.push(p);
                proof {
                    assert(drive_view(pending@, visited@, patches@, cached@) =~~= add_patch(
                        module@.functions[fi as int].blocks[bi as int].name,
                        ctx_scanned,
                        o,
                        scan_result,
                    ));
                }
            },
            None => {
                proof {
                    assert(drive_view(pending@, visited@, patches@, cached@) =~~= add_patch(
                        module@.functions[fi as int].blocks[bi as int].name,
                        ctx_scanned,
                        o,
                        scan_result,
                    ));
                }
            },
        }
        bi += 1;
    }
    Ok(())
}

/// The computed rewrite of a whole module.
/// The computed rewrite of a whole module.
pub struct ModulePatch {
    /// The per-block rewrites, one per matched block of the reached
    /// functions.
    pub block_patches: Vec<BlockPatch>,
    /// With caching, the program texts to install in the executable cache,
    /// in index order; a `populate_executable_array` function building the
    /// cache is synthesized either way and called first in the entrypoint.
    pub cached_programs: Vec<String>,
    /// Add a `main` that calls the entrypoint and returns 0.
    pub add_main_entrypoint: bool,
}

/// Compute the in-place rewrite of a module: validate the declared quantum
/// functions, then, starting from the entry function and reaching each
/// function a scanned block calls exactly once, patch every block matching
/// the counted-loop pattern. The whole walk — which functions are reached,
/// which blocks are patched, what each patch holds, and which cache slot
/// each patched program takes — is pinned by [`patch_spec`].
#[verifier::loop_isolation(false)]
#[verifier::rlimit(100)]
pub fn patch_qir_with_qcs(options: crate::PatchOptions, module: &crate::qir::QirModule) -> (r:
    Result<ModulePatch, TranspileError>)
    requires
        distinct_function_names(module@),
    ensures
        ({
            let o = DriveOptions {
                rewiring: options.quil_rewiring_pragma.deep_view(),
                target: options.execution_target@,
                cache: options.cache_executables,
            };
            match r {
                Ok(plan) => patch_spec(module@, o) matches Ok(dv) && Seq::new(
                    plan.block_patches@.len(),
                    |j: int| plan.block_patches@[j]@,
                ) == dv.patches && (options.cache_executables ==> Seq::new(
                    plan.cached_programs@.len(),
                    |j: int| plan.cached_programs@[j]@,
                ) == dv.cached) && (!options.cache_executables ==> plan.cached_programs@.len()
                    == 0) && plan.add_main_entrypoint == options.add_main_entrypoint,
                Err(e) => patch_spec(module@, o) == Err::<DriveView, TranspileErrorView>(e@),
            }
        }),
{
    let ghost o = DriveOptions {
        rewiring: options.quil_rewiring_pragma.deep_view(),
        target: options.execution_target@,
        cache: options.cache_executables,
    };
    crate::validate::validate_quantum_fn_params(module)?;
    let fi = match crate::entrypoint::get_entry_function(module) {
        Some(fi) => fi,
        None => {
            return Err(TranspileError::EntrypointMissing);
        },
    };
    let mut pending: Vec<usize> = Vec::new();
    pending.push(fi);
    let mut visited: Vec<Vec<u8>> = Vec::new();
    visited.push(crate::bytes::clone_bytes(&module.functions[fi].name));
    let mut patches: Vec<BlockPatch> = Vec::new();
    let mut cached: Vec<String> = Vec::new();
    proof {
        assert(module@.functions[fi as int] == module.functions@[fi as int]@);
        assert(drive_view(pending@, visited@, patches@, cached@) =~~= DriveView {
            pending: seq![fi as int],
            visited: seq![module@.functions[fi as int].name],
            patches: Seq::<BlockPatchView>::empty(),
            cached: Seq::<Seq<char>>::empty(),
        });
        assert(worklist_wf(module@, pending@, visited@)) by {
            assert(visited_names(visited@)[0] == module@.functions[fi as int].name);
            assert(pending@[0] == fi);
        }
    }
    let mut k: usize = 0;
    while k < pending.len()
        invariant
            k <= pending@.len(),
            worklist_wf(module@, pending@, visited@),
            patch_spec(module@, o) == drive_pending(
                module@,
                o,
                k as int,
                drive_view(pending@, visited@, patches@, cached@),
            ),
        decreases module@.functions.len() - k,
    {
        proof {
            assert forall|a: int|
                0 <= a < visited_names(visited@).len() implies function_names(module@).contains(
                #[trigger] visited_names(visited@)[a],
            ) by {
                assert(function_names(module@)[pending@[a] as int] == module@.functions[
                    pending@[a] as int
                ].name);
            }
            lemma_contained_no_dup_len(visited_names(visited@), function_names(module@));
            assert(pending@.len() <= module@.functions.len());
        }
        let ghost dv_before = drive_view(pending@, visited@, patches@, cached@);
        let ghost k0 = k as int;
        proof {
            assert(k0 < dv_before.pending.len());
            assert(k0 < module@.functions.len());
        }
        let fi_k = pending[k];
        proof {
            assert(dv_before.pending[k0] == fi_k as int);
        }
        match process_function(
            module,
            fi_k,
            &mut pending,
            &mut visited,
            &mut patches,
            &mut cached,
            &options.quil_rewiring_pragma,
            &options.execution_target,
            options.cache_executables,
        ) {
            Ok(()) => {
                proof {
                    assert(drive_blocks(module@, o, fi_k as int, 0, dv_before) == Ok::<
                        DriveView,
                        TranspileErrorView,
                    >(drive_view(pending@, visited@, patches@, cached@)));
                    assert(drive_pending(module@, o, k0, dv_before) == drive_pending(
                        module@,
                        o,
                        k0 + 1,
                        drive_view(pending@, visited@, patches@, cached@),
                    ));
                }
            },
            Err(e) => {
                proof {
                    assert(drive_pending(module@, o, k0, dv_before) == Err::<
                        DriveView,
                        TranspileErrorView,
                    >(e@));
                }
                return Err(e);
            },
        }
        k += 1;
    }
    let plan = ModulePatch {
        block_patches: patches,
        cached_programs: if options.cache_executables {
            cached
        } else {
            Vec::new()
        },
        add_main_entrypoint: options.add_main_entrypoint,
    };
    proof {
        assert(Seq::new(plan.cached_programs@.len(), |j: int| plan.cached_programs@[j]@).len()
            == 0 ==> Seq::new(plan.cached_programs@.len(), |j: int| plan.cached_programs@[j]@)
            =~= Seq::<Seq<char>>::empty());
    }
    Ok(plan)
}

/// The rewrite of one matched unitary block `B`. Two blocks are added right
/// after `B`: `B_execution`, holding `execution_calls` in order and an
/// unconditional branch to `B_cleanup`, and `B_cleanup`, holding a call to
/// `free_execution_result` and a void return. The entry block's terminating
/// return is replaced by an unconditional branch to `B_execution`, and the
/// consumed calls are deleted in an order [`removal_order`] approves.
pub struct UnitaryBlockPatch {
    /// The matched block's name.
    pub block_name: Vec<u8>,
    /// The runtime calls of the execution block, in order.
    pub execution_calls: Vec<AbiCall>,
    /// The consumed calls, to be deleted in a safe order.
    pub instructions_to_remove: Vec<u64>,
}

/// Spec-level mirror of [`UnitaryBlockPatch`].
#[verifier::ext_equal]
pub ghost struct UnitaryBlockPatchView {
    pub block_name: Seq<u8>,
    pub execution_calls: Seq<AbiCallView>,
    pub instructions_to_remove: Seq<u64>,
}

impl View for UnitaryBlockPatch {
    type V = UnitaryBlockPatchView;

    open spec fn view(&self) -> UnitaryBlockPatchView {
        UnitaryBlockPatchView {
            block_name: self.block_name@,
            execution_calls: self.execution_calls.deep_view(),
            instructions_to_remove: self.instructions_to_remove@,
        }
    }
}

/// The calls of a unitary execution block: obtain the executable, set each
/// parameter slot, execute on the chosen target, and fail loudly on error —
/// a unitary program runs once, so nothing is wrapped in shots.
pub open spec fn unitary_execution_calls_spec(
    st: crate::pattern::PatternMatchStateView,
    cache_index: Option<u64>,
    program_text: Seq<char>,
    target: crate::target::ExecutionTargetView,
) -> Seq<AbiCallView> {
    let head = match cache_index {
        Some(ci) => seq![AbiCallView::GetCachedExecutable { cache_index: ci }],
        None => seq![AbiCallView::ExecutableFromQuil { program_text }],
    };
    set_param_calls(st.parameters, 0, head).push(
        match target {
            crate::target::ExecutionTargetView::Qpu(id) => AbiCallView::ExecuteOnQpu {
                processor_id: id,
            },
            crate::target::ExecutionTargetView::Qvm => AbiCallView::ExecuteOnQvm,
        },
    ).push(AbiCallView::PanicOnFailure)
}

/// The patch of one unitary block, given its scanned state.
pub open spec fn unitary_block_patch_spec(
    block_name: Seq<u8>,
    st: crate::pattern::PatternMatchStateView,
    cache_index: Option<u64>,
    rewiring: Option<Seq<char>>,
    target: crate::target::ExecutionTargetView,
) -> UnitaryBlockPatchView {
    UnitaryBlockPatchView {
        block_name,
        execution_calls: unitary_execution_calls_spec(
            st,
            cache_index,
            crate::quil::program_text(crate::shot_count::emitted_program(st, rewiring)),
            target,
        ),
        instructions_to_remove: st.instructions_to_remove,
    }
}

/// Build the patch of one unitary block from its scanned state, or nothing
/// when the block held no quantum instruction (it is then left alone). The
/// second result is the finished program's text, for the executable cache.
pub fn build_unitary_block_patch(
    ctx: crate::unitary::UnitaryPatternMatchContext,
    block_name: Vec<u8>,
    cache_index: Option<u64>,
    rewiring: &Option<String>,
    target: &crate::ExecutionTarget,
) -> (r: Option<(UnitaryBlockPatch, String)>)
    ensures
        match r {
            Some((p, text)) => ctx@.quil_body.len() > 0 && p@ == unitary_block_patch_spec(
                block_name@,
                ctx@,
                cache_index,
                rewiring.deep_view(),
                target@,
            ) && text@ == crate::quil::program_text(
                crate::shot_count::emitted_program(ctx@, rewiring.deep_view()),
            ),
            None => ctx@.quil_body.len() == 0,
        },
{
    let crate::unitary::UnitaryPatternMatchContext { state } = ctx;
    if state.quil_body.len() == 0 {
        return None;
    }
    let ghost stv = state@;
    let instructions_to_remove = crate::bytes::clone_u64s(&state.instructions_to_remove);
    let ghost params = state@.parameters;
    let parameters = crate::bytes::clone_u64s(&state.parameters);
    let (instructions, _recorded) = crate::shot_count::emit_state(state, rewiring);
    let program = crate::quil::QuilProgram { instructions };
    let text = program.to_quil_text();
    let mut calls: Vec<AbiCall> = Vec::new();
    match cache_index {
        Some(ci) => {
            calls.push(AbiCall::GetCachedExecutable { cache_index: ci });
        },
        None => {
            calls.push(AbiCall::ExecutableFromQuil { program_text: text.clone() });
        },
    }
    let ghost head = calls.deep_view();
    proof {
        match cache_index {
            Some(ci) => {
                assert(head =~= seq![AbiCallView::GetCachedExecutable { cache_index: ci }]);
            },
            None => {
                assert(head =~= seq![AbiCallView::ExecutableFromQuil { program_text: text@ }]);
            },
        }
    }
    let mut i: usize = 0;
    let m = parameters.len();
    while i < m
        invariant
            i <= m,
            m == parameters@.len(),
            parameters@ == params,
            set_param_calls(params, 0, head) == set_param_calls(params, i as int, calls.deep_view()),
        decreases m - i,
    {
        let ghost prev = calls.deep_view();
        calls.push(AbiCall::SetParam { slot: i as u64, value_key: parameters[i] });
        proof {
            assert(calls.deep_view() =~= prev.push(
                AbiCallView::SetParam { slot: i as u64, value_key: params[i as int] },
            ));
        }
        i += 1;
    }
    match target {
        crate::ExecutionTarget::Qpu(id) => {
            calls.push(AbiCall::ExecuteOnQpu { processor_id: id.clone() });
        },
        crate::ExecutionTarget::Qvm => {
            calls.push(AbiCall::ExecuteOnQvm);
        },
    }
    calls.push(AbiCall::PanicOnFailure);
    let p = UnitaryBlockPatch { block_name, execution_calls: calls, instructions_to_remove };
    proof {
        assert(p.execution_calls.deep_view() =~= unitary_execution_calls_spec(
            stv,
            cache_index,
            text@,
            target@,
        ));
        assert(p@ =~= unitary_block_patch_spec(
            p.block_name@,
            stv,
            cache_index,
            rewiring.deep_view(),
            target@,
        ));
    }
    Some((p, text))
}

/// The unitary driver's walk over the entry function's blocks from `bi` on:
/// scan each block, and patch each one that holds quantum instructions.
pub open spec fn drive_unitary_blocks(
    m: crate::qir::QirModuleView,
    o: DriveOptions,
    fi: int,
    bi: int,
    patches: Seq<UnitaryBlockPatchView>,
    cached: Seq<Seq<char>>,
) -> Result<(Seq<UnitaryBlockPatchView>, Seq<Seq<char>>), TranspileErrorView>
    decreases (if 0 <= fi < m.functions.len() {
        m.functions[fi].blocks.len()
    } else {
        0
    }) - bi,
{
    if fi < 0 || fi >= m.functions.len() || bi < 0 || bi >= m.functions[fi].blocks.len() {
        Ok((patches, cached))
    } else {
        let block = m.functions[fi].blocks[bi];
        match crate::unitary::unitary_scan(block.instructions, 0, crate::pattern::empty_state()) {
            Err(e) => Err(e),
            Ok(st) => if st.quil_body.len() > 0 {
                let ci: Option<u64> = if o.cache {
                    Some(cached.len() as u64)
                } else {
                    None
                };
                drive_unitary_blocks(
                    m,
                    o,
                    fi,
                    bi + 1,
                    patches.push(unitary_block_patch_spec(block.name, st, ci, o.rewiring, o.target)),
                    if o.cache {
                        cached.push(
                            crate::quil::program_text(
                                crate::shot_count::emitted_program(st, o.rewiring),
                            ),
                        )
                    } else {
                        cached
                    },
                )
            } else {
                drive_unitary_blocks(m, o, fi, bi + 1, patches, cached)
            },
        }
    }
}

/// What patching a module under the unitary format yields: after validation
/// and entry lookup, every block of the entry function is scanned — it may
/// hold only quantum instructions — and each block with any is patched.
pub open spec fn patch_unitary_spec(m: crate::qir::QirModuleView, o: DriveOptions) -> Result<
    (Seq<UnitaryBlockPatchView>, Seq<Seq<char>>),
    TranspileErrorView,
> {
    if crate::validate::module_invalid_params(m).len() > 0 {
        Err(
            TranspileErrorView::QuantumFnParamBadType(crate::validate::module_invalid_params(m)),
        )
    } else {
        match crate::entrypoint::entry_function_index(m) {
            None => Err(TranspileErrorView::EntrypointMissing),
            Some(fi) => drive_unitary_blocks(
                m,
                o,
                fi,
                0,
                Seq::<UnitaryBlockPatchView>::empty(),
                Seq::<Seq<char>>::empty(),
            ),
        }
    }
}

/// The computed unitary rewrite of a whole module.
pub struct UnitaryModulePatch {
    /// The per-block rewrites, one per quantum-holding block of the entry
    /// function.
    pub block_patches: Vec<UnitaryBlockPatch>,
    /// With caching, the program texts to install in the executable cache,
    /// in index order.
    pub cached_programs: Vec<String>,
    /// Add a `main` that calls the entrypoint and returns 0.
    pub add_main_entrypoint: bool,
}

/// Compute the in-place unitary rewrite of a module: validate the declared
/// quantum functions, then patch every quantum-holding block of the entry
/// function. The whole walk is pinned by [`patch_unitary_spec`].
#[verifier::loop_isolation(false)]
#[verifier::rlimit(100)]
pub fn patch_unitary_qir_with_qcs(
    options: crate::PatchOptions,
    module: &crate::qir::QirModule,
) -> (r: Result<UnitaryModulePatch, TranspileError>)
    ensures
        ({
            let o = DriveOptions {
                rewiring: options.quil_rewiring_pragma.deep_view(),
                target: options.execution_target@,
                cache: options.cache_executables,
            };
            match r {
                Ok(plan) => patch_unitary_spec(module@, o) matches Ok((ps, cs)) && Seq::new(
                    plan.block_patches@.len(),
                    |j: int| plan.block_patches@[j]@,
                ) == ps && (options.cache_executables ==> Seq::new(
                    plan.cached_programs@.len(),
                    |j: int| plan.cached_programs@[j]@,
                ) == cs) && (!options.cache_executables ==> plan.cached_programs@.len() == 0)
                    && plan.add_main_entrypoint == options.add_main_entrypoint,
                Err(e) => patch_unitary_spec(module@, o) == Err::<
                    (Seq<UnitaryBlockPatchView>, Seq<Seq<char>>),
                    TranspileErrorView,
                >(e@),
            }
        }),
{
    let ghost o = DriveOptions {
        rewiring: options.quil_rewiring_pragma.deep_view(),
        target: options.execution_target@,
        cache: options.cache_executables,
    };
    crate::validate::validate_quantum_fn_params(module)?;
    let fi = match crate::entrypoint::get_entry_function(module) {
        Some(fi) => fi,
        None => {
            return Err(TranspileError::EntrypointMissing);
        },
    };
    let mut patches: Vec<UnitaryBlockPatch> = Vec::new();
    let mut cached: Vec<String> = Vec::new();
    let nblocks = module.functions[fi].blocks.len();
    proof {
        assert(module@.functions[fi as int] == module.functions@[fi as int]@);
        assert(Seq::new(patches@.len(), |j: int| patches@[j]@)
            =~= Seq::<UnitaryBlockPatchView>::empty());
        assert(Seq::new(cached@.len(), |j: int| cached@[j]@) =~= Seq::<Seq<char>>::empty());
    }
    let mut bi: usize = 0;
    while bi < nblocks
        invariant
            bi <= nblocks,
            nblocks == module@.functions[fi as int].blocks.len(),
            patch_unitary_spec(module@, o) == drive_unitary_blocks(
                module@,
                o,
                fi as int,
                bi as int,
                Seq::new(patches@.len(), |j: int| patches@[j]@),
                Seq::new(cached@.len(), |j: int| cached@[j]@),
            ),
        decreases nblocks - bi,
    {
        let block = &module.functions[fi].blocks[bi];
        proof {
            assert(module@.functions[fi as int] == module.functions@[fi as int]@);
            assert(module@.functions[fi as int].blocks[bi as int]
                == module.functions@[fi as int].blocks@[bi as int]@);
        }
        let ctx = match crate::unitary::UnitaryPatternMatchContext::from_basic_block(block) {
            Ok(ctx) => ctx,
            Err(e) => {
                return Err(e);
            },
        };
        let ghost stv = ctx@;
        let ghost patches0 = Seq::new(patches@.len(), |j: int| patches@[j]@);
        let ghost cached0 = Seq::new(cached@.len(), |j: int| cached@[j]@);
        let cache_index: Option<u64> = if options.cache_executables {
            Some(cached.len() as u64)
        } else {
            None
        };
        let block_name = crate::bytes::clone_bytes(&module.functions[fi].blocks[bi].name);
        proof {
            assert(module@.functions[fi as int] == module.functions@[fi as int]@);
            assert(module@.functions[fi as int].blocks[bi as int]
                == module.functions@[fi as int].blocks@[bi as int]@);
        }
        match build_unitary_block_patch(
            ctx,
            block_name,
            cache_index,
            &options.quil_rewiring_pragma,
            &options.execution_target,
        ) {
            Some((p, text)) => {
                let ghost pv = p@;
                if options.cache_executables {
                    cached.push(text);
                }
                patches.push(p);
                proof {
                    assert(Seq::new(patches@.len(), |j: int| patches@[j]@) =~~= patches0.push(pv));
                    if options.cache_executables {
                        assert(Seq::new(cached@.len(), |j: int| cached@[j]@) =~~= cached0.push(
                            crate::quil::program_text(
                                crate::shot_count::emitted_program(stv, o.rewiring),
                            ),
                        ));
                    } else {
                        assert(Seq::new(cached@.len(), |j: int| cached@[j]@) =~~= cached0);
                    }
                }
            },
            None => {},
        }
        bi += 1;
    }
    let plan = UnitaryModulePatch {
        block_patches: patches,
        cached_programs: if options.cache_executables {
            cached
        } else {
            Vec::new()
        },
        add_main_entrypoint: options.add_main_entrypoint,
    };
    proof {
        assert(!options.cache_executables ==> Seq::new(
            plan.cached_programs@.len(),
            |j: int| plan.cached_programs@[j]@,
        ) =~= Seq::<Seq<char>>::empty());
    }
    Ok(plan)
}

} // verus!
