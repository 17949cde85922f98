//! Laws of the lifecycle engine: id monotonicity over any operation
//! sequence, and idempotence of closing.

use crate::issue::IssueView;
use crate::project::{
    sd_pass, sd_step_issue, sd_survives, spec_add_issue, spec_close_issue, spec_remove_issue,
    Project, ProjectView,
};
use vstd::prelude::*;

verus! {

/// One id-relevant operation on a project value, as the lifecycle engine's
/// contracts describe it.
pub ghost enum ProjOp {
    /// `add_issue_at`.
    AddIssue { name: Seq<char>, author: Seq<char>, t: i64 },
    /// `remove_issue_at`.
    RemoveIssue { id: u64, t: i64 },
}

/// What one operation does to a project value.
pub open spec fn apply_op(pv: ProjectView, op: ProjOp) -> ProjectView {
    match op {
        ProjOp::AddIssue { name, author, t } => spec_add_issue(pv, name, author, t),
        ProjOp::RemoveIssue { id, t } => spec_remove_issue(pv, id, t),
    }
}

/// What a sequence of operations does to a project value, first to last.
pub open spec fn apply_ops(pv: ProjectView, ops: Seq<ProjOp>) -> ProjectView
    decreases ops.len(),
{
    if ops.len() == 0 {
        pv
    } else {
        apply_op(apply_ops(pv, ops.drop_last()), ops.last())
    }
}

/// How many of the operations add an issue.
pub open spec fn add_count(ops: Seq<ProjOp>) -> int
    decreases ops.len(),
{
    if ops.len() == 0 {
        0int
    } else {
        add_count(ops.drop_last()) + if ops.last() is AddIssue {
            1int
        } else {
            0int
        }
    }
}

/// The add count of a prefix never exceeds the whole.
proof fn lemma_add_count_prefix(ops: Seq<ProjOp>, k: int)
    requires
        0 <= k <= ops.len(),
    ensures
        0 <= add_count(ops.take(k)) <= add_count(ops),
    decreases ops.len() - k,
{
    if k == ops.len() {
        assert(ops.take(k) =~= ops);
        lemma_add_count_nonneg(ops);
    } else {
        lemma_add_count_prefix(ops, k + 1);
        assert(ops.take(k + 1).drop_last() =~= ops.take(k));
        lemma_add_count_nonneg(ops.take(k));
    }
}

proof fn lemma_add_count_nonneg(ops: Seq<ProjOp>)
    ensures
        add_count(ops) >= 0,
    decreases ops.len(),
{
    if ops.len() > 0 {
        lemma_add_count_nonneg(ops.drop_last());
    }
}

/// After any operation sequence on a counter-sound starting state, the state
/// stays sound and the counter has advanced by exactly the number of adds.
proof fn lemma_state_after_ops(pv0: ProjectView, ops: Seq<ProjOp>)
    requires
        pv0.wf(),
        pv0.current_id + add_count(ops) <= u64::MAX,
    ensures
        apply_ops(pv0, ops).wf(),
        apply_ops(pv0, ops).current_id == pv0.current_id + add_count(ops),
    decreases ops.len(),
{
    if ops.len() > 0 {
        let head = ops.drop_last();
        lemma_add_count_nonneg(head);
        lemma_add_count_prefix(ops, ops.len() - 1);
        assert(ops.take(ops.len() - 1) =~= head);
        lemma_state_after_ops(pv0, head);
        let pv = apply_ops(pv0, head);
        match ops.last() {
            ProjOp::AddIssue { name, author, t } => {
                let pv1 = spec_add_issue(pv, name, author, t);
                assert(pv1.issues.last().0 == pv.current_id + 1);
                assert forall|i: int, j: int|
                    0 <= i < j < pv1.issues.len() implies (#[trigger] pv1.issues[i]).0 < (
                #[trigger] pv1.issues[j]).0 by {
                    if j < pv1.issues.len() - 1 {
                        assert(pv1.issues[i] == pv.issues[i] && pv1.issues[j] == pv.issues[j]);
                    } else {
                        assert(pv1.issues[i] == pv.issues[i]);
                        assert(pv.issues[i].0 <= pv.current_id);
                    }
                }
                assert forall|i: int| 0 <= i < pv1.issues.len() implies 1 <= (
                #[trigger] pv1.issues[i]).0 <= pv1.current_id by {
                    if i < pv1.issues.len() - 1 {
                        assert(pv1.issues[i] == pv.issues[i]);
                    }
                }
                assert(pv1.wf());
            },
            ProjOp::RemoveIssue { id, t } => {
                let pv1 = spec_remove_issue(pv, id, t);
                if pv.has_id(id) {
                    let k = pv.idx_of(id);
                    assert forall|i: int, j: int|
                        0 <= i < j < pv1.issues.len() implies (#[trigger] pv1.issues[i]).0 < (
                    #[trigger] pv1.issues[j]).0 by {
                        let oi: int = if i < k {
                            i
                        } else {
                            i + 1
                        };
                        let oj: int = if j < k {
                            j
                        } else {
                            j + 1
                        };
                        assert(pv1.issues[i] == pv.issues[oi]);
                        assert(pv1.issues[j] == pv.issues[oj]);
                    }
                    assert forall|i: int| 0 <= i < pv1.issues.len() implies 1 <= (
                    #[trigger] pv1.issues[i]).0 <= pv1.current_id by {
                        let oi: int = if i < k {
                            i
                        } else {
                            i + 1
                        };
                        assert(pv1.issues[i] == pv.issues[oi]);
                    }
                    assert(pv1.wf());
                }
            },
        }
    }
}

/// Monotonic ids: starting from a fresh project and running any interleaving
/// of adds and removes, the add at position `k` is assigned one more than the
/// number of adds before it — so over the whole run the assigned ids are
/// exactly 1, 2, ... in call order — and the assigned id is never one that
/// the issue table still holds: an id is never reused, even after removal.
pub proof fn lemma_monotonic_ids(
    name: Seq<char>,
    path: Seq<char>,
    t: i64,
    ops: Seq<ProjOp>,
    k: int,
)
    requires
        add_count(ops) <= u64::MAX,
        0 <= k < ops.len(),
        ops[k] is AddIssue,
    ensures
        ({
            let before = apply_ops(Project::fresh(name, path, t), ops.take(k));
            &&& before.current_id == add_count(ops.take(k))
            &&& !before.has_id((before.current_id + 1) as u64)
        }),
{
    let pv0 = Project::fresh(name, path, t);
    lemma_add_count_prefix(ops, k);
    lemma_add_count_prefix(ops, k + 1);
    assert(ops.take(k + 1).drop_last() =~= ops.take(k));
    assert(ops.take(k + 1).last() == ops[k]);
    assert(add_count(ops.take(k + 1)) == add_count(ops.take(k)) + 1);
    lemma_state_after_ops(pv0, ops.take(k));
    let before = apply_ops(pv0, ops.take(k));
    let id = (before.current_id + 1) as u64;
    if before.has_id(id) {
        let i = choose|i: int|
            0 <= i < before.issues.len() && (#[trigger] before.issues[i]).0 == id;
        assert(before.issues[i].0 <= before.current_id);
    }
}

/// When no issue is marked for deletion, the soft-delete pass changes
/// nothing: a save is then a pure snapshot write, and its document describes
/// exactly the state the caller held.
pub proof fn lemma_sd_pass_identity(s: Seq<(u64, IssueView)>)
    requires
        forall|i: int| 0 <= i < s.len() ==> !((#[trigger] s[i]).1.status is MarkedForDeletion),
    ensures
        sd_pass(s) == s,
    decreases s.len(),
{
    reveal(Seq::filter);
    if s.len() > 0 {
        let d = s.drop_last();
        assert forall|i: int| 0 <= i < d.len() implies !((#[trigger] d[i]).1.status
            is MarkedForDeletion) by {
            assert(d[i] == s[i]);
        }
        lemma_sd_pass_identity(d);
        assert(sd_survives(s.last().1.status));
        assert(sd_step_issue(s.last().1) =~= s.last().1);
        assert(s.filter(|e: (u64, IssueView)| sd_survives(e.1.status)) == d.filter(
            |e: (u64, IssueView)| sd_survives(e.1.status),
        ).push(s.last()));
        assert(sd_pass(s) =~= sd_pass(d).push((s.last().0, sd_step_issue(s.last().1))));
        assert((s.last().0, sd_step_issue(s.last().1)) == s.last());
        assert(sd_pass(s) =~= s);
    } else {
        assert(sd_pass(s) =~= s);
    }
}

/// Closing absorbs an earlier close: closing an issue at `t1` and then
/// again with the same resolution at `t2` leaves exactly the state of a
/// single close at `t2`.  In particular a repeated close changes nothing
/// but the refreshed timestamp, and nothing at all when the clock reading
/// is the same.  This holds whether or not the id is present.
pub proof fn lemma_close_absorbs(pv: ProjectView, id: u64, is_resolved: bool, t1: i64, t2: i64)
    requires
        pv.wf(),
    ensures
        spec_close_issue(spec_close_issue(pv, id, is_resolved, t1), id, is_resolved, t2)
            == spec_close_issue(pv, id, is_resolved, t2),
{
    if pv.has_id(id) {
        let j = pv.idx_of(id);
        let pv1 = spec_close_issue(pv, id, is_resolved, t1);
        assert(pv1.issues[j].0 == id);
        assert(pv1.has_id(id));
        assert forall|a: int, b: int|
            0 <= a < b < pv1.issues.len() implies (#[trigger] pv1.issues[a]).0 < (
        #[trigger] pv1.issues[b]).0 by {
            assert(pv1.issues[a].0 == pv.issues[a].0);
            assert(pv1.issues[b].0 == pv.issues[b].0);
        }
        Project::lemma_idx_unique(pv1, id, j);
        assert(pv1.idx_of(id) == j);
        let closed2 = IssueView {
            status: crate::issue::Status::Closed(crate::issue::spec_resolution(is_resolved)),
            updated_at: t2,
            ..pv.issue_of(id)
        };
        assert(IssueView {
            status: crate::issue::Status::Closed(crate::issue::spec_resolution(is_resolved)),
            updated_at: t2,
            ..pv1.issue_of(id)
        } =~= closed2);
        assert(pv1.issues.update(j, (id, closed2)) =~= pv.issues.update(j, (id, closed2)));
        assert(spec_close_issue(pv1, id, is_resolved, t2) =~= spec_close_issue(
            pv,
            id,
            is_resolved,
            t2,
        ));
    }
}

/// Idempotence of closing: closing an issue a second time, with the same
/// resolution and the same timestamp, leaves exactly the state that the
/// first close produced.  This holds whether or not the id is present.
pub proof fn lemma_close_idempotent(pv: ProjectView, id: u64, is_resolved: bool, t: i64)
    requires
        pv.wf(),
    ensures
        spec_close_issue(spec_close_issue(pv, id, is_resolved, t), id, is_resolved, t)
            == spec_close_issue(pv, id, is_resolved, t),
{
    lemma_close_absorbs(pv, id, is_resolved, t, t);
}

} // verus!
