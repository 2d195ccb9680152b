use vstd::prelude::*;
use crate::ledger::{
    LedgerView, base_len, branch_base, first_match, lemma_base_len_bound, lemma_first_match_at,
    lemma_first_match_found,
};
use crate::request::{DeliberateThinkingRequest, Submission};
use crate::thought::ThoughtView;

verus! {

/// The ledger after the requests `reqs`, in order.
pub open spec fn after_requests(v: LedgerView, reqs: Seq<DeliberateThinkingRequest>) -> LedgerView
    decreases reqs.len(),
{
    if reqs.len() == 0 {
        v
    } else {
        after_requests(v, reqs.drop_last()).after_request(reqs.last())
    }
}

/// Plain submissions in sequence on an empty ledger: the active timeline is
/// the main one and holds exactly the submitted steps, so its length is the
/// number of submissions, and there are no branches.
pub proof fn law_plain_sequence(reqs: Seq<DeliberateThinkingRequest>)
    requires
        forall|i: int| 0 <= i < reqs.len() ==> #[trigger] reqs[i].submission() is Plain,
    ensures
        after_requests(LedgerView::empty(), reqs).active is None,
        after_requests(LedgerView::empty(), reqs).active_timeline()
            == reqs.map_values(|r: DeliberateThinkingRequest| r.thought_view()),
        after_requests(LedgerView::empty(), reqs).active_timeline().len() == reqs.len(),
        after_requests(LedgerView::empty(), reqs).branch_names().len() == 0,
    decreases reqs.len(),
{
    if reqs.len() > 0 {
        let prev = reqs.drop_last();
        assert forall|i: int| 0 <= i < prev.len() implies #[trigger] prev[i].submission() is Plain by {
            assert(prev[i] == reqs[i]);
        }
        law_plain_sequence(prev);
        assert(reqs.last().submission() is Plain);
        assert(reqs.map_values(|r: DeliberateThinkingRequest| r.thought_view())
            =~= prev.map_values(|r: DeliberateThinkingRequest| r.thought_view()).push(reqs.last().thought_view()));
    }
}

/// A revision of step `k` replaces, in place, a step numbered `k` when the
/// active timeline has one (its length stays the same), and otherwise appends
/// the step (its length grows by one). The active branch and the branch names
/// stay as they were.
pub proof fn law_revision_replaces_or_appends(v: LedgerView, k: u32, t: ThoughtView)
    requires
        v.wf(),
    ensures
        ({
            let before = v.active_timeline();
            let after = v.after_revision(k, t).active_timeline();
            &&& (exists|j: int| 0 <= j < before.len() && before[j].thought_number == k) ==> {
                &&& after.len() == before.len()
                &&& exists|i: int| 0 <= i < before.len() && before[i].thought_number == k
                    && after == before.update(i, t)
            }
            &&& !(exists|j: int| 0 <= j < before.len() && before[j].thought_number == k) ==> {
                &&& after.len() == before.len() + 1
                &&& after == before.push(t)
            }
        }),
        v.after_revision(k, t).active == v.active,
        v.after_revision(k, t).branch_names() == v.branch_names(),
{
    let before = v.active_timeline();
    lemma_first_match_found(before, k);
    let w = v.after_revision(k, t);
    assert(w.branch_names() =~= v.branch_names());
}

/// A branch submission under a new name creates a branch holding exactly the
/// main timeline's prefix of steps numbered at most `k`, followed by the new
/// step; the branch becomes active, its name is listed, and the main timeline
/// is untouched.
pub proof fn law_branch_creation(v: LedgerView, k: u32, name: Seq<char>, t: ThoughtView)
    requires
        v.wf(),
        !v.has_branch(name),
    ensures
        v.after_branch(k, name, t).wf(),
        v.after_branch(k, name, t).active_timeline() == branch_base(v.main, k).push(t),
        v.after_branch(k, name, t).branch_names() == v.branch_names().push(name),
        v.after_branch(k, name, t).main == v.main,
        ({
            let n = base_len(v.main, k) as int;
            &&& n <= v.main.len()
            &&& forall|j: int| 0 <= j < n ==> v.main[j].thought_number <= k
            &&& n < v.main.len() ==> v.main[n].thought_number > k
        }),
{
    lemma_base_len_bound(v.main, k);
    let w = v.after_branch(k, name, t);
    assert(w.branch_names() =~= v.branch_names().push(name));
}

/// Once a branch submission has made a branch active, a plain submission
/// appends to that branch: the main timeline is unaffected.
pub proof fn law_plain_after_branch(v: LedgerView, k: u32, name: Seq<char>, t: ThoughtView, u: ThoughtView)
    requires
        v.wf(),
    ensures
        v.after_branch(k, name, t).after_plain(u).main == v.main,
        v.after_branch(k, name, t).after_plain(u).active == v.after_branch(k, name, t).active,
        v.after_branch(k, name, t).after_plain(u).active_timeline()
            == v.after_branch(k, name, t).active_timeline().push(u),
{
    let w = v.after_branch(k, name, t);
    assert(w.active is Some);
}

/// A request with both branch fields is a branch submission, whatever
/// revision target it also carries.
pub proof fn law_branch_precedence(v: LedgerView, req: DeliberateThinkingRequest)
    requires
        req.branch_from_thought is Some,
        req.branch_id is Some,
    ensures
        req.submission() is Branch,
        v.after_request(req) == v.after_branch(
            req.branch_from_thought->0,
            req.branch_id->0@,
            req.thought_view(),
        ),
{
}

/// Revising step `k` twice with the same step, numbered `k`, leaves the
/// ledger as revising it once does.
pub proof fn law_revision_idempotent(v: LedgerView, k: u32, t: ThoughtView)
    requires
        v.wf(),
        t.thought_number == k,
    ensures
        v.after_revision(k, t).after_revision(k, t) == v.after_revision(k, t),
{
    let before = v.active_timeline();
    let w = v.after_revision(k, t);
    lemma_first_match_found(before, k);
    let once = w.active_timeline();
    match first_match(before, k) {
        Some(i) => {
            assert(once == before.update(i, t));
            assert forall|j: int| 0 <= j < i implies once[j].thought_number != k by {}
            lemma_first_match_at(once, k, i);
            assert(once.update(i, t) =~= once);
        },
        None => {
            assert(once == before.push(t));
            assert forall|j: int| 0 <= j < before.len() implies once[j].thought_number != k by {}
            lemma_first_match_at(once, k, before.len() as int);
            assert(once.update(before.len() as int, t) =~= once);
        },
    }
    match v.active {
        Some(i) => {
            assert(w.branches.update(i, (w.branches[i].0, once)) =~= w.branches);
        },
        None => {},
    }
}

} // verus!
