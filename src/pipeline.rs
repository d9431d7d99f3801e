use crate::checker::Checker;
use crate::checker_data::CheckerData;
use crate::rejection::{reasons_view, ReasonView, RejectionReason, RejectionReasonCode};
use vstd::prelude::*;

verus! {

/// Checker `i` runs before checker `j`: it is cheaper, or as cheap and
/// registered earlier.
pub open spec fn runs_before(costs: Seq<u8>, i: usize, j: usize) -> bool {
    costs[i as int] < costs[j as int] || (costs[i as int] == costs[j as int] && i < j)
}

/// `order` lists every index of `costs` once, cheapest first, ties in
/// registration order.
pub open spec fn in_cost_order(costs: Seq<u8>, order: Seq<usize>) -> bool {
    &&& forall|k: int| 0 <= k < order.len() ==> #[trigger] order[k] < costs.len()
    &&& forall|j: usize| (j as int) < costs.len() ==> #[trigger] order.contains(j)
    &&& forall|a: int, b: int|
        0 <= a < b < order.len() ==> runs_before(costs, #[trigger] order[a], #[trigger] order[b])
}

/// The order in which checkers with these costs run: ascending cost, ties
/// broken by registration order.
pub fn execution_order(costs: &Vec<u8>) -> (order: Vec<usize>)
    ensures
        in_cost_order(costs@, order@),
{
    let n = costs.len();
    let mut order: Vec<usize> = Vec::new();
    let mut c: u16 = 0;
    while c < 256
        invariant
            n == costs@.len(),
            c <= 256,
            forall|k: int|
                0 <= k < order@.len() ==> #[trigger] order@[k] < n && costs@[order@[k] as int] < c,
            forall|j: usize| j < n && costs@[j as int] < c ==> #[trigger] order@.contains(j),
            forall|a: int, b: int|
                0 <= a < b < order@.len() ==> runs_before(
                    costs@,
                    #[trigger] order@[a],
                    #[trigger] order@[b],
                ),
        decreases 256 - c,
    {
        let mut i: usize = 0;
        while i < n
            invariant
                n == costs@.len(),
                c < 256,
                i <= n,
                forall|k: int|
                    0 <= k < order@.len() ==> #[trigger] order@[k] < n && (costs@[order@[k] as int]
                        < c || (costs@[order@[k] as int] == c && order@[k] < i)),
                forall|j: usize|
                    j < n && (costs@[j as int] < c || (costs@[j as int] == c && j < i)) ==> #[trigger] order@.contains(j),
                forall|a: int, b: int|
                    0 <= a < b < order@.len() ==> runs_before(
                        costs@,
                        #[trigger] order@[a],
                        #[trigger] order@[b],
                    ),
            decreases n - i,
        {
            if costs[i] as u16 == c {
                let ghost before = order@;
                order.push(i);
                proof {
                    assert forall|j: usize|
                        j < n && (costs@[j as int] < c || (costs@[j as int] == c && j < i + 1)) implies #[trigger] order@.contains(j) by {
                        if j == i {
                            assert(order@[before.len() as int] == i);
                        } else {
                            assert(before.contains(j));
                            let k = choose|k: int| 0 <= k < before.len() && before[k] == j;
                            assert(order@[k] == j);
                        }
                    }
                }
            }
            i = i + 1;
        }
        c = c + 1;
    }
    order
}

/// What a pipeline does with a checker that could not evaluate a request.
#[derive(Clone, Copy, Debug, PartialEq, Eq, Structural)]
pub enum FailurePolicy {
    /// Treat the failure as a rejection.
    FailClosed,
    /// Skip the checker and go on.
    FailOpen,
}

/// Whether a run stops at the first checker that rejects.
#[derive(Clone, Copy, Debug, PartialEq, Eq, Structural)]
pub enum RunMode {
    ShortCircuit,
    /// Run every checker, to report every reason.
    FullDiagnostic,
}

/// A checker together with the policy for its failures.
pub struct Registration<C> {
    pub checker: C,
    pub on_error: FailurePolicy,
}

/// The outcome of running a request through a pipeline.
pub enum Verdict {
    Accepted,
    /// The reasons, in the order the checkers ran; never empty.
    Rejected(Vec<RejectionReason>),
}

pub open spec fn verdict_reasons(v: Verdict) -> Seq<ReasonView> {
    match v {
        Verdict::Accepted => Seq::empty(),
        Verdict::Rejected(rs) => reasons_view(rs@),
    }
}

/// The reason recorded for a fail-closed checker that failed with `msg`.
pub open spec fn failure_reason(msg: Seq<char>) -> ReasonView {
    ("A check could not be completed: "@ + msg, RejectionReasonCode::CheckerFailed)
}

/// The reasons one registered checker contributes for `data`.
pub open spec fn step_reasons<C: Checker>(reg: Registration<C>, data: CheckerData) -> Seq<ReasonView> {
    match reg.checker.spec_check(data) {
        Ok(rs) => rs,
        Err(msg) => match reg.on_error {
            FailurePolicy::FailClosed => seq![failure_reason(msg)],
            FailurePolicy::FailOpen => Seq::empty(),
        },
    }
}

/// Whether a run in `mode` stops at the first rejecting checker; a dry run
/// never does.
pub open spec fn stops_early(mode: RunMode, dry_run: bool) -> bool {
    mode == RunMode::ShortCircuit && !dry_run
}

/// Checkers ordered by cost, run in that order over each request.
pub struct Pipeline<C> {
    checkers: Vec<Registration<C>>,
    order: Vec<usize>,
}

impl<C: Checker> Pipeline<C> {
    pub closed spec fn registrations(&self) -> Seq<Registration<C>> {
        self.checkers@
    }

    pub closed spec fn spec_order(&self) -> Seq<usize> {
        self.order@
    }

    pub open spec fn costs(&self) -> Seq<u8> {
        self.registrations().map_values(|r: Registration<C>| r.checker.spec_cost())
    }

    pub open spec fn wf(&self) -> bool {
        in_cost_order(self.costs(), self.spec_order())
    }

    /// The reasons gathered from the `k`-th checker in run order onwards.
    pub open spec fn reasons_from(&self, data: CheckerData, k: int, early: bool) -> Seq<ReasonView>
        decreases self.spec_order().len() - k,
    {
        if k < 0 || k >= self.spec_order().len() {
            Seq::empty()
        } else {
            let here = step_reasons(self.registrations()[self.spec_order()[k] as int], data);
            if early && here.len() > 0 {
                here
            } else {
                here + self.reasons_from(data, k + 1, early)
            }
        }
    }

    /// Every reason a run of `data` in `mode` reports, in run order.
    pub open spec fn spec_run(&self, data: CheckerData, mode: RunMode, dry_run: bool) -> Seq<ReasonView> {
        self.reasons_from(data, 0, stops_early(mode, dry_run))
    }

    /// Registers the checkers, in this order, and fixes the order they run in.
    pub fn new(checkers: Vec<Registration<C>>) -> (r: Self)
        ensures
            r.wf(),
            r.registrations() == checkers@,
    {
        let mut costs: Vec<u8> = Vec::new();
        let mut i: usize = 0;
        while i < checkers.len()
            invariant
                i <= checkers@.len(),
                costs@ =~= checkers@.subrange(0, i as int).map_values(
                    |r: Registration<C>| r.checker.spec_cost(),
                ),
            decreases checkers.len() - i,
        {
            costs.push(checkers[i].checker.cost());
            i = i + 1;
        }
        assert(checkers@.subrange(0, checkers@.len() as int) =~= checkers@);
        let order = execution_order(&costs);
        Pipeline { checkers, order }
    }

    /// The reasons the registered checker at `idx` contributes for `data`.
    fn step(&self, idx: usize, data: &CheckerData, dry_run: bool) -> (r: Vec<RejectionReason>)
        requires
            idx < self.registrations().len(),
        ensures
            reasons_view(r@) == step_reasons(self.registrations()[idx as int], *data),
    {
        let reg = &self.checkers[idx];
        match reg.checker.check(data, dry_run) {
            Ok(v) => v,
            Err(e) => match reg.on_error {
                FailurePolicy::FailClosed => {
                    let mut message = String::from_str("A check could not be completed: ");
                    message.append(e.message.as_str());
                    let r = vec![RejectionReason::new(message, RejectionReasonCode::CheckerFailed)];
                    assert(reasons_view(r@) =~= seq![failure_reason(e.message@)]);
                    r
                },
                FailurePolicy::FailOpen => {
                    let r: Vec<RejectionReason> = Vec::new();
                    assert(reasons_view(r@) =~= Seq::empty());
                    r
                },
            },
        }
    }

    /// Runs `data` through the checkers, cheapest first. In short-circuit mode
    /// the run stops at the first checker that rejects, unless it is a dry run,
    /// which always reports every reason. The request is rejected exactly when
    /// some reason is reported. The pipeline is not changed, so the same request
    /// always gets the same verdict.
    pub fn run(&self, data: &CheckerData, mode: RunMode, dry_run: bool) -> (r: Verdict)
        requires
            self.wf(),
        ensures
            verdict_reasons(r) == self.spec_run(*data, mode, dry_run),
            r is Accepted <==> self.spec_run(*data, mode, dry_run).len() == 0,
    {
        let early = match mode {
            RunMode::ShortCircuit => !dry_run,
            RunMode::FullDiagnostic => false,
        };
        let ghost total = self.reasons_from(*data, 0, early);
        let mut acc: Vec<RejectionReason> = Vec::new();
        let mut done = false;
        let mut k: usize = 0;
        assert(reasons_view(acc@) =~= Seq::empty());
        assert(reasons_view(acc@) + self.reasons_from(*data, 0, early) =~= total);
        while k < self.order.len() && !done
            invariant
                self.wf(),
                early == stops_early(mode, dry_run),
                total == self.reasons_from(*data, 0, early),
                k <= self.spec_order().len(),
                done ==> reasons_view(acc@) == total,
                !done ==> reasons_view(acc@) + self.reasons_from(*data, k as int, early) == total,
            decreases self.spec_order().len() - k, if done { 0int } else { 1int },
        {
            let idx = self.order[k];
            assert(idx < self.registrations().len()) by {
                assert(self.costs().len() == self.registrations().len());
                assert(self.spec_order()[k as int] < self.costs().len());
            }
            let mut here = self.step(idx, data, dry_run);
            let ghost acc0 = acc@;
            let ghost here0 = here@;
            let nonempty = here.len() > 0;
            acc.append(&mut here);
            assert(reasons_view(acc@) =~= reasons_view(acc0) + reasons_view(here0));
            if early && nonempty {
                assert(reasons_view(here0).len() > 0);
                done = true;
            } else {
                assert(reasons_view(acc0) + reasons_view(here0) + self.reasons_from(*data, k + 1, early)
                    =~= reasons_view(acc0) + (reasons_view(here0) + self.reasons_from(*data, k + 1, early)));
                k = k + 1;
            }
        }
        if !done {
            assert(reasons_view(acc@) =~= total);
        }
        if acc.len() == 0 {
            Verdict::Accepted
        } else {
            Verdict::Rejected(acc)
        }
    }

    /// Registration indices in the order the checkers run.
    pub fn order(&self) -> (r: &Vec<usize>)
        ensures
            r@ == self.spec_order(),
    {
        &self.order
    }

    pub fn len(&self) -> (r: usize)
        ensures
            r == self.registrations().len(),
    {
        self.checkers.len()
    }
}

/// The same request run twice through the same pipeline, with nothing
/// refreshed in between, gets the same reasons and so the same verdict.
pub proof fn lemma_run_repeatable<C: Checker>(
    p: Pipeline<C>,
    q: Pipeline<C>,
    data: CheckerData,
    mode: RunMode,
    dry_run: bool,
)
    requires
        p == q,
    ensures
        p.spec_run(data, mode, dry_run) == q.spec_run(data, mode, dry_run),
{
}

} // verus!
