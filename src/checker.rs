use crate::checker_data::{header_value, CheckerData};
use crate::list_manager::{host_of, host_text, texts, ListManager, ListManagerConfig, LoadError};
use crate::rejection::{reasons_view, AdmissionError, ReasonView, RejectionReason, RejectionReasonCode};
use vstd::prelude::*;

verus! {

/// What a check yields: the reasons, in order, or the message of the failure.
pub type CheckView = Result<Seq<ReasonView>, Seq<char>>;

pub open spec fn outcome_view(r: Result<Vec<RejectionReason>, AdmissionError>) -> CheckView {
    match r {
        Ok(v) => Ok(reasons_view(v@)),
        Err(e) => Err(e.message@),
    }
}

/// One unit of admission policy.
///
/// `check` must not change shared state when `dry_run` is set; what it reports
/// does not depend on the flag. Rejection is data, never an `Err`: an `Err`
/// means the request could not be evaluated.
pub trait Checker {
    spec fn spec_check(&self, data: CheckerData) -> CheckView;

    spec fn spec_cost(&self) -> u8;

    fn check(&self, data: &CheckerData, dry_run: bool) -> (r: Result<
        Vec<RejectionReason>,
        AdmissionError,
    >)
        ensures
            outcome_view(r) == self.spec_check(*data),
    ;

    /// A coarse relative expense, used only to order checkers.
    fn cost(&self) -> (r: u8)
        ensures
            r == self.spec_cost(),
    ;
}

/// The header that names the page a request came from.
pub open spec fn referer_name() -> Seq<char> {
    "referer"@
}

/// The reason given for a blocklisted referer.
pub open spec fn referer_rejection(referrer: Seq<char>) -> ReasonView {
    (
        "The provided referrer is not allowed by the server: "@ + referrer,
        RejectionReasonCode::RefererBlocklisted,
    )
}

/// The referer, or the host it names, is on the list.
pub open spec fn referer_listed(m: ListManager, referrer: Seq<char>) -> bool {
    m.spec_contains(referrer) || m.spec_contains(host_of(referrer))
}

/// Rejects requests whose referer, or the host it names, is on a list.
#[derive(Clone)]
pub struct RefererBlocklistChecker {
    manager: ListManager,
}

impl RefererBlocklistChecker {
    pub closed spec fn spec_manager(&self) -> ListManager {
        self.manager
    }

    /// Loads the blocklist from what its source produced at `now_secs`; a
    /// source that could not be read fails construction.
    pub fn new(config: ListManagerConfig, fetched: Result<Vec<String>, String>, now_secs: u64) -> (r:
        Result<Self, LoadError>)
        ensures
            match fetched {
                Err(msg) => r matches Err(e) && e.message@ == msg@,
                Ok(raw) => r matches Ok(c) && {
                    &&& c.spec_manager().wf()
                    &&& c.spec_manager().spec_snapshot().holds_exactly(texts(raw@))
                    &&& c.spec_manager().spec_case_sensitive() == config.case_sensitive
                    &&& c.spec_manager().spec_match_mode() == config.match_mode
                    &&& c.spec_manager().spec_refresh_interval() == config.refresh_interval_secs
                    &&& c.spec_manager().spec_source() == config.source
                    &&& !c.spec_manager().spec_refreshing()
                },
            },
    {
        match ListManager::new(config, fetched, now_secs) {
            Ok(manager) => Ok(RefererBlocklistChecker { manager }),
            Err(e) => Err(e),
        }
    }

    pub fn manager(&self) -> (r: &ListManager)
        ensures
            *r == self.spec_manager(),
    {
        &self.manager
    }

    /// Claims the blocklist's single refresh slot; see `ListManager::begin_refresh`.
    pub fn begin_refresh(&mut self) -> (started: bool)
        ensures
            started == !old(self).spec_manager().spec_refreshing(),
            final(self).spec_manager().spec_refreshing(),
            final(self).spec_manager().spec_snapshot() == old(self).spec_manager().spec_snapshot(),
            old(self).spec_manager().wf() ==> final(self).spec_manager().wf(),
            final(self).spec_manager().spec_case_sensitive() == old(self).spec_manager().spec_case_sensitive(),
            final(self).spec_manager().spec_match_mode() == old(self).spec_manager().spec_match_mode(),
            final(self).spec_manager().spec_refresh_interval() == old(self).spec_manager().spec_refresh_interval(),
            final(self).spec_manager().spec_source() == old(self).spec_manager().spec_source(),
    {
        self.manager.begin_refresh()
    }

    /// Ends a refresh of the blocklist; see `ListManager::finish_refresh`.
    pub fn finish_refresh(&mut self, fetched: Result<Vec<String>, String>, now_secs: u64) -> (published: bool)
        requires
            old(self).spec_manager().wf(),
        ensures
            final(self).spec_manager().wf(),
            published == fetched is Ok,
            !final(self).spec_manager().spec_refreshing(),
            match fetched {
                Ok(raw) => final(self).spec_manager().spec_snapshot().holds_exactly(texts(raw@)),
                Err(_) => final(self).spec_manager().spec_snapshot() == old(
                    self,
                ).spec_manager().spec_snapshot(),
            },
            final(self).spec_manager().spec_case_sensitive() == old(self).spec_manager().spec_case_sensitive(),
            final(self).spec_manager().spec_match_mode() == old(self).spec_manager().spec_match_mode(),
            final(self).spec_manager().spec_refresh_interval() == old(self).spec_manager().spec_refresh_interval(),
            final(self).spec_manager().spec_source() == old(self).spec_manager().spec_source(),
    {
        self.manager.finish_refresh(fetched, now_secs)
    }
}

impl Checker for RefererBlocklistChecker {
    open spec fn spec_check(&self, data: CheckerData) -> CheckView {
        match header_value(data.headers@, referer_name()) {
            None => Ok(Seq::empty()),
            Some(r) => if referer_listed(self.spec_manager(), r) {
                Ok(seq![referer_rejection(r)])
            } else {
                Ok(Seq::empty())
            },
        }
    }

    open spec fn spec_cost(&self) -> u8 {
        2
    }

    fn check(&self, data: &CheckerData, dry_run: bool) -> (r: Result<
        Vec<RejectionReason>,
        AdmissionError,
    >) {
        let referrer = match data.header("referer") {
            Some(referrer) => referrer,
            None => {
                let r: Vec<RejectionReason> = Vec::new();
                assert(reasons_view(r@) =~= Seq::empty());
                return Ok(r);
            },
        };
        if self.manager.contains(referrer.as_str()) || self.manager.contains(
            host_text(referrer.as_str()).as_str(),
        ) {
            let mut message = String::from_str("The provided referrer is not allowed by the server: ");
            message.append(referrer.as_str());
            let r = vec![RejectionReason::new(message, RejectionReasonCode::RefererBlocklisted)];
            assert(reasons_view(r@) =~= seq![referer_rejection(referrer@)]);
            Ok(r)
        } else {
            let r: Vec<RejectionReason> = Vec::new();
            assert(reasons_view(r@) =~= Seq::empty());
            Ok(r)
        }
    }

    fn cost(&self) -> (r: u8) {
        2
    }
}

/// Without a referer the checker abstains, whatever its list holds.
pub proof fn lemma_abstains_without_referer(c: RefererBlocklistChecker, data: CheckerData)
    requires
        header_value(data.headers@, referer_name()).is_none(),
    ensures
        c.spec_check(data) == Ok::<Seq<ReasonView>, Seq<char>>(Seq::empty()),
{
}

/// A listed referer yields exactly one reason, with the blocklist's code and a
/// message that names the referer.
pub proof fn lemma_listed_referer_rejected_once(c: RefererBlocklistChecker, data: CheckerData, referrer: Seq<char>)
    requires
        header_value(data.headers@, referer_name()) == Some(referrer),
        referer_listed(c.spec_manager(), referrer),
    ensures
        c.spec_check(data) matches Ok(rs) && rs.len() == 1
            && rs[0].1 == RejectionReasonCode::RefererBlocklisted
            && rs[0] == referer_rejection(referrer),
{
}

} // verus!
