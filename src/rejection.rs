use vstd::prelude::*;

verus! {

/// Stable, machine-readable identifier of one kind of admission failure.
#[derive(Clone, Copy, Debug, PartialEq, Eq, Structural)]
pub enum RejectionReasonCode {
    /// The request's referer is on a blocklist.
    RefererBlocklisted,
    /// A checker could not evaluate the request and its policy is fail-closed.
    CheckerFailed,
}

/// One reason a request is refused: a message for people and a code for machines.
pub struct RejectionReason {
    pub message: String,
    pub code: RejectionReasonCode,
}

/// What a rejection reason says: its message and its code.
pub type ReasonView = (Seq<char>, RejectionReasonCode);

impl View for RejectionReason {
    type V = ReasonView;

    open spec fn view(&self) -> ReasonView {
        (self.message@, self.code)
    }
}

/// The views of a sequence of reasons, in order.
pub open spec fn reasons_view(rs: Seq<RejectionReason>) -> Seq<ReasonView> {
    rs.map_values(|r: RejectionReason| r@)
}

impl RejectionReason {
    pub fn new(message: String, code: RejectionReasonCode) -> (r: Self)
        ensures
            r@ == (message@, code),
    {
        RejectionReason { message, code }
    }

    pub fn message(&self) -> (r: &String)
        ensures
            r@ == self.message@,
    {
        &self.message
    }

    pub fn code(&self) -> (r: RejectionReasonCode)
        ensures
            r == self.code,
    {
        self.code
    }
}

/// A checker could not evaluate a request: an infrastructure failure, never a
/// verdict on the request itself.
pub struct AdmissionError {
    pub message: String,
}

impl AdmissionError {
    pub fn new(message: String) -> (r: Self)
        ensures
            r.message@ == message@,
    {
        AdmissionError { message }
    }
}

} // verus!
