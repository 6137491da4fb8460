//! One exchange with the gateway: which servers are tried, and what their
//! replies mean.

use vstd::prelude::*;

use crate::gateway_client;
use crate::gateway_client::GatewayClient;
use crate::types;
use crate::types::{HttpFailure, MobileError};

verus! {

/// What is asked of the gateway.
#[derive(Debug, Clone, Copy, PartialEq, Eq, Structural)]
pub enum Endpoint {
    Token,
    Register,
    Heartbeat,
    Unregister,
    CallOffer,
    Accept,
    Reject,
    MakeCall,
    CallStatus,
    Hangup,
}

/// How one request ended.
#[derive(Debug, Clone, Copy, PartialEq, Eq, Structural)]
pub enum Reply {
    /// No response came.
    Failed(HttpFailure),
    /// A response came, with this status code.
    Status(u16),
}

/// What follows from a reply.
#[derive(Debug)]
pub enum Step {
    /// Send the request to the next target.
    Retry(Exchange),
    /// The gateway did as asked; its answer is in the response body.
    ReadBody,
    /// The gateway did as asked.
    Done,
    /// The exchange failed.
    Failed(MobileError),
}

/// [`Step`] as plain values.
pub enum StepView {
    Retry(ExchangeView),
    ReadBody,
    Done,
    Failed(MobileError),
}

/// [`Exchange`] as plain values.
pub struct ExchangeView {
    pub endpoint: Endpoint,
    /// How many targets there are to try.
    pub targets: nat,
    /// The target that is being tried.
    pub attempt: nat,
}

/// A request that is under way.
#[derive(Debug)]
pub struct Exchange {
    endpoint: Endpoint,
    targets: usize,
    attempt: usize,
}

impl View for Exchange {
    type V = ExchangeView;

    closed spec fn view(&self) -> ExchangeView {
        ExchangeView {
            endpoint: self.endpoint,
            targets: self.targets as nat,
            attempt: self.attempt as nat,
        }
    }
}

impl View for Step {
    type V = StepView;

    open spec fn view(&self) -> StepView {
        match *self {
            Step::Retry(exchange) => StepView::Retry(exchange@),
            Step::ReadBody => StepView::ReadBody,
            Step::Done => StepView::Done,
            Step::Failed(e) => StepView::Failed(e),
        }
    }
}

/// Requests that are tried on one resolved target after the other. All others
/// go over the base connection only.
pub open spec fn fails_over(endpoint: Endpoint) -> bool {
    match endpoint {
        Endpoint::Token | Endpoint::Register | Endpoint::Heartbeat | Endpoint::MakeCall => true,
        _ => false,
    }
}

/// Requests whose answer is in the response body.
pub open spec fn wants_body(endpoint: Endpoint) -> bool {
    match endpoint {
        Endpoint::Token | Endpoint::Register | Endpoint::CallOffer | Endpoint::MakeCall
        | Endpoint::CallStatus => true,
        _ => false,
    }
}

/// The error for a response that is not a success.
pub open spec fn refusal(endpoint: Endpoint) -> MobileError {
    match endpoint {
        Endpoint::Token => MobileError::AuthenticationError,
        Endpoint::Register => MobileError::RegistrationFailed,
        Endpoint::Heartbeat => MobileError::NetworkError,
        Endpoint::Unregister => MobileError::GatewayError,
        _ => MobileError::CallFailed,
    }
}

/// A status code that means success.
pub open spec fn is_success(status: u16) -> bool {
    200 <= status <= 299
}

/// Whether a reply leaves the exchange open, so that another target may still
/// answer. A heartbeat goes on after a refusal; every other request takes the
/// first response for an answer.
pub open spec fn is_inconclusive(endpoint: Endpoint, reply: Reply) -> bool {
    match reply {
        Reply::Failed(_) => true,
        Reply::Status(status) => endpoint == Endpoint::Heartbeat && !is_success(status),
    }
}

/// What a reply means if it is the last one.
pub open spec fn verdict(endpoint: Endpoint, reply: Reply) -> StepView {
    match reply {
        Reply::Failed(failure) => StepView::Failed(
            if endpoint == Endpoint::Heartbeat {
                MobileError::NetworkError
            } else {
                types::http_error(failure)
            },
        ),
        Reply::Status(status) => if !is_success(status) {
            StepView::Failed(refusal(endpoint))
        } else if wants_body(endpoint) {
            StepView::ReadBody
        } else {
            StepView::Done
        },
    }
}

/// What follows from `reply`.
pub open spec fn step_after(x: ExchangeView, reply: Reply) -> StepView {
    if is_inconclusive(x.endpoint, reply) && x.attempt + 1 < x.targets {
        StepView::Retry(ExchangeView { attempt: x.attempt + 1, ..x })
    } else {
        verdict(x.endpoint, reply)
    }
}

/// An exchange of a gateway at its start.
pub open spec fn fresh_exchange(
    g: gateway_client::GatewayView,
    endpoint: Endpoint,
) -> ExchangeView {
    ExchangeView {
        endpoint,
        targets: if fails_over(endpoint) {
            gateway_client::target_count(g)
        } else {
            1
        },
        attempt: 0,
    }
}

fn is_success_status(status: u16) -> (r: bool)
    ensures
        r == is_success(status),
{
    200 <= status && status <= 299
}

impl Exchange {
    #[verifier::type_invariant]
    spec fn within_targets(self) -> bool {
        self.attempt < self.targets
    }

    /// Starts an exchange: the request goes to the first target.
    pub fn begin(gateway: &GatewayClient, endpoint: Endpoint) -> (r: Exchange)
        ensures
            r@ == fresh_exchange(gateway@, endpoint),
    {
        let targets: usize = match endpoint {
            Endpoint::Token | Endpoint::Register | Endpoint::Heartbeat | Endpoint::MakeCall =>
                gateway.resolved_target_count(),
            _ => 1,
        };
        Exchange { endpoint, targets, attempt: 0 }
    }

    /// The target to which the request goes now.
    pub fn attempt(&self) -> (r: usize)
        ensures
            r == self@.attempt,
            r < self@.targets,
    {
        proof {
            use_type_invariant(self);
        }
        self.attempt
    }

    /// What follows from the reply to the request.
    pub fn on_reply(self, reply: Reply) -> (r: Step)
        ensures
            r@ == step_after(self@, reply),
    {
        proof {
            use_type_invariant(&self);
        }
        let more = self.targets - self.attempt > 1;
        match reply {
            Reply::Failed(failure) => {
                if more {
                    self.next_target()
                } else {
                    match self.endpoint {
                        Endpoint::Heartbeat => Step::Failed(MobileError::NetworkError),
                        _ => Step::Failed(MobileError::from(failure)),
                    }
                }
            },
            Reply::Status(status) => {
                if is_success_status(status) {
                    match self.endpoint {
                        Endpoint::Token | Endpoint::Register | Endpoint::CallOffer
                        | Endpoint::MakeCall | Endpoint::CallStatus => Step::ReadBody,
                        _ => Step::Done,
                    }
                } else {
                    match self.endpoint {
                        Endpoint::Token => Step::Failed(MobileError::AuthenticationError),
                        Endpoint::Register => Step::Failed(MobileError::RegistrationFailed),
                        Endpoint::Heartbeat => if more {
                            self.next_target()
                        } else {
                            Step::Failed(MobileError::NetworkError)
                        },
                        Endpoint::Unregister => Step::Failed(MobileError::GatewayError),
                        _ => Step::Failed(MobileError::CallFailed),
                    }
                }
            },
        }
    }

    fn next_target(self) -> (r: Step)
        requires
            self@.attempt + 1 < self@.targets,
        ensures
            r@ == StepView::Retry(ExchangeView { attempt: self@.attempt + 1, ..self@ }),
    {
        Step::Retry(
            Exchange {
                endpoint: self.endpoint,
                targets: self.targets,
                attempt: self.attempt + 1,
            },
        )
    }
}

// ── Laws ────────────────────────────────────────────────────────────────────

/// How an exchange ends when target `i` replies `replies[i]`.
pub open spec fn conclusion(x: ExchangeView, replies: Seq<Reply>) -> StepView
    decreases x.targets - x.attempt,
    when x.attempt < x.targets
{
    match step_after(x, replies[x.attempt as int]) {
        StepView::Retry(next) => conclusion(next, replies),
        step => step,
    }
}

/// Every exchange comes to an end, and the targets are tried in order, each
/// at most once.
pub proof fn targets_are_tried_in_order(x: ExchangeView, reply: Reply)
    requires
        x.attempt < x.targets,
    ensures
        step_after(x, reply) matches StepView::Retry(next) ==> next.attempt == x.attempt + 1
            && next.attempt < next.targets && next.targets == x.targets && next.endpoint
            == x.endpoint,
{
}

proof fn lemma_conclusion(x: ExchangeView, replies: Seq<Reply>, k: nat)
    requires
        x.attempt <= k < x.targets,
        forall|i: int|
            x.attempt <= i < k ==> is_inconclusive(x.endpoint, #[trigger] replies[i]),
        k + 1 < x.targets ==> !is_inconclusive(x.endpoint, replies[k as int]),
    ensures
        conclusion(x, replies) == verdict(x.endpoint, replies[k as int]),
    decreases k - x.attempt,
{
    if x.attempt < k {
        assert(is_inconclusive(x.endpoint, replies[x.attempt as int]));
        let next = ExchangeView { attempt: x.attempt + 1, ..x };
        lemma_conclusion(next, replies, k);
    }
}

/// The first target that answers decides: whatever the targets before it did
/// not answer, and whatever the ones behind it would, the exchange ends with
/// its answer.
pub proof fn first_answer_decides(
    g: gateway_client::GatewayView,
    endpoint: Endpoint,
    replies: Seq<Reply>,
    k: nat,
)
    requires
        k < fresh_exchange(g, endpoint).targets,
        forall|i: int| 0 <= i < k ==> is_inconclusive(endpoint, #[trigger] replies[i]),
        !is_inconclusive(endpoint, replies[k as int]),
    ensures
        conclusion(fresh_exchange(g, endpoint), replies) == verdict(endpoint, replies[k as int]),
{
    lemma_conclusion(fresh_exchange(g, endpoint), replies, k);
}

/// If no target answers, the exchange fails with the error of the last one.
pub proof fn without_answer_the_last_error_stands(
    g: gateway_client::GatewayView,
    endpoint: Endpoint,
    replies: Seq<Reply>,
)
    requires
        forall|i: int|
            0 <= i < fresh_exchange(g, endpoint).targets ==> is_inconclusive(
                endpoint,
                #[trigger] replies[i],
            ),
    ensures
        conclusion(fresh_exchange(g, endpoint), replies) == verdict(
            endpoint,
            replies[fresh_exchange(g, endpoint).targets - 1],
        ),
        conclusion(fresh_exchange(g, endpoint), replies) is Failed,
{
    let x = fresh_exchange(g, endpoint);
    lemma_conclusion(x, replies, (x.targets - 1) as nat);
    assert(is_inconclusive(endpoint, replies[x.targets - 1]));
}

/// A response ends every exchange but a heartbeat, whatever its status code is
/// and however many targets are left: with success for the codes from 200 to
/// 299, with the refusal that belongs to the request for all others.
pub proof fn responses_are_final(x: ExchangeView, status: u16)
    requires
        x.endpoint != Endpoint::Heartbeat,
    ensures
        ({
            let step = step_after(x, Reply::Status(status));
            &&& step !is Retry
            &&& 200 <= status <= 299 ==> step == match x.endpoint {
                Endpoint::Token | Endpoint::Register | Endpoint::CallOffer | Endpoint::MakeCall
                | Endpoint::CallStatus => StepView::ReadBody,
                Endpoint::Heartbeat | Endpoint::Unregister | Endpoint::Accept | Endpoint::Reject
                | Endpoint::Hangup => StepView::Done,
            }
            &&& status < 200 || status > 299 ==> step == StepView::Failed(
                match x.endpoint {
                    Endpoint::Token => MobileError::AuthenticationError,
                    Endpoint::Register => MobileError::RegistrationFailed,
                    Endpoint::Heartbeat => MobileError::NetworkError,
                    Endpoint::Unregister => MobileError::GatewayError,
                    Endpoint::CallOffer | Endpoint::Accept | Endpoint::Reject | Endpoint::MakeCall
                    | Endpoint::CallStatus | Endpoint::Hangup => MobileError::CallFailed,
                },
            )
        }),
{
}

/// A heartbeat is done at the first target that takes it; a target that refuses
/// it or does not answer leaves it to the next one, and the last such target
/// leaves a network error.
pub proof fn heartbeats_go_on_until_taken(x: ExchangeView, status: u16, timed_out: bool)
    requires
        x.endpoint == Endpoint::Heartbeat,
        x.attempt < x.targets,
    ensures
        200 <= status <= 299 ==> step_after(x, Reply::Status(status)) == StepView::Done,
        ({
            let step = if x.attempt + 1 < x.targets {
                StepView::Retry(
                    ExchangeView {
                        endpoint: Endpoint::Heartbeat,
                        targets: x.targets,
                        attempt: x.attempt + 1,
                    },
                )
            } else {
                StepView::Failed(MobileError::NetworkError)
            };
            &&& status < 200 || status > 299 ==> step_after(x, Reply::Status(status)) == step
            &&& step_after(x, Reply::Failed(HttpFailure { timed_out })) == step
        }),
{
}

/// A target that does not answer leaves the request to the next one. The last
/// one leaves a timeout if the time limit was reached, and a network error
/// otherwise.
pub proof fn silence_leads_to_the_next_target(x: ExchangeView, timed_out: bool)
    requires
        x.endpoint != Endpoint::Heartbeat,
        x.attempt < x.targets,
    ensures
        step_after(x, Reply::Failed(HttpFailure { timed_out })) == if x.attempt + 1 < x.targets {
            StepView::Retry(
                ExchangeView { endpoint: x.endpoint, targets: x.targets, attempt: x.attempt + 1 },
            )
        } else if timed_out {
            StepView::Failed(MobileError::Timeout)
        } else {
            StepView::Failed(MobileError::NetworkError)
        },
{
}

/// Tokens, registrations, heartbeats and new calls are tried on every resolved
/// target, and on the base connection if there is none; all other requests on
/// the base connection only. The first target is tried first.
pub proof fn requests_fail_over_to_every_target(
    g: gateway_client::GatewayView,
    endpoint: Endpoint,
)
    ensures
        ({
            let x = fresh_exchange(g, endpoint);
            &&& x.endpoint == endpoint
            &&& x.attempt == 0
            &&& x.targets == match endpoint {
                Endpoint::Token | Endpoint::Register | Endpoint::Heartbeat | Endpoint::MakeCall =>
                    if g.targets.len() > 0 {
                        g.targets.len()
                    } else {
                        1
                    },
                Endpoint::Unregister | Endpoint::CallOffer | Endpoint::Accept | Endpoint::Reject
                | Endpoint::CallStatus | Endpoint::Hangup => 1,
            }
        }),
{
}

/// However many targets failed to answer before, the first response is the
/// outcome of a request that is no heartbeat; the targets behind it are not
/// asked.
pub proof fn first_response_is_the_outcome(
    g: gateway_client::GatewayView,
    endpoint: Endpoint,
    replies: Seq<Reply>,
    k: nat,
    status: u16,
)
    requires
        endpoint != Endpoint::Heartbeat,
        k < fresh_exchange(g, endpoint).targets,
        forall|i: int| 0 <= i < k ==> #[trigger] replies[i] is Failed,
        replies[k as int] == Reply::Status(status),
    ensures
        conclusion(fresh_exchange(g, endpoint), replies) is Failed <==> status < 200 || status
            > 299,
{
    assert forall|i: int| 0 <= i < k implies is_inconclusive(endpoint, #[trigger] replies[i]) by {
        assert(replies[i] is Failed);
    }
    first_answer_decides(g, endpoint, replies, k);
}

/// A step is handed over as it is noted.
pub proof fn steps_are_handed_over_as_noted(exchange: Exchange, e: MobileError)
    ensures
        Step::Retry(exchange)@ == StepView::Retry(exchange@),
        Step::ReadBody@ == StepView::ReadBody,
        Step::Done@ == StepView::Done,
        Step::Failed(e)@ == StepView::Failed(e),
{
}

} // verus!
