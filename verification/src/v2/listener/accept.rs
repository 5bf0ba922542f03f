//! Accepting one admission.
//!
//! The order is: permit, handshake, peer identity, control stream, hello,
//! sweeps, ticket admission (which redeems the ticket durably), durable lease
//! reservation, session commit, durable lease commit, and only then the
//! `SessionAdmit`. A failure on the way undoes what was done, in reverse.
use super::config::V2AdmissionListenerError;
use super::template;
use super::template::SessionAdmitTemplate;
use crate::v2::address_pool::AssignedAddresses;
use crate::v2::admission::AdmissionAccepted;
use crate::v2::control::ControlFrame;
use vstd::prelude::*;

verus! {

/// What a `SessionAdmit` is built from: the transaction of the hello, the
/// admission and its committed lease.
#[derive(Clone, Copy, PartialEq, Eq)]
pub struct AdmitResponse {
    pub transaction_id: u64,
    pub admitted: AdmissionAccepted,
    pub lease: AssignedAddresses,
}

/// What to do next, and for whom. It has no text form, as the identities in it
/// are not to be logged.
#[derive(Clone, Copy, PartialEq, Eq)]
pub enum AcceptStep {
    /// Wait for a connection attempt.
    Accept,
    /// Ask for a handshake permit for its source.
    AcquirePermit,
    /// Refuse the attempt.
    RefuseAttempt,
    /// Shake hands within the handshake timeout.
    Handshake,
    /// Give the permit back.
    ReleasePermit,
    /// Take the device identity from the verified certificate chain.
    IdentifyPeer,
    /// Wait for the control stream within its timeout.
    OpenControl,
    /// Read the hello.
    ReadHello,
    /// Check the hello.
    CheckHello,
    /// Sweep the session map.
    SweepSessions,
    /// Sweep the address pool and close the sessions of expired leases.
    SweepPool,
    /// Admit by ticket.
    Admit,
    /// Reserve a lease for the admission's session and device.
    ReserveLease(AdmissionAccepted),
    /// Commit the session and bind the connection.
    CommitSession(AdmissionAccepted),
    /// Commit the session's lease.
    CommitLease(AdmissionAccepted),
    /// Build the `SessionAdmit`: see [`AcceptFlow::build_response`].
    BuildResponse(AdmitResponse),
    /// Write it.
    WriteResponse(AdmitResponse),
    /// Release the session's lease durably.
    ReleaseLease(AdmissionAccepted),
    /// Abort the admission.
    AbortAdmission(AdmissionAccepted),
    /// Close the session.
    CloseSession(AdmissionAccepted),
    /// Close the connection as rejected.
    CloseConnection,
    /// Nothing: it is decided, and this was admitted.
    Finished(Result<AdmissionAccepted, V2AdmissionListenerError>),
}

/// What came of a step.
#[derive(Clone, Copy, PartialEq, Eq)]
pub enum AcceptOutcome {
    Worked,
    Failed,
    TimedOut,
    /// The hello was read in this transaction.
    Hello(u64),
    /// The ticket admits this session.
    Admitted(AdmissionAccepted),
    /// The session holds this lease.
    Leased(AssignedAddresses),
}

/// Where an accept stands. `failure` is why it is being undone; `committed`
/// says whether its session was; `transaction_id` is that of the hello.
pub struct AcceptModel {
    pub step: AcceptStep,
    pub transaction_id: u64,
    pub failure: Option<V2AdmissionListenerError>,
    pub committed: bool,
}

impl AcceptModel {
    pub open spec fn at(self, step: AcceptStep) -> Self {
        AcceptModel { step, ..self }
    }

    pub open spec fn undo(self, step: AcceptStep, failure: V2AdmissionListenerError) -> Self {
        AcceptModel { step, failure: Some(failure), ..self }
    }

    /// Goes on where a step worked, and undoes otherwise.
    pub open spec fn either(
        self,
        outcome: AcceptOutcome,
        on: AcceptStep,
        undoing: AcceptStep,
        failure: V2AdmissionListenerError,
    ) -> Self {
        if outcome is Worked {
            self.at(on)
        } else {
            self.undo(undoing, failure)
        }
    }

    /// After a step.
    pub open spec fn next(self, outcome: AcceptOutcome) -> Self {
        match self.step {
            AcceptStep::Accept => if outcome is Worked {
                self.at(AcceptStep::AcquirePermit)
            } else {
                self.at(AcceptStep::Finished(Err(V2AdmissionListenerError::EndpointClosed)))
            },
            AcceptStep::AcquirePermit => self.either(
                outcome,
                AcceptStep::Handshake,
                AcceptStep::RefuseAttempt,
                V2AdmissionListenerError::Limited,
            ),
            AcceptStep::RefuseAttempt => self.at(
                AcceptStep::Finished(Err(V2AdmissionListenerError::Limited)),
            ),
            AcceptStep::Handshake => match outcome {
                AcceptOutcome::Worked => self.at(AcceptStep::ReleasePermit),
                AcceptOutcome::TimedOut => self.undo(
                    AcceptStep::ReleasePermit,
                    V2AdmissionListenerError::HandshakeDeadline,
                ),
                _ => self.undo(AcceptStep::ReleasePermit, V2AdmissionListenerError::Handshake),
            },
            AcceptStep::ReleasePermit => match self.failure {
                None => self.at(AcceptStep::IdentifyPeer),
                Some(failure) => self.at(AcceptStep::Finished(Err(failure))),
            },
            AcceptStep::IdentifyPeer => self.either(
                outcome,
                AcceptStep::OpenControl,
                AcceptStep::CloseConnection,
                V2AdmissionListenerError::PeerIdentity,
            ),
            AcceptStep::OpenControl => match outcome {
                AcceptOutcome::Worked => self.at(AcceptStep::ReadHello),
                AcceptOutcome::TimedOut => self.undo(
                    AcceptStep::CloseConnection,
                    V2AdmissionListenerError::ControlStreamDeadline,
                ),
                _ => self.undo(
                    AcceptStep::CloseConnection,
                    V2AdmissionListenerError::ControlStream,
                ),
            },
            AcceptStep::ReadHello => match outcome {
                AcceptOutcome::Hello(transaction_id) => AcceptModel {
                    step: AcceptStep::CheckHello,
                    transaction_id,
                    ..self
                },
                _ => self.undo(
                    AcceptStep::CloseConnection,
                    V2AdmissionListenerError::InvalidControl,
                ),
            },
            AcceptStep::CheckHello => self.either(
                outcome,
                AcceptStep::SweepSessions,
                AcceptStep::CloseConnection,
                V2AdmissionListenerError::InvalidControl,
            ),
            AcceptStep::SweepSessions => self.either(
                outcome,
                AcceptStep::SweepPool,
                AcceptStep::CloseConnection,
                V2AdmissionListenerError::AdmissionRejected,
            ),
            AcceptStep::SweepPool => self.at(AcceptStep::Admit),
            AcceptStep::Admit => match outcome {
                AcceptOutcome::Admitted(admitted) => self.at(AcceptStep::ReserveLease(admitted)),
                _ => self.undo(
                    AcceptStep::CloseConnection,
                    V2AdmissionListenerError::AdmissionRejected,
                ),
            },
            AcceptStep::ReserveLease(admitted) => self.either(
                outcome,
                AcceptStep::CommitSession(admitted),
                AcceptStep::AbortAdmission(admitted),
                V2AdmissionListenerError::AddressPool,
            ),
            AcceptStep::CommitSession(admitted) => if outcome is Worked {
                AcceptModel { step: AcceptStep::CommitLease(admitted), committed: true, ..self }
            } else {
                self.undo(
                    AcceptStep::ReleaseLease(admitted),
                    V2AdmissionListenerError::AdmissionRejected,
                )
            },
            AcceptStep::CommitLease(admitted) => match outcome {
                AcceptOutcome::Leased(lease) => self.at(
                    AcceptStep::BuildResponse(
                        AdmitResponse { transaction_id: self.transaction_id, admitted, lease },
                    ),
                ),
                _ => self.undo(
                    AcceptStep::ReleaseLease(admitted),
                    V2AdmissionListenerError::AddressPool,
                ),
            },
            AcceptStep::BuildResponse(response) => self.either(
                outcome,
                AcceptStep::WriteResponse(response),
                AcceptStep::ReleaseLease(response.admitted),
                V2AdmissionListenerError::InvalidAdmission,
            ),
            AcceptStep::WriteResponse(response) => self.either(
                outcome,
                AcceptStep::Finished(Ok(response.admitted)),
                AcceptStep::ReleaseLease(response.admitted),
                V2AdmissionListenerError::ResponseWrite,
            ),
            AcceptStep::ReleaseLease(admitted) => if self.committed {
                self.at(AcceptStep::CloseSession(admitted))
            } else {
                self.at(AcceptStep::AbortAdmission(admitted))
            },
            AcceptStep::AbortAdmission(_) => self.at(AcceptStep::CloseConnection),
            AcceptStep::CloseSession(_) => self.at(AcceptStep::CloseConnection),
            AcceptStep::CloseConnection => match self.failure {
                Some(failure) => self.at(AcceptStep::Finished(Err(failure))),
                None => self.at(
                    AcceptStep::Finished(Err(V2AdmissionListenerError::AdmissionRejected)),
                ),
            },
            AcceptStep::Finished(_) => self,
        }
    }
}

/// One accept.
pub struct AcceptFlow {
    step: AcceptStep,
    transaction_id: u64,
    failure: Option<V2AdmissionListenerError>,
    committed: bool,
}

impl View for AcceptFlow {
    type V = AcceptModel;

    closed spec fn view(&self) -> AcceptModel {
        AcceptModel {
            step: self.step,
            transaction_id: self.transaction_id,
            failure: self.failure,
            committed: self.committed,
        }
    }
}

/// Where every accept begins.
pub open spec fn accept_start() -> AcceptModel {
    AcceptModel { step: AcceptStep::Accept, transaction_id: 0, failure: None, committed: false }
}

/// Begins one accept.
pub fn accept_one() -> (flow: AcceptFlow)
    ensures
        flow@ == accept_start(),
{
    AcceptFlow { step: AcceptStep::Accept, transaction_id: 0, failure: None, committed: false }
}

impl AcceptFlow {
    pub fn step(&self) -> (step: AcceptStep)
        ensures
            step == self@.step,
    {
        self.step
    }

    fn either(
        &mut self,
        outcome: AcceptOutcome,
        on: AcceptStep,
        undoing: AcceptStep,
        failure: V2AdmissionListenerError,
    )
        ensures
            final(self)@ == old(self)@.either(outcome, on, undoing, failure),
    {
        match outcome {
            AcceptOutcome::Worked => {
                self.step = on;
            },
            _ => {
                self.undo(undoing, failure);
            },
        }
    }

    fn undo(&mut self, undoing: AcceptStep, failure: V2AdmissionListenerError)
        ensures
            final(self)@ == old(self)@.undo(undoing, failure),
    {
        self.step = undoing;
        self.failure = Some(failure);
    }

    /// Builds the `SessionAdmit` where it is due, and takes what came of it.
    pub fn build_response(&mut self, answer: &SessionAdmitTemplate) -> (frame: Option<ControlFrame>)
        ensures
            match old(self)@.step {
                AcceptStep::BuildResponse(response) => {
                    let fits = template::expiry_fits(response.admitted);
                    &&& frame is Some == fits
                    &&& frame matches Some(frame) ==> template::admits(
                        frame,
                        answer@,
                        response.transaction_id,
                        response.admitted,
                        response.lease,
                    )
                    &&& final(self)@ == old(self)@.next(
                        if fits {
                            AcceptOutcome::Worked
                        } else {
                            AcceptOutcome::Failed
                        },
                    )
                },
                _ => frame is None && final(self)@ == old(self)@,
            },
    {
        match self.step {
            AcceptStep::BuildResponse(response) => match answer.frame(
                response.transaction_id,
                response.admitted,
                &response.lease,
            ) {
                Ok(frame) => {
                    self.advance(AcceptOutcome::Worked);
                    Some(frame)
                },
                Err(_) => {
                    self.advance(AcceptOutcome::Failed);
                    None
                },
            },
            _ => None,
        }
    }

    /// Takes what came of the step.
    pub fn advance(&mut self, outcome: AcceptOutcome)
        ensures
            final(self)@ == old(self)@.next(outcome),
    {
        match self.step {
            AcceptStep::Accept => {
                self.step = match outcome {
                    AcceptOutcome::Worked => AcceptStep::AcquirePermit,
                    _ => AcceptStep::Finished(Err(V2AdmissionListenerError::EndpointClosed)),
                };
            },
            AcceptStep::AcquirePermit => {
                self.either(
                    outcome,
                    AcceptStep::Handshake,
                    AcceptStep::RefuseAttempt,
                    V2AdmissionListenerError::Limited,
                );
            },
            AcceptStep::RefuseAttempt => {
                self.step = AcceptStep::Finished(Err(V2AdmissionListenerError::Limited));
            },
            AcceptStep::Handshake => {
                self.step = AcceptStep::ReleasePermit;
                match outcome {
                    AcceptOutcome::Worked => {},
                    AcceptOutcome::TimedOut => {
                        self.failure = Some(V2AdmissionListenerError::HandshakeDeadline);
                    },
                    _ => {
                        self.failure = Some(V2AdmissionListenerError::Handshake);
                    },
                }
            },
            AcceptStep::ReleasePermit => {
                self.step = match self.failure {
                    None => AcceptStep::IdentifyPeer,
                    Some(failure) => AcceptStep::Finished(Err(failure)),
                };
            },
            AcceptStep::IdentifyPeer => {
                self.either(
                    outcome,
                    AcceptStep::OpenControl,
                    AcceptStep::CloseConnection,
                    V2AdmissionListenerError::PeerIdentity,
                );
            },
            AcceptStep::OpenControl => {
                match outcome {
                    AcceptOutcome::Worked => {
                        self.step = AcceptStep::ReadHello;
                    },
                    AcceptOutcome::TimedOut => {
                        self.undo(
                            AcceptStep::CloseConnection,
                            V2AdmissionListenerError::ControlStreamDeadline,
                        );
                    },
                    _ => {
                        self.undo(
                            AcceptStep::CloseConnection,
                            V2AdmissionListenerError::ControlStream,
                        );
                    },
                }
            },
            AcceptStep::ReadHello => {
                match outcome {
                    AcceptOutcome::Hello(transaction_id) => {
                        self.step = AcceptStep::CheckHello;
                        self.transaction_id = transaction_id;
                    },
                    _ => {
                        self.undo(
                            AcceptStep::CloseConnection,
                            V2AdmissionListenerError::InvalidControl,
                        );
                    },
                }
            },
            AcceptStep::CheckHello => {
                self.either(
                    outcome,
                    AcceptStep::SweepSessions,
                    AcceptStep::CloseConnection,
                    V2AdmissionListenerError::InvalidControl,
                );
            },
            AcceptStep::SweepSessions => {
                self.either(
                    outcome,
                    AcceptStep::SweepPool,
                    AcceptStep::CloseConnection,
                    V2AdmissionListenerError::AdmissionRejected,
                );
            },
            AcceptStep::SweepPool => {
                self.step = AcceptStep::Admit;
            },
            AcceptStep::Admit => {
                match outcome {
                    AcceptOutcome::Admitted(admitted) => {
                        self.step = AcceptStep::ReserveLease(admitted);
                    },
                    _ => {
                        self.undo(
                            AcceptStep::CloseConnection,
                            V2AdmissionListenerError::AdmissionRejected,
                        );
                    },
                }
            },
            AcceptStep::ReserveLease(admitted) => {
                self.either(
                    outcome,
                    AcceptStep::CommitSession(admitted),
                    AcceptStep::AbortAdmission(admitted),
                    V2AdmissionListenerError::AddressPool,
                );
            },
            AcceptStep::CommitSession(admitted) => {
                match outcome {
                    AcceptOutcome::Worked => {
                        self.step = AcceptStep::CommitLease(admitted);
                        self.committed = true;
                    },
                    _ => {
                        self.undo(
                            AcceptStep::ReleaseLease(admitted),
                            V2AdmissionListenerError::AdmissionRejected,
                        );
                    },
                }
            },
            AcceptStep::CommitLease(admitted) => {
                match outcome {
                    AcceptOutcome::Leased(lease) => {
                        self.step =
                        AcceptStep::BuildResponse(
                            AdmitResponse { transaction_id: self.transaction_id, admitted, lease },
                        );
                    },
                    _ => {
                        self.undo(
                            AcceptStep::ReleaseLease(admitted),
                            V2AdmissionListenerError::AddressPool,
                        );
                    },
                }
            },
            AcceptStep::BuildResponse(response) => {
                self.either(
                    outcome,
                    AcceptStep::WriteResponse(response),
                    AcceptStep::ReleaseLease(response.admitted),
                    V2AdmissionListenerError::InvalidAdmission,
                );
            },
            AcceptStep::WriteResponse(response) => {
                self.either(
                    outcome,
                    AcceptStep::Finished(Ok(response.admitted)),
                    AcceptStep::ReleaseLease(response.admitted),
                    V2AdmissionListenerError::ResponseWrite,
                );
            },
            AcceptStep::ReleaseLease(admitted) => {
                self.step = if self.committed {
                    AcceptStep::CloseSession(admitted)
                } else {
                    AcceptStep::AbortAdmission(admitted)
                };
            },
            AcceptStep::AbortAdmission(_) => {
                self.step = AcceptStep::CloseConnection;
            },
            AcceptStep::CloseSession(_) => {
                self.step = AcceptStep::CloseConnection;
            },
            AcceptStep::CloseConnection => {
                self.step = match self.failure {
                    Some(failure) => AcceptStep::Finished(Err(failure)),
                    None => AcceptStep::Finished(
                        Err(V2AdmissionListenerError::AdmissionRejected),
                    ),
                };
            },
            AcceptStep::Finished(_) => {},
        }
    }
}

/// What the steps so far have done and undone.
pub struct AcceptFacts {
    pub permit_held: bool,
    pub connected: bool,
    /// The ticket was verified and redeemed, and its session reserved.
    pub admitted: bool,
    pub lease_reserved: bool,
    pub session_committed: bool,
    pub lease_committed: bool,
    pub advertised: bool,
    /// Something that was to be undone could not be.
    pub undo_failed: bool,
    /// The transaction of the hello that was read.
    pub hello: Option<u64>,
    /// What the ticket admitted.
    pub admission: Option<AdmissionAccepted>,
    /// The lease that was committed.
    pub lease: Option<AssignedAddresses>,
}

impl AcceptFacts {
    /// The facts after an attempt to undo something.
    pub open spec fn undoing(self, worked: bool) -> Self {
        AcceptFacts { undo_failed: self.undo_failed || !worked, ..self }
    }
}

/// The facts after a step.
pub open spec fn observed(facts: AcceptFacts, step: AcceptStep, outcome: AcceptOutcome) -> AcceptFacts {
    let worked = outcome is Worked;
    match step {
        AcceptStep::AcquirePermit => AcceptFacts { permit_held: worked, ..facts },
        AcceptStep::ReleasePermit => AcceptFacts {
            permit_held: facts.permit_held && !worked,
            ..facts
        }.undoing(worked),
        AcceptStep::Handshake => AcceptFacts { connected: worked, ..facts },
        AcceptStep::ReadHello => AcceptFacts {
            hello: match outcome {
                AcceptOutcome::Hello(transaction_id) => Some(transaction_id),
                _ => None,
            },
            ..facts
        },
        AcceptStep::Admit => AcceptFacts {
            admitted: outcome is Admitted,
            admission: match outcome {
                AcceptOutcome::Admitted(admitted) => Some(admitted),
                _ => None,
            },
            ..facts
        },
        AcceptStep::ReserveLease(_) => AcceptFacts { lease_reserved: worked, ..facts },
        AcceptStep::CommitSession(_) => AcceptFacts { session_committed: worked, ..facts },
        AcceptStep::CommitLease(_) => AcceptFacts {
            lease_committed: outcome is Leased,
            lease: match outcome {
                AcceptOutcome::Leased(lease) => Some(lease),
                _ => None,
            },
            ..facts
        },
        AcceptStep::WriteResponse(_) => AcceptFacts { advertised: worked, ..facts },
        AcceptStep::ReleaseLease(_) => AcceptFacts {
            lease_reserved: facts.lease_reserved && !worked,
            lease_committed: facts.lease_committed && !worked,
            ..facts
        }.undoing(worked),
        AcceptStep::AbortAdmission(_) => AcceptFacts {
            admitted: facts.admitted && !worked,
            ..facts
        }.undoing(worked),
        AcceptStep::CloseSession(_) => AcceptFacts {
            admitted: facts.admitted && !worked,
            session_committed: facts.session_committed && !worked,
            ..facts
        }.undoing(worked),
        AcceptStep::CloseConnection => AcceptFacts {
            connected: facts.connected && !worked,
            ..facts
        }.undoing(worked),
        _ => facts,
    }
}

/// Where an accept stands, and the facts, after a list of outcomes.
pub open spec fn accepted(outcomes: Seq<AcceptOutcome>) -> (AcceptModel, AcceptFacts)
    decreases outcomes.len(),
{
    if outcomes.len() == 0 {
        (
            accept_start(),
            AcceptFacts {
                permit_held: false,
                connected: false,
                admitted: false,
                lease_reserved: false,
                session_committed: false,
                lease_committed: false,
                advertised: false,
                undo_failed: false,
                hello: None,
                admission: None,
                lease: None,
            },
        )
    } else {
        let (flow, facts) = accepted(outcomes.drop_last());
        (flow.next(outcomes.last()), observed(facts, flow.step, outcomes.last()))
    }
}

/// The admission that a step is about.
pub open spec fn subject(step: AcceptStep) -> Option<AdmissionAccepted> {
    match step {
        AcceptStep::ReserveLease(admitted) => Some(admitted),
        AcceptStep::CommitSession(admitted) => Some(admitted),
        AcceptStep::CommitLease(admitted) => Some(admitted),
        AcceptStep::BuildResponse(response) => Some(response.admitted),
        AcceptStep::WriteResponse(response) => Some(response.admitted),
        AcceptStep::ReleaseLease(admitted) => Some(admitted),
        AcceptStep::AbortAdmission(admitted) => Some(admitted),
        AcceptStep::CloseSession(admitted) => Some(admitted),
        AcceptStep::Finished(Ok(admitted)) => Some(admitted),
        _ => None,
    }
}

/// What each step may rely on.
proof fn lemma_facts(outcomes: Seq<AcceptOutcome>)
    ensures
        ({
            let (flow, facts) = accepted(outcomes);
            let AcceptFacts {
                permit_held,
                connected,
                admitted,
                lease_reserved,
                session_committed,
                lease_committed,
                advertised,
                undo_failed,
                hello,
                admission,
                lease,
            } = facts;
            let nothing = !admitted && !lease_reserved && !session_committed && !lease_committed;
            let clean = flow.failure is None;
            &&& flow.committed == session_committed || flow.step is CloseConnection
                || flow.step is Finished
            &&& permit_held ==> undo_failed || flow.step is Handshake || flow.step is ReleasePermit
            &&& subject(flow.step) is Some ==> hello == Some(flow.transaction_id) && admission
                == subject(flow.step)
            &&& match flow.step {
                AcceptStep::Accept | AcceptStep::AcquirePermit => clean && nothing && !permit_held
                    && !connected && !advertised && !undo_failed,
                AcceptStep::RefuseAttempt => nothing && !permit_held && !connected && !advertised
                    && !undo_failed,
                AcceptStep::Handshake => clean && nothing && permit_held && !connected
                    && !advertised && !undo_failed,
                AcceptStep::ReleasePermit => nothing && permit_held && connected == clean
                    && !advertised && !undo_failed,
                AcceptStep::IdentifyPeer | AcceptStep::OpenControl | AcceptStep::ReadHello => clean
                    && nothing && connected && !advertised,
                AcceptStep::CheckHello | AcceptStep::SweepSessions | AcceptStep::SweepPool
                | AcceptStep::Admit => clean && nothing && connected && !advertised && hello
                    == Some(flow.transaction_id),
                AcceptStep::ReserveLease(_) => clean && connected && admitted
                    && !lease_reserved && !session_committed && !lease_committed && !advertised,
                AcceptStep::CommitSession(_) => clean && connected && admitted
                    && lease_reserved && !session_committed && !lease_committed && !advertised,
                AcceptStep::CommitLease(_) => clean && connected && admitted
                    && lease_reserved && session_committed && !lease_committed && !advertised,
                AcceptStep::BuildResponse(response) | AcceptStep::WriteResponse(response) => clean
                    && connected && admitted && lease_reserved && session_committed
                    && lease_committed && !advertised && lease == Some(response.lease)
                    && response.transaction_id == flow.transaction_id,
                AcceptStep::ReleaseLease(_) => !clean && connected && admitted && lease_reserved
                    && !advertised,
                AcceptStep::AbortAdmission(_) => !clean && connected && !session_committed
                    && !advertised && (undo_failed || !lease_reserved && !lease_committed),
                AcceptStep::CloseSession(_) => !clean && connected && session_committed && !advertised
                    && (undo_failed || !lease_reserved && !lease_committed),
                AcceptStep::CloseConnection => !clean && connected && !advertised && (undo_failed
                    || nothing),
                AcceptStep::Finished(Ok(_)) => connected && admitted && lease_reserved
                    && session_committed && lease_committed && advertised,
                AcceptStep::Finished(Err(_)) => !advertised && (undo_failed || nothing
                    && !connected),
            }
        }),
    decreases outcomes.len(),
{
    if outcomes.len() > 0 {
        lemma_facts(outcomes.drop_last());
    }
}

/// No `SessionAdmit` is written before the ticket is redeemed and session and
/// lease are both committed; and an accept that succeeds has all of them.
pub proof fn law_nothing_is_advertised_before_it_is_durable(outcomes: Seq<AcceptOutcome>)
    ensures
        ({
            let (flow, facts) = accepted(outcomes);
            (flow.step is WriteResponse || facts.advertised || flow.step matches
                AcceptStep::Finished(Ok(_))) ==> facts.admitted && facts.lease_reserved
                && facts.session_committed && facts.lease_committed
        }),
{
    lemma_facts(outcomes);
}

/// Everything from the lease on is done, and undone, for the session that the
/// ticket admitted; and the `SessionAdmit` is built from the hello's
/// transaction, that admission and the lease that was committed for it.
pub proof fn law_response_is_of_the_committed_lease(outcomes: Seq<AcceptOutcome>)
    ensures
        ({
            let (flow, facts) = accepted(outcomes);
            &&& subject(flow.step) is Some ==> subject(flow.step) == facts.admission
            &&& (flow.step matches AcceptStep::BuildResponse(response) ==> facts.hello == Some(
                response.transaction_id,
            ) && facts.lease == Some(response.lease))
            &&& (flow.step matches AcceptStep::WriteResponse(response) ==> facts.hello == Some(
                response.transaction_id,
            ) && facts.lease == Some(response.lease))
        }),
{
    lemma_facts(outcomes);
}

/// An accept that fails has advertised nothing and leaves nothing behind: no
/// permit, no admission, no session, no lease, no connection. What does stay
/// is what it tried to undo and could not.
pub proof fn law_failed_accept_leaves_nothing(outcomes: Seq<AcceptOutcome>)
    ensures
        ({
            let (flow, facts) = accepted(outcomes);
            flow.step matches AcceptStep::Finished(Err(_)) ==> !facts.advertised && (
            facts.undo_failed || !facts.permit_held && !facts.admitted && !facts.lease_reserved
                && !facts.session_committed && !facts.lease_committed && !facts.connected)
        }),
{
    lemma_facts(outcomes);
}

/// The handshake permit is held for the handshake alone, unless it could not
/// be given back.
pub proof fn law_permit_covers_the_handshake_only(outcomes: Seq<AcceptOutcome>)
    ensures
        ({
            let (flow, facts) = accepted(outcomes);
            facts.permit_held ==> facts.undo_failed || flow.step is Handshake
                || flow.step is ReleasePermit
        }),
{
    lemma_facts(outcomes);
}

/// Steps left at most.
pub open spec fn steps_left(step: AcceptStep) -> nat {
    match step {
        AcceptStep::Accept => 19,
        AcceptStep::AcquirePermit => 18,
        AcceptStep::Handshake => 17,
        AcceptStep::ReleasePermit => 16,
        AcceptStep::IdentifyPeer => 15,
        AcceptStep::OpenControl => 14,
        AcceptStep::ReadHello => 13,
        AcceptStep::CheckHello => 12,
        AcceptStep::SweepSessions => 11,
        AcceptStep::SweepPool => 10,
        AcceptStep::Admit => 9,
        AcceptStep::ReserveLease(_) => 8,
        AcceptStep::CommitSession(_) => 7,
        AcceptStep::CommitLease(_) => 6,
        AcceptStep::BuildResponse(_) => 5,
        AcceptStep::WriteResponse(_) => 4,
        AcceptStep::ReleaseLease(_) => 3,
        AcceptStep::AbortAdmission(_) => 2,
        AcceptStep::CloseSession(_) => 2,
        AcceptStep::CloseConnection => 1,
        AcceptStep::RefuseAttempt => 1,
        AcceptStep::Finished(_) => 0,
    }
}

/// An accept ends, whatever comes of its steps.
pub proof fn law_accept_ends(flow: AcceptModel, outcome: AcceptOutcome)
    ensures
        flow.step is Finished ==> flow.next(outcome) == flow,
        flow.step !is Finished ==> steps_left(flow.next(outcome).step) < steps_left(flow.step),
{
}

/// An accept in which every step works admits the session of the ticket: through
/// permit, handshake, identity, control stream, hello, sweeps, ticket, lease, session
/// and lease again, to the answer, which is of the hello's transaction, the admission
/// and the lease that was committed. A sweep of the pool does not stand in its way.
pub proof fn law_accepts_that_work_admit(
    released: AcceptOutcome,
    transaction_id: u64,
    pool_swept: AcceptOutcome,
    admitted: AdmissionAccepted,
    lease: AssignedAddresses,
)
    ensures
        ({
            let worked = AcceptOutcome::Worked;
            let response = AdmitResponse { transaction_id, admitted, lease };
            let attempted = accept_start().next(worked);
            let permitted = attempted.next(worked);
            let shaken = permitted.next(worked);
            let identifying = shaken.next(released);
            let opening = identifying.next(worked);
            let reading = opening.next(worked);
            let greeted = reading.next(AcceptOutcome::Hello(transaction_id));
            let sweeping = greeted.next(worked);
            let swept = sweeping.next(worked).next(pool_swept);
            let reserving = swept.next(AcceptOutcome::Admitted(admitted));
            let binding = reserving.next(worked);
            let committing = binding.next(worked);
            let building = committing.next(AcceptOutcome::Leased(lease));
            let writing = building.next(worked);
            &&& attempted.step is AcquirePermit
            &&& permitted.step is Handshake
            &&& shaken.step is ReleasePermit
            &&& identifying.step is IdentifyPeer
            &&& opening.step is OpenControl
            &&& reading.step is ReadHello
            &&& greeted.step is CheckHello
            &&& sweeping.step is SweepSessions
            &&& sweeping.next(worked).step is SweepPool
            &&& swept.step is Admit
            &&& reserving.step == AcceptStep::ReserveLease(admitted)
            &&& binding.step == AcceptStep::CommitSession(admitted)
            &&& committing.step == AcceptStep::CommitLease(admitted)
            &&& building.step == AcceptStep::BuildResponse(response)
            &&& writing.step == AcceptStep::WriteResponse(response)
            &&& writing.next(worked).step == AcceptStep::Finished(Ok(admitted))
        }),
{
}

/// Why an accept fails is said by the step that failed, and by nothing that is undone
/// after it: closed endpoint, limit, handshake, identity, control stream, hello,
/// admission, address pool, answer.
pub proof fn law_failed_accepts_say_why(flow: AcceptModel, failed: AcceptOutcome)
    requires
        failed is Failed,
    ensures
        ({
            let after = flow.next(failed);
            &&& flow.step is Accept ==> after.step == AcceptStep::Finished(
                Err(V2AdmissionListenerError::EndpointClosed),
            )
            &&& flow.step is AcquirePermit ==> after.step is RefuseAttempt && after.next(failed).step
                == AcceptStep::Finished(Err(V2AdmissionListenerError::Limited))
            &&& flow.step is Handshake ==> after.step is ReleasePermit && after.next(failed).step
                == AcceptStep::Finished(Err(V2AdmissionListenerError::Handshake))
            &&& flow.step is IdentifyPeer ==> after.step is CloseConnection && after.failure
                == Some(V2AdmissionListenerError::PeerIdentity)
            &&& flow.step is OpenControl ==> after.step is CloseConnection && after.failure
                == Some(V2AdmissionListenerError::ControlStream)
            &&& flow.step is ReadHello || flow.step is CheckHello ==> after.step is CloseConnection
                && after.failure == Some(V2AdmissionListenerError::InvalidControl)
            &&& flow.step is SweepSessions || flow.step is Admit ==> after.step is CloseConnection
                && after.failure == Some(V2AdmissionListenerError::AdmissionRejected)
            &&& flow.step matches AcceptStep::ReserveLease(admitted) ==> after.step
                == AcceptStep::AbortAdmission(admitted) && after.failure == Some(
                V2AdmissionListenerError::AddressPool,
            )
            &&& flow.step matches AcceptStep::CommitSession(admitted) ==> after.step
                == AcceptStep::ReleaseLease(admitted) && after.failure == Some(
                V2AdmissionListenerError::AdmissionRejected,
            )
            &&& flow.step matches AcceptStep::CommitLease(admitted) ==> after.step
                == AcceptStep::ReleaseLease(admitted) && after.failure == Some(
                V2AdmissionListenerError::AddressPool,
            )
            &&& flow.step matches AcceptStep::BuildResponse(response) ==> after.step
                == AcceptStep::ReleaseLease(response.admitted) && after.failure == Some(
                V2AdmissionListenerError::InvalidAdmission,
            )
            &&& flow.step matches AcceptStep::WriteResponse(response) ==> after.step
                == AcceptStep::ReleaseLease(response.admitted) && after.failure == Some(
                V2AdmissionListenerError::ResponseWrite,
            )
        }),
        flow.step is Handshake ==> flow.next(AcceptOutcome::TimedOut).step is ReleasePermit
            && flow.next(AcceptOutcome::TimedOut).failure == Some(
            V2AdmissionListenerError::HandshakeDeadline,
        ),
        flow.step is OpenControl ==> flow.next(AcceptOutcome::TimedOut).step is CloseConnection
            && flow.next(AcceptOutcome::TimedOut).failure == Some(
            V2AdmissionListenerError::ControlStreamDeadline,
        ),
{
}

/// What was done is undone in reverse: the lease is released, then the session closed
/// where it was committed and else the admission aborted, then the connection closed;
/// and the failure that began it ends it.
pub proof fn law_accepts_are_undone_in_reverse(
    flow: AcceptModel,
    failure: V2AdmissionListenerError,
    a: AcceptOutcome,
    b: AcceptOutcome,
    c: AcceptOutcome,
)
    requires
        flow.failure == Some(failure),
    ensures
        flow.step matches AcceptStep::ReleaseLease(admitted) ==> {
            &&& flow.next(a).step == if flow.committed {
                AcceptStep::CloseSession(admitted)
            } else {
                AcceptStep::AbortAdmission(admitted)
            }
            &&& flow.next(a).next(b).step is CloseConnection
            &&& flow.next(a).next(b).next(c).step == AcceptStep::Finished(Err(failure))
        },
        flow.step is AbortAdmission || flow.step is CloseSession ==> flow.next(a).step
            is CloseConnection && flow.next(a).next(b).step == AcceptStep::Finished(Err(failure)),
        flow.step is CloseConnection || flow.step is ReleasePermit ==> flow.next(a).step
            == AcceptStep::Finished(Err(failure)),
{
}

} // verus!
