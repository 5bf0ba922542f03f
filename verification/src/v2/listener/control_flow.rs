//! Path control on an admitted connection.
//!
//! A request that proves liveness - a path attach or detach that can be carried
//! out, a repeated attach that is still valid - renews the session's lease before
//! any path changes and before any success is answered; a renewal that fails
//! closes the session and answers nothing. What the session map would refuse is
//! rejected before that and renews nothing.
use super::config::V2AdmissionListenerError;
use crate::ids::SessionId;
use crate::v2::admission::AdmissionAccepted;
use crate::v2::control::{ControlFrame, ControlMessage, PathId, RejectCode};
use vstd::prelude::*;

verus! {

/// The path that a connection has attached.
#[derive(Debug, Clone, Copy, PartialEq, Eq, Structural)]
pub struct ListenerPathBinding {
    pub path_id: PathId,
    pub path_epoch: u64,
    pub key_epoch: u32,
    pub path_nonce: u128,
}

/// Why a request is rejected.
#[derive(Debug, Clone, Copy, PartialEq, Eq, Structural)]
pub enum RejectReason {
    CachedPathInvalid,
    AlreadyAttached,
    AttachNotCommitted,
    AttachRejected,
    DetachRejected,
    NotForThisConnection,
}

impl RejectReason {
    pub open spec fn code_of(self) -> RejectCode {
        match self {
            RejectReason::CachedPathInvalid => RejectCode::InvalidState,
            RejectReason::AlreadyAttached => RejectCode::StaleEpoch,
            RejectReason::AttachNotCommitted => RejectCode::InvalidState,
            RejectReason::AttachRejected => RejectCode::InvalidState,
            RejectReason::DetachRejected => RejectCode::UnknownPath,
            RejectReason::NotForThisConnection => RejectCode::InvalidDirection,
        }
    }

    pub open spec fn text_of(self) -> Seq<char> {
        match self {
            RejectReason::CachedPathInvalid => "cached path attachment is no longer valid"@,
            RejectReason::AlreadyAttached => "connection is already attached"@,
            RejectReason::AttachNotCommitted => "path attach could not commit"@,
            RejectReason::AttachRejected => "path attach rejected"@,
            RejectReason::DetachRejected => "path detach rejected"@,
            RejectReason::NotForThisConnection =>
                "control request is not valid for this connection"@,
        }
    }

    pub fn code(self) -> (code: RejectCode)
        ensures
            code == self.code_of(),
    {
        match self {
            RejectReason::CachedPathInvalid => RejectCode::InvalidState,
            RejectReason::AlreadyAttached => RejectCode::StaleEpoch,
            RejectReason::AttachNotCommitted => RejectCode::InvalidState,
            RejectReason::AttachRejected => RejectCode::InvalidState,
            RejectReason::DetachRejected => RejectCode::UnknownPath,
            RejectReason::NotForThisConnection => RejectCode::InvalidDirection,
        }
    }

    pub fn text(self) -> (text: &'static str)
        ensures
            text@ == self.text_of(),
    {
        match self {
            RejectReason::CachedPathInvalid => "cached path attachment is no longer valid",
            RejectReason::AlreadyAttached => "connection is already attached",
            RejectReason::AttachNotCommitted => "path attach could not commit",
            RejectReason::AttachRejected => "path attach rejected",
            RejectReason::DetachRejected => "path detach rejected",
            RejectReason::NotForThisConnection =>
                "control request is not valid for this connection",
        }
    }
}

/// How a request is answered.
#[derive(Debug, Clone, Copy, PartialEq, Eq, Structural)]
pub enum ReplyKind {
    PathAttached { session_id: SessionId, path_id: PathId, path_epoch: u64 },
    Ack,
    Reject(RejectReason),
}

/// An answer and the transaction it belongs to.
#[derive(Debug, Clone, Copy, PartialEq, Eq, Structural)]
pub struct ControlReply {
    pub transaction_id: u64,
    pub kind: ReplyKind,
}

impl ControlReply {
    pub fn frame(&self) -> (frame: ControlFrame)
        ensures
            frame.transaction_id == self.transaction_id,
            match self.kind {
                ReplyKind::PathAttached { session_id, path_id, path_epoch } => frame.message
                    == (ControlMessage::PathAttached { session_id, path_id, path_epoch }),
                ReplyKind::Ack => frame.message is Ack,
                ReplyKind::Reject(why) => frame.message matches ControlMessage::Reject {
                    code,
                    reason,
                } && code == why.code_of() && reason@ == why.text_of(),
            },
    {
        let message = match self.kind {
            ReplyKind::PathAttached { session_id, path_id, path_epoch } =>
                ControlMessage::PathAttached { session_id, path_id, path_epoch },
            ReplyKind::Ack => ControlMessage::Ack,
            ReplyKind::Reject(why) => ControlMessage::Reject {
                code: why.code(),
                reason: why.text().to_owned(),
            },
        };
        ControlFrame { transaction_id: self.transaction_id, message }
    }
}

/// The request under way.
#[derive(Debug, Clone, Copy, PartialEq, Eq, Structural)]
pub enum PathRequest {
    Attach { path_nonce: u128, path_epoch: u64, key_epoch: u32 },
    Detach { path_id: PathId, path_epoch: u64 },
    Close,
    /// Anything that is not for this connection.
    Foreign,
}

/// What to do next.
#[derive(Debug, Clone, Copy, PartialEq, Eq)]
pub enum ControlStep {
    /// Read a frame.
    ReadFrame,
    /// Sweep the session map.
    SweepSessions,
    /// Sweep the address pool and close the sessions of expired leases.
    SweepPool,
    /// Ask whether an attached path is still valid.
    ValidatePath(ListenerPathBinding),
    /// Record the session's activity.
    RecordActivity,
    /// Renew the session's lease.
    RenewLease,
    /// Ask whether a path attach would be refused. Nothing changes.
    CheckAttach { path_epoch: u64, key_epoch: u32 },
    /// Ask whether a path detach would be refused. Nothing changes.
    CheckDetach { path_id: PathId, path_epoch: u64 },
    /// Reserve a path attach.
    ReserveAttach { path_epoch: u64, key_epoch: u32 },
    /// Commit the reserved attach.
    CommitAttach,
    /// Detach a path.
    DetachPath { path_id: PathId, path_epoch: u64 },
    /// Close the session by its capability.
    CloseSession,
    /// Close the session by its identifier: its lease could not be renewed.
    CloseExpiredSession,
    /// Release the connection.
    CloseConnection,
    /// Write an answer.
    WriteReply(ControlReply),
    /// Nothing: it is decided.
    Finished(Result<(), V2AdmissionListenerError>),
}

/// What came of a step.
#[derive(Debug, Clone, Copy, PartialEq, Eq, Structural)]
pub enum ControlOutcome {
    /// It worked.
    Worked,
    /// It failed.
    Failed,
    /// A frame was read.
    Request { transaction_id: u64, request: PathRequest },
    /// The attach was committed as this path.
    Attached { path_id: PathId, path_epoch: u64, key_epoch: u32 },
    /// The detach found the path attached or not.
    Detached(bool),
}

/// The state of an admitted connection.
pub struct ConnectionModel {
    pub session: SessionId,
    /// The connection still holds its session capability.
    pub connected: bool,
    pub attached: Option<ListenerPathBinding>,
    pub transaction_id: u64,
    pub request: PathRequest,
    pub step: ControlStep,
}

impl ConnectionModel {
    pub open spec fn at(self, step: ControlStep) -> Self {
        ConnectionModel { step, ..self }
    }

    pub open spec fn finished(self, error: V2AdmissionListenerError) -> Self {
        self.at(ControlStep::Finished(Err(error)))
    }

    pub open spec fn reply(self, kind: ReplyKind) -> Self {
        self.at(
            ControlStep::WriteReply(ControlReply { transaction_id: self.transaction_id, kind }),
        )
    }

    pub open spec fn reject(self, why: RejectReason) -> Self {
        self.reply(ReplyKind::Reject(why))
    }

    /// Without its capability and its path.
    pub open spec fn disconnected(self) -> Self {
        ConnectionModel { connected: false, attached: None, ..self }
    }

    /// Where a request goes once the sweeps are done.
    pub open spec fn dispatched(self) -> Self {
        match self.request {
            PathRequest::Attach { path_nonce, path_epoch, key_epoch } => match self.attached {
                Some(path) => if path.path_epoch != path_epoch || path.key_epoch != key_epoch
                    || path.path_nonce != path_nonce {
                    self.reject(RejectReason::AlreadyAttached)
                } else if !self.connected {
                    self.finished(V2AdmissionListenerError::ConnectionClosed)
                } else {
                    self.at(ControlStep::ValidatePath(path))
                },
                None => if self.connected {
                    self.at(ControlStep::RecordActivity)
                } else {
                    self.finished(V2AdmissionListenerError::ConnectionClosed)
                },
            },
            PathRequest::Detach { .. } => if self.connected {
                self.at(ControlStep::RecordActivity)
            } else {
                self.finished(V2AdmissionListenerError::ConnectionClosed)
            },
            PathRequest::Close => if self.connected {
                self.disconnected().at(ControlStep::CloseSession)
            } else {
                self.reply(ReplyKind::Ack)
            },
            PathRequest::Foreign => self.reject(RejectReason::NotForThisConnection),
        }
    }

    /// Where a request goes once activity is recorded.
    pub open spec fn proven(self) -> Self {
        match self.request {
            PathRequest::Attach { path_epoch, key_epoch, .. } => self.at(
                ControlStep::CheckAttach { path_epoch, key_epoch },
            ),
            PathRequest::Detach { path_id, path_epoch } => self.at(
                ControlStep::CheckDetach { path_id, path_epoch },
            ),
            _ => self.finished(V2AdmissionListenerError::ConnectionClosed),
        }
    }

    /// Where a request goes once its lease is renewed.
    pub open spec fn renewed(self) -> Self {
        match self.request {
            PathRequest::Attach { path_epoch, key_epoch, .. } => match self.attached {
                Some(path) => self.reply(
                    ReplyKind::PathAttached {
                        session_id: self.session,
                        path_id: path.path_id,
                        path_epoch,
                    },
                ),
                None => self.at(ControlStep::ReserveAttach { path_epoch, key_epoch }),
            },
            PathRequest::Detach { path_id, path_epoch } => self.at(
                ControlStep::DetachPath { path_id, path_epoch },
            ),
            _ => self.finished(V2AdmissionListenerError::ConnectionClosed),
        }
    }

    /// After a step.
    pub open spec fn next(self, outcome: ControlOutcome) -> Self {
        let worked = outcome == ControlOutcome::Worked;
        match self.step {
            ControlStep::ReadFrame => match outcome {
                ControlOutcome::Request { transaction_id, request } => ConnectionModel {
                    transaction_id,
                    request,
                    step: ControlStep::SweepSessions,
                    ..self
                },
                _ => if self.connected {
                    self.disconnected().at(ControlStep::CloseConnection)
                } else {
                    self.finished(V2AdmissionListenerError::ControlStream)
                },
            },
            ControlStep::SweepSessions => if worked {
                self.at(ControlStep::SweepPool)
            } else {
                self.finished(V2AdmissionListenerError::ConnectionCleanup)
            },
            ControlStep::SweepPool => self.dispatched(),
            ControlStep::ValidatePath(_) => if worked {
                self.at(ControlStep::RenewLease)
            } else {
                self.reject(RejectReason::CachedPathInvalid)
            },
            ControlStep::RecordActivity => if worked {
                self.proven()
            } else {
                self.at(ControlStep::CloseExpiredSession)
            },
            ControlStep::RenewLease => if worked {
                self.renewed()
            } else {
                self.at(ControlStep::CloseExpiredSession)
            },
            ControlStep::CloseExpiredSession => self.finished(
                V2AdmissionListenerError::AddressPool,
            ),
            ControlStep::CheckAttach { .. } => if worked {
                self.at(ControlStep::RenewLease)
            } else {
                self.reject(RejectReason::AttachRejected)
            },
            ControlStep::CheckDetach { .. } => if worked {
                self.at(ControlStep::RenewLease)
            } else {
                self.reject(RejectReason::DetachRejected)
            },
            ControlStep::ReserveAttach { .. } => if worked {
                self.at(ControlStep::CommitAttach)
            } else {
                self.reject(RejectReason::AttachRejected)
            },
            ControlStep::CommitAttach => match outcome {
                ControlOutcome::Attached { path_id, path_epoch, key_epoch } => {
                    let path_nonce = match self.request {
                        PathRequest::Attach { path_nonce, .. } => path_nonce,
                        _ => 0,
                    };
                    ConnectionModel {
                        attached: Some(
                            ListenerPathBinding { path_id, path_epoch, key_epoch, path_nonce },
                        ),
                        ..self
                    }.reply(
                        ReplyKind::PathAttached { session_id: self.session, path_id, path_epoch },
                    )
                },
                _ => self.reject(RejectReason::AttachNotCommitted),
            },
            ControlStep::DetachPath { .. } => match outcome {
                ControlOutcome::Detached(true) => ConnectionModel { attached: None, ..self }.reply(
                    ReplyKind::Ack,
                ),
                ControlOutcome::Detached(false) => self.reply(ReplyKind::Ack),
                _ => self.reject(RejectReason::DetachRejected),
            },
            ControlStep::CloseSession => if worked {
                self.reply(ReplyKind::Ack)
            } else {
                self.finished(V2AdmissionListenerError::ConnectionCleanup)
            },
            ControlStep::CloseConnection => self.finished(V2AdmissionListenerError::ControlStream),
            ControlStep::WriteReply(_) => if worked {
                self.at(ControlStep::Finished(Ok(())))
            } else if self.connected {
                self.disconnected().at(ControlStep::CloseConnection)
            } else {
                self.finished(V2AdmissionListenerError::ControlStream)
            },
            ControlStep::Finished(_) => self,
        }
    }

    /// Where the next request begins.
    pub open spec fn begun(self) -> Self {
        self.at(ControlStep::ReadFrame)
    }
}

/// An admitted connection and its control stream.
pub struct V2AdmittedConnection {
    admitted: AdmissionAccepted,
    connected: bool,
    attached: Option<ListenerPathBinding>,
    transaction_id: u64,
    request: PathRequest,
    step: ControlStep,
}

impl View for V2AdmittedConnection {
    type V = ConnectionModel;

    closed spec fn view(&self) -> ConnectionModel {
        ConnectionModel {
            session: self.admitted.parts().0.parts().0,
            connected: self.connected,
            attached: self.attached,
            transaction_id: self.transaction_id,
            request: self.request,
            step: self.step,
        }
    }
}

impl V2AdmittedConnection {
    /// What was admitted.
    pub closed spec fn accepted(&self) -> AdmissionAccepted {
        self.admitted
    }

    /// A connection that was just admitted.
    pub fn new(admitted: AdmissionAccepted) -> (connection: Self)
        ensures
            connection.accepted() == admitted,
            connection@ == (ConnectionModel {
                session: admitted.parts().0.parts().0,
                connected: true,
                attached: None,
                transaction_id: 0,
                request: PathRequest::Foreign,
                step: ControlStep::ReadFrame,
            }),
    {
        V2AdmittedConnection {
            admitted,
            connected: true,
            attached: None,
            transaction_id: 0,
            request: PathRequest::Foreign,
            step: ControlStep::ReadFrame,
        }
    }

    pub fn admission(&self) -> (admitted: AdmissionAccepted)
        ensures
            admitted == self.accepted(),
    {
        self.admitted
    }

    /// What a frame asks of this connection. A request that names another
    /// session is not for it.
    pub fn classify(&self, message: &ControlMessage) -> (request: PathRequest)
        ensures
            request == match message {
                ControlMessage::PathAttach {
                    session_id,
                    path_nonce,
                    path_epoch,
                    key_epoch,
                } if session_id == self@.session => PathRequest::Attach {
                    path_nonce: *path_nonce,
                    path_epoch: *path_epoch,
                    key_epoch: *key_epoch,
                },
                ControlMessage::PathDetach {
                    session_id,
                    path_id,
                    path_epoch,
                } if session_id == self@.session => PathRequest::Detach {
                    path_id: *path_id,
                    path_epoch: *path_epoch,
                },
                ControlMessage::Close {
                    session_id,
                } if session_id == self@.session => PathRequest::Close,
                _ => PathRequest::Foreign,
            },
    {
        let ours = self.admitted.owner().session_id();
        match message {
            ControlMessage::PathAttach { session_id, path_nonce, path_epoch, key_epoch } => {
                if *session_id == ours {
                    PathRequest::Attach {
                        path_nonce: *path_nonce,
                        path_epoch: *path_epoch,
                        key_epoch: *key_epoch,
                    }
                } else {
                    PathRequest::Foreign
                }
            },
            ControlMessage::PathDetach { session_id, path_id, path_epoch } => {
                if *session_id == ours {
                    PathRequest::Detach { path_id: *path_id, path_epoch: *path_epoch }
                } else {
                    PathRequest::Foreign
                }
            },
            ControlMessage::Close { session_id } => {
                if *session_id == ours {
                    PathRequest::Close
                } else {
                    PathRequest::Foreign
                }
            },
            _ => PathRequest::Foreign,
        }
    }

    pub fn step(&self) -> (step: ControlStep)
        ensures
            step == self@.step,
    {
        self.step
    }

    /// Begins the next request.
    pub fn handle_next_control(&mut self)
        ensures
            final(self)@ == old(self)@.begun(),
            final(self).accepted() == old(self).accepted(),
    {
        self.step = ControlStep::ReadFrame;
    }

    fn finish(&mut self, error: V2AdmissionListenerError)
        ensures
            final(self)@ == old(self)@.finished(error),
            final(self).accepted() == old(self).accepted(),
    {
        self.step = ControlStep::Finished(Err(error));
    }

    fn reply(&mut self, kind: ReplyKind)
        ensures
            final(self)@ == old(self)@.reply(kind),
            final(self).accepted() == old(self).accepted(),
    {
        self.step =
        ControlStep::WriteReply(ControlReply { transaction_id: self.transaction_id, kind });
    }

    fn dispatch(&mut self)
        ensures
            final(self)@ == old(self)@.dispatched(),
            final(self).accepted() == old(self).accepted(),
    {
        match self.request {
            PathRequest::Attach { path_nonce, path_epoch, key_epoch } => {
                match self.attached {
                    Some(path) => {
                        if path.path_epoch != path_epoch || path.key_epoch != key_epoch
                            || path.path_nonce != path_nonce {
                            self.reply(ReplyKind::Reject(RejectReason::AlreadyAttached));
                        } else if !self.connected {
                            self.finish(V2AdmissionListenerError::ConnectionClosed);
                        } else {
                            self.step = ControlStep::ValidatePath(path);
                        }
                    },
                    None => {
                        if self.connected {
                            self.step = ControlStep::RecordActivity;
                        } else {
                            self.finish(V2AdmissionListenerError::ConnectionClosed);
                        }
                    },
                }
            },
            PathRequest::Detach { .. } => {
                if self.connected {
                    self.step = ControlStep::RecordActivity;
                } else {
                    self.finish(V2AdmissionListenerError::ConnectionClosed);
                }
            },
            PathRequest::Close => {
                if self.connected {
                    self.connected = false;
                    self.attached = None;
                    self.step = ControlStep::CloseSession;
                } else {
                    self.reply(ReplyKind::Ack);
                }
            },
            PathRequest::Foreign => {
                self.reply(ReplyKind::Reject(RejectReason::NotForThisConnection));
            },
        }
    }

    fn after_renewal(&mut self)
        ensures
            final(self)@ == old(self)@.renewed(),
            final(self).accepted() == old(self).accepted(),
    {
        match self.request {
            PathRequest::Attach { path_nonce: _, path_epoch, key_epoch } => {
                match self.attached {
                    Some(path) => {
                        let session_id = self.admitted.owner().session_id();
                        self.reply(
                            ReplyKind::PathAttached {
                                session_id,
                                path_id: path.path_id,
                                path_epoch,
                            },
                        );
                    },
                    None => {
                        self.step = ControlStep::ReserveAttach { path_epoch, key_epoch };
                    },
                }
            },
            PathRequest::Detach { path_id, path_epoch } => {
                self.step = ControlStep::DetachPath { path_id, path_epoch };
            },
            _ => {
                self.finish(V2AdmissionListenerError::ConnectionClosed);
            },
        }
    }

    /// Gives the capability up, and with it the path, where it is still held.
    fn drop_stream(&mut self)
        ensures
            final(self)@ == if old(self)@.connected {
                old(self)@.disconnected().at(ControlStep::CloseConnection)
            } else {
                old(self)@.finished(V2AdmissionListenerError::ControlStream)
            },
            final(self).accepted() == old(self).accepted(),
    {
        if self.connected {
            self.connected = false;
            self.attached = None;
            self.step = ControlStep::CloseConnection;
        } else {
            self.finish(V2AdmissionListenerError::ControlStream);
        }
    }

    /// Takes what came of the step.
    pub fn advance(&mut self, outcome: ControlOutcome)
        ensures
            final(self)@ == old(self)@.next(outcome),
            final(self).accepted() == old(self).accepted(),
    {
        let worked = outcome == ControlOutcome::Worked;
        match self.step {
            ControlStep::ReadFrame => {
                match outcome {
                    ControlOutcome::Request { transaction_id, request } => {
                        self.transaction_id = transaction_id;
                        self.request = request;
                        self.step = ControlStep::SweepSessions;
                    },
                    _ => {
                        self.drop_stream();
                    },
                }
            },
            ControlStep::SweepSessions => {
                if worked {
                    self.step = ControlStep::SweepPool;
                } else {
                    self.finish(V2AdmissionListenerError::ConnectionCleanup);
                }
            },
            ControlStep::SweepPool => {
                self.dispatch();
            },
            ControlStep::ValidatePath(_) => {
                if worked {
                    self.step = ControlStep::RenewLease;
                } else {
                    self.reply(ReplyKind::Reject(RejectReason::CachedPathInvalid));
                }
            },
            ControlStep::RecordActivity => {
                if !worked {
                    self.step = ControlStep::CloseExpiredSession;
                } else {
                    match self.request {
                        PathRequest::Attach { path_nonce: _, path_epoch, key_epoch } => {
                            self.step = ControlStep::CheckAttach { path_epoch, key_epoch };
                        },
                        PathRequest::Detach { path_id, path_epoch } => {
                            self.step = ControlStep::CheckDetach { path_id, path_epoch };
                        },
                        _ => {
                            self.finish(V2AdmissionListenerError::ConnectionClosed);
                        },
                    }
                }
            },
            ControlStep::RenewLease => {
                if worked {
                    self.after_renewal();
                } else {
                    self.step = ControlStep::CloseExpiredSession;
                }
            },
            ControlStep::CloseExpiredSession => {
                self.finish(V2AdmissionListenerError::AddressPool);
            },
            ControlStep::CheckAttach { .. } => {
                if worked {
                    self.step = ControlStep::RenewLease;
                } else {
                    self.reply(ReplyKind::Reject(RejectReason::AttachRejected));
                }
            },
            ControlStep::CheckDetach { .. } => {
                if worked {
                    self.step = ControlStep::RenewLease;
                } else {
                    self.reply(ReplyKind::Reject(RejectReason::DetachRejected));
                }
            },
            ControlStep::ReserveAttach { .. } => {
                if worked {
                    self.step = ControlStep::CommitAttach;
                } else {
                    self.reply(ReplyKind::Reject(RejectReason::AttachRejected));
                }
            },
            ControlStep::CommitAttach => {
                match outcome {
                    ControlOutcome::Attached { path_id, path_epoch, key_epoch } => {
                        let path_nonce: u128 = match self.request {
                            PathRequest::Attach { path_nonce, .. } => path_nonce,
                            _ => 0,
                        };
                        self.attached =
                        Some(ListenerPathBinding { path_id, path_epoch, key_epoch, path_nonce });
                        let session_id = self.admitted.owner().session_id();
                        self.reply(ReplyKind::PathAttached { session_id, path_id, path_epoch });
                    },
                    _ => {
                        self.reply(ReplyKind::Reject(RejectReason::AttachNotCommitted));
                    },
                }
            },
            ControlStep::DetachPath { .. } => {
                match outcome {
                    ControlOutcome::Detached(was_attached) => {
                        if was_attached {
                            self.attached = None;
                        }
                        self.reply(ReplyKind::Ack);
                    },
                    _ => {
                        self.reply(ReplyKind::Reject(RejectReason::DetachRejected));
                    },
                }
            },
            ControlStep::CloseSession => {
                if worked {
                    self.reply(ReplyKind::Ack);
                } else {
                    self.finish(V2AdmissionListenerError::ConnectionCleanup);
                }
            },
            ControlStep::CloseConnection => {
                self.finish(V2AdmissionListenerError::ControlStream);
            },
            ControlStep::WriteReply(_) => {
                if worked {
                    self.step = ControlStep::Finished(Ok(()));
                } else {
                    self.drop_stream();
                }
            },
            ControlStep::Finished(_) => {},
        }
    }

    /// Gives the connection up. Says whether its path is to be released, which
    /// happens once.
    pub fn close(&mut self) -> (release: bool)
        ensures
            release == old(self)@.connected,
            final(self)@ == if old(self)@.connected {
                old(self)@.disconnected()
            } else {
                old(self)@
            },
            final(self).accepted() == old(self).accepted(),
    {
        if !self.connected {
            return false;
        }
        self.connected = false;
        self.attached = None;
        true
    }
}

/// What the steps of one request have done.
pub struct ControlFacts {
    /// Activity was recorded or the attached path found valid.
    pub live: bool,
    /// The session map would not refuse the attach or detach.
    pub allowed: bool,
    pub renewed: bool,
    /// A path was reserved for the attach.
    pub reserved: bool,
    /// A path was attached or detached.
    pub changed: bool,
    /// The session was closed at its owner's request.
    pub closed: bool,
}

/// The facts after a step.
pub open spec fn observed(
    facts: ControlFacts,
    step: ControlStep,
    outcome: ControlOutcome,
) -> ControlFacts {
    let worked = outcome == ControlOutcome::Worked;
    match step {
        ControlStep::ValidatePath(_) => ControlFacts { live: worked, ..facts },
        ControlStep::RecordActivity => ControlFacts { live: worked, ..facts },
        ControlStep::CheckAttach { .. } => ControlFacts { allowed: worked, ..facts },
        ControlStep::CheckDetach { .. } => ControlFacts { allowed: worked, ..facts },
        ControlStep::RenewLease => ControlFacts { renewed: worked, ..facts },
        ControlStep::ReserveAttach { .. } => ControlFacts { reserved: worked, ..facts },
        ControlStep::CommitAttach => ControlFacts { changed: outcome is Attached, ..facts },
        ControlStep::DetachPath { .. } => ControlFacts {
            changed: outcome is Detached,
            ..facts
        },
        ControlStep::CloseSession => ControlFacts { closed: worked, ..facts },
        _ => facts,
    }
}

/// A connection and the facts of its request after a list of outcomes.
pub open spec fn handled(connection: ConnectionModel, outcomes: Seq<ControlOutcome>) -> (
    ConnectionModel,
    ControlFacts,
)
    decreases outcomes.len(),
{
    if outcomes.len() == 0 {
        (
            connection.begun(),
            ControlFacts {
                live: false,
                allowed: false,
                renewed: false,
                reserved: false,
                changed: false,
                closed: false,
            },
        )
    } else {
        let (flow, facts) = handled(connection, outcomes.drop_last());
        (flow.next(outcomes.last()), observed(facts, flow.step, outcomes.last()))
    }
}

/// What each step may rely on.
proof fn lemma_facts(connection: ConnectionModel, outcomes: Seq<ControlOutcome>)
    ensures
        ({
            let (flow, facts) = handled(connection, outcomes);
            let ControlFacts { live, allowed, renewed, reserved, changed, closed } = facts;
            let ours = flow.request is Attach || flow.request is Detach;
            let nothing = !renewed && !reserved && !changed && !closed;
            &&& flow.session == connection.session
            &&& live ==> ours
            &&& allowed ==> live
            &&& renewed ==> live
            &&& reserved ==> renewed && flow.request is Attach
            &&& changed ==> renewed && allowed
            &&& match flow.step {
                ControlStep::ReadFrame | ControlStep::SweepSessions | ControlStep::SweepPool =>
                    !live && !allowed && nothing,
                ControlStep::ValidatePath(path) => !live && !allowed && nothing && flow.connected
                    && flow.attached == Some(path) && flow.request is Attach,
                ControlStep::RecordActivity => !live && !allowed && nothing && flow.connected && ours
                    && (flow.request is Attach ==> flow.attached is None),
                ControlStep::CheckAttach { .. } => live && !allowed && nothing
                    && flow.request is Attach && flow.attached is None,
                ControlStep::CheckDetach { .. } => live && !allowed && nothing
                    && flow.request is Detach,
                ControlStep::RenewLease => live && ours && nothing && (allowed || (
                flow.request is Attach && flow.attached is Some)),
                ControlStep::ReserveAttach { .. } => renewed && allowed && !reserved && !changed
                    && !closed && flow.request is Attach && flow.attached is None,
                ControlStep::CommitAttach => renewed && allowed && reserved && !changed && !closed
                    && flow.request is Attach,
                ControlStep::DetachPath { .. } => renewed && allowed && !changed && !closed
                    && flow.request is Detach,
                ControlStep::CloseSession => !live && !closed && !flow.connected
                    && flow.request is Close,
                ControlStep::CloseExpiredSession => nothing && ours,
                ControlStep::WriteReply(reply) => match reply.kind {
                    ReplyKind::PathAttached { session_id, .. } => renewed && session_id
                        == flow.session && flow.request is Attach,
                    ReplyKind::Ack => (changed && flow.request is Detach) || flow.request is Close,
                    ReplyKind::Reject(why) => {
                        &&& !changed
                        &&& !allowed ==> nothing
                    },
                },
                _ => true,
            }
        }),
    decreases outcomes.len(),
{
    if outcomes.len() > 0 {
        lemma_facts(connection, outcomes.drop_last());
    }
}

/// A lease is renewed only for a request of the connection's own session that
/// was shown to be live, and only once the session map would carry it out or
/// holds its path attached already. And no path is reserved, attached or
/// detached, and no success answered, before the renewal.
pub proof fn law_renewal_precedes_success(
    connection: ConnectionModel,
    outcomes: Seq<ControlOutcome>,
)
    ensures
        ({
            let (flow, facts) = handled(connection, outcomes);
            let ours = flow.request is Attach || flow.request is Detach;
            &&& flow.step is RenewLease ==> facts.live && ours && (facts.allowed || (
            flow.request is Attach && flow.attached is Some))
            &&& flow.step is RenewLease ==> !facts.reserved && !facts.changed
            &&& (flow.step is ReserveAttach || flow.step is CommitAttach || flow.step is DetachPath)
                ==> facts.renewed
            &&& facts.reserved || facts.changed ==> facts.renewed
            &&& (flow.step matches ControlStep::WriteReply(reply) && reply.kind is PathAttached)
                ==> facts.renewed
            &&& (flow.step matches ControlStep::WriteReply(reply) && reply.kind is Ack
                && flow.request is Detach) ==> facts.renewed
        }),
{
    lemma_facts(connection, outcomes);
}

/// An attach or a detach that the session map would refuse is rejected, and
/// neither renews the lease nor changes a path. No rejected request changes a
/// path.
pub proof fn law_refused_requests_renew_nothing(
    connection: ConnectionModel,
    outcomes: Seq<ControlOutcome>,
)
    ensures
        ({
            let (flow, facts) = handled(connection, outcomes);
            let refused = flow.next(ControlOutcome::Failed);
            &&& flow.step is CheckAttach ==> !facts.renewed && refused == flow.reject(
                RejectReason::AttachRejected,
            )
            &&& flow.step is CheckDetach ==> !facts.renewed && refused == flow.reject(
                RejectReason::DetachRejected,
            )
            &&& flow.step matches ControlStep::WriteReply(reply) ==> reply.kind is Reject
                ==> !facts.changed && (!facts.allowed ==> !facts.renewed && !facts.reserved)
        }),
{
    lemma_facts(connection, outcomes);
}

/// A renewal that fails answers nothing: the session is closed and the request
/// ends in an error.
pub proof fn law_failed_renewal_fails_closed(connection: ConnectionModel)
    requires
        connection.step is RenewLease || connection.step is RecordActivity,
    ensures
        connection.next(ControlOutcome::Failed).step == ControlStep::CloseExpiredSession,
        forall|outcome: ControlOutcome| #[trigger]
            connection.next(ControlOutcome::Failed).next(outcome).step == ControlStep::Finished(
                Err(V2AdmissionListenerError::AddressPool),
            ),
        connection.next(ControlOutcome::Failed).attached == connection.attached,
{
}

/// A request that names another session changes nothing: it is rejected.
pub proof fn law_foreign_requests_change_nothing(connection: ConnectionModel)
    requires
        connection.step is SweepPool,
        connection.request is Foreign,
    ensures
        forall|outcome: ControlOutcome|
            {
                let after = #[trigger] connection.next(outcome);
                &&& after == connection.reject(RejectReason::NotForThisConnection)
                &&& after.attached == connection.attached
                &&& after.connected == connection.connected
            },
{
}

/// A connection that gave its capability up never gets it back, and attaches
/// nothing any more.
pub proof fn law_closed_connections_stay_closed(
    connection: ConnectionModel,
    outcomes: Seq<ControlOutcome>,
)
    requires
        !connection.connected,
    ensures
        !handled(connection, outcomes).0.connected,
        !handled(connection, outcomes).1.renewed,
        !handled(connection, outcomes).1.changed,
    decreases outcomes.len(),
{
    lemma_facts(connection, outcomes);
    if outcomes.len() > 0 {
        law_closed_connections_stay_closed(connection, outcomes.drop_last());
        lemma_facts(connection, outcomes.drop_last());
        lemma_closed_steps(connection, outcomes.drop_last());
    }
}

/// Which steps a connection without its capability can be at.
proof fn lemma_closed_steps(connection: ConnectionModel, outcomes: Seq<ControlOutcome>)
    requires
        !connection.connected,
    ensures
        ({
            let (flow, facts) = handled(connection, outcomes);
            &&& !flow.connected
            &&& !facts.live
            &&& flow.step is ReadFrame || flow.step is SweepSessions || flow.step is SweepPool
                || flow.step is WriteReply || flow.step is Finished
        }),
    decreases outcomes.len(),
{
    if outcomes.len() > 0 {
        lemma_closed_steps(connection, outcomes.drop_last());
    }
}

/// A frame of a connection goes through both sweeps before anything is decided on
/// it. A sweep of the sessions that fails ends the request; one of the pool cannot.
pub open spec fn asked(
    connection: ConnectionModel,
    transaction_id: u64,
    request: PathRequest,
    pool_swept: ControlOutcome,
) -> ConnectionModel {
    connection.begun().next(ControlOutcome::Request { transaction_id, request }).next(
        ControlOutcome::Worked,
    ).next(pool_swept)
}

/// Every frame is followed by the two sweeps, whatever it asks.
pub proof fn law_sweeps_come_first(
    connection: ConnectionModel,
    transaction_id: u64,
    request: PathRequest,
    failed: ControlOutcome,
)
    ensures
        ({
            let read = connection.begun().next(ControlOutcome::Request { transaction_id, request });
            &&& connection.begun().step is ReadFrame
            &&& read.step is SweepSessions
            &&& read.transaction_id == transaction_id
            &&& read.request == request
            &&& read.attached == connection.attached
            &&& read.connected == connection.connected
            &&& read.next(ControlOutcome::Worked).step is SweepPool
            &&& failed != ControlOutcome::Worked ==> read.next(failed).step
                == ControlStep::Finished(Err(V2AdmissionListenerError::ConnectionCleanup))
        }),
{
}

/// An attach on a connection without a path succeeds where every step works: the
/// activity is recorded, the attach found possible, the lease renewed, the path
/// reserved and committed, and the client told which path it has. That path is then
/// the connection's, under the nonce of the request.
pub proof fn law_attaches_that_work_succeed(
    connection: ConnectionModel,
    transaction_id: u64,
    path_nonce: u128,
    path_epoch: u64,
    key_epoch: u32,
    pool_swept: ControlOutcome,
    path_id: PathId,
    attached_epoch: u64,
    attached_key: u32,
)
    requires
        connection.connected,
        connection.attached is None,
    ensures
        ({
            let worked = ControlOutcome::Worked;
            let request = PathRequest::Attach { path_nonce, path_epoch, key_epoch };
            let recording = asked(connection, transaction_id, request, pool_swept);
            let checking = recording.next(worked);
            let renewing = checking.next(worked);
            let reserving = renewing.next(worked);
            let committing = reserving.next(worked);
            let replying = committing.next(
                ControlOutcome::Attached {
                    path_id,
                    path_epoch: attached_epoch,
                    key_epoch: attached_key,
                },
            );
            &&& recording.step is RecordActivity
            &&& checking.step == (ControlStep::CheckAttach { path_epoch, key_epoch })
            &&& renewing.step is RenewLease
            &&& reserving.step == (ControlStep::ReserveAttach { path_epoch, key_epoch })
            &&& committing.step is CommitAttach
            &&& replying.step == ControlStep::WriteReply(
                ControlReply {
                    transaction_id,
                    kind: ReplyKind::PathAttached {
                        session_id: connection.session,
                        path_id,
                        path_epoch: attached_epoch,
                    },
                },
            )
            &&& replying.attached == Some(
                ListenerPathBinding {
                    path_id,
                    path_epoch: attached_epoch,
                    key_epoch: attached_key,
                    path_nonce,
                },
            )
            &&& replying.connected
            &&& replying.next(worked).step == ControlStep::Finished(Ok(()))
            &&& replying.next(worked).attached == replying.attached
        }),
{
}

/// The attach that a connection already has is answered again where its path is
/// still valid and its lease renewed; nothing is attached anew. Any other attach,
/// of another nonce, epoch or key, is told that there is a path already.
pub proof fn law_repeated_attaches_are_answered_again(
    connection: ConnectionModel,
    transaction_id: u64,
    path_nonce: u128,
    path_epoch: u64,
    key_epoch: u32,
    pool_swept: ControlOutcome,
    path: ListenerPathBinding,
)
    requires
        connection.connected,
        connection.attached == Some(path),
    ensures
        ({
            let worked = ControlOutcome::Worked;
            let request = PathRequest::Attach { path_nonce, path_epoch, key_epoch };
            let first = asked(connection, transaction_id, request, pool_swept);
            let same = path.path_nonce == path_nonce && path.path_epoch == path_epoch
                && path.key_epoch == key_epoch;
            &&& first.attached == Some(path)
            &&& same ==> {
                &&& first.step == ControlStep::ValidatePath(path)
                &&& first.next(ControlOutcome::Failed).step == ControlStep::WriteReply(
                    ControlReply {
                        transaction_id,
                        kind: ReplyKind::Reject(RejectReason::CachedPathInvalid),
                    },
                )
                &&& first.next(worked).step is RenewLease
                &&& first.next(worked).next(worked).step == ControlStep::WriteReply(
                    ControlReply {
                        transaction_id,
                        kind: ReplyKind::PathAttached {
                            session_id: connection.session,
                            path_id: path.path_id,
                            path_epoch,
                        },
                    },
                )
                &&& first.next(worked).next(worked).attached == Some(path)
            }
            &&& !same ==> first.step == ControlStep::WriteReply(
                ControlReply {
                    transaction_id,
                    kind: ReplyKind::Reject(RejectReason::AlreadyAttached),
                },
            )
        }),
{
}

/// A detach succeeds where every step works, whether or not the path was attached;
/// where it was, the connection has none any more.
pub proof fn law_detaches_that_work_succeed(
    connection: ConnectionModel,
    transaction_id: u64,
    path_id: PathId,
    path_epoch: u64,
    pool_swept: ControlOutcome,
    was_attached: bool,
)
    requires
        connection.connected,
    ensures
        ({
            let worked = ControlOutcome::Worked;
            let request = PathRequest::Detach { path_id, path_epoch };
            let recording = asked(connection, transaction_id, request, pool_swept);
            let checking = recording.next(worked);
            let renewing = checking.next(worked);
            let detaching = renewing.next(worked);
            let replying = detaching.next(ControlOutcome::Detached(was_attached));
            &&& recording.step is RecordActivity
            &&& checking.step == (ControlStep::CheckDetach { path_id, path_epoch })
            &&& renewing.step is RenewLease
            &&& detaching.step == (ControlStep::DetachPath { path_id, path_epoch })
            &&& detaching.attached == connection.attached
            &&& replying.step == ControlStep::WriteReply(
                ControlReply { transaction_id, kind: ReplyKind::Ack },
            )
            &&& replying.attached == if was_attached {
                None
            } else {
                connection.attached
            }
            &&& replying.connected
            &&& detaching.next(ControlOutcome::Failed).step == ControlStep::WriteReply(
                ControlReply {
                    transaction_id,
                    kind: ReplyKind::Reject(RejectReason::DetachRejected),
                },
            )
        }),
{
}

/// A close gives the capability and the path up, closes the session and is
/// acknowledged; on a connection that gave them up already it is only acknowledged.
pub proof fn law_closes_are_acknowledged(
    connection: ConnectionModel,
    transaction_id: u64,
    pool_swept: ControlOutcome,
    failed: ControlOutcome,
)
    ensures
        ({
            let first = asked(connection, transaction_id, PathRequest::Close, pool_swept);
            let ack = ControlStep::WriteReply(
                ControlReply { transaction_id, kind: ReplyKind::Ack },
            );
            &&& !first.connected
            &&& connection.connected ==> {
                &&& first.step is CloseSession
                &&& first.attached is None
                &&& first.next(ControlOutcome::Worked).step == ack
                &&& failed != ControlOutcome::Worked ==> first.next(failed).step
                    == ControlStep::Finished(Err(V2AdmissionListenerError::ConnectionCleanup))
            }
            &&& !connection.connected ==> first.step == ack
        }),
{
}

/// Without the capability, an attach or a detach is not carried out: the connection
/// is closed, or, where it somehow kept a path that the attach contradicts, that is
/// said.
pub proof fn law_closed_connections_change_no_path(
    connection: ConnectionModel,
    transaction_id: u64,
    request: PathRequest,
    pool_swept: ControlOutcome,
)
    requires
        !connection.connected,
        connection.attached is None,
        request is Attach || request is Detach,
    ensures
        asked(connection, transaction_id, request, pool_swept).step == ControlStep::Finished(
            Err(V2AdmissionListenerError::ConnectionClosed),
        ),
{
}

/// A path that could not be reserved is rejected, and one that was reserved and not
/// committed is said not to be. Neither is attached.
pub proof fn law_paths_that_fail_are_not_attached(
    connection: ConnectionModel,
    failed: ControlOutcome,
)
    requires
        failed != ControlOutcome::Worked,
        !(failed is Attached),
    ensures
        connection.step is ReserveAttach ==> connection.next(failed).step
            == ControlStep::WriteReply(
            ControlReply {
                transaction_id: connection.transaction_id,
                kind: ReplyKind::Reject(RejectReason::AttachRejected),
            },
        ),
        connection.step is CommitAttach ==> connection.next(failed).step
            == ControlStep::WriteReply(
            ControlReply {
                transaction_id: connection.transaction_id,
                kind: ReplyKind::Reject(RejectReason::AttachNotCommitted),
            },
        ),
        connection.step is ReserveAttach || connection.step is CommitAttach ==> connection.next(
            failed,
        ).attached == connection.attached,
{
}

/// A frame that cannot be read, or an answer that cannot be written, ends the
/// connection: it gives its capability and its path up and is released. Where it has
/// none left, there is nothing to release.
pub proof fn law_broken_streams_end_the_connection(
    connection: ConnectionModel,
    failed: ControlOutcome,
    last: ControlOutcome,
)
    requires
        connection.step is ReadFrame && !(failed is Request) || connection.step is WriteReply
            && failed != ControlOutcome::Worked,
    ensures
        ({
            let broken = connection.next(failed);
            let ended = ControlStep::Finished(Err(V2AdmissionListenerError::ControlStream));
            &&& !broken.connected
            &&& connection.connected ==> broken.step is CloseConnection && broken.attached is None
                && broken.next(last).step == ended
            &&& !connection.connected ==> broken.step == ended
        }),
{
}

/// What a client is told of a rejection: the code that fits, and why.
pub proof fn law_rejections_say_why(why: RejectReason)
    ensures
        why.code_of() == match why {
            RejectReason::AlreadyAttached => RejectCode::StaleEpoch,
            RejectReason::DetachRejected => RejectCode::UnknownPath,
            RejectReason::NotForThisConnection => RejectCode::InvalidDirection,
            RejectReason::CachedPathInvalid | RejectReason::AttachNotCommitted
            | RejectReason::AttachRejected => RejectCode::InvalidState,
        },
        why is CachedPathInvalid ==> why.text_of() == "cached path attachment is no longer valid"@,
        why is AlreadyAttached ==> why.text_of() == "connection is already attached"@,
        why is AttachNotCommitted ==> why.text_of() == "path attach could not commit"@,
        why is AttachRejected ==> why.text_of() == "path attach rejected"@,
        why is DetachRejected ==> why.text_of() == "path detach rejected"@,
        why is NotForThisConnection ==> why.text_of()
            == "control request is not valid for this connection"@,
{
}

/// A message is a request of this connection exactly where it names its session; the
/// request is then what the message says.
pub proof fn law_requests_are_of_the_session(
    connection: &V2AdmittedConnection,
    message: &ControlMessage,
    request: PathRequest,
)
    requires
        call_ensures(V2AdmittedConnection::classify, (connection, message), request),
    ensures
        *message matches ControlMessage::PathAttach {
            session_id,
            path_nonce,
            path_epoch,
            key_epoch,
        } ==> request == if session_id == connection@.session {
            PathRequest::Attach { path_nonce, path_epoch, key_epoch }
        } else {
            PathRequest::Foreign
        },
        *message matches ControlMessage::PathDetach { session_id, path_id, path_epoch }
            ==> request == if session_id == connection@.session {
            PathRequest::Detach { path_id, path_epoch }
        } else {
            PathRequest::Foreign
        },
        *message matches ControlMessage::Close { session_id } ==> request == if session_id
            == connection@.session {
            PathRequest::Close
        } else {
            PathRequest::Foreign
        },
        !(message is PathAttach || message is PathDetach || message is Close) ==> request
            is Foreign,
{
}

} // verus!
