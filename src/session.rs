//! The rules of the control session with the guest agent.
//!
//! One request is outstanding at a time: a new one is sent only after the
//! previous response came back. A transport failure or a response that does
//! not answer the outstanding request ends the session for good; an error
//! status from the guest concerns that one call only; after a successful
//! `quit` every request fails as closed. The I/O itself is done by the
//! caller, which feeds the session what it read.

use vstd::prelude::*;

verus! {

/// What a request asks of the guest.
#[derive(Debug, Clone, Copy, PartialEq, Eq, Structural)]
pub enum RequestKind {
    RunProcess,
    RunEntrypoint,
    Kill,
    QueryOutput,
    Mount,
    AddAddress,
    CreateNetwork,
    AddHosts,
    Quit,
}

/// Errors that a control call reports.
#[derive(Debug, Clone, Copy, PartialEq, Eq, Structural)]
pub enum ClientError {
    /// The session was closed, by `quit` or by an earlier fatal error.
    ConnectionClosed,
    /// Another request is still waiting for its response.
    Busy,
    /// The transport failed; the session is over.
    Transport,
    /// The response did not match the outstanding request; the session is over.
    Protocol,
    /// The guest reported an error status for this call only.
    Guest { code: u32 },
}

#[derive(Debug, Clone, Copy, PartialEq, Eq, Structural)]
pub enum SessionState {
    Idle,
    Awaiting { id: u64, kind: RequestKind },
    Closed,
}

/// A response read from the control channel: the request it answers, and
/// the guest's status (zero for success).
#[derive(Debug, Clone, Copy, PartialEq, Eq, Structural)]
pub struct ResponseHeader {
    pub request_id: u64,
    pub status: u32,
}

pub struct SessionView {
    pub state: SessionState,
    pub next_id: u64,
}

pub open spec fn successor_id(id: u64) -> u64 {
    if id == u64::MAX {
        0
    } else {
        (id + 1) as u64
    }
}

/// The state after a response arrives in state `s`, and what the waiting
/// call gets.
pub open spec fn after_response(s: SessionState, resp: ResponseHeader) -> (SessionState, Result<RequestKind, ClientError>) {
    match s {
        SessionState::Awaiting { id, kind } => if resp.request_id != id {
            (SessionState::Closed, Err(ClientError::Protocol))
        } else if resp.status != 0 {
            (SessionState::Idle, Err(ClientError::Guest { code: resp.status }))
        } else if kind == RequestKind::Quit {
            (SessionState::Closed, Ok(kind))
        } else {
            (SessionState::Idle, Ok(kind))
        },
        _ => (SessionState::Closed, Err(ClientError::Protocol)),
    }
}

/// Whether the connector should try again after `failed` attempts failed,
/// when it may retry `retries` times after the first attempt.
pub open spec fn should_retry(failed: nat, retries: nat) -> bool {
    failed <= retries
}

pub struct Session {
    state: SessionState,
    next_id: u64,
}

impl View for Session {
    type V = SessionView;

    closed spec fn view(&self) -> SessionView {
        SessionView { state: self.state, next_id: self.next_id }
    }
}

/// Decides, after `failed` connection attempts have failed (`failed >= 1`),
/// whether to wait the fixed backoff and try again or to give up with a
/// connection error.
pub fn retry_connect(failed: u32, retries: u32) -> (r: bool)
    ensures
        r == should_retry(failed as nat, retries as nat),
{
    failed <= retries
}

impl Session {
    /// A session over a freshly established connection.
    pub fn new() -> (r: Session)
        ensures
            r@.state == SessionState::Idle,
            r@.next_id == 0,
    {
        Session { state: SessionState::Idle, next_id: 0 }
    }

    pub fn state(&self) -> (r: SessionState)
        ensures
            r == self@.state,
    {
        self.state
    }

    /// Starts a request: returns the identifier to send it under, or why it
    /// cannot be sent now.
    pub fn begin(&mut self, kind: RequestKind) -> (r: Result<u64, ClientError>)
        ensures
            old(self)@.state == SessionState::Idle ==> r == Ok::<u64, ClientError>(old(self)@.next_id)
                && final(self)@.state == (SessionState::Awaiting { id: old(self)@.next_id, kind })
                && final(self)@.next_id == successor_id(old(self)@.next_id),
            old(self)@.state is Closed ==> r == Err::<u64, ClientError>(ClientError::ConnectionClosed)
                && final(self)@ == old(self)@,
            old(self)@.state is Awaiting ==> r == Err::<u64, ClientError>(ClientError::Busy)
                && final(self)@ == old(self)@,
    {
        match self.state {
            SessionState::Idle => {
                let id = self.next_id;
                self.state = SessionState::Awaiting { id, kind };
                self.next_id = if id == u64::MAX { 0 } else { id + 1 };
                Ok(id)
            },
            SessionState::Closed => Err(ClientError::ConnectionClosed),
            SessionState::Awaiting { .. } => Err(ClientError::Busy),
        }
    }

    /// Takes in a response read from the control channel; returns what the
    /// waiting call gets: the kind of request that succeeded, or its error.
    pub fn on_response(&mut self, resp: ResponseHeader) -> (r: Result<RequestKind, ClientError>)
        ensures
            (final(self)@.state, r) == after_response(old(self)@.state, resp),
            final(self)@.next_id == old(self)@.next_id,
    {
        match self.state {
            SessionState::Awaiting { id, kind } => {
                if resp.request_id != id {
                    self.state = SessionState::Closed;
                    Err(ClientError::Protocol)
                } else if resp.status != 0 {
                    self.state = SessionState::Idle;
                    Err(ClientError::Guest { code: resp.status })
                } else {
                    self.state = match kind {
                        RequestKind::Quit => SessionState::Closed,
                        _ => SessionState::Idle,
                    };
                    Ok(kind)
                }
            },
            _ => {
                self.state = SessionState::Closed;
                Err(ClientError::Protocol)
            },
        }
    }

    /// The transport failed: the session is over, and a waiting call gets
    /// the transport error.
    pub fn on_transport_error(&mut self) -> (r: Option<ClientError>)
        ensures
            final(self)@.state == SessionState::Closed,
            final(self)@.next_id == old(self)@.next_id,
            old(self)@.state is Awaiting ==> r == Some(ClientError::Transport),
            !(old(self)@.state is Awaiting) ==> r is None,
    {
        let waiting = match self.state {
            SessionState::Awaiting { .. } => true,
            _ => false,
        };
        self.state = SessionState::Closed;
        if waiting {
            Some(ClientError::Transport)
        } else {
            None
        }
    }
}

} // verus!
