//! The logical frames that the two sides exchange. A payload is whatever the
//! service's stubs encoded: the runtime hands it on as it came.

use crate::context::Context;
use crate::context::TraceId;
use crate::errors::WireError;
use vstd::prelude::*;

verus! {

/// A call, on its way from the client to the server.
#[derive(Debug, Clone, PartialEq, Eq)]
pub struct Request<P> {
    /// What ties the answer to the call.
    pub id: u64,
    /// The context of the caller, which becomes the handler's.
    pub context: Context,
    /// When the call must be over.
    pub deadline: u64,
    pub payload: P,
}

/// Word from the client that it no longer waits for the answer to a call.
#[derive(Debug, Clone, Copy, PartialEq, Eq, Structural)]
pub struct Cancel {
    pub id: u64,
    pub trace: TraceId,
}

/// The answer to a call, on its way from the server to the client.
#[derive(Debug, PartialEq, Eq)]
pub struct Response<P, E> {
    /// The identifier of the request that this answers.
    pub id: u64,
    pub result: Result<P, WireError<E>>,
}

/// Which way a frame travels.
#[derive(Debug, Clone, Copy, PartialEq, Eq, Structural)]
pub enum Direction {
    ClientToServer,
    ServerToClient,
}

/// Any frame of the protocol.
#[derive(Debug, PartialEq, Eq)]
pub enum Envelope<Req, Resp, E> {
    Request(Request<Req>),
    Cancel(Cancel),
    Response(Response<Resp, E>),
}

impl<Req, Resp, E> Envelope<Req, Resp, E> {
    /// The identifier of the call that the frame is about.
    pub open spec fn spec_id(self) -> u64 {
        match self {
            Envelope::Request(request) => request.id,
            Envelope::Cancel(cancel) => cancel.id,
            Envelope::Response(response) => response.id,
        }
    }

    /// The identifier of the call that the frame is about.
    pub fn id(&self) -> (id: u64)
        ensures
            id == self.spec_id(),
    {
        match self {
            Envelope::Request(request) => request.id,
            Envelope::Cancel(cancel) => cancel.id,
            Envelope::Response(response) => response.id,
        }
    }

    /// Which way the frame travels.
    pub open spec fn spec_direction(self) -> Direction {
        match self {
            Envelope::Response(_) => Direction::ServerToClient,
            _ => Direction::ClientToServer,
        }
    }

    /// Which way the frame travels.
    pub fn direction(&self) -> (direction: Direction)
        ensures
            direction == self.spec_direction(),
    {
        match self {
            Envelope::Response(_) => Direction::ServerToClient,
            _ => Direction::ClientToServer,
        }
    }
}

} // verus!
