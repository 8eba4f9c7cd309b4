//! The transport of a platform without one.
//!
//! The server accepts nothing; the client always reports that no server is
//! running, so that the command-line tool falls back to the hardware itself.

use vstd::prelude::*;

use super::{IpcTransportError, TransportModel};

verus! {

/// The name that would be used: a stable placeholder for diagnostics.
#[must_use]
pub fn default_pipe_name() -> (name: String)
    ensures
        name@ == "duja-ipc-unsupported"@,
{
    "duja-ipc-unsupported".to_owned()
}

/// A server handle that stands for nothing: making one starts nothing, dropping
/// it stops nothing.
#[derive(Debug)]
pub struct PipeServer {
    _private: (),
}

impl PipeServer {
    /// Accept a handler, and dispatch nothing to it.
    pub fn serve<H>(handler: H) -> (server: Result<Self, IpcTransportError>)
        ensures
            server is Ok,
    {
        Ok(PipeServer { _private: () })
    }

    /// As [`PipeServer::serve`], ignoring the requested name.
    pub fn serve_named<H>(name: &str, handler: H) -> (server: Result<Self, IpcTransportError>)
        ensures
            server is Ok,
    {
        Self::serve(handler)
    }

    /// Nothing to tear down.
    pub fn shutdown(self) {
    }
}

/// A client that can never connect.
#[derive(Debug)]
pub struct PipeClient {
    _private: (),
}

impl PipeClient {
    /// Always fails: no server is running.
    pub fn connect(timeout: u64) -> (client: Result<Self, IpcTransportError>)
        ensures
            client matches Err(e) && e@ == TransportModel::NotRunning,
    {
        Err(IpcTransportError::NotRunning)
    }

    /// Always fails: no server is running.
    pub fn connect_named(name: &str, timeout: u64) -> (client: Result<Self, IpcTransportError>)
        ensures
            client matches Err(e) && e@ == TransportModel::NotRunning,
    {
        Err(IpcTransportError::NotRunning)
    }

    /// Always fails: there is no transport.
    pub fn request<Q, R>(&mut self, request: &Q) -> (response: Result<R, IpcTransportError>)
        ensures
            response matches Err(e) && e@ == TransportModel::Unsupported,
    {
        Err(IpcTransportError::Unsupported)
    }
}

} // verus!
