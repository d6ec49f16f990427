//! Connection handshake policy: attempt the handshake against the
//! configured endpoint; if the backend answers with a routing redirect,
//! retry exactly once against the indicated endpoint; any further failure
//! propagates as a backend error. There is no redirect loop.
//!
//! The dialing itself is outside work; the embedding process reports each
//! attempt's outcome and performs the action decided here.

use vstd::prelude::*;
use crate::error::{ErrorKind, ErrorModel};
use crate::outside::classify_connect_error;

verus! {

/// A network endpoint to dial.
#[derive(Clone, Debug)]
pub struct Endpoint {
    pub host: String,
    pub port: u16,
}

/// Why a handshake attempt did not produce a working connection.
#[derive(Clone, Debug)]
pub enum ConnectFailure {
    /// The backend asked for a connection to an alternative address.
    Redirect { host: String, port: u16 },
    /// Any other failure, with the driver's own description.
    Fatal { message: String },
}

/// What to do after a failed attempt.
#[derive(Clone, Debug)]
pub enum HandshakeStep {
    /// Dial this endpoint and try the handshake again.
    Retry { target: Endpoint },
    /// Give up with this error.
    Fail { error: ErrorModel },
}

/// The state of one connection handshake.
#[derive(Clone, Debug)]
pub struct Handshake {
    /// The endpoint of the current attempt.
    pub target: Endpoint,
    /// Whether a routing redirect was already followed once.
    pub redirected: bool,
}

impl Handshake {
    /// Start a handshake: the first attempt dials the configured endpoint.
    pub fn start(target: Endpoint) -> (r: Handshake)
        ensures
            r.target == target,
            !r.redirected,
    {
        Handshake { target, redirected: false }
    }

    /// Decide what a failed attempt means: a first redirect is followed
    /// exactly once, a second redirect or any other failure propagates as a
    /// backend error with the cause preserved.
    pub fn on_failure(&mut self, failure: ConnectFailure) -> (r: HandshakeStep)
        ensures
            match failure {
                ConnectFailure::Redirect { host, port } => {
                    if !old(self).redirected {
                        &&& r matches HandshakeStep::Retry { target }
                            && target.host == host && target.port == port
                        &&& final(self).redirected
                        &&& final(self).target.host == host && final(self).target.port == port
                    } else {
                        &&& r matches HandshakeStep::Fail { error }
                            && error.kind == ErrorKind::BackendError
                        &&& *final(self) == *old(self)
                    }
                },
                ConnectFailure::Fatal { message } => {
                    &&& r matches HandshakeStep::Fail { error }
                        && error.kind == ErrorKind::BackendError
                        && error.cause == Some(message)
                    &&& *final(self) == *old(self)
                },
            },
    {
        match failure {
            ConnectFailure::Redirect { host, port } => {
                if !self.redirected {
                    self.redirected = true;
                    self.target = Endpoint { host: host.clone(), port };
                    HandshakeStep::Retry { target: Endpoint { host, port } }
                } else {
                    HandshakeStep::Fail {
                        error: ErrorModel::backend(
                            "backend redirected again after a redirect was already followed"
                                .to_owned(),
                            "routing redirect loop".to_owned(),
                        ),
                    }
                }
            },
            ConnectFailure::Fatal { message } => {
                HandshakeStep::Fail {
                    error: ErrorModel::backend("connection handshake failed".to_owned(), message),
                }
            },
        }
    }
}


impl Handshake {
    /// Decide on a raw driver failure: the redirect classification is the
    /// driver's (see `classify_connect_error`); whatever it reports, a
    /// retry happens only for a first redirect, and any failure after one
    /// propagates as a backend error.
    pub fn on_driver_failure(&mut self, e: tiberius::error::Error) -> (r: HandshakeStep)
        ensures
            match r {
                HandshakeStep::Retry { target } => !old(self).redirected && final(self).redirected
                    && final(self).target.host@ == target.host@ && final(self).target.port
                    == target.port,
                HandshakeStep::Fail { error } => error.kind == ErrorKind::BackendError,
            },
            r is Fail ==> *final(self) == *old(self),
    {
        let failure = classify_connect_error(e);
        self.on_failure(failure)
    }
}

} // verus!
