use vstd::prelude::*;
use vstd::string::StringExecFns;
use crate::text::{decimal, push_decimal};

verus! {

/// The TLS port that every probe connects to.
pub const TLS_PORT: usize = 443;

/// OpenSSL's `SSL_ERROR_SYSCALL`: the handshake broke off at the transport
/// level, the peer resetting or closing the connection in the middle of the
/// negotiation, right after the server name went out in the clear.
pub const SSL_ERROR_SYSCALL: i32 = 5;

/// What became of one handshake attempt, as plain values.
#[derive(Debug)]
pub enum HandshakeOutcome {
    /// The handshake completed.
    Completed,
    /// The TLS layer failed with the given raw error code.
    TlsError { code: i32, detail: String },
    /// No TLS exchange took place: name resolution, the TCP connect or the
    /// setup of the TLS session failed.
    ConnectError { detail: String },
}

/// The classification of one probe.
#[derive(Debug)]
pub enum Classification {
    Success,
    Blocked,
    Failure(String),
}

impl Classification {
    pub fn is_success(&self) -> (r: bool)
        ensures
            r == (self is Success),
    {
        matches!(self, Classification::Success)
    }

    pub fn is_blocked(&self) -> (r: bool)
        ensures
            r == (self is Blocked),
    {
        matches!(self, Classification::Blocked)
    }

    pub fn is_failure(&self) -> (r: bool)
        ensures
            r == (self is Failure),
    {
        matches!(self, Classification::Failure(_))
    }
}

/// The classification that a handshake outcome stands for.
pub open spec fn classification_of(o: HandshakeOutcome) -> Classification {
    match o {
        HandshakeOutcome::Completed => Classification::Success,
        HandshakeOutcome::TlsError { code, detail } => if code == SSL_ERROR_SYSCALL {
            Classification::Blocked
        } else {
            Classification::Failure(detail)
        },
        HandshakeOutcome::ConnectError { detail } => Classification::Failure(detail),
    }
}

/// Maps the outcome of a handshake to success, blocked or failure: only the
/// interference signature in the TLS error code counts as blocked.
pub fn classify(outcome: HandshakeOutcome) -> (r: Classification)
    ensures
        r == classification_of(outcome),
{
    match outcome {
        HandshakeOutcome::Completed => Classification::Success,
        HandshakeOutcome::TlsError { code, detail } => {
            if code == SSL_ERROR_SYSCALL {
                Classification::Blocked
            } else {
                Classification::Failure(detail)
            }
        },
        HandshakeOutcome::ConnectError { detail } => Classification::Failure(detail),
    }
}

/// The address a probe of `domain` connects to: `<domain>:443`.
pub fn probe_target(domain: &str) -> (r: String)
    ensures
        r@ == domain@ + ":"@ + decimal(TLS_PORT as nat),
{
    let mut s = String::new();
    s.append(domain);
    s.append(":");
    push_decimal(&mut s, TLS_PORT);
    s
}

} // verus!
