//! The handshake state machine that gates all inventory and command traffic.
//!
//! Server-side lifecycle: awaiting `Hello`, then awaiting `Authenticate`
//! against a freshly issued nonce, then authenticated; any out-of-sequence
//! message closes the connection. The worker side mirrors it. A failed
//! handshake's only recovery is a new connection with a fresh nonce.

use vstd::prelude::*;
use vstd::slice::slice_to_vec;

use crate::crypto::{constant_time_eq, random_bytes, sha256, sha256_of};
use crate::inventory::{spec_find_machine, MachineInfo, WorkerInfo};
use crate::messages::{
    ServerToWorkerMessage, ServerToWorkerMessageView, WorkerToServerMessage,
    WorkerToServerMessageView, DIGEST_LEN,
};

verus! {

/// Nonce length a server issues.
pub const NONCE_LEN: usize = 16;

/// Failure reasons of the handshake; each is fatal to the connection.
#[derive(Clone, Copy, Debug, PartialEq, Eq, Structural)]
pub enum HandshakeError {
    /// The worker's version is not the exact version this server serves.
    VersionMismatch,
    /// The credential digest does not match the expected one.
    AuthenticationFailed,
    /// A message arrived in a state it is not valid for.
    OutOfSequence,
}

/// The stages of a connection's lifecycle, server-side view.
#[derive(Clone, Copy, Debug, PartialEq, Eq, Structural)]
pub enum SessionPhase {
    AwaitingHello,
    AwaitingAuthenticate,
    Authenticated,
    Closed,
}

/// The digest that proves possession of the shared secret for a nonce:
/// the digest over the secret followed by the nonce.
pub open spec fn spec_expected_digest(secret: Seq<u8>, nonce: Seq<u8>) -> Seq<u8> {
    sha256_of(secret + nonce)
}

/// Compute the credential digest for a shared secret and a received nonce.
pub fn compute_credential_digest(secret: &[u8], nonce: &[u8]) -> (r: Vec<u8>)
    ensures
        r@ == spec_expected_digest(secret@, nonce@),
        r@.len() == DIGEST_LEN,
{
    let mut data: Vec<u8> = Vec::new();
    data.extend_from_slice(secret);
    data.extend_from_slice(nonce);
    proof {
        assert(data@ =~= secret@ + nonce@);
    }
    sha256(data.as_slice())
}

/// Draw a fresh random nonce of the length this server issues.
pub fn generate_nonce() -> (r: Option<Vec<u8>>)
    ensures
        r matches Some(v) ==> v@.len() == NONCE_LEN,
{
    random_bytes(NONCE_LEN)
}

/// One worker connection as the server sees it.
pub struct ServerSession {
    /// Where in the lifecycle this connection stands.
    pub phase: SessionPhase,
    /// The exact protocol version this server serves.
    pub expected_version: u32,
    /// Read-only shared secret used to verify credential digests.
    pub secret: Vec<u8>,
    /// The nonce issued for the current handshake; empty outside one.
    pub nonce: Vec<u8>,
    /// The worker's last reported inventory, replaced wholesale by `Update`.
    pub worker_info: Option<WorkerInfo>,
}

impl ServerSession {
    /// A fresh connection, awaiting the worker's `Hello`.
    pub fn new(expected_version: u32, secret: Vec<u8>) -> (s: Self)
        ensures
            s.phase == SessionPhase::AwaitingHello,
            s.expected_version == expected_version,
            s.secret@ == secret@,
            s.nonce@.len() == 0,
            s.worker_info is None,
    {
        ServerSession {
            phase: SessionPhase::AwaitingHello,
            expected_version,
            secret,
            nonce: Vec::new(),
            worker_info: None,
        }
    }

    /// Handle `Hello`. On the exact expected version the session stores the
    /// fresh nonce and answers with the challenge; on any other version the
    /// session closes with `VersionMismatch`; out of sequence it closes with
    /// `OutOfSequence`. The nonce must fit the framing's 4-byte length field.
    pub fn on_hello(&mut self, version: u32, fresh_nonce: Vec<u8>) -> (r: Result<
        ServerToWorkerMessage,
        HandshakeError,
    >)
        requires
            fresh_nonce@.len() <= u32::MAX,
        ensures
            final(self).expected_version == old(self).expected_version,
            final(self).secret@ == old(self).secret@,
            final(self).worker_info == old(self).worker_info,
            old(self).phase != SessionPhase::AwaitingHello ==> final(self).phase
                == SessionPhase::Closed && (r matches Err(e) && e == HandshakeError::OutOfSequence),
            (old(self).phase == SessionPhase::AwaitingHello && version
                != old(self).expected_version) ==> final(self).phase == SessionPhase::Closed && (
            r matches Err(e) && e == HandshakeError::VersionMismatch),
            (old(self).phase == SessionPhase::AwaitingHello && version
                == old(self).expected_version) ==> (final(self).phase
                == SessionPhase::AwaitingAuthenticate && final(self).nonce@ == fresh_nonce@ && (
            r matches Ok(msg) && msg@ == (ServerToWorkerMessageView::AuthenticationRequest {
                nonce: fresh_nonce@,
            }))),
    {
        match self.phase {
            SessionPhase::AwaitingHello => {
                if version == self.expected_version {
                    self.nonce = slice_to_vec(fresh_nonce.as_slice());
                    self.phase = SessionPhase::AwaitingAuthenticate;
                    Ok(ServerToWorkerMessage::AuthenticationRequest { nonce: fresh_nonce })
                } else {
                    self.phase = SessionPhase::Closed;
                    Err(HandshakeError::VersionMismatch)
                }
            },
            _ => {
                self.phase = SessionPhase::Closed;
                Err(HandshakeError::OutOfSequence)
            },
        }
    }

    /// Handle `Authenticate`. The expected digest is recomputed from the
    /// stored secret and the issued nonce and compared in constant time;
    /// the nonce is discarded either way, never reused.
    pub fn on_authenticate(&mut self, hash: &[u8]) -> (r: Result<(), HandshakeError>)
        ensures
            final(self).expected_version == old(self).expected_version,
            final(self).secret@ == old(self).secret@,
            final(self).worker_info == old(self).worker_info,
            final(self).nonce@.len() == 0,
            old(self).phase != SessionPhase::AwaitingAuthenticate ==> final(self).phase
                == SessionPhase::Closed && (r matches Err(e) && e == HandshakeError::OutOfSequence),
            old(self).phase == SessionPhase::AwaitingAuthenticate && hash@ == spec_expected_digest(
                old(self).secret@,
                old(self).nonce@,
            ) ==> final(self).phase == SessionPhase::Authenticated && r is Ok,
            old(self).phase == SessionPhase::AwaitingAuthenticate && hash@ != spec_expected_digest(
                old(self).secret@,
                old(self).nonce@,
            ) ==> final(self).phase == SessionPhase::Closed && (r matches Err(e) && e
                == HandshakeError::AuthenticationFailed),
    {
        match self.phase {
            SessionPhase::AwaitingAuthenticate => {
                let expected = compute_credential_digest(
                    self.secret.as_slice(),
                    self.nonce.as_slice(),
                );
                let ok = constant_time_eq(hash, expected.as_slice());
                self.nonce = Vec::new();
                if ok {
                    self.phase = SessionPhase::Authenticated;
                    Ok(())
                } else {
                    self.phase = SessionPhase::Closed;
                    Err(HandshakeError::AuthenticationFailed)
                }
            },
            _ => {
                self.nonce = Vec::new();
                self.phase = SessionPhase::Closed;
                Err(HandshakeError::OutOfSequence)
            },
        }
    }

    /// Handle `Update`. Only an authenticated worker may report inventory;
    /// the report replaces the stored one wholesale.
    pub fn on_update(&mut self, info: WorkerInfo) -> (r: Result<(), HandshakeError>)
        ensures
            final(self).expected_version == old(self).expected_version,
            final(self).secret@ == old(self).secret@,
            final(self).nonce@ == old(self).nonce@,
            old(self).phase == SessionPhase::Authenticated ==> final(self).phase
                == SessionPhase::Authenticated && r is Ok && (final(self).worker_info matches Some(
                i,
            ) && i@ == info@),
            old(self).phase != SessionPhase::Authenticated ==> final(self).phase
                == SessionPhase::Closed && final(self).worker_info == old(self).worker_info && (
            r matches Err(e) && e == HandshakeError::OutOfSequence),
    {
        match self.phase {
            SessionPhase::Authenticated => {
                self.worker_info = Some(info);
                Ok(())
            },
            _ => {
                self.phase = SessionPhase::Closed;
                Err(HandshakeError::OutOfSequence)
            },
        }
    }

    /// The `UpdateRequest` message, available only once authenticated:
    /// the handshake gates outgoing traffic too.
    pub fn request_update(&self) -> (r: Result<ServerToWorkerMessage, HandshakeError>)
        ensures
            self.phase == SessionPhase::Authenticated ==> (r matches Ok(msg) && msg@
                == ServerToWorkerMessageView::UpdateRequest),
            self.phase != SessionPhase::Authenticated ==> (r matches Err(e) && e
                == HandshakeError::OutOfSequence),
    {
        if let SessionPhase::Authenticated = self.phase {
            Ok(ServerToWorkerMessage::UpdateRequest)
        } else {
            Err(HandshakeError::OutOfSequence)
        }
    }

    /// The `PowerUp` message for a machine id, available only once
    /// authenticated. Fire-and-forget: the protocol carries no reply.
    pub fn power_up(&self, machine_id: u32) -> (r: Result<ServerToWorkerMessage, HandshakeError>)
        ensures
            self.phase == SessionPhase::Authenticated ==> (r matches Ok(msg) && msg@
                == (ServerToWorkerMessageView::PowerUp { machine_id })),
            self.phase != SessionPhase::Authenticated ==> (r matches Err(e) && e
                == HandshakeError::OutOfSequence),
    {
        if let SessionPhase::Authenticated = self.phase {
            Ok(ServerToWorkerMessage::PowerUp { machine_id })
        } else {
            Err(HandshakeError::OutOfSequence)
        }
    }
}

/// The stages of a connection's lifecycle, worker-side view. The worker
/// counts itself authenticated once its `Authenticate` is sent; a server
/// that rejects the digest closes the connection.
#[derive(Clone, Copy, Debug, PartialEq, Eq, Structural)]
pub enum WorkerPhase {
    Greeting,
    AwaitingChallenge,
    Authenticated,
    Closed,
}

/// One server connection as the worker sees it.
pub struct WorkerSession {
    /// Where in the lifecycle this connection stands.
    pub phase: WorkerPhase,
    /// The protocol version this worker speaks.
    pub version: u32,
    /// Read-only shared secret used to answer challenges.
    pub secret: Vec<u8>,
    /// The inventory this worker reports on `UpdateRequest`.
    pub inventory: WorkerInfo,
}

impl WorkerSession {
    /// A fresh connection, about to greet the server.
    pub fn new(version: u32, secret: Vec<u8>, inventory: WorkerInfo) -> (s: Self)
        ensures
            s.phase == WorkerPhase::Greeting,
            s.version == version,
            s.secret@ == secret@,
            s.inventory@ == inventory@,
    {
        WorkerSession { phase: WorkerPhase::Greeting, version, secret, inventory }
    }

    /// The opening `Hello`; valid exactly once, before anything else.
    pub fn hello(&mut self) -> (r: Result<WorkerToServerMessage, HandshakeError>)
        ensures
            final(self).version == old(self).version,
            final(self).secret@ == old(self).secret@,
            final(self).inventory@ == old(self).inventory@,
            old(self).phase == WorkerPhase::Greeting ==> final(self).phase
                == WorkerPhase::AwaitingChallenge && (r matches Ok(msg) && msg@
                == (WorkerToServerMessageView::Hello { version: old(self).version })),
            old(self).phase != WorkerPhase::Greeting ==> final(self).phase == WorkerPhase::Closed
                && (r matches Err(e) && e == HandshakeError::OutOfSequence),
    {
        if let WorkerPhase::Greeting = self.phase {
            self.phase = WorkerPhase::AwaitingChallenge;
            Ok(WorkerToServerMessage::Hello { version: self.version })
        } else {
            self.phase = WorkerPhase::Closed;
            Err(HandshakeError::OutOfSequence)
        }
    }

    /// Handle `AuthenticationRequest`: answer the challenge with the digest
    /// over the shared secret and the received nonce.
    pub fn on_authentication_request(&mut self, nonce: &[u8]) -> (r: Result<
        WorkerToServerMessage,
        HandshakeError,
    >)
        ensures
            final(self).version == old(self).version,
            final(self).secret@ == old(self).secret@,
            final(self).inventory@ == old(self).inventory@,
            old(self).phase == WorkerPhase::AwaitingChallenge ==> final(self).phase
                == WorkerPhase::Authenticated && spec_expected_digest(
                old(self).secret@,
                nonce@,
            ).len() == DIGEST_LEN && (r matches Ok(msg) && msg@
                == (WorkerToServerMessageView::Authenticate {
                hash: spec_expected_digest(old(self).secret@, nonce@),
            })),
            old(self).phase != WorkerPhase::AwaitingChallenge ==> final(self).phase
                == WorkerPhase::Closed && (r matches Err(e) && e == HandshakeError::OutOfSequence),
    {
        if let WorkerPhase::AwaitingChallenge = self.phase {
            let hash = compute_credential_digest(self.secret.as_slice(), nonce);
            self.phase = WorkerPhase::Authenticated;
            Ok(WorkerToServerMessage::Authenticate { hash })
        } else {
            self.phase = WorkerPhase::Closed;
            Err(HandshakeError::OutOfSequence)
        }
    }

    /// Handle `UpdateRequest`: answer with the full inventory snapshot.
    /// Valid only once authenticated.
    pub fn on_update_request(&mut self) -> (r: Result<WorkerToServerMessage, HandshakeError>)
        ensures
            final(self).version == old(self).version,
            final(self).secret@ == old(self).secret@,
            final(self).inventory@ == old(self).inventory@,
            old(self).phase == WorkerPhase::Authenticated ==> final(self).phase
                == WorkerPhase::Authenticated && (r matches Ok(msg) && msg@
                == WorkerToServerMessageView::Update(old(self).inventory@)),
            old(self).phase != WorkerPhase::Authenticated ==> final(self).phase
                == WorkerPhase::Closed && (r matches Err(e) && e == HandshakeError::OutOfSequence),
    {
        if let WorkerPhase::Authenticated = self.phase {
            Ok(WorkerToServerMessage::Update(self.inventory.clone()))
        } else {
            self.phase = WorkerPhase::Closed;
            Err(HandshakeError::OutOfSequence)
        }
    }

    /// Handle `PowerUp`: map the machine id back to the stored machine
    /// entry, if any. Valid only once authenticated; the protocol carries
    /// no acknowledgment either way.
    pub fn on_power_up(&mut self, machine_id: u32) -> (r: Result<
        Option<MachineInfo>,
        HandshakeError,
    >)
        ensures
            final(self).version == old(self).version,
            final(self).secret@ == old(self).secret@,
            final(self).inventory@ == old(self).inventory@,
            old(self).phase == WorkerPhase::Authenticated ==> final(self).phase
                == WorkerPhase::Authenticated && (match r {
                Ok(Some(m)) => spec_find_machine(old(self).inventory@.machines, machine_id)
                    == Some(m@),
                Ok(None) => spec_find_machine(old(self).inventory@.machines, machine_id) is None,
                Err(_) => false,
            }),
            old(self).phase != WorkerPhase::Authenticated ==> final(self).phase
                == WorkerPhase::Closed && (r matches Err(e) && e == HandshakeError::OutOfSequence),
    {
        if let WorkerPhase::Authenticated = self.phase {
            match self.inventory.find_machine(machine_id) {
                Some(m) => Ok(Some(m.clone())),
                None => Ok(None),
            }
        } else {
            self.phase = WorkerPhase::Closed;
            Err(HandshakeError::OutOfSequence)
        }
    }
}

} // verus!
