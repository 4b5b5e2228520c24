//! The protocol messages and their wire codec.
//!
//! Every message is one discriminant byte followed by a payload whose layout
//! the discriminant determines. The two directions have independent
//! discriminant spaces: a byte value means something different in each.
//!
//! Wire layout, all integers little-endian, no padding:
//! - `Hello`: 4-byte protocol version.
//! - `Authenticate`: 32-byte credential digest.
//! - `Update`: 4-byte payload length, then the inventory payload.
//! - `AuthenticationRequest`: 4-byte nonce length, then the nonce.
//! - `UpdateRequest`: no payload.
//! - `PowerUp`: 4-byte machine id.

use vstd::prelude::*;
use vstd::bytes::{lemma_auto_spec_u32_to_from_le_bytes, spec_u32_to_le_bytes};
use vstd::slice::{slice_subrange, slice_to_vec};

use crate::inventory::{WorkerInfo, WorkerInfoView};
use crate::payload::{
    dec_u32, decode_worker_info, encode_worker_info, spec_decode_worker_info,
    spec_encode_worker_info, take_u32, worker_info_encodable, write_u32_little_endian,
};

verus! {

/// The protocol version this implementation speaks.
pub const MESSAGE_VERSION: u32 = 1;

/// Byte length of a credential digest.
pub const DIGEST_LEN: usize = 32;

/// Worker-to-server discriminant of `Hello`.
pub const HELLO_CODE: u8 = 1;

/// Worker-to-server discriminant of `Authenticate`.
pub const AUTHENTICATE_CODE: u8 = 2;

/// Worker-to-server discriminant of `Update`.
pub const UPDATE_CODE: u8 = 3;

/// Server-to-worker discriminant of `AuthenticationRequest`.
pub const AUTHENTICATION_REQUEST_CODE: u8 = 1;

/// Server-to-worker discriminant of `UpdateRequest`.
pub const UPDATE_REQUEST_CODE: u8 = 2;

/// Server-to-worker discriminant of `PowerUp`.
pub const POWER_UP_CODE: u8 = 3;

/// Why a message could not be read from a byte sequence.
#[derive(Clone, Copy, Debug, PartialEq, Eq, Structural)]
pub enum ReadError {
    /// The bytes end before the message does, or a declared payload length
    /// passes the caller's maximum. The stream cannot supply the message.
    IoError,
    /// The first byte is no discriminant of this direction. The stream
    /// cannot be resynchronized and must be closed.
    UnknownDiscriminant,
    /// A declared-length payload arrived whole but is not a well-formed
    /// inventory record.
    DecodeError,
}

/// Why a message could not be written.
#[derive(Clone, Copy, Debug, PartialEq, Eq, Structural)]
pub enum WriteError {
    /// A variable-length payload exceeds the 4-byte length field's range.
    /// Nothing was written.
    EncodingTooLarge,
}

/// A message a worker sends to a server.
#[derive(Debug)]
pub enum WorkerToServerMessage {
    /// Version negotiation; must be the first message of a connection.
    Hello { version: u32 },
    /// Credential proof: a digest over the shared secret and the nonce.
    Authenticate { hash: Vec<u8> },
    /// Full inventory snapshot, replacing the server's prior view wholesale.
    Update(WorkerInfo),
}

/// A message a server sends to a worker.
#[derive(Debug)]
pub enum ServerToWorkerMessage {
    /// Challenge carrying the per-handshake nonce.
    AuthenticationRequest { nonce: Vec<u8> },
    /// Solicits a fresh `Update`; carries nothing.
    UpdateRequest,
    /// Orders a wake attempt against the machine with the given id.
    PowerUp { machine_id: u32 },
}

/// Mathematical model of a `WorkerToServerMessage`.
#[verifier::ext_equal]
pub enum WorkerToServerMessageView {
    Hello { version: u32 },
    Authenticate { hash: Seq<u8> },
    Update(WorkerInfoView),
}

/// Mathematical model of a `ServerToWorkerMessage`.
#[verifier::ext_equal]
pub enum ServerToWorkerMessageView {
    AuthenticationRequest { nonce: Seq<u8> },
    UpdateRequest,
    PowerUp { machine_id: u32 },
}

impl View for WorkerToServerMessage {
    type V = WorkerToServerMessageView;

    open spec fn view(&self) -> WorkerToServerMessageView {
        match self {
            WorkerToServerMessage::Hello { version } => WorkerToServerMessageView::Hello {
                version: *version,
            },
            WorkerToServerMessage::Authenticate { hash } => WorkerToServerMessageView::Authenticate {
                hash: hash@,
            },
            WorkerToServerMessage::Update(info) => WorkerToServerMessageView::Update(info@),
        }
    }
}

impl View for ServerToWorkerMessage {
    type V = ServerToWorkerMessageView;

    open spec fn view(&self) -> ServerToWorkerMessageView {
        match self {
            ServerToWorkerMessage::AuthenticationRequest { nonce } =>
                ServerToWorkerMessageView::AuthenticationRequest { nonce: nonce@ },
            ServerToWorkerMessage::UpdateRequest => ServerToWorkerMessageView::UpdateRequest,
            ServerToWorkerMessage::PowerUp { machine_id } => ServerToWorkerMessageView::PowerUp {
                machine_id: *machine_id,
            },
        }
    }
}

// ---------------------------------------------------------------------------
// Specification of the wire format, worker-to-server direction
// ---------------------------------------------------------------------------
/// Structural validity: a credential digest is exactly 32 bytes.
pub open spec fn wf_worker_to_server(m: WorkerToServerMessageView) -> bool {
    m matches WorkerToServerMessageView::Authenticate { hash } ==> hash.len() == DIGEST_LEN
}

/// The exact byte sequence of a worker-to-server message.
pub open spec fn spec_write_worker_to_server(m: WorkerToServerMessageView) -> Seq<u8> {
    match m {
        WorkerToServerMessageView::Hello { version } => seq![HELLO_CODE] + spec_u32_to_le_bytes(
            version,
        ),
        WorkerToServerMessageView::Authenticate { hash } => seq![AUTHENTICATE_CODE] + hash,
        WorkerToServerMessageView::Update(info) => {
            let payload = spec_encode_worker_info(info);
            seq![UPDATE_CODE] + spec_u32_to_le_bytes(payload.len() as u32) + payload
        },
    }
}

/// When writing succeeds: every variable-length payload fits its 4-byte
/// length field.
pub open spec fn write_ok_worker_to_server(m: WorkerToServerMessageView) -> bool {
    m matches WorkerToServerMessageView::Update(info) ==> worker_info_encodable(info)
        && spec_encode_worker_info(info).len() <= u32::MAX
}

/// Payload length a reader must be willing to accept for this message.
pub open spec fn payload_len_worker_to_server(m: WorkerToServerMessageView) -> int {
    match m {
        WorkerToServerMessageView::Update(info) => spec_encode_worker_info(info).len() as int,
        _ => 0,
    }
}

/// Read one worker-to-server message from the front of `b`. A declared
/// payload length above `max_payload` is refused before any allocation.
pub open spec fn spec_read_worker_to_server(b: Seq<u8>, max_payload: u32) -> Result<
    (WorkerToServerMessageView, int),
    ReadError,
> {
    if b.len() < 1 {
        Err(ReadError::IoError)
    } else if b[0] == HELLO_CODE {
        match dec_u32(b, 1) {
            Some((version, p)) => Ok((WorkerToServerMessageView::Hello { version }, p)),
            None => Err(ReadError::IoError),
        }
    } else if b[0] == AUTHENTICATE_CODE {
        if b.len() >= 1 + DIGEST_LEN {
            Ok(
                (
                    WorkerToServerMessageView::Authenticate {
                        hash: b.subrange(1, 1 + DIGEST_LEN as int),
                    },
                    1 + DIGEST_LEN as int,
                ),
            )
        } else {
            Err(ReadError::IoError)
        }
    } else if b[0] == UPDATE_CODE {
        match dec_u32(b, 1) {
            Some((len, p)) => if len > max_payload {
                Err(ReadError::IoError)
            } else if p + len <= b.len() {
                match spec_decode_worker_info(b.subrange(p, p + len)) {
                    Some(info) => Ok((WorkerToServerMessageView::Update(info), p + len)),
                    None => Err(ReadError::DecodeError),
                }
            } else {
                Err(ReadError::IoError)
            },
            None => Err(ReadError::IoError),
        }
    } else {
        Err(ReadError::UnknownDiscriminant)
    }
}

// ---------------------------------------------------------------------------
// Specification of the wire format, server-to-worker direction
// ---------------------------------------------------------------------------
/// The exact byte sequence of a server-to-worker message.
pub open spec fn spec_write_server_to_worker(m: ServerToWorkerMessageView) -> Seq<u8> {
    match m {
        ServerToWorkerMessageView::AuthenticationRequest { nonce } => seq![
            AUTHENTICATION_REQUEST_CODE,
        ] + spec_u32_to_le_bytes(nonce.len() as u32) + nonce,
        ServerToWorkerMessageView::UpdateRequest => seq![UPDATE_REQUEST_CODE],
        ServerToWorkerMessageView::PowerUp { machine_id } => seq![POWER_UP_CODE]
            + spec_u32_to_le_bytes(machine_id),
    }
}

/// When writing succeeds: the nonce fits its 4-byte length field.
pub open spec fn write_ok_server_to_worker(m: ServerToWorkerMessageView) -> bool {
    m matches ServerToWorkerMessageView::AuthenticationRequest { nonce } ==> nonce.len()
        <= u32::MAX
}

/// Payload length a reader must be willing to accept for this message.
pub open spec fn payload_len_server_to_worker(m: ServerToWorkerMessageView) -> int {
    match m {
        ServerToWorkerMessageView::AuthenticationRequest { nonce } => nonce.len() as int,
        _ => 0,
    }
}

/// Read one server-to-worker message from the front of `b`. A declared
/// nonce length above `max_payload` is refused before any allocation.
pub open spec fn spec_read_server_to_worker(b: Seq<u8>, max_payload: u32) -> Result<
    (ServerToWorkerMessageView, int),
    ReadError,
> {
    if b.len() < 1 {
        Err(ReadError::IoError)
    } else if b[0] == AUTHENTICATION_REQUEST_CODE {
        match dec_u32(b, 1) {
            Some((len, p)) => if len > max_payload {
                Err(ReadError::IoError)
            } else if p + len <= b.len() {
                Ok(
                    (
                        ServerToWorkerMessageView::AuthenticationRequest {
                            nonce: b.subrange(p, p + len),
                        },
                        p + len,
                    ),
                )
            } else {
                Err(ReadError::IoError)
            },
            None => Err(ReadError::IoError),
        }
    } else if b[0] == UPDATE_REQUEST_CODE {
        Ok((ServerToWorkerMessageView::UpdateRequest, 1))
    } else if b[0] == POWER_UP_CODE {
        match dec_u32(b, 1) {
            Some((machine_id, p)) => Ok((ServerToWorkerMessageView::PowerUp { machine_id }, p)),
            None => Err(ReadError::IoError),
        }
    } else {
        Err(ReadError::UnknownDiscriminant)
    }
}

// ---------------------------------------------------------------------------
// Executable codec, worker-to-server direction
// ---------------------------------------------------------------------------
impl WorkerToServerMessage {
    /// Encode this message as the exact byte sequence of the wire format.
    /// Fails, writing nothing, exactly when a variable-length payload
    /// exceeds the 4-byte length field's range.
    pub fn write(&self) -> (r: Result<Vec<u8>, WriteError>)
        requires
            wf_worker_to_server(self@),
        ensures
            r matches Ok(v) ==> v@ == spec_write_worker_to_server(self@),
            r is Ok <==> write_ok_worker_to_server(self@),
            r matches Err(e) ==> e == WriteError::EncodingTooLarge,
    {
        match self {
            WorkerToServerMessage::Hello { version } => {
                let mut buf: Vec<u8> = Vec::new();
                buf.push(HELLO_CODE);
                write_u32_little_endian(&mut buf, *version);
                proof {
                    assert(buf@ =~= spec_write_worker_to_server(self@));
                }
                Ok(buf)
            },
            WorkerToServerMessage::Authenticate { hash } => {
                let mut buf: Vec<u8> = Vec::new();
                buf.push(AUTHENTICATE_CODE);
                buf.extend_from_slice(hash.as_slice());
                proof {
                    assert(buf@ =~= spec_write_worker_to_server(self@));
                }
                Ok(buf)
            },
            WorkerToServerMessage::Update(info) => {
                let payload = match encode_worker_info(info) {
                    Some(p) => p,
                    None => {
                        return Err(WriteError::EncodingTooLarge);
                    },
                };
                if payload.len() > u32::MAX as usize {
                    return Err(WriteError::EncodingTooLarge);
                }
                let mut buf: Vec<u8> = Vec::new();
                buf.push(UPDATE_CODE);
                write_u32_little_endian(&mut buf, payload.len() as u32);
                buf.extend_from_slice(payload.as_slice());
                proof {
                    assert(buf@ =~= spec_write_worker_to_server(self@));
                }
                Ok(buf)
            },
        }
    }

    /// Decode one message from the front of `bytes`, returning it and the
    /// number of bytes it occupied; the stream position after a successful
    /// read is exactly the start of the next message. `max_payload` is the
    /// caller's bound on a declared payload length, imposed before the
    /// payload is taken.
    pub fn read(bytes: &[u8], max_payload: u32) -> (r: Result<(Self, usize), ReadError>)
        ensures
            (r matches Ok((m, n)) ==> spec_read_worker_to_server(bytes@, max_payload) == Ok::<
                _,
                ReadError,
            >((m@, n as int)) && wf_worker_to_server(m@) && n <= bytes@.len()),
            (r matches Err(e) ==> spec_read_worker_to_server(bytes@, max_payload) == Err::<
                (WorkerToServerMessageView, int),
                _,
            >(e)),
    {
        if bytes.len() < 1 {
            return Err(ReadError::IoError);
        }
        let code = *vstd::slice::slice_index_get(bytes, 0);
        if code == HELLO_CODE {
            match take_u32(bytes, 1) {
                Some((version, p)) => Ok((WorkerToServerMessage::Hello { version }, p)),
                None => Err(ReadError::IoError),
            }
        } else if code == AUTHENTICATE_CODE {
            if bytes.len() >= 1 + DIGEST_LEN {
                let hash = slice_to_vec(slice_subrange(bytes, 1, 1 + DIGEST_LEN));
                Ok((WorkerToServerMessage::Authenticate { hash }, 1 + DIGEST_LEN))
            } else {
                Err(ReadError::IoError)
            }
        } else if code == UPDATE_CODE {
            let (len, p) = match take_u32(bytes, 1) {
                Some(x) => x,
                None => {
                    return Err(ReadError::IoError);
                },
            };
            if len > max_payload {
                return Err(ReadError::IoError);
            }
            let lenu = len as usize;
            if bytes.len() - p < lenu {
                return Err(ReadError::IoError);
            }
            let payload = slice_subrange(bytes, p, p + lenu);
            match decode_worker_info(payload) {
                Some(info) => Ok((WorkerToServerMessage::Update(info), p + lenu)),
                None => Err(ReadError::DecodeError),
            }
        } else {
            Err(ReadError::UnknownDiscriminant)
        }
    }
}

// ---------------------------------------------------------------------------
// Executable codec, server-to-worker direction
// ---------------------------------------------------------------------------
impl ServerToWorkerMessage {
    /// Encode this message as the exact byte sequence of the wire format.
    /// Fails, writing nothing, exactly when the nonce exceeds the 4-byte
    /// length field's range.
    pub fn write(&self) -> (r: Result<Vec<u8>, WriteError>)
        ensures
            r matches Ok(v) ==> v@ == spec_write_server_to_worker(self@),
            r is Ok <==> write_ok_server_to_worker(self@),
            r matches Err(e) ==> e == WriteError::EncodingTooLarge,
    {
        match self {
            ServerToWorkerMessage::AuthenticationRequest { nonce } => {
                if nonce.len() > u32::MAX as usize {
                    return Err(WriteError::EncodingTooLarge);
                }
                let mut buf: Vec<u8> = Vec::new();
                buf.push(AUTHENTICATION_REQUEST_CODE);
                write_u32_little_endian(&mut buf, nonce.len() as u32);
                buf.extend_from_slice(nonce.as_slice());
                proof {
                    assert(buf@ =~= spec_write_server_to_worker(self@));
                }
                Ok(buf)
            },
            ServerToWorkerMessage::UpdateRequest => {
                let mut buf: Vec<u8> = Vec::new();
                buf.push(UPDATE_REQUEST_CODE);
                proof {
                    assert(buf@ =~= spec_write_server_to_worker(self@));
                }
                Ok(buf)
            },
            ServerToWorkerMessage::PowerUp { machine_id } => {
                let mut buf: Vec<u8> = Vec::new();
                buf.push(POWER_UP_CODE);
                write_u32_little_endian(&mut buf, *machine_id);
                proof {
                    assert(buf@ =~= spec_write_server_to_worker(self@));
                }
                Ok(buf)
            },
        }
    }

    /// Decode one message from the front of `bytes`, returning it and the
    /// number of bytes it occupied. `max_payload` is the caller's bound on
    /// a declared nonce length, imposed before the nonce is taken.
    pub fn read(bytes: &[u8], max_payload: u32) -> (r: Result<(Self, usize), ReadError>)
        ensures
            (r matches Ok((m, n)) ==> spec_read_server_to_worker(bytes@, max_payload) == Ok::<
                _,
                ReadError,
            >((m@, n as int)) && n <= bytes@.len()),
            (r matches Err(e) ==> spec_read_server_to_worker(bytes@, max_payload) == Err::<
                (ServerToWorkerMessageView, int),
                _,
            >(e)),
    {
        if bytes.len() < 1 {
            return Err(ReadError::IoError);
        }
        let code = *vstd::slice::slice_index_get(bytes, 0);
        if code == AUTHENTICATION_REQUEST_CODE {
            let (len, p) = match take_u32(bytes, 1) {
                Some(x) => x,
                None => {
                    return Err(ReadError::IoError);
                },
            };
            if len > max_payload {
                return Err(ReadError::IoError);
            }
            let lenu = len as usize;
            if bytes.len() - p < lenu {
                return Err(ReadError::IoError);
            }
            let nonce = slice_to_vec(slice_subrange(bytes, p, p + lenu));
            Ok((ServerToWorkerMessage::AuthenticationRequest { nonce }, p + lenu))
        } else if code == UPDATE_REQUEST_CODE {
            Ok((ServerToWorkerMessage::UpdateRequest, 1))
        } else if code == POWER_UP_CODE {
            match take_u32(bytes, 1) {
                Some((machine_id, p)) => Ok((ServerToWorkerMessage::PowerUp { machine_id }, p)),
                None => Err(ReadError::IoError),
            }
        } else {
            Err(ReadError::UnknownDiscriminant)
        }
    }
}

// ---------------------------------------------------------------------------
// Laws of the codec
// ---------------------------------------------------------------------------
/// Round trip, worker-to-server direction: reading the front of a stream
/// that starts with the encoding of a writable message yields that message
/// and consumes exactly its encoding, whatever follows it.
pub proof fn lemma_round_trip_worker_to_server(
    m: WorkerToServerMessageView,
    rest: Seq<u8>,
    max_payload: u32,
)
    requires
        wf_worker_to_server(m),
        write_ok_worker_to_server(m),
        payload_len_worker_to_server(m) <= max_payload,
    ensures
        spec_read_worker_to_server(spec_write_worker_to_server(m) + rest, max_payload) == Ok::<
            _,
            ReadError,
        >((m, spec_write_worker_to_server(m).len() as int)),
{
    lemma_auto_spec_u32_to_from_le_bytes();
    let enc = spec_write_worker_to_server(m);
    let b = enc + rest;
    match m {
        WorkerToServerMessageView::Hello { version } => {
            assert(b[0] == HELLO_CODE);
            assert(b.subrange(1, 5) =~= spec_u32_to_le_bytes(version));
            crate::payload::lemma_dec_u32_at(b, 1, version);
        },
        WorkerToServerMessageView::Authenticate { hash } => {
            assert(b[0] == AUTHENTICATE_CODE);
            assert(b.subrange(1, 1 + DIGEST_LEN as int) =~= hash);
        },
        WorkerToServerMessageView::Update(info) => {
            let payload = spec_encode_worker_info(info);
            assert(b[0] == UPDATE_CODE);
            assert(b.subrange(1, 5) =~= spec_u32_to_le_bytes(payload.len() as u32));
            crate::payload::lemma_dec_u32_at(b, 1, payload.len() as u32);
            assert(b.subrange(5, 5 + payload.len() as int) =~= payload);
            crate::payload::lemma_worker_info_round_trip(info);
        },
    }
}

/// Round trip, server-to-worker direction.
pub proof fn lemma_round_trip_server_to_worker(
    m: ServerToWorkerMessageView,
    rest: Seq<u8>,
    max_payload: u32,
)
    requires
        write_ok_server_to_worker(m),
        payload_len_server_to_worker(m) <= max_payload,
    ensures
        spec_read_server_to_worker(spec_write_server_to_worker(m) + rest, max_payload) == Ok::<
            _,
            ReadError,
        >((m, spec_write_server_to_worker(m).len() as int)),
{
    lemma_auto_spec_u32_to_from_le_bytes();
    let enc = spec_write_server_to_worker(m);
    let b = enc + rest;
    match m {
        ServerToWorkerMessageView::AuthenticationRequest { nonce } => {
            assert(b[0] == AUTHENTICATION_REQUEST_CODE);
            assert(b.subrange(1, 5) =~= spec_u32_to_le_bytes(nonce.len() as u32));
            crate::payload::lemma_dec_u32_at(b, 1, nonce.len() as u32);
            assert(b.subrange(5, 5 + nonce.len() as int) =~= nonce);
        },
        ServerToWorkerMessageView::UpdateRequest => {
            assert(b[0] == UPDATE_REQUEST_CODE);
        },
        ServerToWorkerMessageView::PowerUp { machine_id } => {
            assert(b[0] == POWER_UP_CODE);
            assert(b.subrange(1, 5) =~= spec_u32_to_le_bytes(machine_id));
            crate::payload::lemma_dec_u32_at(b, 1, machine_id);
        },
    }
}

/// Length-field honesty, worker-to-server direction: a read never succeeds
/// on a strict prefix of a message's encoding; the missing bytes surface as
/// an input-exhausted failure, never as a truncated value.
pub proof fn lemma_truncated_read_worker_to_server(
    m: WorkerToServerMessageView,
    k: int,
    max_payload: u32,
)
    requires
        wf_worker_to_server(m),
        write_ok_worker_to_server(m),
        payload_len_worker_to_server(m) <= max_payload,
        0 <= k < spec_write_worker_to_server(m).len(),
    ensures
        spec_read_worker_to_server(spec_write_worker_to_server(m).take(k), max_payload) == Err::<
            (WorkerToServerMessageView, int),
            _,
        >(ReadError::IoError),
{
    lemma_auto_spec_u32_to_from_le_bytes();
    let enc = spec_write_worker_to_server(m);
    let t = enc.take(k);
    if k == 0 {
    } else {
        assert(t[0] == enc[0]);
        match m {
            WorkerToServerMessageView::Hello { version } => {},
            WorkerToServerMessageView::Authenticate { hash } => {},
            WorkerToServerMessageView::Update(info) => {
                let payload = spec_encode_worker_info(info);
                if k >= 5 {
                    assert(t.subrange(1, 5) =~= spec_u32_to_le_bytes(payload.len() as u32));
                    crate::payload::lemma_dec_u32_at(t, 1, payload.len() as u32);
                }
            },
        }
    }
}

/// Length-field honesty, server-to-worker direction.
pub proof fn lemma_truncated_read_server_to_worker(
    m: ServerToWorkerMessageView,
    k: int,
    max_payload: u32,
)
    requires
        write_ok_server_to_worker(m),
        payload_len_server_to_worker(m) <= max_payload,
        0 <= k < spec_write_server_to_worker(m).len(),
    ensures
        spec_read_server_to_worker(spec_write_server_to_worker(m).take(k), max_payload) == Err::<
            (ServerToWorkerMessageView, int),
            _,
        >(ReadError::IoError),
{
    lemma_auto_spec_u32_to_from_le_bytes();
    let enc = spec_write_server_to_worker(m);
    let t = enc.take(k);
    if k == 0 {
    } else {
        assert(t[0] == enc[0]);
        match m {
            ServerToWorkerMessageView::AuthenticationRequest { nonce } => {
                if k >= 5 {
                    assert(t.subrange(1, 5) =~= spec_u32_to_le_bytes(nonce.len() as u32));
                    crate::payload::lemma_dec_u32_at(t, 1, nonce.len() as u32);
                }
            },
            ServerToWorkerMessageView::UpdateRequest => {},
            ServerToWorkerMessageView::PowerUp { machine_id } => {},
        }
    }
}

/// Unknown discriminant, worker-to-server direction: any first byte outside
/// this direction's discriminant set is refused as such, for every input.
pub proof fn lemma_unknown_discriminant_worker_to_server(b: Seq<u8>, max_payload: u32)
    requires
        b.len() >= 1,
        b[0] != HELLO_CODE,
        b[0] != AUTHENTICATE_CODE,
        b[0] != UPDATE_CODE,
    ensures
        spec_read_worker_to_server(b, max_payload) == Err::<(WorkerToServerMessageView, int), _>(
            ReadError::UnknownDiscriminant,
        ),
{
}

/// Unknown discriminant, server-to-worker direction.
pub proof fn lemma_unknown_discriminant_server_to_worker(b: Seq<u8>, max_payload: u32)
    requires
        b.len() >= 1,
        b[0] != AUTHENTICATION_REQUEST_CODE,
        b[0] != UPDATE_REQUEST_CODE,
        b[0] != POWER_UP_CODE,
    ensures
        spec_read_server_to_worker(b, max_payload) == Err::<(ServerToWorkerMessageView, int), _>(
            ReadError::UnknownDiscriminant,
        ),
{
}

} // verus!
