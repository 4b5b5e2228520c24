use jimiru::handshake::{
    compute_credential_digest, generate_nonce, HandshakeError, ServerSession, SessionPhase,
    WorkerPhase, WorkerSession,
};
use jimiru::inventory::{MachineInfo, WorkerInfo};
use jimiru::messages::{ServerToWorkerMessage, WorkerToServerMessage, MESSAGE_VERSION};

const MAX: u32 = 1 << 20;

fn sample_info() -> WorkerInfo {
    WorkerInfo {
        worker_name: String::from("den-pc"),
        machines: vec![MachineInfo {
            id: 1,
            display_name: String::from("desktop"),
            is_online: false,
        }],
    }
}

#[test]
fn protocol_constants() {
    assert_eq!(jimiru::DEFAULT_PORT, 61011);
    assert_eq!(MESSAGE_VERSION, 1);
}

#[test]
fn credential_digest_is_real_sha256() {
    // With an empty nonce the digest is the digest of the secret alone;
    // for the three bytes "abc" that value is pinned by the SHA-256 standard.
    let digest = compute_credential_digest(b"abc", b"");
    let expected: [u8; 32] = [
        0xba, 0x78, 0x16, 0xbf, 0x8f, 0x01, 0xcf, 0xea, 0x41, 0x41, 0x40, 0xde, 0x5d, 0xae,
        0x22, 0x23, 0xb0, 0x03, 0x61, 0xa3, 0x96, 0x17, 0x7a, 0x9c, 0xb4, 0x10, 0xff, 0x61,
        0xf2, 0x00, 0x15, 0xad,
    ];
    assert_eq!(digest, expected);
}

#[test]
fn generated_nonces_are_fresh_sixteen_bytes() {
    let a = generate_nonce().unwrap();
    let b = generate_nonce().unwrap();
    assert_eq!(a.len(), 16);
    assert_eq!(b.len(), 16);
    assert_ne!(a, b);
}

#[test]
fn full_handshake_succeeds() {
    // Worker sends Hello{version=1}; the server with matching version
    // replies with a 16-byte random nonce; the worker answers with the
    // digest over (secret ‖ nonce); the server verifies and both sides
    // count themselves authenticated. Every message crosses the codec.
    let secret = b"shared secret".to_vec();
    let mut server = ServerSession::new(MESSAGE_VERSION, secret.clone());
    let mut worker = WorkerSession::new(MESSAGE_VERSION, secret, sample_info());

    let hello = worker.hello().unwrap().write().unwrap();
    let (hello_msg, _) = WorkerToServerMessage::read(&hello, MAX).unwrap();
    let version = match hello_msg {
        WorkerToServerMessage::Hello { version } => version,
        _ => panic!("wrong variant"),
    };

    let nonce = generate_nonce().unwrap();
    assert_eq!(nonce.len(), 16);
    let challenge = server.on_hello(version, nonce).unwrap().write().unwrap();
    assert_eq!(server.phase, SessionPhase::AwaitingAuthenticate);

    let (challenge_msg, _) = ServerToWorkerMessage::read(&challenge, MAX).unwrap();
    let nonce = match challenge_msg {
        ServerToWorkerMessage::AuthenticationRequest { nonce } => nonce,
        _ => panic!("wrong variant"),
    };

    let auth = worker.on_authentication_request(&nonce).unwrap().write().unwrap();
    assert_eq!(worker.phase, WorkerPhase::Authenticated);
    let (auth_msg, _) = WorkerToServerMessage::read(&auth, MAX).unwrap();
    let hash = match auth_msg {
        WorkerToServerMessage::Authenticate { hash } => hash,
        _ => panic!("wrong variant"),
    };

    server.on_authenticate(&hash).unwrap();
    assert_eq!(server.phase, SessionPhase::Authenticated);
}

#[test]
fn version_mismatch_closes_the_connection() {
    // Worker speaks version 999 where the server expects 1.
    let mut server = ServerSession::new(1, b"s".to_vec());
    let err = server.on_hello(999, vec![0u8; 16]).unwrap_err();
    assert_eq!(err, HandshakeError::VersionMismatch);
    assert_eq!(server.phase, SessionPhase::Closed);
}

#[test]
fn update_before_authentication_is_out_of_sequence() {
    // Skipping authentication: Update right after Hello must be rejected.
    let mut server = ServerSession::new(1, b"s".to_vec());
    server.on_hello(1, vec![0u8; 16]).unwrap();
    let err = server.on_update(sample_info()).unwrap_err();
    assert_eq!(err, HandshakeError::OutOfSequence);
    assert_eq!(server.phase, SessionPhase::Closed);
    assert!(server.worker_info.is_none());
}

#[test]
fn hello_twice_is_out_of_sequence() {
    let mut server = ServerSession::new(1, b"s".to_vec());
    server.on_hello(1, vec![0u8; 16]).unwrap();
    let err = server.on_hello(1, vec![1u8; 16]).unwrap_err();
    assert_eq!(err, HandshakeError::OutOfSequence);
    assert_eq!(server.phase, SessionPhase::Closed);
}

#[test]
fn stale_nonce_digest_fails_verification() {
    // A digest computed from a previous connection's nonce must not pass
    // against the fresh nonce of a new connection.
    let secret = b"shared secret".to_vec();
    let old_nonce = vec![0u8; 16];
    let stale_digest = compute_credential_digest(&secret, &old_nonce);

    let mut server = ServerSession::new(1, secret);
    server.on_hello(1, vec![1u8; 16]).unwrap();
    let err = server.on_authenticate(&stale_digest).unwrap_err();
    assert_eq!(err, HandshakeError::AuthenticationFailed);
    assert_eq!(server.phase, SessionPhase::Closed);
}

#[test]
fn wrong_secret_fails_verification() {
    let nonce = vec![7u8; 16];
    let mut server = ServerSession::new(1, b"right".to_vec());
    server.on_hello(1, nonce.clone()).unwrap();
    let digest = compute_credential_digest(b"wrong", &nonce);
    let err = server.on_authenticate(&digest).unwrap_err();
    assert_eq!(err, HandshakeError::AuthenticationFailed);
}

#[test]
fn authenticate_before_hello_is_out_of_sequence() {
    let mut server = ServerSession::new(1, b"s".to_vec());
    let err = server.on_authenticate(&[0u8; 32]).unwrap_err();
    assert_eq!(err, HandshakeError::OutOfSequence);
    assert_eq!(server.phase, SessionPhase::Closed);
}

#[test]
fn server_commands_require_authentication() {
    let server = ServerSession::new(1, b"s".to_vec());
    assert_eq!(server.request_update().unwrap_err(), HandshakeError::OutOfSequence);
    assert_eq!(server.power_up(1).unwrap_err(), HandshakeError::OutOfSequence);
}

#[test]
fn worker_rejects_commands_before_authentication() {
    let mut worker = WorkerSession::new(1, b"s".to_vec(), sample_info());
    let err = worker.on_power_up(1).unwrap_err();
    assert_eq!(err, HandshakeError::OutOfSequence);
    assert_eq!(worker.phase, WorkerPhase::Closed);
}

fn authenticated_pair() -> (ServerSession, WorkerSession) {
    let secret = b"shared secret".to_vec();
    let mut server = ServerSession::new(1, secret.clone());
    let mut worker = WorkerSession::new(1, secret, sample_info());
    worker.hello().unwrap();
    let nonce = generate_nonce().unwrap();
    server.on_hello(1, nonce.clone()).unwrap();
    let auth = worker.on_authentication_request(&nonce).unwrap();
    let hash = match auth {
        WorkerToServerMessage::Authenticate { hash } => hash,
        _ => panic!("wrong variant"),
    };
    server.on_authenticate(&hash).unwrap();
    (server, worker)
}

#[test]
fn inventory_update_and_power_up_round_trip() {
    // Authenticated worker reports "den-pc" with one offline machine; the
    // server stores the snapshot wholesale, later orders a power-up for
    // machine 1, and the worker maps the id back to its stored entry.
    let (mut server, mut worker) = authenticated_pair();

    let update = worker.on_update_request().unwrap().write().unwrap();
    let (update_msg, _) = WorkerToServerMessage::read(&update, MAX).unwrap();
    let info = match update_msg {
        WorkerToServerMessage::Update(info) => info,
        _ => panic!("wrong variant"),
    };
    server.on_update(info).unwrap();
    let stored = server.worker_info.as_ref().unwrap();
    assert_eq!(stored.worker_name, "den-pc");
    assert_eq!(stored.machines.len(), 1);
    assert_eq!(stored.machines[0].id, 1);
    assert!(!stored.machines[0].is_online);

    let command = server.power_up(1).unwrap().write().unwrap();
    let (command_msg, _) = ServerToWorkerMessage::read(&command, MAX).unwrap();
    let machine_id = match command_msg {
        ServerToWorkerMessage::PowerUp { machine_id } => machine_id,
        _ => panic!("wrong variant"),
    };
    let machine = worker.on_power_up(machine_id).unwrap().unwrap();
    assert_eq!(machine.id, 1);
    assert_eq!(machine.display_name, "desktop");
    assert!(!machine.is_online);
}

#[test]
fn power_up_for_unknown_id_finds_nothing() {
    let (_, mut worker) = authenticated_pair();
    assert!(worker.on_power_up(42).unwrap().is_none());
}

#[test]
fn update_replaces_inventory_wholesale() {
    let (mut server, _) = authenticated_pair();
    server.on_update(sample_info()).unwrap();
    let replacement = WorkerInfo {
        worker_name: String::from("den-pc"),
        machines: vec![MachineInfo {
            id: 2,
            display_name: String::from("laptop"),
            is_online: true,
        }],
    };
    server.on_update(replacement).unwrap();
    let stored = server.worker_info.as_ref().unwrap();
    assert_eq!(stored.machines.len(), 1);
    assert_eq!(stored.machines[0].id, 2);
}

#[test]
fn find_machine_returns_first_match() {
    let info = WorkerInfo {
        worker_name: String::from("w"),
        machines: vec![
            MachineInfo { id: 5, display_name: String::from("a"), is_online: false },
            MachineInfo { id: 5, display_name: String::from("b"), is_online: true },
        ],
    };
    let found = info.find_machine(5).unwrap();
    assert_eq!(found.display_name, "a");
    assert!(info.find_machine(6).is_none());
}
