use jimiru::inventory::{MachineInfo, WorkerInfo};
use jimiru::messages::{ReadError, ServerToWorkerMessage, WorkerToServerMessage};

const MAX: u32 = 1 << 20;

fn sample_info() -> WorkerInfo {
    WorkerInfo {
        worker_name: String::from("den-pc"),
        machines: vec![MachineInfo {
            id: 1,
            display_name: String::from("desktop"),
            is_online: false,
        }],
    }
}

fn assert_info_eq(a: &WorkerInfo, b: &WorkerInfo) {
    assert_eq!(a.worker_name, b.worker_name);
    assert_eq!(a.machines.len(), b.machines.len());
    for (x, y) in a.machines.iter().zip(b.machines.iter()) {
        assert_eq!(x.id, y.id);
        assert_eq!(x.display_name, y.display_name);
        assert_eq!(x.is_online, y.is_online);
    }
}

#[test]
fn u32_little_endian_helpers() {
    let mut buf = Vec::new();
    jimiru::payload::write_u32_little_endian(&mut buf, 0x0403_0201);
    assert_eq!(buf, vec![1u8, 2, 3, 4]);
    assert_eq!(jimiru::payload::read_u32_little_endian(&buf), 0x0403_0201);
}

#[test]
fn hello_exact_bytes() {
    let enc = WorkerToServerMessage::Hello { version: 1 }.write().unwrap();
    assert_eq!(enc, vec![1u8, 1, 0, 0, 0]);
}

#[test]
fn hello_round_trip() {
    let enc = WorkerToServerMessage::Hello { version: 0xDEAD_BEEF }.write().unwrap();
    let (msg, n) = WorkerToServerMessage::read(&enc, MAX).unwrap();
    assert_eq!(n, enc.len());
    match msg {
        WorkerToServerMessage::Hello { version } => assert_eq!(version, 0xDEAD_BEEF),
        _ => panic!("wrong variant"),
    }
}

#[test]
fn authenticate_round_trip() {
    let hash: Vec<u8> = (0u8..32).collect();
    let enc = WorkerToServerMessage::Authenticate { hash: hash.clone() }.write().unwrap();
    assert_eq!(enc.len(), 33);
    assert_eq!(enc[0], 2);
    let (msg, n) = WorkerToServerMessage::read(&enc, MAX).unwrap();
    assert_eq!(n, 33);
    match msg {
        WorkerToServerMessage::Authenticate { hash: h } => assert_eq!(h, hash),
        _ => panic!("wrong variant"),
    }
}

#[test]
fn update_round_trip() {
    let info = sample_info();
    let enc = WorkerToServerMessage::Update(info).write().unwrap();
    assert_eq!(enc[0], 3);
    let (msg, n) = WorkerToServerMessage::read(&enc, MAX).unwrap();
    assert_eq!(n, enc.len());
    match msg {
        WorkerToServerMessage::Update(got) => assert_info_eq(&got, &sample_info()),
        _ => panic!("wrong variant"),
    }
}

#[test]
fn update_round_trip_many_machines() {
    let info = WorkerInfo {
        worker_name: String::from("w"),
        machines: (0u32..50)
            .map(|i| MachineInfo {
                id: i,
                display_name: format!("m{}", i),
                is_online: i % 2 == 0,
            })
            .collect(),
    };
    let enc = WorkerToServerMessage::Update(info).write().unwrap();
    let (msg, _) = WorkerToServerMessage::read(&enc, MAX).unwrap();
    match msg {
        WorkerToServerMessage::Update(got) => {
            assert_eq!(got.machines.len(), 50);
            assert_eq!(got.machines[49].display_name, "m49");
            assert!(got.machines[48].is_online);
        },
        _ => panic!("wrong variant"),
    }
}

#[test]
fn update_round_trip_empty_inventory() {
    let info = WorkerInfo { worker_name: String::new(), machines: Vec::new() };
    let enc = WorkerToServerMessage::Update(info).write().unwrap();
    let (msg, _) = WorkerToServerMessage::read(&enc, MAX).unwrap();
    match msg {
        WorkerToServerMessage::Update(got) => {
            assert_eq!(got.worker_name, "");
            assert!(got.machines.is_empty());
        },
        _ => panic!("wrong variant"),
    }
}

#[test]
fn update_round_trip_non_ascii_names() {
    let info = WorkerInfo {
        worker_name: String::from("自宅ワーカー"),
        machines: vec![MachineInfo {
            id: 7,
            display_name: String::from("机のマシン"),
            is_online: true,
        }],
    };
    let enc = WorkerToServerMessage::Update(info).write().unwrap();
    let (msg, _) = WorkerToServerMessage::read(&enc, MAX).unwrap();
    match msg {
        WorkerToServerMessage::Update(got) => {
            assert_eq!(got.worker_name, "自宅ワーカー");
            assert_eq!(got.machines[0].display_name, "机のマシン");
        },
        _ => panic!("wrong variant"),
    }
}

#[test]
fn authentication_request_round_trip() {
    let nonce = vec![9u8, 8, 7];
    let enc = ServerToWorkerMessage::AuthenticationRequest { nonce: nonce.clone() }
        .write()
        .unwrap();
    assert_eq!(enc, vec![1u8, 3, 0, 0, 0, 9, 8, 7]);
    let (msg, n) = ServerToWorkerMessage::read(&enc, MAX).unwrap();
    assert_eq!(n, enc.len());
    match msg {
        ServerToWorkerMessage::AuthenticationRequest { nonce: got } => assert_eq!(got, nonce),
        _ => panic!("wrong variant"),
    }
}

#[test]
fn authentication_request_zero_length_nonce() {
    let enc = ServerToWorkerMessage::AuthenticationRequest { nonce: Vec::new() }.write().unwrap();
    assert_eq!(enc, vec![1u8, 0, 0, 0, 0]);
    let (msg, n) = ServerToWorkerMessage::read(&enc, MAX).unwrap();
    assert_eq!(n, 5);
    match msg {
        ServerToWorkerMessage::AuthenticationRequest { nonce } => assert!(nonce.is_empty()),
        _ => panic!("wrong variant"),
    }
}

#[test]
fn update_request_round_trip() {
    let enc = ServerToWorkerMessage::UpdateRequest.write().unwrap();
    assert_eq!(enc, vec![2u8]);
    let (msg, n) = ServerToWorkerMessage::read(&enc, MAX).unwrap();
    assert_eq!(n, 1);
    assert!(matches!(msg, ServerToWorkerMessage::UpdateRequest));
}

#[test]
fn power_up_round_trip() {
    let enc = ServerToWorkerMessage::PowerUp { machine_id: 7 }.write().unwrap();
    assert_eq!(enc, vec![3u8, 7, 0, 0, 0]);
    let (msg, n) = ServerToWorkerMessage::read(&enc, MAX).unwrap();
    assert_eq!(n, 5);
    match msg {
        ServerToWorkerMessage::PowerUp { machine_id } => assert_eq!(machine_id, 7),
        _ => panic!("wrong variant"),
    }
}

#[test]
fn reading_consumes_exactly_one_message() {
    let mut bytes = WorkerToServerMessage::Hello { version: 5 }.write().unwrap();
    let first_len = bytes.len();
    let mut second = WorkerToServerMessage::Update(sample_info()).write().unwrap();
    bytes.append(&mut second);
    let (_, n) = WorkerToServerMessage::read(&bytes, MAX).unwrap();
    assert_eq!(n, first_len);
    let (msg, _) = WorkerToServerMessage::read(&bytes[n..], MAX).unwrap();
    assert!(matches!(msg, WorkerToServerMessage::Update(_)));
}

#[test]
fn every_truncation_is_an_io_error_worker_to_server() {
    let encodings = vec![
        WorkerToServerMessage::Hello { version: 1 }.write().unwrap(),
        WorkerToServerMessage::Authenticate { hash: vec![7u8; 32] }.write().unwrap(),
        WorkerToServerMessage::Update(sample_info()).write().unwrap(),
    ];
    for enc in encodings {
        for k in 0..enc.len() {
            assert_eq!(
                WorkerToServerMessage::read(&enc[..k], MAX).unwrap_err(),
                ReadError::IoError
            );
        }
    }
}

#[test]
fn every_truncation_is_an_io_error_server_to_worker() {
    let encodings = vec![
        ServerToWorkerMessage::AuthenticationRequest { nonce: vec![1u8; 16] }.write().unwrap(),
        ServerToWorkerMessage::PowerUp { machine_id: 3 }.write().unwrap(),
    ];
    for enc in encodings {
        for k in 0..enc.len() {
            assert_eq!(
                ServerToWorkerMessage::read(&enc[..k], MAX).unwrap_err(),
                ReadError::IoError
            );
        }
    }
}

#[test]
fn all_unknown_discriminants_worker_to_server() {
    for byte in 0u8..=255 {
        if byte == 1 || byte == 2 || byte == 3 {
            continue;
        }
        let r = WorkerToServerMessage::read(&[byte, 0, 0, 0, 0], MAX);
        assert_eq!(r.unwrap_err(), ReadError::UnknownDiscriminant);
    }
}

#[test]
fn all_unknown_discriminants_server_to_worker() {
    for byte in 0u8..=255 {
        if byte == 1 || byte == 2 || byte == 3 {
            continue;
        }
        let r = ServerToWorkerMessage::read(&[byte, 0, 0, 0, 0], MAX);
        assert_eq!(r.unwrap_err(), ReadError::UnknownDiscriminant);
    }
}

#[test]
fn malformed_update_payload_is_a_decode_error() {
    // A one-byte payload cannot hold a worker-info record.
    let bytes = [3u8, 1, 0, 0, 0, 0xFF];
    assert_eq!(
        WorkerToServerMessage::read(&bytes, MAX).unwrap_err(),
        ReadError::DecodeError
    );
}

#[test]
fn update_payload_with_trailing_bytes_is_a_decode_error() {
    let mut enc = WorkerToServerMessage::Update(sample_info()).write().unwrap();
    // Grow the declared payload by one byte that the record does not cover.
    let decl = u32::from_le_bytes([enc[1], enc[2], enc[3], enc[4]]) + 1;
    enc.splice(1..5, decl.to_le_bytes());
    enc.push(0);
    assert_eq!(
        WorkerToServerMessage::read(&enc, MAX).unwrap_err(),
        ReadError::DecodeError
    );
}

#[test]
fn declared_length_above_maximum_is_refused() {
    // A hostile length field must be refused before any allocation.
    let bytes = [3u8, 0xFF, 0xFF, 0xFF, 0xFF];
    assert_eq!(
        WorkerToServerMessage::read(&bytes, 1024).unwrap_err(),
        ReadError::IoError
    );
    let bytes = [1u8, 0xFF, 0xFF, 0xFF, 0xFF];
    assert_eq!(
        ServerToWorkerMessage::read(&bytes, 1024).unwrap_err(),
        ReadError::IoError
    );
}

#[test]
fn unknown_trailing_fields_are_skipped() {
    // A future writer may append fields; a reader of today's field set must
    // still parse the record. Craft a worker-info record with one extra
    // field in the worker record and one in the machine record.
    let mut machine = Vec::new();
    machine.extend_from_slice(&4u32.to_le_bytes()); // field count
    machine.extend_from_slice(&4u32.to_le_bytes()); // id field
    machine.extend_from_slice(&9u32.to_le_bytes());
    machine.extend_from_slice(&2u32.to_le_bytes()); // name field
    machine.extend_from_slice(b"pc");
    machine.extend_from_slice(&1u32.to_le_bytes()); // is-online field
    machine.push(1);
    machine.extend_from_slice(&3u32.to_le_bytes()); // unknown extra field
    machine.extend_from_slice(b"xyz");

    let mut list = Vec::new();
    list.extend_from_slice(&1u32.to_le_bytes()); // machine count
    list.extend_from_slice(&machine);

    let mut payload = Vec::new();
    payload.extend_from_slice(&3u32.to_le_bytes()); // field count
    payload.extend_from_slice(&1u32.to_le_bytes()); // worker-name field
    payload.extend_from_slice(b"w");
    payload.extend_from_slice(&(list.len() as u32).to_le_bytes()); // list field
    payload.extend_from_slice(&list);
    payload.extend_from_slice(&2u32.to_le_bytes()); // unknown extra field
    payload.extend_from_slice(b"zz");

    let mut bytes = vec![3u8];
    bytes.extend_from_slice(&(payload.len() as u32).to_le_bytes());
    bytes.extend_from_slice(&payload);

    let (msg, n) = WorkerToServerMessage::read(&bytes, MAX).unwrap();
    assert_eq!(n, bytes.len());
    match msg {
        WorkerToServerMessage::Update(info) => {
            assert_eq!(info.worker_name, "w");
            assert_eq!(info.machines.len(), 1);
            assert_eq!(info.machines[0].id, 9);
            assert_eq!(info.machines[0].display_name, "pc");
            assert!(info.machines[0].is_online);
        },
        _ => panic!("wrong variant"),
    }
}

#[test]
fn invalid_utf8_name_is_a_decode_error() {
    let mut payload = Vec::new();
    payload.extend_from_slice(&2u32.to_le_bytes()); // field count
    payload.extend_from_slice(&1u32.to_le_bytes()); // worker-name field
    payload.push(0xFF); // not UTF-8
    payload.extend_from_slice(&4u32.to_le_bytes()); // machine-list field
    payload.extend_from_slice(&0u32.to_le_bytes()); // no machines
    let mut bytes = vec![3u8];
    bytes.extend_from_slice(&(payload.len() as u32).to_le_bytes());
    bytes.extend_from_slice(&payload);
    assert_eq!(
        WorkerToServerMessage::read(&bytes, MAX).unwrap_err(),
        ReadError::DecodeError
    );
}

#[test]
fn empty_input_is_an_io_error() {
    assert_eq!(WorkerToServerMessage::read(&[], MAX).unwrap_err(), ReadError::IoError);
    assert_eq!(ServerToWorkerMessage::read(&[], MAX).unwrap_err(), ReadError::IoError);
}
