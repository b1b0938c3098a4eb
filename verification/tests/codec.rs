use btc_peer::serialisers::{bitcoin_checksum, construct_complete_message, parse_header,
    serialise_version_message};
use btc_peer::structures::{Command, NetAddr, VersionPayload, WireError};

fn sample_version_payload() -> VersionPayload {
    VersionPayload {
        version: 70015,
        services: 1,
        timestamp: 1_700_000_000,
        addr_recv: NetAddr { services: 0, ip_v6_4: [0; 16], port: 8333 },
        addr_from: NetAddr { services: 0, ip_v6_4: [1; 16], port: 8333 },
        nonce: 0x0123_4567_89ab_cdef,
        user_agent: b"/Satoshi:0.7.2/".to_vec(),
        start_height: 0,
        relay: true,
    }
}

#[test]
fn checksum_of_empty_is_truncated_double_sha256() {
    // SHA-256(SHA-256("")) begins 5d f6 e0 e2.
    assert_eq!(bitcoin_checksum(&[]), [0x5d, 0xf6, 0xe0, 0xe2]);
}

#[test]
fn checksum_deterministic_and_order_sensitive() {
    let a = bitcoin_checksum(&[1, 2, 3]);
    let b = bitcoin_checksum(&[1, 2, 3]);
    assert_eq!(a, b);
    assert_ne!(bitcoin_checksum(&[0]), bitcoin_checksum(&[1]));
    assert_ne!(bitcoin_checksum(&[1, 2, 3]), bitcoin_checksum(&[3, 2, 1]));
    assert_ne!(bitcoin_checksum(&[1, 2, 3]), bitcoin_checksum(&[1, 2, 2]));
}

#[test]
fn construct_message_layout() {
    let msg = construct_complete_message(Command::Pong, vec![7, 8, 9]);
    assert_eq!(msg.len(), 27);
    assert_eq!(&msg[0..4], &[0xf9, 0xbe, 0xb4, 0xd9]);
    assert_eq!(&msg[4..16], b"pong\0\0\0\0\0\0\0\0");
    assert_eq!(&msg[16..20], &[3, 0, 0, 0]);
    assert_eq!(&msg[20..24], &bitcoin_checksum(&[7, 8, 9]));
    assert_eq!(&msg[24..], &[7, 8, 9]);
}

#[test]
fn command_names_are_nul_padded() {
    assert_eq!(&Command::Version.as_bytes(), b"version\0\0\0\0\0");
    assert_eq!(&Command::Verack.as_bytes(), b"verack\0\0\0\0\0\0");
    assert_eq!(&Command::Pong.as_bytes(), b"pong\0\0\0\0\0\0\0\0");
    assert_eq!(&Command::GetData.as_bytes(), b"getdata\0\0\0\0\0");
}

#[test]
fn version_message_round_trips_through_parse_header() {
    let payload = sample_version_payload();
    let serialised = serialise_version_message(&payload);
    assert_eq!(serialised.len(), 86 + payload.user_agent.len());

    let msg = construct_complete_message(Command::Version, serialised.clone());
    let header = parse_header(&msg[0..24]).unwrap();
    assert_eq!(header.magic, 0xd9b4bef9);
    assert_eq!(header.command, "version");
    assert_eq!(header.length as usize, serialised.len());
    assert_eq!(header.checksum, bitcoin_checksum(&serialised));
    assert_eq!(&msg[24..], &serialised[..]);
}

#[test]
fn version_payload_layout() {
    let payload = sample_version_payload();
    let serialised = serialise_version_message(&payload);
    // protocol version, little-endian
    assert_eq!(&serialised[0..4], &[0x7f, 0x11, 0x01, 0x00]);
    // services
    assert_eq!(&serialised[4..12], &[1, 0, 0, 0, 0, 0, 0, 0]);
    // user agent length prefix and bytes, after the fixed 80-byte prefix
    assert_eq!(serialised[80], 15);
    assert_eq!(&serialised[81..96], b"/Satoshi:0.7.2/");
    // relay flag is the last byte
    assert_eq!(serialised[100], 1);
}

#[test]
fn parse_header_rejects_bad_magic() {
    let mut header = [0u8; 24];
    header[0] = 0xde;
    header[1] = 0xad;
    assert!(matches!(parse_header(&header), Err(WireError::BadMagic)));

    // unrelated garbage in the other fields must still only yield BadMagic
    let mut noisy = [0xffu8; 24];
    noisy[0] = 0x00;
    assert!(matches!(parse_header(&noisy), Err(WireError::BadMagic)));
}

#[test]
fn parse_header_rejects_non_ascii_command() {
    let mut header = [0u8; 24];
    header[0..4].copy_from_slice(&[0xf9, 0xbe, 0xb4, 0xd9]);
    header[4] = 0xc3;
    header[5] = 0xa9;
    assert!(matches!(parse_header(&header), Err(WireError::MalformedCommand)));
}

#[test]
fn parse_header_trims_nul_padding() {
    let msg = construct_complete_message(Command::GetData, vec![]);
    let header = parse_header(&msg[0..24]).unwrap();
    assert_eq!(header.command, "getdata");
    assert_eq!(header.length, 0);
}
