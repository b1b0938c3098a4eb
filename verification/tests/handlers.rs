use btc_peer::connection::{handle_inv, handle_ping, parse_getheaders, send_getdata,
    dispatch_message, DispatchAction, HandshakeController, HandshakeState, InventoryEntry,
    build_version_payload};
use btc_peer::decoders::{handle_block, parse_transaction};
use btc_peer::serialisers::{bitcoin_checksum, construct_complete_message, parse_header};
use btc_peer::structures::{BitcoinMessage, Command, NetAddr, WireError};
use sha2::Digest;

fn frame(command: Command, payload: Vec<u8>) -> (btc_peer::serialisers::MessageHeader, Vec<u8>) {
    let msg = construct_complete_message(command, payload.clone());
    let header = parse_header(&msg[0..24]).unwrap();
    (header, payload)
}

#[test]
fn ping_echoes_the_nonce() {
    let pong = handle_ping(0);
    assert_eq!(pong, construct_complete_message(Command::Pong, vec![0u8; 8]));
    assert_eq!(&pong[24..], &[0u8; 8]);
    assert_eq!(&pong[20..24], &bitcoin_checksum(&[0u8; 8]));

    let pong = handle_ping(0x1122334455667788);
    assert_eq!(&pong[24..], &[0x88, 0x77, 0x66, 0x55, 0x44, 0x33, 0x22, 0x11]);
}

#[test]
fn inv_filters_to_block_entries() {
    // count=2: one transaction entry (type 1), one block entry (type 2)
    let mut payload = vec![2u8];
    payload.extend_from_slice(&[1, 0, 0, 0]);
    payload.extend_from_slice(&[0x22; 32]);
    payload.extend_from_slice(&[2, 0, 0, 0]);
    payload.extend_from_slice(&[0x11; 32]);

    let reply = handle_inv(&payload).unwrap().unwrap();

    let mut expected_payload = vec![1u8];
    expected_payload.extend_from_slice(&[2, 0, 0, 0]);
    expected_payload.extend_from_slice(&[0x11; 32]);
    assert_eq!(reply, construct_complete_message(Command::GetData, expected_payload));
}

#[test]
fn inv_with_no_blocks_stays_silent() {
    let mut payload = vec![1u8];
    payload.extend_from_slice(&[1, 0, 0, 0]);
    payload.extend_from_slice(&[0x22; 32]);
    assert_eq!(handle_inv(&payload).unwrap(), None);
}

#[test]
fn inv_truncated_entry_list_fails() {
    let payload = vec![2u8, 2, 0, 0, 0];
    assert_eq!(handle_inv(&payload), Err(WireError::TruncatedInput));
    assert_eq!(handle_inv(&[]), Err(WireError::TruncatedInput));
}

#[test]
fn getdata_message_counts_entries() {
    let entries = vec![
        InventoryEntry { inv_type: 2, hash: vec![0xab; 32] },
        InventoryEntry { inv_type: 2, hash: vec![0xcd; 32] },
    ];
    let msg = send_getdata(&entries);
    assert_eq!(msg[24], 2);
    assert_eq!(&msg[25..29], &[2, 0, 0, 0]);
    assert_eq!(&msg[29..61], &[0xab; 32]);
    assert_eq!(&msg[61..65], &[2, 0, 0, 0]);
    assert_eq!(&msg[65..97], &[0xcd; 32]);
}

#[test]
fn getheaders_requests_every_locator() {
    let mut payload = vec![0x7f, 0x11, 0x01, 0x00]; // version
    payload.push(2); // varint locator count
    payload.extend_from_slice(&[0x33; 32]);
    payload.extend_from_slice(&[0x44; 32]);
    payload.extend_from_slice(&[0x00; 32]); // stop hash

    let reply = parse_getheaders(&payload).unwrap().unwrap();
    let mut expected_payload = vec![2u8];
    expected_payload.extend_from_slice(&[2, 0, 0, 0]);
    expected_payload.extend_from_slice(&[0x33; 32]);
    expected_payload.extend_from_slice(&[2, 0, 0, 0]);
    expected_payload.extend_from_slice(&[0x44; 32]);
    assert_eq!(reply, construct_complete_message(Command::GetData, expected_payload));
}

#[test]
fn getheaders_without_stop_hash_fails() {
    let mut payload = vec![0x7f, 0x11, 0x01, 0x00];
    payload.push(1);
    payload.extend_from_slice(&[0x33; 32]);
    assert_eq!(parse_getheaders(&payload), Err(WireError::TruncatedInput));
}

fn minimal_block_payload() -> Vec<u8> {
    let mut payload = Vec::new();
    payload.extend_from_slice(&[2, 0, 0, 0]); // version
    payload.extend_from_slice(&[0xaa; 32]); // previous block hash
    payload.extend_from_slice(&[0xbb; 32]); // merkle root
    payload.extend_from_slice(&[0xd2, 0x04, 0, 0]); // timestamp 1234
    payload.extend_from_slice(&[0xff, 0xff, 0x00, 0x1d]); // bits
    payload.extend_from_slice(&[0x63, 0, 0, 0]); // nonce 99
    // one transaction: version 1, no inputs, one output, locktime 0
    payload.extend_from_slice(&[1, 0, 0, 0]);
    payload.push(0); // input count
    payload.push(1); // output count
    payload.extend_from_slice(&5_000_000_000u64.to_le_bytes());
    payload.push(0); // empty script
    payload.extend_from_slice(&[0, 0, 0, 0]); // locktime
    payload
}

#[test]
fn block_decode_preserves_header_and_transactions() {
    let payload = minimal_block_payload();
    let block = handle_block(&payload).unwrap();
    assert_eq!(block.version, 2);
    assert_eq!(block.prev_block_hash, [0xaa; 32]);
    assert_eq!(block.merkle_root, [0xbb; 32]);
    assert_eq!(block.timestamp, 1234);
    assert_eq!(block.bits, 0x1d00ffff);
    assert_eq!(block.nonce, 99);
    assert_eq!(block.transactions.len(), 1);
    let tx = &block.transactions[0];
    assert_eq!(tx.version, 1);
    assert_eq!(tx.inputs.len(), 0);
    assert_eq!(tx.outputs.len(), 1);
    assert_eq!(tx.outputs[0].value, 5_000_000_000);
    assert_eq!(tx.outputs[0].script_pub_key, Vec::<u8>::new());
    assert_eq!(tx.locktime, 0);
}

#[test]
fn block_hash_is_double_sha256_of_header() {
    let payload = minimal_block_payload();
    let block = handle_block(&payload).unwrap();
    let first = sha2::Sha256::digest(&payload[0..80]);
    let second = sha2::Sha256::digest(first);
    assert_eq!(block.block_hash, second.to_vec());
}

#[test]
fn block_with_truncated_transaction_is_discarded() {
    let mut payload = minimal_block_payload();
    payload.pop(); // drop one locktime byte
    assert!(matches!(handle_block(&payload), Err(WireError::TruncatedTransaction)));
    let short = vec![0u8; 79];
    assert!(matches!(handle_block(&short), Err(WireError::TruncatedTransaction)));
}

#[test]
fn transaction_decode_with_inputs() {
    let mut data = vec![0xffu8, 0xff]; // leading noise, cursor starts past it
    data.extend_from_slice(&[1, 0, 0, 0]); // version
    data.push(1); // one input
    data.extend_from_slice(&[0x77; 32]); // previous tx hash
    data.extend_from_slice(&[3, 0, 0, 0]); // previous output index
    data.push(2); // script length
    data.extend_from_slice(&[0x51, 0x52]);
    data.extend_from_slice(&[0xfe, 0xff, 0xff, 0xff]); // sequence
    data.push(0); // no outputs
    data.extend_from_slice(&[9, 0, 0, 0]); // locktime

    let mut start = 2usize;
    let tx = parse_transaction(&data, &mut start).unwrap();
    assert_eq!(start, data.len());
    assert_eq!(tx.version, 1);
    assert_eq!(tx.inputs.len(), 1);
    assert_eq!(tx.inputs[0].prev_tx_hash, [0x77; 32]);
    assert_eq!(tx.inputs[0].prev_output_index, 3);
    assert_eq!(tx.inputs[0].script_sig, vec![0x51, 0x52]);
    assert_eq!(tx.inputs[0].sequence, 0xfffffffe);
    assert_eq!(tx.outputs.len(), 0);
    assert_eq!(tx.locktime, 9);
}

#[test]
fn dispatch_routes_ping_to_pong() {
    let (header, payload) = frame(Command::Pong, vec![0u8; 8]);
    let mut header = header;
    header.command = "ping".to_string();
    match dispatch_message(&header, &payload).unwrap() {
        DispatchAction::Reply(reply) => {
            assert_eq!(&reply[24..], &[0u8; 8]);
            assert_eq!(&reply[20..24], &bitcoin_checksum(&[0u8; 8]));
            assert_eq!(&reply[4..16], b"pong\0\0\0\0\0\0\0\0");
        },
        _ => panic!("expected a pong reply"),
    }
}

#[test]
fn dispatch_reports_checksum_mismatch() {
    let (mut header, payload) = frame(Command::Pong, vec![0u8; 8]);
    header.command = "ping".to_string();
    header.checksum = [0, 1, 2, 3];
    assert!(matches!(
        dispatch_message(&header, &payload).unwrap(),
        DispatchAction::ChecksumMismatch
    ));
}

#[test]
fn dispatch_ignores_unknown_commands() {
    let (mut header, payload) = frame(Command::Verack, vec![]);
    header.command = "sendheaders".to_string();
    assert!(matches!(dispatch_message(&header, &payload).unwrap(), DispatchAction::Ignore));
}

#[test]
fn dispatch_emits_decoded_blocks() {
    let (header, payload) = frame(Command::Verack, minimal_block_payload());
    let mut header = header;
    header.command = "block".to_string();
    match dispatch_message(&header, &payload).unwrap() {
        DispatchAction::EmitBlock(block) => assert_eq!(block.transactions.len(), 1),
        _ => panic!("expected a decoded block"),
    }
}

#[test]
fn handshake_walks_its_states() {
    let mut controller = HandshakeController::new();
    assert!(matches!(controller.state, HandshakeState::Connected));

    let version_payload = build_version_payload(
        1_700_000_000,
        NetAddr { services: 0, ip_v6_4: [0; 16], port: 8333 },
        NetAddr { services: 0, ip_v6_4: [0; 16], port: 8333 },
        0,
    );
    assert_eq!(version_payload.version, 70015);
    assert_eq!(version_payload.services, 1);
    assert_eq!(version_payload.user_agent, b"/Satoshi:0.7.2/".to_vec());
    assert!(version_payload.relay);

    let version_msg = controller.start(&version_payload);
    assert!(matches!(controller.state, HandshakeState::VersionSent));
    assert_eq!(&version_msg[0..4], &[0xf9, 0xbe, 0xb4, 0xd9]);
    assert_eq!(&version_msg[4..16], b"version\0\0\0\0\0");
    assert_eq!(version_msg.len(), 24 + 86 + 15);

    let reply = BitcoinMessage {
        magic: 0xd9b4bef9,
        command: "version".to_string(),
        length: 0,
        payload: vec![],
    };
    let verack = controller.on_peer_message(&reply);
    assert!(matches!(controller.state, HandshakeState::HandshakeComplete));
    assert_eq!(verack, construct_complete_message(Command::Verack, vec![]));

    let mut failing = HandshakeController::new();
    failing.fail();
    assert!(matches!(failing.state, HandshakeState::Failed));
}

#[test]
fn convert_date_formats_the_epoch() {
    let payload = minimal_block_payload();
    let mut block = handle_block(&payload).unwrap();
    block.timestamp = 0;
    assert_eq!(block.convert_date(), "Thursday  1 January 1970 at 00:00");
}

#[test]
fn dispatch_answers_inv_with_getdata() {
    let mut payload = vec![1u8];
    payload.extend_from_slice(&[2, 0, 0, 0]);
    payload.extend_from_slice(&[0x55; 32]);
    let (mut header, payload) = frame(Command::Verack, payload);
    header.command = "inv".to_string();
    match dispatch_message(&header, &payload).unwrap() {
        DispatchAction::Reply(reply) => {
            assert_eq!(&reply[4..16], b"getdata\0\0\0\0\0");
            assert_eq!(reply[24], 1);
            assert_eq!(&reply[29..61], &[0x55; 32]);
        },
        _ => panic!("expected a getdata reply"),
    }
}

#[test]
fn dispatch_answers_getheaders_with_getdata() {
    let mut payload = vec![0x7f, 0x11, 0x01, 0x00, 1];
    payload.extend_from_slice(&[0x66; 32]);
    payload.extend_from_slice(&[0x00; 32]);
    let (mut header, payload) = frame(Command::Verack, payload);
    header.command = "getheaders".to_string();
    match dispatch_message(&header, &payload).unwrap() {
        DispatchAction::Reply(reply) => {
            assert_eq!(&reply[4..16], b"getdata\0\0\0\0\0");
            assert_eq!(reply[24], 1);
            assert_eq!(&reply[25..29], &[2, 0, 0, 0]);
            assert_eq!(&reply[29..61], &[0x66; 32]);
        },
        _ => panic!("expected a getdata reply"),
    }
}

#[test]
fn dispatch_skips_truncated_ping() {
    let (mut header, payload) = frame(Command::Pong, vec![0u8; 4]);
    header.command = "ping".to_string();
    assert!(matches!(
        dispatch_message(&header, &payload),
        Err(WireError::TruncatedInput)
    ));
}
