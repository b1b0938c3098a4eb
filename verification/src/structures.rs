//! Data types shared across the wire-protocol engine, their mathematical
//! models, and the closed set of outbound commands.

use vstd::prelude::*;

verus! {

/// Decode-level failures of the protocol engine.
///
/// Framing problems (`TruncatedInput`, `BadMagic`, `MalformedCommand`) mean
/// the offending unit is skipped while the connection stays alive;
/// `TruncatedTransaction` discards the whole block being decoded.
#[derive(Clone, Copy, PartialEq, Eq, Structural, Debug)]
pub enum WireError {
    TruncatedInput,
    BadMagic,
    MalformedCommand,
    TruncatedTransaction,
}

/// One framed wire message: the four header fields plus its payload bytes.
#[derive(Debug)]
pub struct BitcoinMessage {
    pub magic: u32,
    pub command: String,
    pub length: u32,
    pub payload: Vec<u8>,
}

/// A peer endpoint in the form the `version` payload carries: a services
/// bitmask, a 16-byte IPv6 address (IPv4 mapped through `::ffff:`), and a
/// port.
#[derive(Clone, Copy)]
pub struct NetAddr {
    pub services: u64,
    pub ip_v6_4: [u8; 16],
    pub port: u16,
}

/// The body of a handshake `version` message.
pub struct VersionPayload {
    pub version: u32,
    pub services: u64,
    pub timestamp: u64,
    pub addr_recv: NetAddr,
    pub addr_from: NetAddr,
    pub nonce: u64,
    pub user_agent: Vec<u8>,
    pub start_height: u32,
    pub relay: bool,
}

impl VersionPayload {
    /// The user agent is length-prefixed by one byte on the wire, so it can
    /// hold at most 255 bytes.
    pub open spec fn wf(&self) -> bool {
        self.user_agent@.len() <= 255
    }
}

/// The closed set of message types this client constructs itself.
#[derive(Clone, Copy, PartialEq, Eq, Structural, Debug)]
pub enum Command {
    Version,
    Verack,
    Pong,
    GetData,
}

/// The fixed 12-byte, NUL-padded ASCII name each outbound command carries in
/// the message header.
pub open spec fn spec_command_name(c: Command) -> Seq<u8> {
    match c {
        // "version"
        Command::Version => seq![118u8, 101u8, 114u8, 115u8, 105u8, 111u8, 110u8, 0u8, 0u8, 0u8, 0u8, 0u8],
        // "verack"
        Command::Verack => seq![118u8, 101u8, 114u8, 97u8, 99u8, 107u8, 0u8, 0u8, 0u8, 0u8, 0u8, 0u8],
        // "pong"
        Command::Pong => seq![112u8, 111u8, 110u8, 103u8, 0u8, 0u8, 0u8, 0u8, 0u8, 0u8, 0u8, 0u8],
        // "getdata"
        Command::GetData => seq![103u8, 101u8, 116u8, 100u8, 97u8, 116u8, 97u8, 0u8, 0u8, 0u8, 0u8, 0u8],
    }
}

impl Command {
    /// The 12-byte wire form of the command name.
    pub fn as_bytes(&self) -> (r: [u8; 12])
        ensures
            r@ == spec_command_name(*self),
    {
        let r: [u8; 12] = match self {
            Command::Version => [118, 101, 114, 115, 105, 111, 110, 0, 0, 0, 0, 0],
            Command::Verack => [118, 101, 114, 97, 99, 107, 0, 0, 0, 0, 0, 0],
            Command::Pong => [112, 111, 110, 103, 0, 0, 0, 0, 0, 0, 0, 0],
            Command::GetData => [103, 101, 116, 100, 97, 116, 97, 0, 0, 0, 0, 0],
        };
        proof {
            assert(r@ =~= spec_command_name(*self));
        }
        r
    }
}

/// Model of a decoded transaction input.
pub struct SpecTxInput {
    pub prev_tx_hash: Seq<u8>,
    pub prev_output_index: u32,
    pub script_sig: Seq<u8>,
    pub sequence: u32,
}

/// Model of a decoded transaction output.
pub struct SpecTxOutput {
    pub value: u64,
    pub script_pub_key: Seq<u8>,
}

/// Model of a decoded transaction.
pub struct SpecTransaction {
    pub version: u32,
    pub inputs: Seq<SpecTxInput>,
    pub outputs: Seq<SpecTxOutput>,
    pub locktime: u32,
}

/// Model of a decoded block.
pub struct SpecBlock {
    pub version: u32,
    pub prev_block_hash: Seq<u8>,
    pub merkle_root: Seq<u8>,
    pub timestamp: u32,
    pub bits: u32,
    pub nonce: u32,
    pub block_hash: Seq<u8>,
    pub transactions: Seq<SpecTransaction>,
}

/// One spend reference inside a transaction.
#[derive(Clone)]
pub struct TransactionInput {
    pub prev_tx_hash: [u8; 32],
    pub prev_output_index: u32,
    pub script_sig: Vec<u8>,
    pub sequence: u32,
}

impl View for TransactionInput {
    type V = SpecTxInput;

    open spec fn view(&self) -> SpecTxInput {
        SpecTxInput {
            prev_tx_hash: self.prev_tx_hash@,
            prev_output_index: self.prev_output_index,
            script_sig: self.script_sig@,
            sequence: self.sequence,
        }
    }
}

/// One payment inside a transaction.
#[derive(Clone)]
pub struct TransactionOutput {
    pub value: u64,
    pub script_pub_key: Vec<u8>,
}

impl View for TransactionOutput {
    type V = SpecTxOutput;

    open spec fn view(&self) -> SpecTxOutput {
        SpecTxOutput { value: self.value, script_pub_key: self.script_pub_key@ }
    }
}

/// A decoded transaction with its ordered input and output lists.
#[derive(Clone)]
pub struct Transaction {
    pub version: u32,
    pub inputs: Vec<TransactionInput>,
    pub outputs: Vec<TransactionOutput>,
    pub locktime: u32,
}

impl View for Transaction {
    type V = SpecTransaction;

    open spec fn view(&self) -> SpecTransaction {
        SpecTransaction {
            version: self.version,
            inputs: self.inputs@.map(|i: int, x: TransactionInput| x@),
            outputs: self.outputs@.map(|i: int, x: TransactionOutput| x@),
            locktime: self.locktime,
        }
    }
}

/// A decoded block: the six header fields, the block hash derived from them,
/// and the ordered transaction list.
#[derive(Clone)]
pub struct BlockData {
    pub version: u32,
    pub prev_block_hash: [u8; 32],
    pub merkle_root: [u8; 32],
    pub timestamp: u32,
    pub bits: u32,
    pub nonce: u32,
    pub block_hash: Vec<u8>,
    pub transactions: Vec<Transaction>,
}

/// What the date formatter prints for a given timestamp, named but never
/// written out: `convert_date` ties it to the `chrono` crate.
pub uninterp spec fn date_string_of(timestamp: u32) -> Seq<char>;

impl BlockData {
    /// The block's timestamp as a human-readable UTC date, e.g.
    /// `Thursday  1 January 1970 at 00:00`.
    ///
    /// Relies on `chrono::DateTime::from_timestamp` and chrono's formatter:
    /// the printed form depends on the timestamp alone, and every 32-bit
    /// timestamp is within chrono's range.
    #[verifier::external_body]
    pub fn convert_date(&self) -> (r: String)
        ensures
            r@ == date_string_of(self.timestamp),
    {
        match chrono::DateTime::<chrono::Utc>::from_timestamp(self.timestamp as i64, 0) {
            Some(date) => date.format("%A %e %B %Y at %H:%M").to_string(),
            None => String::new(),
        }
    }
}

impl View for BlockData {
    type V = SpecBlock;

    open spec fn view(&self) -> SpecBlock {
        SpecBlock {
            version: self.version,
            prev_block_hash: self.prev_block_hash@,
            merkle_root: self.merkle_root@,
            timestamp: self.timestamp,
            bits: self.bits,
            nonce: self.nonce,
            block_hash: self.block_hash@,
            transactions: self.transactions@.map(|i: int, x: Transaction| x@),
        }
    }
}

} // verus!
