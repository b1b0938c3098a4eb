//! Protocol handlers and session logic: per-command reactions (ping→pong,
//! inv→getdata, getheaders→getdata, block→decoded record), the dispatch
//! decision for one framed message, and the handshake state machine.

use vstd::prelude::*;

use crate::decoders::{handle_block, spec_parse_block};
use crate::serialisers::{MessageHeader, checksum_of, construct_complete_message,
    construct_message_spec, serialise_version_message, spec_version_payload_bytes};
use crate::structures::{BitcoinMessage, BlockData, Command, NetAddr, VersionPayload, WireError,
    spec_command_name};
use crate::utils::{read_u32, read_var_int, spec_var_int_size, spec_var_int_value};

verus! {

/// Model of one inventory entry: a type code and a 32-byte object hash.
pub struct SpecInvEntry {
    pub inv_type: u32,
    pub hash: Seq<u8>,
}

/// One `inv`/`getdata` item: a type code and a 32-byte object hash.
/// Type code `2` denotes a block.
#[derive(Clone)]
pub struct InventoryEntry {
    pub inv_type: u32,
    pub hash: Vec<u8>,
}

impl View for InventoryEntry {
    type V = SpecInvEntry;

    open spec fn view(&self) -> SpecInvEntry {
        SpecInvEntry { inv_type: self.inv_type, hash: self.hash@ }
    }
}

impl InventoryEntry {
    /// Hashes on the wire are exactly 32 bytes.
    pub open spec fn wf(&self) -> bool {
        self.hash@.len() == 32
    }
}

/// The wire form of one inventory entry: little-endian type code, then the
/// hash.
pub open spec fn spec_inv_entry_bytes(e: SpecInvEntry) -> Seq<u8> {
    vstd::bytes::spec_u32_to_le_bytes(e.inv_type) + e.hash
}

/// The concatenated wire forms of a run of inventory entries.
pub open spec fn spec_entries_bytes(es: Seq<SpecInvEntry>) -> Seq<u8>
    decreases es.len(),
{
    if es.len() == 0 {
        Seq::empty()
    } else {
        spec_inv_entry_bytes(es[0]) + spec_entries_bytes(es.drop_first())
    }
}

/// A `getdata` payload: a one-byte entry count followed by the entries.
pub open spec fn spec_getdata_payload(es: Seq<SpecInvEntry>) -> Seq<u8>
    recommends
        es.len() <= 255,
{
    seq![es.len() as u8] + spec_entries_bytes(es)
}

/// The complete framed `getdata` message requesting `es`.
pub open spec fn spec_getdata_message(es: Seq<SpecInvEntry>) -> Seq<u8>
    recommends
        es.len() <= 255,
{
    construct_message_spec(spec_command_name(Command::GetData), spec_getdata_payload(es))
}

/// Appending an entry appends its wire form.
pub proof fn lemma_entries_bytes_push(es: Seq<SpecInvEntry>, e: SpecInvEntry)
    ensures
        spec_entries_bytes(es.push(e)) == spec_entries_bytes(es) + spec_inv_entry_bytes(e),
    decreases es.len(),
{
    let s1 = es.push(e);
    assert(spec_entries_bytes(s1) == spec_inv_entry_bytes(s1[0]) + spec_entries_bytes(
        s1.drop_first(),
    ));
    if es.len() == 0 {
        assert(s1[0] == e);
        assert(s1.drop_first() =~= es);
        assert(spec_entries_bytes(es) + spec_inv_entry_bytes(e) =~= spec_inv_entry_bytes(e)
            + spec_entries_bytes(es));
    } else {
        assert(s1[0] == es[0]);
        assert(s1.drop_first() =~= es.drop_first().push(e));
        lemma_entries_bytes_push(es.drop_first(), e);
        assert(spec_entries_bytes(s1) =~= spec_entries_bytes(es) + spec_inv_entry_bytes(e));
    }
}

/// A run of well-formed entries serialises to 36 bytes each.
pub proof fn lemma_entries_bytes_len(es: Seq<SpecInvEntry>)
    requires
        forall|i: int| 0 <= i < es.len() ==> (#[trigger] es[i]).hash.len() == 32,
    ensures
        spec_entries_bytes(es).len() == 36 * es.len(),
    decreases es.len(),
{
    vstd::bytes::lemma_auto_spec_u32_to_from_le_bytes();
    if es.len() > 0 {
        lemma_entries_bytes_len(es.drop_first());
    }
}

/// Builds the `getdata` message that requests every entry in `entries`.
pub fn send_getdata(entries: &Vec<InventoryEntry>) -> (r: Vec<u8>)
    requires
        entries@.len() <= 255,
        forall|i: int| 0 <= i < entries@.len() ==> (#[trigger] entries@[i]).wf(),
    ensures
        r@ == spec_getdata_message(entries@.map(|i: int, e: InventoryEntry| e@)),
{
    let ghost models = entries@.map(|i: int, e: InventoryEntry| e@);
    let mut getdata_payload: Vec<u8> = Vec::new();
    getdata_payload.push(entries.len() as u8);

    let mut idx: usize = 0;
    while idx < entries.len()
        invariant
            0 <= idx <= entries@.len() <= 255,
            models == entries@.map(|i: int, e: InventoryEntry| e@),
            forall|i: int| 0 <= i < entries@.len() ==> (#[trigger] entries@[i]).wf(),
            getdata_payload@ == seq![entries@.len() as u8] + spec_entries_bytes(
                models.take(idx as int),
            ),
        decreases entries@.len() - idx,
    {
        let entry = &entries[idx];
        let mut type_bytes = vstd::bytes::u32_to_le_bytes(entry.inv_type);
        getdata_payload.append(&mut type_bytes);
        getdata_payload.extend_from_slice(entry.hash.as_slice());
        proof {
            lemma_entries_bytes_push(models.take(idx as int), models[idx as int]);
            assert(models.take(idx + 1) =~= models.take(idx as int).push(models[idx as int]));
            assert(getdata_payload@ =~= seq![entries@.len() as u8] + spec_entries_bytes(
                models.take(idx + 1),
            ));
        }
        idx = idx + 1;
    }
    proof {
        assert(models.take(entries@.len() as int) =~= models);
        lemma_entries_bytes_len(models);
    }
    construct_complete_message(Command::GetData, getdata_payload)
}

/// The inventory entry at index `i` of an `inv` payload: a little-endian
/// type code and a 32-byte hash, 36 bytes per entry after the count byte.
pub open spec fn spec_inv_entry_at(payload: Seq<u8>, i: int) -> SpecInvEntry {
    SpecInvEntry {
        inv_type: vstd::bytes::spec_u32_from_le_bytes(
            payload.subrange(1 + 36 * i, 5 + 36 * i),
        ),
        hash: payload.subrange(5 + 36 * i, 37 + 36 * i),
    }
}

/// All entries of an `inv` payload, whose first byte is the entry count.
pub open spec fn spec_inv_entries(payload: Seq<u8>) -> Seq<SpecInvEntry>
    recommends
        payload.len() >= 1,
{
    Seq::new(payload[0] as nat, |i: int| spec_inv_entry_at(payload, i))
}

/// The entries of an `inv` payload whose type code denotes a block.
pub open spec fn spec_inv_blocks(payload: Seq<u8>) -> Seq<SpecInvEntry> {
    spec_inv_entries(payload).filter(|e: SpecInvEntry| e.inv_type == 2)
}

/// Reacts to an `inv` payload: one count byte, then that many 36-byte
/// entries.  Entries of type `2` (block) are kept; if any remain, the reply
/// is a `getdata` message requesting exactly those, in payload order.
pub fn handle_inv(payload: &[u8]) -> (r: Result<Option<Vec<u8>>, WireError>)
    ensures
        r is Ok <==> payload@.len() >= 1 && payload@.len() >= 1 + 36 * (payload@[0] as int),
        r matches Ok(opt) ==> {
            &&& opt is None <==> spec_inv_blocks(payload@).len() == 0
            &&& opt matches Some(v) ==> v@ == spec_getdata_message(spec_inv_blocks(payload@))
        },
        r is Err ==> r == Err::<Option<Vec<u8>>, WireError>(WireError::TruncatedInput),
{
    broadcast use Seq::lemma_filter_push, Seq::lemma_filter_len_push, Seq::lemma_filter_len;

    if payload.len() < 1 {
        return Err(WireError::TruncatedInput);
    }
    let count = payload[0] as usize;
    if payload.len() < 1 + 36 * count {
        return Err(WireError::TruncatedInput);
    }
    let ghost entries = spec_inv_entries(payload@);
    proof {
        assert(Seq::<SpecInvEntry>::empty().filter(|e: SpecInvEntry| e.inv_type == 2)
            =~= Seq::<SpecInvEntry>::empty());
        assert(entries.take(0) =~= Seq::<SpecInvEntry>::empty());
    }

    let mut kept: Vec<InventoryEntry> = Vec::new();
    let mut i: usize = 0;
    while i < count
        invariant
            0 <= i <= count <= 255,
            payload@.len() >= 1 + 36 * count,
            count == payload@[0],
            entries == spec_inv_entries(payload@),
            kept@.map(|k: int, e: InventoryEntry| e@) == entries.take(i as int).filter(
                |e: SpecInvEntry| e.inv_type == 2,
            ),
            forall|k: int| 0 <= k < kept@.len() ==> (#[trigger] kept@[k]).wf(),
        decreases count - i,
    {
        broadcast use Seq::lemma_filter_push, Seq::lemma_filter_len_push;

        let start = 1 + 36 * i;
        let inv_type = vstd::bytes::u32_from_le_bytes(
            vstd::slice::slice_subrange(payload, start, start + 4),
        );
        proof {
            assert(entries[i as int] == spec_inv_entry_at(payload@, i as int));
            assert(entries.take(i + 1) =~= entries.take(i as int).push(entries[i as int]));
        }
        if inv_type == 2 {
            let hash = vstd::slice::slice_to_vec(
                vstd::slice::slice_subrange(payload, start + 4, start + 36),
            );
            let entry = InventoryEntry { inv_type, hash };
            proof {
                assert(entry@ == entries[i as int]);
            }
            kept.push(entry);
            proof {
                assert(kept@.map(|k: int, e: InventoryEntry| e@) =~= entries.take(i + 1).filter(
                    |e: SpecInvEntry| e.inv_type == 2,
                ));
            }
        } else {
            proof {
                assert(kept@.map(|k: int, e: InventoryEntry| e@) =~= entries.take(i + 1).filter(
                    |e: SpecInvEntry| e.inv_type == 2,
                ));
            }
        }
        i = i + 1;
    }
    proof {
        assert(entries.take(count as int) =~= entries);
        assert(kept@.len() == kept@.map(|k: int, e: InventoryEntry| e@).len());
    }
    if kept.len() == 0 {
        Ok(None)
    } else {
        Ok(Some(send_getdata(&kept)))
    }
}

/// Whether a `getheaders` payload is complete: a 4-byte version, a varint
/// locator count, that many 32-byte locator hashes, and a 32-byte stop
/// hash.
pub open spec fn spec_getheaders_wf(payload: Seq<u8>) -> bool {
    let rest = payload.skip(4);
    &&& payload.len() >= 4
    &&& rest.len() >= 1
    &&& rest.len() >= spec_var_int_size(rest[0])
    &&& 4 + spec_var_int_size(rest[0]) + 32 * (spec_var_int_value(rest) as int) + 32
        <= payload.len()
}

/// Every locator hash of a `getheaders` payload, as a block request.
pub open spec fn spec_locator_entries(payload: Seq<u8>) -> Seq<SpecInvEntry>
    recommends
        spec_getheaders_wf(payload),
{
    let rest = payload.skip(4);
    let off = 4 + spec_var_int_size(rest[0]);
    Seq::new(
        spec_var_int_value(rest) as nat,
        |i: int| SpecInvEntry { inv_type: 2, hash: payload.subrange(off + 32 * i, off + 32 * i + 32) },
    )
}

/// Reacts to a `getheaders` payload by requesting every locator hash as a
/// block.  A locator count that does not fit the reply's one-byte entry
/// count cannot be framed; such a message draws no reply.
pub fn parse_getheaders(payload: &[u8]) -> (r: Result<Option<Vec<u8>>, WireError>)
    ensures
        r is Ok <==> spec_getheaders_wf(payload@),
        r matches Ok(opt) ==> {
            &&& opt is None <==> spec_var_int_value(payload@.skip(4)) > 255
            &&& opt matches Some(v) ==> v@ == spec_getdata_message(spec_locator_entries(payload@))
        },
        r is Err ==> r == Err::<Option<Vec<u8>>, WireError>(WireError::TruncatedInput),
{
    let mut cursor: usize = 0;
    let _version = read_u32(payload, &mut cursor)?;

    let rest = vstd::slice::slice_subrange(payload, 4, payload.len());
    let (count, offset) = read_var_int(rest)?;

    let avail = (payload.len() - 4 - offset) as u64;
    if avail < 32 || (avail - 32) / 32 < count {
        return Err(WireError::TruncatedInput);
    }
    if count > 255 {
        return Ok(None);
    }

    let ghost locators = spec_locator_entries(payload@);
    proof {
        assert(rest@ == payload@.skip(4));
        assert(locators.len() == count as int);
    }
    let n = count as usize;
    let base = 4 + offset;
    let mut entries: Vec<InventoryEntry> = Vec::new();
    let mut i: usize = 0;
    while i < n
        invariant
            0 <= i <= n <= 255,
            base == 4 + spec_var_int_size(payload@.skip(4)[0]),
            n == spec_var_int_value(payload@.skip(4)),
            base + 32 * n + 32 <= payload@.len(),
            locators == spec_locator_entries(payload@),
            locators.len() == n as int,
            entries@.map(|k: int, e: InventoryEntry| e@) == locators.take(i as int),
            forall|k: int| 0 <= k < entries@.len() ==> (#[trigger] entries@[k]).wf(),
        decreases n - i,
    {
        let hash = vstd::slice::slice_to_vec(
            vstd::slice::slice_subrange(payload, base + 32 * i, base + 32 * i + 32),
        );
        let entry = InventoryEntry { inv_type: 2, hash };
        proof {
            assert(entry@ == locators[i as int]);
        }
        let ghost pre = entries@;
        entries.push(entry);
        proof {
            assert(pre.map(|k: int, e: InventoryEntry| e@).len() == pre.len());
            assert(pre.len() == i as int);
            assert(entries@ == pre.push(entry));
            assert(entries@[i as int] == entry);
            assert forall|k: int| 0 <= k < entries@.len() implies entries@.map(
                |k: int, e: InventoryEntry| e@,
            )[k] == #[trigger] locators.take(i + 1)[k] by {
                if k < i {
                    assert(pre.map(|k: int, e: InventoryEntry| e@)[k] == locators.take(
                        i as int,
                    )[k]);
                }
            }
            assert(entries@.map(|k: int, e: InventoryEntry| e@) =~= locators.take(i + 1));
        }
        i = i + 1;
    }
    proof {
        assert(locators.take(n as int) =~= locators);
    }
    Ok(Some(send_getdata(&entries)))
}

/// The `pong` reply to a `ping` carrying `nonce`: the same eight nonce
/// bytes, framed and checksummed.
pub fn handle_ping(nonce: u64) -> (r: Vec<u8>)
    ensures
        r@ == construct_message_spec(
            spec_command_name(Command::Pong),
            vstd::bytes::spec_u64_to_le_bytes(nonce),
        ),
{
    let payload = vstd::bytes::u64_to_le_bytes(nonce);
    construct_complete_message(Command::Pong, payload)
}

/// Character-for-character equality of two string slices.
fn str_eq(a: &str, b: &str) -> (r: bool)
    ensures
        r == (a@ == b@),
{
    let la = a.unicode_len();
    let lb = b.unicode_len();
    if la != lb {
        proof {
            assert(a@.len() != b@.len());
        }
        return false;
    }
    let mut i: usize = 0;
    while i < la
        invariant
            0 <= i <= la,
            la == a@.len(),
            la == b@.len(),
            forall|j: int| 0 <= j < i ==> a@[j] == b@[j],
        decreases la - i,
    {
        if a.get_char(i) != b.get_char(i) {
            return false;
        }
        i = i + 1;
    }
    proof {
        assert(a@ =~= b@);
    }
    true
}

/// What the dispatch decision asks the caller to do with one message.
pub enum DispatchAction {
    /// Send these bytes to the peer.
    Reply(Vec<u8>),
    /// Hand this decoded block to the consumer.
    EmitBlock(BlockData),
    /// The payload does not match the header's checksum: report it and keep
    /// the connection alive.
    ChecksumMismatch,
    /// Nothing to do (an unrecognized command, or an `inv` with no blocks).
    Ignore,
}

/// The steady-state dispatch decision for one fully-read message: verify
/// the payload against the header's checksum, then route by command name to
/// the matching handler.  `ping`, `inv`, `block` and `getheaders` are
/// handled; every other command is ignored.  A decode error means the
/// offending message is skipped, not that the connection ends.
pub fn dispatch_message(header: &MessageHeader, payload: &[u8]) -> (r: Result<
    DispatchAction,
    WireError,
>)
    requires
        payload@.len() == header.length,
    ensures
        (r matches Ok(a) && a is ChecksumMismatch) <==> header.checksum@ != checksum_of(payload@),
        header.checksum@ == checksum_of(payload@) && header.command@ == "ping"@ ==> {
            &&& payload@.len() >= 8 ==> (r matches Ok(a) && a matches DispatchAction::Reply(v)
                && v@ == construct_message_spec(
                spec_command_name(Command::Pong),
                payload@.subrange(0, 8),
            ))
            &&& payload@.len() < 8 ==> r == Err::<DispatchAction, WireError>(
                WireError::TruncatedInput,
            )
        },
        header.checksum@ == checksum_of(payload@) && header.command@ == "inv"@ ==> {
            &&& r is Ok <==> payload@.len() >= 1 && payload@.len() >= 1 + 36 * (
            payload@[0] as int)
            &&& r matches Ok(a) ==> {
                &&& a is Ignore <==> spec_inv_blocks(payload@).len() == 0
                &&& spec_inv_blocks(payload@).len() > 0 ==> (a matches DispatchAction::Reply(v)
                    && v@ == spec_getdata_message(spec_inv_blocks(payload@)))
            }
            &&& r is Err ==> r == Err::<DispatchAction, WireError>(WireError::TruncatedInput)
        },
        header.checksum@ == checksum_of(payload@) && header.command@ == "block"@ ==> {
            &&& r is Ok <==> spec_parse_block(payload@) is Some
            &&& r matches Ok(a) ==> a matches DispatchAction::EmitBlock(b)
                && spec_parse_block(payload@) matches Some(m) && b@ == m
            &&& r is Err ==> r == Err::<DispatchAction, WireError>(WireError::TruncatedTransaction)
        },
        header.checksum@ == checksum_of(payload@) && header.command@ == "getheaders"@ ==> {
            &&& r is Ok <==> spec_getheaders_wf(payload@)
            &&& r matches Ok(a) ==> {
                &&& a is Ignore <==> spec_var_int_value(payload@.skip(4)) > 255
                &&& spec_var_int_value(payload@.skip(4)) <= 255 ==> (a matches
                DispatchAction::Reply(v) && v@ == spec_getdata_message(
                    spec_locator_entries(payload@),
                ))
            }
            &&& r is Err ==> r == Err::<DispatchAction, WireError>(WireError::TruncatedInput)
        },
        header.checksum@ == checksum_of(payload@) && header.command@ != "ping"@
            && header.command@ != "inv"@ && header.command@ != "block"@ && header.command@
            != "getheaders"@ ==> (r matches Ok(a) && a is Ignore),
{
    let expected = crate::serialisers::bitcoin_checksum(payload);
    let checksum_ok = expected[0] == header.checksum[0] && expected[1] == header.checksum[1]
        && expected[2] == header.checksum[2] && expected[3] == header.checksum[3];
    proof {
        assert(expected@ =~= checksum_of(payload@));
        assert(checksum_ok <==> header.checksum@ =~= checksum_of(payload@));
    }
    if !checksum_ok {
        return Ok(DispatchAction::ChecksumMismatch);
    }
    proof {
        reveal_strlit("ping");
        reveal_strlit("inv");
        reveal_strlit("block");
        reveal_strlit("getheaders");
        assert("ping"@.len() == 4 && "inv"@.len() == 3 && "block"@.len() == 5 && "getheaders"@.len()
            == 10);
        assert("ping"@ != "inv"@ && "ping"@ != "block"@ && "ping"@ != "getheaders"@);
        assert("inv"@ != "block"@ && "inv"@ != "getheaders"@);
        assert("block"@ != "getheaders"@);
    }

    if str_eq(header.command.as_str(), "ping") {
        if payload.len() < 8 {
            return Err(WireError::TruncatedInput);
        }
        let nonce = vstd::bytes::u64_from_le_bytes(vstd::slice::slice_subrange(payload, 0, 8));
        let reply = handle_ping(nonce);
        proof {
            vstd::bytes::lemma_auto_spec_u64_to_from_le_bytes();
        }
        Ok(DispatchAction::Reply(reply))
    } else if str_eq(header.command.as_str(), "inv") {
        match handle_inv(payload) {
            Ok(Some(reply)) => Ok(DispatchAction::Reply(reply)),
            Ok(None) => Ok(DispatchAction::Ignore),
            Err(e) => Err(e),
        }
    } else if str_eq(header.command.as_str(), "block") {
        match handle_block(payload) {
            Ok(b) => Ok(DispatchAction::EmitBlock(b)),
            Err(e) => Err(e),
        }
    } else if str_eq(header.command.as_str(), "getheaders") {
        match parse_getheaders(payload) {
            Ok(Some(reply)) => Ok(DispatchAction::Reply(reply)),
            Ok(None) => Ok(DispatchAction::Ignore),
            Err(e) => Err(e),
        }
    } else {
        Ok(DispatchAction::Ignore)
    }
}

/// The handshake's one-shot states: a connection is unusable for dispatch
/// before `HandshakeComplete`, and permanently after `Failed`.
#[derive(Clone, Copy, PartialEq, Eq, Structural, Debug)]
pub enum HandshakeState {
    Connected,
    VersionSent,
    HandshakeComplete,
    Failed,
}

/// The version/verack handshake as a state machine over one connection:
/// send `version`, read one full reply, send `verack`.  The caller performs
/// the socket I/O and reports failures through `fail`.
pub struct HandshakeController {
    pub state: HandshakeState,
}

impl HandshakeController {
    /// A controller for a freshly connected peer.
    pub fn new() -> (r: HandshakeController)
        ensures
            r.state == HandshakeState::Connected,
    {
        HandshakeController { state: HandshakeState::Connected }
    }

    /// Frames the `version` message that opens the handshake.
    pub fn start(&mut self, version_payload: &VersionPayload) -> (r: Vec<u8>)
        requires
            old(self).state == HandshakeState::Connected,
            version_payload.wf(),
        ensures
            final(self).state == HandshakeState::VersionSent,
            r@ == construct_message_spec(
                spec_command_name(Command::Version),
                spec_version_payload_bytes(*version_payload),
            ),
    {
        let payload = serialise_version_message(version_payload);
        self.state = HandshakeState::VersionSent;
        construct_complete_message(Command::Version, payload)
    }

    /// One full framed message read after `version` was sent completes the
    /// handshake; its contents are not inspected, so any well-framed reply
    /// advances the state.  Returns the zero-length `verack` to send.
    pub fn on_peer_message(&mut self, _reply: &BitcoinMessage) -> (r: Vec<u8>)
        requires
            old(self).state == HandshakeState::VersionSent,
        ensures
            final(self).state == HandshakeState::HandshakeComplete,
            r@ == construct_message_spec(
                spec_command_name(Command::Verack),
                Seq::<u8>::empty(),
            ),
    {
        self.state = HandshakeState::HandshakeComplete;
        let empty: Vec<u8> = Vec::new();
        construct_complete_message(Command::Verack, empty)
    }

    /// A failed read or write during the handshake is fatal: the connection
    /// must not be used for dispatch afterwards.
    pub fn fail(&mut self)
        ensures
            final(self).state == HandshakeState::Failed,
    {
        self.state = HandshakeState::Failed;
    }
}

/// Relies on `rand::random`: a fresh nonce; nothing is assumed of its
/// value.
#[verifier::external_body]
fn random_u64() -> u64 {
    rand::random::<u64>()
}

/// The fixed user-agent string this client announces, as bytes.
pub open spec fn spec_user_agent() -> Seq<u8> {
    // "/Satoshi:0.7.2/"
    seq![47u8, 83u8, 97u8, 116u8, 111u8, 115u8, 104u8, 105u8, 58u8, 48u8, 46u8, 55u8, 46u8, 50u8, 47u8]
}

/// Builds the `version` payload this client sends: protocol version 70015,
/// full-node services, the caller's clock reading, a fresh random nonce,
/// the fixed user agent, and the relay flag set.
pub fn build_version_payload(
    timestamp: u64,
    addr_recv: NetAddr,
    addr_from: NetAddr,
    start_height: u32,
) -> (r: VersionPayload)
    ensures
        r.version == 70015,
        r.services == 1,
        r.timestamp == timestamp,
        r.addr_recv == addr_recv,
        r.addr_from == addr_from,
        r.user_agent@ == spec_user_agent(),
        r.start_height == start_height,
        r.relay == true,
        r.wf(),
{
    let user_agent: Vec<u8> = vec![47, 83, 97, 116, 111, 115, 104, 105, 58, 48, 46, 55, 46, 50, 47];
    proof {
        assert(user_agent@ =~= spec_user_agent());
    }
    VersionPayload {
        version: 70015,
        services: 1,
        timestamp,
        addr_recv,
        addr_from,
        nonce: random_u64(),
        user_agent,
        start_height,
        relay: true,
    }
}

} // verus!
